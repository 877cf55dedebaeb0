//! Certificates: the body that is signed, and the envelope that holds it
//! with its signature.
use crate::algorithm::{
    parse_signature_value, spec_algorithm_identifier, spec_signature_value,
    spec_subject_public_key_info, AlgorithmIdentifier, AlgorithmIdentifierView,
    SubjectPublicKeyInfo, SubjectPublicKeyInfoView,
};
use crate::der::{
    bit_string_content, consumed, consumes, container, cut, is_rest, is_truncated, leaves_rest,
    parsed, span, spec_bit_string_content, spec_container, spec_starts_with, starts_with,
    BitStringObject, BitStringView, CLASS_CONTEXT, CLASS_UNIVERSAL, TAG_SEQUENCE,
};
use crate::error::X509Error;
use crate::extensions::{
    parse_unsigned_integer, spec_unsigned_integer, BasicConstraints, ExtendedKeyUsage,
    InhibitAnyPolicy, KeyUsage, PolicyConstraints, PolicyMappings,
};
use crate::general_name::{NameConstraints, SubjectAlternativeName};
use crate::integer::{biguint_from_bytes_be, biguint_value, spec_be_value};
use crate::name::{spec_name, X509Name, X509NameView};
use crate::objects::{
    oid_x509_ext_basic_constraints, oid_x509_ext_extended_key_usage,
    oid_x509_ext_inhibitant_any_policy, oid_x509_ext_key_usage, oid_x509_ext_name_constraints,
    oid_x509_ext_policy_constraints, oid_x509_ext_policy_mappings, oid_x509_ext_subject_alt_name,
    spec_oid_x509_ext_basic_constraints, spec_oid_x509_ext_extended_key_usage,
    spec_oid_x509_ext_inhibitant_any_policy, spec_oid_x509_ext_key_usage,
    spec_oid_x509_ext_name_constraints, spec_oid_x509_ext_policy_constraints,
    spec_oid_x509_ext_policy_mappings, spec_oid_x509_ext_subject_alt_name,
};
use crate::signature::{spec_verify, verify};
use crate::text::{colon_hex, spec_colon_hex};
use crate::validity::{spec_validity, Validity};
use crate::version::{spec_version, X509Version};
use crate::x509_extension::{
    criticals_are_decoded, parse_extensions, spec_extensions, spec_lookup, ExtensionMap,
    ParsedExtension, ParsedExtensionView, X509ExtensionView,
};
use num_bigint::BigUint;
use vstd::prelude::*;

verus! {

/// A unique identifier of an issuer or a subject: a bit string.
#[derive(Clone, Copy, Debug)]
pub struct UniqueIdentifier<'a>(pub BitStringObject<'a>);

impl<'a> View for UniqueIdentifier<'a> {
    type V = BitStringView;

    open spec fn view(&self) -> BitStringView {
        self.0@
    }
}

/// What an optional unique identifier holds.
pub open spec fn unique_identifier_view(u: Option<UniqueIdentifier>) -> Option<BitStringView> {
    match u {
        Some(x) => Some(x@),
        None => None,
    }
}

/// An optional unique identifier at the front of `i`: a BIT STRING behind
/// the implicit context tag `tag`; absent, with nothing taken from `i`, where
/// `i` does not start with that tag.
pub open spec fn spec_unique_identifier(i: Seq<u8>, tag: u32) -> Result<
    (Seq<u8>, Option<BitStringView>),
    X509Error,
> {
    if !spec_starts_with(i, CLASS_CONTEXT, tag) {
        Ok((i, None))
    } else {
        match spec_container(i, CLASS_CONTEXT, tag) {
            Err(e) => Err(e),
            Ok((rest, c)) => match spec_bit_string_content(c) {
                Err(e) => Err(e),
                Ok(b) => Ok((rest, Some(b))),
            },
        }
    }
}

/// The issuer's unique identifier, tagged `[1]`: every failure is
/// `InvalidIssuerUID`.
pub open spec fn spec_issuer_uid(i: Seq<u8>) -> Result<
    (Seq<u8>, Option<BitStringView>),
    X509Error,
> {
    match spec_unique_identifier(i, 1) {
        Ok(x) => Ok(x),
        Err(_) => Err(X509Error::InvalidIssuerUID),
    }
}

/// The subject's unique identifier, tagged `[2]`: every failure is
/// `InvalidSubjectUID`.
pub open spec fn spec_subject_uid(i: Seq<u8>) -> Result<
    (Seq<u8>, Option<BitStringView>),
    X509Error,
> {
    match spec_unique_identifier(i, 2) {
        Ok(x) => Ok(x),
        Err(_) => Err(X509Error::InvalidSubjectUID),
    }
}

/// A decoder's result with an optional unique identifier, as contracts
/// speak of it.
pub open spec fn parsed_uid<'a>(r: Result<(&'a [u8], Option<UniqueIdentifier<'a>>), X509Error>)
    -> Result<(Seq<u8>, Option<BitStringView>), X509Error> {
    match r {
        Ok((rest, u)) => Ok((rest@, unique_identifier_view(u))),
        Err(e) => Err(e),
    }
}

impl<'a> UniqueIdentifier<'a> {
    /// Reads `[tag] IMPLICIT UniqueIdentifier OPTIONAL`.
    pub fn parse(i: &'a [u8], tag: u32) -> (r: Result<
        (&'a [u8], Option<UniqueIdentifier<'a>>),
        X509Error,
    >)
        ensures
            parsed_uid(r) == spec_unique_identifier(i@, tag),
            leaves_rest(i@, r),
    {
        if !starts_with(i, CLASS_CONTEXT, tag) {
            assert(i@ =~= i@.skip(0));
            return Ok((i, None));
        }
        let (rest, c) = match container(i, CLASS_CONTEXT, tag) {
            Ok(x) => x,
            Err(e) => { return Err(e); },
        };
        match bit_string_content(c) {
            Err(e) => Err(e),
            Ok(b) => Ok((rest, Some(UniqueIdentifier(b)))),
        }
    }

    /// Reads `issuerUniqueID [1] IMPLICIT UniqueIdentifier OPTIONAL`.
    pub fn from_der_issuer(i: &'a [u8]) -> (r: Result<
        (&'a [u8], Option<UniqueIdentifier<'a>>),
        X509Error,
    >)
        ensures
            parsed_uid(r) == spec_issuer_uid(i@),
            leaves_rest(i@, r),
    {
        match UniqueIdentifier::parse(i, 1) {
            Ok(x) => Ok(x),
            Err(_) => Err(X509Error::InvalidIssuerUID),
        }
    }

    /// Reads `subjectUniqueID [2] IMPLICIT UniqueIdentifier OPTIONAL`.
    pub fn from_der_subject(i: &'a [u8]) -> (r: Result<
        (&'a [u8], Option<UniqueIdentifier<'a>>),
        X509Error,
    >)
        ensures
            parsed_uid(r) == spec_subject_uid(i@),
            leaves_rest(i@, r),
    {
        match UniqueIdentifier::parse(i, 2) {
            Ok(x) => Ok(x),
            Err(_) => Err(X509Error::InvalidSubjectUID),
        }
    }
}

/// A serial number at the front of `i`: one INTEGER that is not negative;
/// its content. Every failure is `InvalidSerial`.
pub open spec fn spec_serial(i: Seq<u8>) -> Result<(Seq<u8>, Seq<u8>), X509Error> {
    match spec_unsigned_integer(i) {
        Ok(x) => Ok(x),
        Err(_) => Err(X509Error::InvalidSerial),
    }
}

/// Reads a serial number: its bytes as encoded, and its value.
pub fn parse_serial<'a>(i: &'a [u8]) -> (r: Result<(&'a [u8], (&'a [u8], BigUint)), X509Error>)
    ensures
        match r {
            Ok((rest, (raw, n))) => spec_serial(i@) == Ok::<(Seq<u8>, Seq<u8>), X509Error>(
                (rest@, raw@),
            ) && biguint_value(n) == spec_be_value(raw@) && is_rest(i@, rest@) && rest@.len()
                < i@.len(),
            Err(e) => spec_serial(i@) == Err::<(Seq<u8>, Seq<u8>), X509Error>(e),
        },
{
    match parse_unsigned_integer(i) {
        Err(_) => Err(X509Error::InvalidSerial),
        Ok((rest, raw)) => Ok((rest, (raw, biguint_from_bytes_be(raw)))),
    }
}

/// The body of a certificate, which its issuer signs.
///
/// ```text
/// TBSCertificate  ::=  SEQUENCE  {
///      version         [0]  EXPLICIT Version DEFAULT v1,
///      serialNumber         CertificateSerialNumber,
///      signature            AlgorithmIdentifier,
///      issuer               Name,
///      validity             Validity,
///      subject              Name,
///      subjectPublicKeyInfo SubjectPublicKeyInfo,
///      issuerUniqueID  [1]  IMPLICIT UniqueIdentifier OPTIONAL,
///      subjectUniqueID [2]  IMPLICIT UniqueIdentifier OPTIONAL,
///      extensions      [3]  EXPLICIT Extensions OPTIONAL }
/// ```
#[derive(Debug)]
pub struct TbsCertificate<'a> {
    pub version: X509Version,
    pub serial: BigUint,
    pub signature: AlgorithmIdentifier<'a>,
    pub issuer: X509Name<'a>,
    pub validity: Validity,
    pub subject: X509Name<'a>,
    pub subject_pki: SubjectPublicKeyInfo<'a>,
    pub issuer_uid: Option<UniqueIdentifier<'a>>,
    pub subject_uid: Option<UniqueIdentifier<'a>>,
    pub extensions: ExtensionMap<'a>,
    pub raw: &'a [u8],
    pub raw_serial: &'a [u8],
}

/// What a `TbsCertificate` holds.
pub struct TbsCertificateView {
    pub version: X509Version,
    pub serial: nat,
    pub signature: AlgorithmIdentifierView,
    pub issuer: X509NameView,
    pub validity: Validity,
    pub subject: X509NameView,
    pub subject_pki: SubjectPublicKeyInfoView,
    pub issuer_uid: Option<BitStringView>,
    pub subject_uid: Option<BitStringView>,
    pub extensions: Seq<X509ExtensionView>,
    pub raw: Seq<u8>,
    pub raw_serial: Seq<u8>,
}

impl<'a> View for TbsCertificate<'a> {
    type V = TbsCertificateView;

    open spec fn view(&self) -> TbsCertificateView {
        TbsCertificateView {
            version: self.version,
            serial: biguint_value(self.serial),
            signature: self.signature@,
            issuer: self.issuer@,
            validity: self.validity,
            subject: self.subject@,
            subject_pki: self.subject_pki@,
            issuer_uid: unique_identifier_view(self.issuer_uid),
            subject_uid: unique_identifier_view(self.subject_uid),
            extensions: self.extensions@,
            raw: self.raw@,
            raw_serial: self.raw_serial@,
        }
    }
}

/// The fields of the body of a certificate, read in order from the content
/// `c` of its SEQUENCE, which they must fill; `raw` is put in as given. The
/// first field that cannot be read gives the error.
pub open spec fn spec_tbs_certificate_fields(c: Seq<u8>, raw: Seq<u8>) -> Result<
    TbsCertificateView,
    X509Error,
> {
    match spec_version(c) {
        Err(e) => Err(e),
        Ok((c1, version)) => match spec_serial(c1) {
            Err(e) => Err(e),
            Ok((c2, raw_serial)) => match spec_algorithm_identifier(c2) {
                Err(e) => Err(e),
                Ok((c3, signature)) => match spec_name(c3) {
                    Err(e) => Err(e),
                    Ok((c4, issuer)) => match spec_validity(c4) {
                        Err(e) => Err(e),
                        Ok((c5, validity)) => match spec_name(c5) {
                            Err(e) => Err(e),
                            Ok((c6, subject)) => match spec_subject_public_key_info(c6) {
                                Err(e) => Err(e),
                                Ok((c7, subject_pki)) => match spec_issuer_uid(c7) {
                                    Err(e) => Err(e),
                                    Ok((c8, issuer_uid)) => match spec_subject_uid(c8) {
                                        Err(e) => Err(e),
                                        Ok((c9, subject_uid)) => match spec_extensions(c9, 3) {
                                            Err(e) => Err(e),
                                            Ok((c10, extensions)) => if c10.len() != 0 {
                                                Err(X509Error::InvalidExtensions)
                                            } else {
                                                Ok(
                                                    TbsCertificateView {
                                                        version,
                                                        serial: spec_be_value(raw_serial),
                                                        signature,
                                                        issuer,
                                                        validity,
                                                        subject,
                                                        subject_pki,
                                                        issuer_uid,
                                                        subject_uid,
                                                        extensions,
                                                        raw,
                                                        raw_serial,
                                                    },
                                                )
                                            },
                                        },
                                    },
                                },
                            },
                        },
                    },
                },
            },
        },
    }
}

/// The body of a certificate at the front of `i`: a SEQUENCE whose content
/// is the fields in order. Its raw bytes are the whole element, header and
/// content: the bytes of `i` that are read.
pub open spec fn spec_tbs_certificate(i: Seq<u8>) -> Result<
    (Seq<u8>, TbsCertificateView),
    X509Error,
> {
    match spec_container(i, CLASS_UNIVERSAL, TAG_SEQUENCE) {
        Err(e) => Err(e),
        Ok((rest, c)) => match spec_tbs_certificate_fields(c, span(i, rest)) {
            Err(e) => Err(e),
            Ok(tbs) => Ok((rest, tbs)),
        },
    }
}

impl<'a> TbsCertificate<'a> {
    /// Reads the body of a certificate.
    pub fn from_der(i: &'a [u8]) -> (r: Result<(&'a [u8], TbsCertificate<'a>), X509Error>)
        ensures
            parsed(r) == spec_tbs_certificate(i@),
            consumes(i@, r),
            r matches Ok((rest, _)) ==> is_truncated(spec_tbs_certificate(cut(i@, rest@))),
            r matches Ok((rest, tbs)) ==> tbs.raw@ == span(i@, rest@) && tbs.extensions.wf()
                && criticals_are_decoded(tbs@.extensions),
    {
        let (rest, c) = match container(i, CLASS_UNIVERSAL, TAG_SEQUENCE) {
            Ok(x) => x,
            Err(e) => { return Err(e); },
        };
        let raw = consumed(i, rest);
        let (c1, version) = match X509Version::from_der(c) {
            Ok(x) => x,
            Err(e) => { return Err(e); },
        };
        let (c2, (raw_serial, serial)) = match parse_serial(c1) {
            Ok(x) => x,
            Err(e) => { return Err(e); },
        };
        let (c3, signature) = match AlgorithmIdentifier::from_der(c2) {
            Ok(x) => x,
            Err(e) => { return Err(e); },
        };
        let (c4, issuer) = match X509Name::from_der(c3) {
            Ok(x) => x,
            Err(e) => { return Err(e); },
        };
        let (c5, validity) = match Validity::from_der(c4) {
            Ok(x) => x,
            Err(e) => { return Err(e); },
        };
        let (c6, subject) = match X509Name::from_der(c5) {
            Ok(x) => x,
            Err(e) => { return Err(e); },
        };
        let (c7, subject_pki) = match SubjectPublicKeyInfo::from_der(c6) {
            Ok(x) => x,
            Err(e) => { return Err(e); },
        };
        let (c8, issuer_uid) = match UniqueIdentifier::from_der_issuer(c7) {
            Ok(x) => x,
            Err(e) => { return Err(e); },
        };
        let (c9, subject_uid) = match UniqueIdentifier::from_der_subject(c8) {
            Ok(x) => x,
            Err(e) => { return Err(e); },
        };
        let (c10, extensions) = match parse_extensions(c9, 3) {
            Ok(x) => x,
            Err(e) => { return Err(e); },
        };
        if c10.len() != 0 {
            return Err(X509Error::InvalidExtensions);
        }
        Ok(
            (
                rest,
                TbsCertificate {
                    version,
                    serial,
                    signature,
                    issuer,
                    validity,
                    subject,
                    subject_pki,
                    issuer_uid,
                    subject_uid,
                    extensions,
                    raw,
                    raw_serial,
                },
            ),
        )
    }

    /// The extensions of the certificate.
    pub fn extensions(&self) -> (r: &ExtensionMap<'a>)
        ensures
            r@ == self@.extensions,
    {
        &self.extensions
    }

    /// Whether the basicConstraints extension is critical, and its content; none where
    /// the certificate has no such extension, or its content was not decoded.
    pub fn basic_constraints<'b>(&'b self) -> (r: Option<(bool, &'b BasicConstraints)>)
        ensures
            match r {
                Some((critical, v)) => spec_lookup(
                    self@.extensions,
                    spec_oid_x509_ext_basic_constraints(),
                ) == Some((critical, ParsedExtensionView::BasicConstraints(*v))),
                None => !(spec_lookup(
                    self@.extensions,
                    spec_oid_x509_ext_basic_constraints(),
                ) matches Some((_, p)) && p is BasicConstraints),
            },
    {
        match self.extensions.get(&oid_x509_ext_basic_constraints()) {
            None => None,
            Some(ext) => match &ext.parsed_extension {
                ParsedExtension::BasicConstraints(v) => Some((ext.critical, v)),
                _ => None,
            },
        }
    }

    /// Whether the keyUsage extension is critical, and its content; none where
    /// the certificate has no such extension, or its content was not decoded.
    pub fn key_usage<'b>(&'b self) -> (r: Option<(bool, &'b KeyUsage)>)
        ensures
            match r {
                Some((critical, v)) => spec_lookup(
                    self@.extensions,
                    spec_oid_x509_ext_key_usage(),
                ) == Some((critical, ParsedExtensionView::KeyUsage(*v))),
                None => !(spec_lookup(
                    self@.extensions,
                    spec_oid_x509_ext_key_usage(),
                ) matches Some((_, p)) && p is KeyUsage),
            },
    {
        match self.extensions.get(&oid_x509_ext_key_usage()) {
            None => None,
            Some(ext) => match &ext.parsed_extension {
                ParsedExtension::KeyUsage(v) => Some((ext.critical, v)),
                _ => None,
            },
        }
    }

    /// Whether the extKeyUsage extension is critical, and its content; none where
    /// the certificate has no such extension, or its content was not decoded.
    pub fn extended_key_usage<'b>(&'b self) -> (r: Option<(bool, &'b ExtendedKeyUsage<'a>)>)
        ensures
            match r {
                Some((critical, v)) => spec_lookup(
                    self@.extensions,
                    spec_oid_x509_ext_extended_key_usage(),
                ) == Some((critical, ParsedExtensionView::ExtendedKeyUsage(v@))),
                None => !(spec_lookup(
                    self@.extensions,
                    spec_oid_x509_ext_extended_key_usage(),
                ) matches Some((_, p)) && p is ExtendedKeyUsage),
            },
    {
        match self.extensions.get(&oid_x509_ext_extended_key_usage()) {
            None => None,
            Some(ext) => match &ext.parsed_extension {
                ParsedExtension::ExtendedKeyUsage(v) => Some((ext.critical, v)),
                _ => None,
            },
        }
    }

    /// Whether the policyConstraints extension is critical, and its content; none where
    /// the certificate has no such extension, or its content was not decoded.
    pub fn policy_constraints<'b>(&'b self) -> (r: Option<(bool, &'b PolicyConstraints)>)
        ensures
            match r {
                Some((critical, v)) => spec_lookup(
                    self@.extensions,
                    spec_oid_x509_ext_policy_constraints(),
                ) == Some((critical, ParsedExtensionView::PolicyConstraints(*v))),
                None => !(spec_lookup(
                    self@.extensions,
                    spec_oid_x509_ext_policy_constraints(),
                ) matches Some((_, p)) && p is PolicyConstraints),
            },
    {
        match self.extensions.get(&oid_x509_ext_policy_constraints()) {
            None => None,
            Some(ext) => match &ext.parsed_extension {
                ParsedExtension::PolicyConstraints(v) => Some((ext.critical, v)),
                _ => None,
            },
        }
    }

    /// Whether the inhibitAnyPolicy extension is critical, and its content; none where
    /// the certificate has no such extension, or its content was not decoded.
    pub fn inhibit_anypolicy<'b>(&'b self) -> (r: Option<(bool, &'b InhibitAnyPolicy)>)
        ensures
            match r {
                Some((critical, v)) => spec_lookup(
                    self@.extensions,
                    spec_oid_x509_ext_inhibitant_any_policy(),
                ) == Some((critical, ParsedExtensionView::InhibitAnyPolicy(*v))),
                None => !(spec_lookup(
                    self@.extensions,
                    spec_oid_x509_ext_inhibitant_any_policy(),
                ) matches Some((_, p)) && p is InhibitAnyPolicy),
            },
    {
        match self.extensions.get(&oid_x509_ext_inhibitant_any_policy()) {
            None => None,
            Some(ext) => match &ext.parsed_extension {
                ParsedExtension::InhibitAnyPolicy(v) => Some((ext.critical, v)),
                _ => None,
            },
        }
    }

    /// Whether the policyMappings extension is critical, and its content; none where
    /// the certificate has no such extension, or its content was not decoded.
    pub fn policy_mappings<'b>(&'b self) -> (r: Option<(bool, &'b PolicyMappings<'a>)>)
        ensures
            match r {
                Some((critical, v)) => spec_lookup(
                    self@.extensions,
                    spec_oid_x509_ext_policy_mappings(),
                ) == Some((critical, ParsedExtensionView::PolicyMappings(v@))),
                None => !(spec_lookup(
                    self@.extensions,
                    spec_oid_x509_ext_policy_mappings(),
                ) matches Some((_, p)) && p is PolicyMappings),
            },
    {
        match self.extensions.get(&oid_x509_ext_policy_mappings()) {
            None => None,
            Some(ext) => match &ext.parsed_extension {
                ParsedExtension::PolicyMappings(v) => Some((ext.critical, v)),
                _ => None,
            },
        }
    }

    /// Whether the subjectAltName extension is critical, and its content; none where
    /// the certificate has no such extension, or its content was not decoded.
    pub fn subject_alternative_name<'b>(&'b self) -> (r: Option<
        (bool, &'b SubjectAlternativeName<'a>),
    >)
        ensures
            match r {
                Some((critical, v)) => spec_lookup(
                    self@.extensions,
                    spec_oid_x509_ext_subject_alt_name(),
                ) == Some((critical, ParsedExtensionView::SubjectAlternativeName(v@))),
                None => !(spec_lookup(
                    self@.extensions,
                    spec_oid_x509_ext_subject_alt_name(),
                ) matches Some((_, p)) && p is SubjectAlternativeName),
            },
    {
        match self.extensions.get(&oid_x509_ext_subject_alt_name()) {
            None => None,
            Some(ext) => match &ext.parsed_extension {
                ParsedExtension::SubjectAlternativeName(v) => Some((ext.critical, v)),
                _ => None,
            },
        }
    }

    /// Whether the nameConstraints extension is critical, and its content; none where
    /// the certificate has no such extension, or its content was not decoded.
    pub fn name_constraints<'b>(&'b self) -> (r: Option<(bool, &'b NameConstraints<'a>)>)
        ensures
            match r {
                Some((critical, v)) => spec_lookup(
                    self@.extensions,
                    spec_oid_x509_ext_name_constraints(),
                ) == Some((critical, ParsedExtensionView::NameConstraints(v@))),
                None => !(spec_lookup(
                    self@.extensions,
                    spec_oid_x509_ext_name_constraints(),
                ) matches Some((_, p)) && p is NameConstraints),
            },
    {
        match self.extensions.get(&oid_x509_ext_name_constraints()) {
            None => None,
            Some(ext) => match &ext.parsed_extension {
                ParsedExtension::NameConstraints(v) => Some((ext.critical, v)),
                _ => None,
            },
        }
    }

    /// True when the certificate has a basicConstraints extension that says
    /// that the subject is a certification authority.
    pub fn is_ca(&self) -> (r: bool)
        ensures
            r == (spec_lookup(self@.extensions, spec_oid_x509_ext_basic_constraints())
                matches Some((_, ParsedExtensionView::BasicConstraints(bc))) && bc.ca),
    {
        match self.basic_constraints() {
            Some((_, bc)) => bc.ca,
            None => false,
        }
    }

    /// The bytes of the serial number, as encoded.
    pub fn raw_serial(&self) -> (r: &'a [u8])
        ensures
            r@ == self@.raw_serial,
    {
        self.raw_serial
    }

    /// The serial number in lower-case hexadecimal, byte by byte, with `:`
    /// between the bytes.
    pub fn raw_serial_as_string(&self) -> (r: String)
        ensures
            r@ == spec_colon_hex(self@.raw_serial),
    {
        colon_hex(self.raw_serial)
    }

    /// The bytes that encode the body: what the signature is over.
    pub fn as_ref(&self) -> (r: &'a [u8])
        ensures
            r@ == self@.raw,
    {
        self.raw
    }
}

/// A certificate: its body, the algorithm of its signature, and the
/// signature.
///
/// ```text
/// Certificate  ::=  SEQUENCE  {
///      tbsCertificate       TBSCertificate,
///      signatureAlgorithm   AlgorithmIdentifier,
///      signatureValue       BIT STRING  }
/// ```
#[derive(Debug)]
pub struct X509Certificate<'a> {
    pub tbs_certificate: TbsCertificate<'a>,
    pub signature_algorithm: AlgorithmIdentifier<'a>,
    pub signature_value: BitStringObject<'a>,
}

/// What an `X509Certificate` holds.
pub struct X509CertificateView {
    pub tbs_certificate: TbsCertificateView,
    pub signature_algorithm: AlgorithmIdentifierView,
    pub signature_value: BitStringView,
}

impl<'a> View for X509Certificate<'a> {
    type V = X509CertificateView;

    open spec fn view(&self) -> X509CertificateView {
        X509CertificateView {
            tbs_certificate: self.tbs_certificate@,
            signature_algorithm: self.signature_algorithm@,
            signature_value: self.signature_value@,
        }
    }
}

/// One certificate at the front of `i`: a SEQUENCE of the body, an
/// algorithm identifier and a BIT STRING, and nothing more. The algorithm
/// in the body and the one beside it are not compared.
pub open spec fn spec_certificate(i: Seq<u8>) -> Result<(Seq<u8>, X509CertificateView), X509Error> {
    match spec_container(i, CLASS_UNIVERSAL, TAG_SEQUENCE) {
        Err(e) => Err(e),
        Ok((rest, c)) => match spec_tbs_certificate(c) {
            Err(e) => Err(e),
            Ok((c1, tbs_certificate)) => match spec_algorithm_identifier(c1) {
                Err(e) => Err(e),
                Ok((c2, signature_algorithm)) => match spec_signature_value(c2) {
                    Err(e) => Err(e),
                    Ok((c3, signature_value)) => if c3.len() != 0 {
                        Err(X509Error::InvalidCertificate)
                    } else {
                        Ok(
                            (
                                rest,
                                X509CertificateView {
                                    tbs_certificate,
                                    signature_algorithm,
                                    signature_value,
                                },
                            ),
                        )
                    },
                },
            },
        },
    }
}

impl<'a> X509Certificate<'a> {
    /// Reads one certificate, and returns it with the bytes that follow it.
    /// The certificate is decoded, not validated.
    pub fn from_der(i: &'a [u8]) -> (r: Result<(&'a [u8], X509Certificate<'a>), X509Error>)
        ensures
            parsed(r) == spec_certificate(i@),
            consumes(i@, r),
            r matches Ok((rest, _)) ==> is_truncated(spec_certificate(cut(i@, rest@))),
            r matches Ok((_, cert)) ==> cert.tbs_certificate.extensions.wf()
                && criticals_are_decoded(cert@.tbs_certificate.extensions),
    {
        let (rest, c) = match container(i, CLASS_UNIVERSAL, TAG_SEQUENCE) {
            Ok(x) => x,
            Err(e) => { return Err(e); },
        };
        let (c1, tbs_certificate) = match TbsCertificate::from_der(c) {
            Ok(x) => x,
            Err(e) => { return Err(e); },
        };
        let (c2, signature_algorithm) = match AlgorithmIdentifier::from_der(c1) {
            Ok(x) => x,
            Err(e) => { return Err(e); },
        };
        let (c3, signature_value) = match parse_signature_value(c2) {
            Ok(x) => x,
            Err(e) => { return Err(e); },
        };
        if c3.len() != 0 {
            return Err(X509Error::InvalidCertificate);
        }
        Ok((rest, X509Certificate { tbs_certificate, signature_algorithm, signature_value }))
    }

    /// The version of the certificate.
    pub fn version(&self) -> (r: X509Version)
        ensures
            r == self@.tbs_certificate.version,
    {
        self.tbs_certificate.version
    }

    /// The subject of the certificate.
    pub fn subject(&self) -> (r: &X509Name<'a>)
        ensures
            r@ == self@.tbs_certificate.subject,
    {
        &self.tbs_certificate.subject
    }

    /// The issuer of the certificate.
    pub fn issuer(&self) -> (r: &X509Name<'a>)
        ensures
            r@ == self@.tbs_certificate.issuer,
    {
        &self.tbs_certificate.issuer
    }

    /// The validity of the certificate.
    pub fn validity(&self) -> (r: &Validity)
        ensures
            *r == self@.tbs_certificate.validity,
    {
        &self.tbs_certificate.validity
    }

    /// The extensions of the certificate.
    pub fn extensions(&self) -> (r: &ExtensionMap<'a>)
        ensures
            r@ == self@.tbs_certificate.extensions,
    {
        self.tbs_certificate.extensions()
    }

    /// Verifies the signature of the certificate under `public_key`, the
    /// key of its issuer, or, where none is given, under the key that the
    /// certificate holds, as for a self-signed certificate.
    pub fn verify_signature(&self, public_key: Option<&SubjectPublicKeyInfo>) -> (r: Result<
        (),
        X509Error,
    >)
        ensures
            r == spec_verify(
                self@.signature_algorithm.algorithm,
                match public_key {
                    Some(k) => k@.subject_public_key.data,
                    None => self@.tbs_certificate.subject_pki.subject_public_key.data,
                },
                self@.tbs_certificate.raw,
                self@.signature_value.data,
            ),
    {
        let key = match public_key {
            Some(k) => k.subject_public_key.data,
            None => self.tbs_certificate.subject_pki.subject_public_key.data,
        };
        verify(
            &self.signature_algorithm.algorithm,
            key,
            self.tbs_certificate.raw,
            self.signature_value.data,
        )
    }
}

/// The raw bytes of a certificate's body are the bytes that its envelope
/// handed to the decoder of the body, as far as that decoder read them:
/// what was signed, byte for byte.
pub proof fn lemma_tbs_raw_is_what_was_signed(i: Seq<u8>)
    requires
        spec_certificate(i) is Ok,
    ensures
        match spec_container(i, CLASS_UNIVERSAL, TAG_SEQUENCE) {
            Ok((_, c)) => match spec_tbs_certificate(c) {
                Ok((c1, tbs)) => spec_certificate(i)->Ok_0.1.tbs_certificate == tbs && tbs.raw
                    == span(c, c1),
                Err(_) => false,
            },
            Err(_) => false,
        },
{
}

} // verus!

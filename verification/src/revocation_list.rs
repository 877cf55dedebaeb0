//! Certificate revocation lists: the revoked certificates, the body that is
//! signed, and the envelope that holds it with its signature.
use crate::algorithm::{
    parse_signature_value, spec_algorithm_identifier, spec_signature_value, AlgorithmIdentifier,
    AlgorithmIdentifierView,
};
use crate::certificate::{parse_serial, spec_serial};
use crate::der::{
    consumed, consumes, container, cut, is_rest, is_truncated, parse_u32, parsed, span,
    spec_container, spec_u32, BitStringObject, BitStringView, CLASS_UNIVERSAL, TAG_SEQUENCE,
};
use crate::error::X509Error;
use crate::extensions::ReasonCode;
use crate::integer::{biguint_value, spec_be_value};
use crate::name::{spec_name, X509Name, X509NameView};
use crate::objects::{
    oid_x509_ext_crl_number, oid_x509_ext_invalidity_date, oid_x509_ext_reason_code,
    spec_oid_x509_ext_crl_number, spec_oid_x509_ext_invalidity_date, spec_oid_x509_ext_reason_code,
};
use crate::repeated::{lemma_views_push, many, spec_many, views};
use crate::text::{colon_hex, spec_colon_hex};
use crate::time::{spec_time, spec_time_opt, ASN1Time};
use crate::version::X509Version;
use crate::x509_extension::{
    criticals_are_decoded, extensions_sequence_to_map, parse_extension_sequence, parse_extensions,
    spec_extension_sequence, spec_extensions, spec_lookup, spec_to_map, ExtensionMap,
    ParsedExtension, ParsedExtensionView, X509ExtensionView,
};
use num_bigint::BigUint;
use vstd::prelude::*;

verus! {

/// One revoked certificate: its serial number, the date of the revocation,
/// and the extensions of the entry.
#[derive(Debug)]
pub struct RevokedCertificate<'a> {
    pub user_certificate: BigUint,
    pub revocation_date: ASN1Time,
    pub extensions: ExtensionMap<'a>,
    pub raw_serial: &'a [u8],
}

/// What a `RevokedCertificate` holds.
pub struct RevokedCertificateView {
    pub user_certificate: nat,
    pub revocation_date: ASN1Time,
    pub extensions: Seq<X509ExtensionView>,
    pub raw_serial: Seq<u8>,
}

impl<'a> View for RevokedCertificate<'a> {
    type V = RevokedCertificateView;

    open spec fn view(&self) -> RevokedCertificateView {
        RevokedCertificateView {
            user_certificate: biguint_value(self.user_certificate),
            revocation_date: self.revocation_date,
            extensions: self.extensions@,
            raw_serial: self.raw_serial@,
        }
    }
}

/// The optional extensions of an entry, which fill `i`: none where `i` is
/// empty; else one SEQUENCE of extensions in which no object identifier
/// occurs twice.
pub open spec fn spec_entry_extensions(i: Seq<u8>) -> Result<Seq<X509ExtensionView>, X509Error> {
    if i.len() == 0 {
        Ok(Seq::empty())
    } else {
        match spec_extension_sequence(i) {
            Err(e) => Err(e),
            Ok((rest, list)) => if rest.len() != 0 {
                Err(X509Error::InvalidExtensions)
            } else {
                spec_to_map(list)
            },
        }
    }
}

/// One revoked certificate at the front of `i`: a SEQUENCE of a serial
/// number, a time and optional extensions, and nothing more.
pub open spec fn spec_revoked_certificate(i: Seq<u8>) -> Result<
    (Seq<u8>, RevokedCertificateView),
    X509Error,
> {
    match spec_container(i, CLASS_UNIVERSAL, TAG_SEQUENCE) {
        Err(e) => Err(e),
        Ok((rest, c)) => match spec_serial(c) {
            Err(e) => Err(e),
            Ok((c1, raw_serial)) => match spec_time(c1) {
                Err(e) => Err(e),
                Ok((c2, revocation_date)) => match spec_entry_extensions(c2) {
                    Err(e) => Err(e),
                    Ok(extensions) => Ok(
                        (
                            rest,
                            RevokedCertificateView {
                                user_certificate: spec_be_value(raw_serial),
                                revocation_date,
                                extensions,
                                raw_serial,
                            },
                        ),
                    ),
                },
            },
        },
    }
}

/// The reader of one revoked certificate, for `spec_many`.
pub open spec fn revoked_certificate_reader() -> spec_fn(Seq<u8>) -> Result<
    (Seq<u8>, RevokedCertificateView),
    X509Error,
> {
    |i: Seq<u8>| spec_revoked_certificate(i)
}

/// Reads the optional extensions of an entry.
pub fn parse_entry_extensions<'a>(i: &'a [u8]) -> (r: Result<ExtensionMap<'a>, X509Error>)
    ensures
        match r {
            Ok(m) => spec_entry_extensions(i@) == Ok::<Seq<X509ExtensionView>, X509Error>(m@)
                && m.wf() && criticals_are_decoded(m@),
            Err(e) => spec_entry_extensions(i@) == Err::<Seq<X509ExtensionView>, X509Error>(e),
        },
{
    if i.len() == 0 {
        return Ok(ExtensionMap::new());
    }
    let (rest, list) = match parse_extension_sequence(i) {
        Ok(x) => x,
        Err(e) => { return Err(e); },
    };
    if rest.len() != 0 {
        return Err(X509Error::InvalidExtensions);
    }
    extensions_sequence_to_map(list)
}

impl<'a> RevokedCertificate<'a> {
    /// Reads one revoked certificate.
    pub fn from_der(i: &'a [u8]) -> (r: Result<(&'a [u8], RevokedCertificate<'a>), X509Error>)
        ensures
            parsed(r) == spec_revoked_certificate(i@),
            consumes(i@, r),
            r matches Ok((_, revoked)) ==> revoked.extensions.wf() && criticals_are_decoded(
                revoked@.extensions,
            ),
            r matches Ok((rest, _)) ==> is_truncated(spec_revoked_certificate(cut(i@, rest@))),
    {
        let (rest, c) = match container(i, CLASS_UNIVERSAL, TAG_SEQUENCE) {
            Ok(x) => x,
            Err(e) => { return Err(e); },
        };
        let (c1, (raw_serial, user_certificate)) = match parse_serial(c) {
            Ok(x) => x,
            Err(e) => { return Err(e); },
        };
        let (c2, revocation_date) = match ASN1Time::from_der(c1) {
            Ok(x) => x,
            Err(e) => { return Err(e); },
        };
        let extensions = match parse_entry_extensions(c2) {
            Ok(x) => x,
            Err(e) => { return Err(e); },
        };
        Ok(
            (
                rest,
                RevokedCertificate { user_certificate, revocation_date, extensions, raw_serial },
            ),
        )
    }

    /// The serial number of the revoked certificate.
    pub fn serial(&self) -> (r: &BigUint)
        ensures
            biguint_value(*r) == self@.user_certificate,
    {
        &self.user_certificate
    }

    /// The bytes of the serial number, as encoded.
    pub fn raw_serial(&self) -> (r: &'a [u8])
        ensures
            r@ == self@.raw_serial,
    {
        self.raw_serial
    }

    /// The serial number in lower-case hexadecimal, byte by byte, with `:`
    /// between the bytes.
    pub fn raw_serial_as_string(&self) -> (r: String)
        ensures
            r@ == spec_colon_hex(self@.raw_serial),
    {
        colon_hex(self.raw_serial)
    }

    /// Whether the reasonCode extension of the entry is critical, and the
    /// reason; none where the entry has no such extension, or its content
    /// was not decoded.
    pub fn reason_code(&self) -> (r: Option<(bool, ReasonCode)>)
        ensures
            match r {
                Some((critical, v)) => spec_lookup(
                    self@.extensions,
                    spec_oid_x509_ext_reason_code(),
                ) == Some((critical, ParsedExtensionView::ReasonCode(v))),
                None => !(spec_lookup(self@.extensions, spec_oid_x509_ext_reason_code())
                    matches Some((_, p)) && p is ReasonCode),
            },
    {
        match self.extensions.get(&oid_x509_ext_reason_code()) {
            None => None,
            Some(ext) => match &ext.parsed_extension {
                ParsedExtension::ReasonCode(v) => Some((ext.critical, *v)),
                _ => None,
            },
        }
    }

    /// Whether the invalidityDate extension of the entry is critical, and
    /// the date from which the key is thought to be compromised; none where
    /// the entry has no such extension, or its content was not decoded.
    pub fn invalidity_date(&self) -> (r: Option<(bool, ASN1Time)>)
        ensures
            match r {
                Some((critical, v)) => spec_lookup(
                    self@.extensions,
                    spec_oid_x509_ext_invalidity_date(),
                ) == Some((critical, ParsedExtensionView::InvalidityDate(v))),
                None => !(spec_lookup(self@.extensions, spec_oid_x509_ext_invalidity_date())
                    matches Some((_, p)) && p is InvalidityDate),
            },
    {
        match self.extensions.get(&oid_x509_ext_invalidity_date()) {
            None => None,
            Some(ext) => match &ext.parsed_extension {
                ParsedExtension::InvalidityDate(v) => Some((ext.critical, *v)),
                _ => None,
            },
        }
    }

    /// The extensions of the entry.
    pub fn extensions(&self) -> (r: &ExtensionMap<'a>)
        ensures
            r@ == self@.extensions,
    {
        &self.extensions
    }
}

/// The list of revoked certificates at the front of `i`: a SEQUENCE whose
/// content is revoked certificates from end to end.
pub open spec fn spec_revoked_certificates(i: Seq<u8>) -> Result<
    (Seq<u8>, Seq<RevokedCertificateView>),
    X509Error,
> {
    match spec_container(i, CLASS_UNIVERSAL, TAG_SEQUENCE) {
        Err(e) => Err(e),
        Ok((rest, c)) => match spec_many(revoked_certificate_reader(), c) {
            Err(e) => Err(e),
            Ok(list) => Ok((rest, list)),
        },
    }
}

/// The optional list of revoked certificates at the front of `i`: where no
/// list can be read there, the list is empty and nothing is taken from `i`.
pub open spec fn spec_revoked_certificates_opt(i: Seq<u8>) -> (
    Seq<u8>,
    Seq<RevokedCertificateView>,
) {
    match spec_revoked_certificates(i) {
        Ok(x) => x,
        Err(_) => (i, Seq::empty()),
    }
}

/// Reads the list of revoked certificates.
pub fn parse_revoked_certificates<'a>(i: &'a [u8]) -> (r: Result<
    (&'a [u8], Vec<RevokedCertificate<'a>>),
    X509Error,
>)
    ensures
        match r {
            Ok((rest, v)) => spec_revoked_certificates(i@) == Ok::<
                (Seq<u8>, Seq<RevokedCertificateView>),
                X509Error,
            >((rest@, views(v@))) && is_rest(i@, rest@),
            Err(e) => spec_revoked_certificates(i@) == Err::<
                (Seq<u8>, Seq<RevokedCertificateView>),
                X509Error,
            >(e),
        },
{
    let (rest, c) = match container(i, CLASS_UNIVERSAL, TAG_SEQUENCE) {
        Ok(x) => x,
        Err(e) => { return Err(e); },
    };
    match many(c, RevokedCertificate::from_der, Ghost(revoked_certificate_reader())) {
        Err(e) => Err(e),
        Ok(list) => Ok((rest, list)),
    }
}

/// The body of a revocation list, which its issuer signs.
///
/// ```text
/// TBSCertList  ::=  SEQUENCE  {
///      version                 Version OPTIONAL,
///      signature               AlgorithmIdentifier,
///      issuer                  Name,
///      thisUpdate              Time,
///      nextUpdate              Time OPTIONAL,
///      revokedCertificates     SEQUENCE OF SEQUENCE  { .. } OPTIONAL,
///      crlExtensions           [0]  EXPLICIT Extensions OPTIONAL }
/// ```
#[derive(Debug)]
pub struct TbsCertList<'a> {
    pub version: Option<X509Version>,
    pub signature: AlgorithmIdentifier<'a>,
    pub issuer: X509Name<'a>,
    pub this_update: ASN1Time,
    pub next_update: Option<ASN1Time>,
    pub revoked_certificates: Vec<RevokedCertificate<'a>>,
    pub extensions: ExtensionMap<'a>,
    pub raw: &'a [u8],
}

/// What a `TbsCertList` holds.
pub struct TbsCertListView {
    pub version: Option<X509Version>,
    pub signature: AlgorithmIdentifierView,
    pub issuer: X509NameView,
    pub this_update: ASN1Time,
    pub next_update: Option<ASN1Time>,
    pub revoked_certificates: Seq<RevokedCertificateView>,
    pub extensions: Seq<X509ExtensionView>,
    pub raw: Seq<u8>,
}

impl<'a> View for TbsCertList<'a> {
    type V = TbsCertListView;

    open spec fn view(&self) -> TbsCertListView {
        TbsCertListView {
            version: self.version,
            signature: self.signature@,
            issuer: self.issuer@,
            this_update: self.this_update,
            next_update: self.next_update,
            revoked_certificates: views(self.revoked_certificates@),
            extensions: self.extensions@,
            raw: self.raw@,
        }
    }
}

/// The optional version of a revocation list at the front of `i`: an
/// INTEGER; absent, with nothing taken from `i`, where none can be read.
pub open spec fn spec_version_opt(i: Seq<u8>) -> (Seq<u8>, Option<X509Version>) {
    match spec_u32(i) {
        Ok((rest, v)) => (rest, Some(X509Version(v))),
        Err(_) => (i, None),
    }
}

/// The fields of the body of a revocation list, read in order from the
/// content `c` of its SEQUENCE, which they must fill; `raw` is put in as
/// given.
pub open spec fn spec_tbs_cert_list_fields(c: Seq<u8>, raw: Seq<u8>) -> Result<
    TbsCertListView,
    X509Error,
> {
    let (c1, version) = spec_version_opt(c);
    match spec_algorithm_identifier(c1) {
        Err(e) => Err(e),
        Ok((c2, signature)) => match spec_name(c2) {
            Err(e) => Err(e),
            Ok((c3, issuer)) => match spec_time(c3) {
                Err(e) => Err(e),
                Ok((c4, this_update)) => {
                    let (c5, next_update) = spec_time_opt(c4);
                    let (c6, revoked_certificates) = spec_revoked_certificates_opt(c5);
                    match spec_extensions(c6, 0) {
                        Err(e) => Err(e),
                        Ok((c7, extensions)) => if c7.len() != 0 {
                            Err(X509Error::InvalidExtensions)
                        } else {
                            Ok(
                                TbsCertListView {
                                    version,
                                    signature,
                                    issuer,
                                    this_update,
                                    next_update,
                                    revoked_certificates,
                                    extensions,
                                    raw,
                                },
                            )
                        },
                    }
                },
            },
        },
    }
}

/// The body of a revocation list at the front of `i`: a SEQUENCE whose
/// content is the fields in order. Its raw bytes are the whole element.
pub open spec fn spec_tbs_cert_list(i: Seq<u8>) -> Result<(Seq<u8>, TbsCertListView), X509Error> {
    match spec_container(i, CLASS_UNIVERSAL, TAG_SEQUENCE) {
        Err(e) => Err(e),
        Ok((rest, c)) => match spec_tbs_cert_list_fields(c, span(i, rest)) {
            Err(e) => Err(e),
            Ok(tbs) => Ok((rest, tbs)),
        },
    }
}

impl<'a> TbsCertList<'a> {
    /// Reads the body of a revocation list.
    pub fn from_der(i: &'a [u8]) -> (r: Result<(&'a [u8], TbsCertList<'a>), X509Error>)
        ensures
            parsed(r) == spec_tbs_cert_list(i@),
            consumes(i@, r),
            r matches Ok((rest, _)) ==> is_truncated(spec_tbs_cert_list(cut(i@, rest@))),
            r matches Ok((rest, tbs)) ==> tbs.raw@ == span(i@, rest@) && tbs.extensions.wf()
                && criticals_are_decoded(tbs@.extensions),
    {
        let (rest, c) = match container(i, CLASS_UNIVERSAL, TAG_SEQUENCE) {
            Ok(x) => x,
            Err(e) => { return Err(e); },
        };
        let raw = consumed(i, rest);
        let (c1, version) = match parse_u32(c) {
            Ok((c1, v)) => (c1, Some(X509Version(v))),
            Err(_) => (c, None),
        };
        let (c2, signature) = match AlgorithmIdentifier::from_der(c1) {
            Ok(x) => x,
            Err(e) => { return Err(e); },
        };
        let (c3, issuer) = match X509Name::from_der(c2) {
            Ok(x) => x,
            Err(e) => { return Err(e); },
        };
        let (c4, this_update) = match ASN1Time::from_der(c3) {
            Ok(x) => x,
            Err(e) => { return Err(e); },
        };
        let (c5, next_update) = ASN1Time::from_der_opt(c4);
        let (c6, revoked_certificates) = match parse_revoked_certificates(c5) {
            Ok(x) => x,
            Err(_) => {
                let none: Vec<RevokedCertificate<'a>> = Vec::new();
                assert(views(none@) =~= Seq::<RevokedCertificateView>::empty());
                (c5, none)
            },
        };
        let (c7, extensions) = match parse_extensions(c6, 0) {
            Ok(x) => x,
            Err(e) => { return Err(e); },
        };
        if c7.len() != 0 {
            return Err(X509Error::InvalidExtensions);
        }
        Ok(
            (
                rest,
                TbsCertList {
                    version,
                    signature,
                    issuer,
                    this_update,
                    next_update,
                    revoked_certificates,
                    extensions,
                    raw,
                },
            ),
        )
    }

    /// The bytes that encode the body: what the signature is over.
    pub fn as_ref(&self) -> (r: &'a [u8])
        ensures
            r@ == self@.raw,
    {
        self.raw
    }
}

/// A revocation list: its body, the algorithm of its signature, and the
/// signature.
///
/// ```text
/// CertificateList  ::=  SEQUENCE  {
///      tbsCertList          TBSCertList,
///      signatureAlgorithm   AlgorithmIdentifier,
///      signatureValue       BIT STRING  }
/// ```
#[derive(Debug)]
pub struct CertificateRevocationList<'a> {
    pub tbs_cert_list: TbsCertList<'a>,
    pub signature_algorithm: AlgorithmIdentifier<'a>,
    pub signature_value: BitStringObject<'a>,
}

/// What a `CertificateRevocationList` holds.
pub struct CertificateRevocationListView {
    pub tbs_cert_list: TbsCertListView,
    pub signature_algorithm: AlgorithmIdentifierView,
    pub signature_value: BitStringView,
}

impl<'a> View for CertificateRevocationList<'a> {
    type V = CertificateRevocationListView;

    open spec fn view(&self) -> CertificateRevocationListView {
        CertificateRevocationListView {
            tbs_cert_list: self.tbs_cert_list@,
            signature_algorithm: self.signature_algorithm@,
            signature_value: self.signature_value@,
        }
    }
}

/// One revocation list at the front of `i`: a SEQUENCE of the body, an
/// algorithm identifier and a BIT STRING, and nothing more.
pub open spec fn spec_certificate_revocation_list(i: Seq<u8>) -> Result<
    (Seq<u8>, CertificateRevocationListView),
    X509Error,
> {
    match spec_container(i, CLASS_UNIVERSAL, TAG_SEQUENCE) {
        Err(e) => Err(e),
        Ok((rest, c)) => match spec_tbs_cert_list(c) {
            Err(e) => Err(e),
            Ok((c1, tbs_cert_list)) => match spec_algorithm_identifier(c1) {
                Err(e) => Err(e),
                Ok((c2, signature_algorithm)) => match spec_signature_value(c2) {
                    Err(e) => Err(e),
                    Ok((c3, signature_value)) => if c3.len() != 0 {
                        Err(X509Error::InvalidCertificate)
                    } else {
                        Ok(
                            (
                                rest,
                                CertificateRevocationListView {
                                    tbs_cert_list,
                                    signature_algorithm,
                                    signature_value,
                                },
                            ),
                        )
                    },
                },
            },
        },
    }
}

impl<'a> CertificateRevocationList<'a> {
    /// Reads one revocation list, and returns it with the bytes that follow
    /// it.
    pub fn from_der(i: &'a [u8]) -> (r: Result<
        (&'a [u8], CertificateRevocationList<'a>),
        X509Error,
    >)
        ensures
            parsed(r) == spec_certificate_revocation_list(i@),
            consumes(i@, r),
            r matches Ok((rest, _)) ==> is_truncated(
                spec_certificate_revocation_list(cut(i@, rest@)),
            ),
            r matches Ok((_, crl)) ==> crl.tbs_cert_list.extensions.wf() && criticals_are_decoded(
                crl@.tbs_cert_list.extensions,
            ),
    {
        let (rest, c) = match container(i, CLASS_UNIVERSAL, TAG_SEQUENCE) {
            Ok(x) => x,
            Err(e) => { return Err(e); },
        };
        let (c1, tbs_cert_list) = match TbsCertList::from_der(c) {
            Ok(x) => x,
            Err(e) => { return Err(e); },
        };
        let (c2, signature_algorithm) = match AlgorithmIdentifier::from_der(c1) {
            Ok(x) => x,
            Err(e) => { return Err(e); },
        };
        let (c3, signature_value) = match parse_signature_value(c2) {
            Ok(x) => x,
            Err(e) => { return Err(e); },
        };
        if c3.len() != 0 {
            return Err(X509Error::InvalidCertificate);
        }
        Ok(
            (
                rest,
                CertificateRevocationList { tbs_cert_list, signature_algorithm, signature_value },
            ),
        )
    }

    /// The version of the revocation list, if it states one.
    pub fn version(&self) -> (r: Option<X509Version>)
        ensures
            r == self@.tbs_cert_list.version,
    {
        self.tbs_cert_list.version
    }

    /// The issuer of the revocation list.
    pub fn issuer(&self) -> (r: &X509Name<'a>)
        ensures
            r@ == self@.tbs_cert_list.issuer,
    {
        &self.tbs_cert_list.issuer
    }

    /// The time of this update of the list.
    pub fn last_update(&self) -> (r: ASN1Time)
        ensures
            r == self@.tbs_cert_list.this_update,
    {
        self.tbs_cert_list.this_update
    }

    /// The time of the next update of the list, if it states one.
    pub fn next_update(&self) -> (r: Option<ASN1Time>)
        ensures
            r == self@.tbs_cert_list.next_update,
    {
        self.tbs_cert_list.next_update
    }

    /// The revoked certificates, in the order of the list.
    pub fn iter_revoked_certificates<'b>(&'b self) -> (r: Vec<&'b RevokedCertificate<'a>>)
        ensures
            views(r@) == self@.tbs_cert_list.revoked_certificates,
    {
        let ghost all = self@.tbs_cert_list.revoked_certificates;
        let mut out: Vec<&'b RevokedCertificate<'a>> = Vec::new();
        let mut k: usize = 0;
        let n = self.tbs_cert_list.revoked_certificates.len();
        while k < n
            invariant
                k <= n,
                n == self.tbs_cert_list.revoked_certificates@.len(),
                all == self@.tbs_cert_list.revoked_certificates,
                views(out@) =~= all.take(k as int),
            decreases n - k,
        {
            proof {
                lemma_views_push(out@, &self.tbs_cert_list.revoked_certificates[k as int]);
                assert(all.take(k + 1) =~= all.take(k as int).push(
                    self.tbs_cert_list.revoked_certificates@[k as int]@,
                ));
            }
            out.push(&self.tbs_cert_list.revoked_certificates[k]);
            k += 1;
        }
        assert(all.take(n as int) =~= all);
        out
    }

    /// The extensions of the revocation list.
    pub fn extensions(&self) -> (r: &ExtensionMap<'a>)
        ensures
            r@ == self@.tbs_cert_list.extensions,
    {
        &self.tbs_cert_list.extensions
    }

    /// The number of the list, from its cRLNumber extension; none where the
    /// list has no such extension, or its content was not decoded.
    pub fn crl_number(&self) -> (r: Option<&BigUint>)
        ensures
            match r {
                Some(n) => spec_lookup(
                    self@.tbs_cert_list.extensions,
                    spec_oid_x509_ext_crl_number(),
                ) matches Some((_, p)) && p == ParsedExtensionView::CRLNumber(biguint_value(*n)),
                None => !(spec_lookup(
                    self@.tbs_cert_list.extensions,
                    spec_oid_x509_ext_crl_number(),
                ) matches Some((_, p)) && p is CRLNumber),
            },
    {
        match self.tbs_cert_list.extensions.get(&oid_x509_ext_crl_number()) {
            None => None,
            Some(ext) => match &ext.parsed_extension {
                ParsedExtension::CRLNumber(n) => Some(n),
                _ => None,
            },
        }
    }
}

/// A revocation list whose body has no list of revoked certificates where
/// one could stand has an empty list: the body is read all the same.
pub proof fn lemma_no_revoked_certificates(i: Seq<u8>)
    requires
        spec_revoked_certificates(i) is Err,
    ensures
        spec_revoked_certificates_opt(i) == (i, Seq::<RevokedCertificateView>::empty()),
{
}

} // verus!

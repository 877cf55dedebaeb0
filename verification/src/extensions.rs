//! Extensions of certificates and revocation lists: the general form, the
//! extensions whose content is decoded, and the choice of a decoder by
//! object identifier.
use crate::der::{
    consumes, container, parse_bool, parse_u32, parsed, spec_bool, spec_container, spec_starts_with,
    spec_tagged, spec_u32, starts_with, tagged, CLASS_CONTEXT, CLASS_UNIVERSAL, TAG_ENUMERATED,
    TAG_INTEGER, TAG_OCTET_STRING, TAG_SEQUENCE,
};
use crate::error::X509Error;
use crate::integer::{
    biguint_from_bytes_be, biguint_value, spec_be_value, spec_u32_content, u32_content,
};
use crate::oid::{oid_reader, parse_oid, spec_oid, Oid};
use crate::repeated::{many, spec_many, views};
use crate::text::{spec_unnamed, unnamed};
use crate::time::{spec_time, ASN1Time};
use num_bigint::BigUint;
use vstd::prelude::*;
use vstd::string::*;

verus! {

/// The reason for which a certificate was revoked, as encoded.
#[derive(Clone, Copy, Debug, PartialEq, Eq, Structural)]
pub struct ReasonCode(pub u8);

impl View for ReasonCode {
    type V = ReasonCode;

    open spec fn view(&self) -> ReasonCode {
        *self
    }
}

impl Default for ReasonCode {
    /// The reason `unspecified`.
    fn default() -> (r: ReasonCode)
        ensures
            r == ReasonCode(0),
    {
        ReasonCode(0)
    }
}

/// How a reason is shown: by its name in RFC 5280; a number that has none
/// as a number without a name.
pub open spec fn spec_reason_text(c: ReasonCode) -> Seq<char> {
    if c.0 == 0 {
        "Unspecified"@
    } else if c.0 == 1 {
        "KeyCompromise"@
    } else if c.0 == 2 {
        "CACompromise"@
    } else if c.0 == 3 {
        "AffiliationChanged"@
    } else if c.0 == 4 {
        "Superseded"@
    } else if c.0 == 5 {
        "CessationOfOperation"@
    } else if c.0 == 6 {
        "CertificateHold"@
    } else if c.0 == 8 {
        "RemoveFromCRL"@
    } else if c.0 == 9 {
        "PrivilegeWithdrawn"@
    } else if c.0 == 10 {
        "AACompromise"@
    } else {
        spec_unnamed("ReasonCode"@, c.0 as nat)
    }
}

impl ReasonCode {
    /// The reason `Unspecified`, encoded as 0.
    pub fn unspecified() -> (r: ReasonCode)
        ensures
            r == ReasonCode(0),
    {
        ReasonCode(0)
    }

    /// The reason `KeyCompromise`, encoded as 1.
    pub fn key_compromise() -> (r: ReasonCode)
        ensures
            r == ReasonCode(1),
    {
        ReasonCode(1)
    }

    /// The reason `CACompromise`, encoded as 2.
    pub fn ca_compromise() -> (r: ReasonCode)
        ensures
            r == ReasonCode(2),
    {
        ReasonCode(2)
    }

    /// The reason `AffiliationChanged`, encoded as 3.
    pub fn affiliation_changed() -> (r: ReasonCode)
        ensures
            r == ReasonCode(3),
    {
        ReasonCode(3)
    }

    /// The reason `Superseded`, encoded as 4.
    pub fn superseded() -> (r: ReasonCode)
        ensures
            r == ReasonCode(4),
    {
        ReasonCode(4)
    }

    /// The reason `CessationOfOperation`, encoded as 5.
    pub fn cessation_of_operation() -> (r: ReasonCode)
        ensures
            r == ReasonCode(5),
    {
        ReasonCode(5)
    }

    /// The reason `CertificateHold`, encoded as 6.
    pub fn certificate_hold() -> (r: ReasonCode)
        ensures
            r == ReasonCode(6),
    {
        ReasonCode(6)
    }

    /// The reason `RemoveFromCRL`, encoded as 8.
    pub fn remove_from_crl() -> (r: ReasonCode)
        ensures
            r == ReasonCode(8),
    {
        ReasonCode(8)
    }

    /// The reason `PrivilegeWithdrawn`, encoded as 9.
    pub fn privilege_withdrawn() -> (r: ReasonCode)
        ensures
            r == ReasonCode(9),
    {
        ReasonCode(9)
    }

    /// The reason `AACompromise`, encoded as 10.
    pub fn aa_compromise() -> (r: ReasonCode)
        ensures
            r == ReasonCode(10),
    {
        ReasonCode(10)
    }

    /// The reason as text.
    pub fn to_string(&self) -> (r: String)
        ensures
            r@ == spec_reason_text(*self),
    {
        if self.0 == 0 {
            String::from_str("Unspecified")
        } else if self.0 == 1 {
            String::from_str("KeyCompromise")
        } else if self.0 == 2 {
            String::from_str("CACompromise")
        } else if self.0 == 3 {
            String::from_str("AffiliationChanged")
        } else if self.0 == 4 {
            String::from_str("Superseded")
        } else if self.0 == 5 {
            String::from_str("CessationOfOperation")
        } else if self.0 == 6 {
            String::from_str("CertificateHold")
        } else if self.0 == 8 {
            String::from_str("RemoveFromCRL")
        } else if self.0 == 9 {
            String::from_str("PrivilegeWithdrawn")
        } else if self.0 == 10 {
            String::from_str("AACompromise")
        } else {
            unnamed("ReasonCode", self.0 as u32)
        }
    }
}

/// Whether the subject is a certification authority, and how long a path
/// below it may be.
#[derive(Clone, Copy, Debug, PartialEq, Eq)]
pub struct BasicConstraints {
    pub ca: bool,
    pub path_len_constraint: Option<u32>,
}

/// The content of a basicConstraints extension: a SEQUENCE of an optional
/// BOOLEAN, false when absent, and an optional INTEGER, and nothing more.
pub open spec fn spec_basic_constraints(v: Seq<u8>) -> Result<BasicConstraints, X509Error> {
    match spec_container(v, CLASS_UNIVERSAL, TAG_SEQUENCE) {
        Err(e) => Err(e),
        Ok((rest, c)) => if rest.len() != 0 {
            Err(X509Error::InvalidExtensions)
        } else {
            let (c1, ca) = match spec_bool(c) {
                Ok((c1, b)) => (c1, b),
                Err(_) => (c, false),
            };
            if c1.len() == 0 {
                Ok(BasicConstraints { ca, path_len_constraint: None })
            } else {
                match spec_u32(c1) {
                    Err(_) => Err(X509Error::InvalidExtensions),
                    Ok((c2, n)) => if c2.len() != 0 {
                        Err(X509Error::InvalidExtensions)
                    } else {
                        Ok(BasicConstraints { ca, path_len_constraint: Some(n) })
                    },
                }
            }
        },
    }
}

/// Decodes the content of a basicConstraints extension.
pub fn parse_basic_constraints(v: &[u8]) -> (r: Result<BasicConstraints, X509Error>)
    ensures
        r == spec_basic_constraints(v@),
{
    let (rest, c) = match container(v, CLASS_UNIVERSAL, TAG_SEQUENCE) {
        Ok(x) => x,
        Err(e) => { return Err(e); },
    };
    if rest.len() != 0 {
        return Err(X509Error::InvalidExtensions);
    }
    let (c1, ca) = match parse_bool(c) {
        Ok((c1, b)) => (c1, b),
        Err(_) => (c, false),
    };
    if c1.len() == 0 {
        return Ok(BasicConstraints { ca, path_len_constraint: None });
    }
    match parse_u32(c1) {
        Err(_) => Err(X509Error::InvalidExtensions),
        Ok((c2, n)) => if c2.len() != 0 {
            Err(X509Error::InvalidExtensions)
        } else {
            Ok(BasicConstraints { ca, path_len_constraint: Some(n) })
        },
    }
}

/// The purposes of a key: bit `k` of `flags` is bit `k` of the KeyUsage bit
/// string, digitalSignature being bit 0.
#[derive(Clone, Copy, Debug, PartialEq, Eq, Structural)]
pub struct KeyUsage {
    pub flags: u16,
}

/// A byte with its bits in the opposite order.
pub open spec fn spec_reverse_bits(b: u8) -> u8 {
    ((b & 1) << 7) | ((b & 2) << 5) | ((b & 4) << 3) | ((b & 8) << 1) | ((b & 16) >> 1) | ((b
        & 32) >> 3) | ((b & 64) >> 5) | ((b & 128) >> 7)
}

/// The flags of a bit string of at most two bytes: the first named bit of the
/// string is the lowest bit of the flags.
pub open spec fn spec_key_usage_flags(data: Seq<u8>) -> u16 {
    if data.len() == 0 {
        0
    } else if data.len() == 1 {
        spec_reverse_bits(data[0]) as u16
    } else {
        (spec_reverse_bits(data[0]) as u16) | ((spec_reverse_bits(data[1]) as u16) << 8)
    }
}

/// The content of a keyUsage extension: one BIT STRING of at most two bytes
/// of data, and nothing more.
pub open spec fn spec_key_usage(v: Seq<u8>) -> Result<KeyUsage, X509Error> {
    match crate::der::spec_bit_string(v) {
        Err(e) => Err(e),
        Ok((rest, b)) => if rest.len() != 0 || b.data.len() > 2 {
            Err(X509Error::InvalidExtensions)
        } else {
            Ok(KeyUsage { flags: spec_key_usage_flags(b.data) })
        },
    }
}

fn reverse_bits(b: u8) -> (r: u8)
    ensures
        r == spec_reverse_bits(b),
{
    ((b & 1) << 7) | ((b & 2) << 5) | ((b & 4) << 3) | ((b & 8) << 1) | ((b & 16) >> 1) | ((b
        & 32) >> 3) | ((b & 64) >> 5) | ((b & 128) >> 7)
}

/// Decodes the content of a keyUsage extension.
pub fn parse_key_usage(v: &[u8]) -> (r: Result<KeyUsage, X509Error>)
    ensures
        r == spec_key_usage(v@),
{
    let (rest, b) = match crate::der::parse_bit_string(v) {
        Ok(x) => x,
        Err(e) => { return Err(e); },
    };
    if rest.len() != 0 || b.data.len() > 2 {
        return Err(X509Error::InvalidExtensions);
    }
    let flags: u16 = if b.data.len() == 0 {
        0
    } else if b.data.len() == 1 {
        reverse_bits(b.data[0]) as u16
    } else {
        (reverse_bits(b.data[0]) as u16) | ((reverse_bits(b.data[1]) as u16) << 8)
    };
    Ok(KeyUsage { flags })
}

impl KeyUsage {
    /// Tells whether bit `k` of the bit string is set.
    pub open spec fn spec_bit(&self, k: u16) -> bool {
        (self.flags >> k) & 1 == 1
    }

    pub fn digital_signature(&self) -> (r: bool)
        ensures
            r == self.spec_bit(0),
    {
        (self.flags >> 0u16) & 1 == 1
    }

    pub fn non_repudiation(&self) -> (r: bool)
        ensures
            r == self.spec_bit(1),
    {
        (self.flags >> 1u16) & 1 == 1
    }

    pub fn key_encipherment(&self) -> (r: bool)
        ensures
            r == self.spec_bit(2),
    {
        (self.flags >> 2u16) & 1 == 1
    }

    pub fn data_encipherment(&self) -> (r: bool)
        ensures
            r == self.spec_bit(3),
    {
        (self.flags >> 3u16) & 1 == 1
    }

    pub fn key_agreement(&self) -> (r: bool)
        ensures
            r == self.spec_bit(4),
    {
        (self.flags >> 4u16) & 1 == 1
    }

    pub fn key_cert_sign(&self) -> (r: bool)
        ensures
            r == self.spec_bit(5),
    {
        (self.flags >> 5u16) & 1 == 1
    }

    pub fn crl_sign(&self) -> (r: bool)
        ensures
            r == self.spec_bit(6),
    {
        (self.flags >> 6u16) & 1 == 1
    }

    pub fn encipher_only(&self) -> (r: bool)
        ensures
            r == self.spec_bit(7),
    {
        (self.flags >> 7u16) & 1 == 1
    }

    pub fn decipher_only(&self) -> (r: bool)
        ensures
            r == self.spec_bit(8),
    {
        (self.flags >> 8u16) & 1 == 1
    }
}

/// The identifier of a key: the bytes of the extension's OCTET STRING.
#[derive(Clone, Copy, Debug)]
pub struct KeyIdentifier<'a>(pub &'a [u8]);

impl<'a> View for KeyIdentifier<'a> {
    type V = Seq<u8>;

    open spec fn view(&self) -> Seq<u8> {
        self.0@
    }
}

/// The content of a subjectKeyIdentifier extension: one OCTET STRING, and
/// nothing more.
pub open spec fn spec_subject_key_identifier(v: Seq<u8>) -> Result<Seq<u8>, X509Error> {
    match spec_tagged(v, TAG_OCTET_STRING) {
        Err(e) => Err(e),
        Ok((rest, c)) => if rest.len() != 0 {
            Err(X509Error::InvalidExtensions)
        } else {
            Ok(c)
        },
    }
}

/// Decodes the content of a subjectKeyIdentifier extension.
pub fn parse_subject_key_identifier<'a>(v: &'a [u8]) -> (r: Result<KeyIdentifier<'a>, X509Error>)
    ensures
        match r {
            Ok(k) => spec_subject_key_identifier(v@) == Ok::<Seq<u8>, X509Error>(k@),
            Err(e) => spec_subject_key_identifier(v@) == Err::<Seq<u8>, X509Error>(e),
        },
{
    match tagged(v, TAG_OCTET_STRING) {
        Err(e) => Err(e),
        Ok((rest, c)) => if rest.len() != 0 {
            Err(X509Error::InvalidExtensions)
        } else {
            Ok(KeyIdentifier(c))
        },
    }
}

/// How many more certificates may follow before anyPolicy stops counting.
#[derive(Clone, Copy, Debug, PartialEq, Eq, Structural)]
pub struct InhibitAnyPolicy {
    pub skip_certs: u32,
}

/// The content of an inhibitAnyPolicy extension: one INTEGER, and nothing
/// more.
pub open spec fn spec_inhibit_any_policy(v: Seq<u8>) -> Result<InhibitAnyPolicy, X509Error> {
    match spec_u32(v) {
        Err(e) => Err(e),
        Ok((rest, n)) => if rest.len() != 0 {
            Err(X509Error::InvalidExtensions)
        } else {
            Ok(InhibitAnyPolicy { skip_certs: n })
        },
    }
}

/// Decodes the content of an inhibitAnyPolicy extension.
pub fn parse_inhibit_any_policy(v: &[u8]) -> (r: Result<InhibitAnyPolicy, X509Error>)
    ensures
        r == spec_inhibit_any_policy(v@),
{
    match parse_u32(v) {
        Err(e) => Err(e),
        Ok((rest, n)) => if rest.len() != 0 {
            Err(X509Error::InvalidExtensions)
        } else {
            Ok(InhibitAnyPolicy { skip_certs: n })
        },
    }
}

/// Limits on the use of policies along a path.
#[derive(Clone, Copy, Debug, PartialEq, Eq)]
pub struct PolicyConstraints {
    pub require_explicit_policy: Option<u32>,
    pub inhibit_policy_mapping: Option<u32>,
}

/// An optional INTEGER behind the implicit context tag `tag`: absent where
/// `i` is empty or starts with another header.
pub open spec fn spec_implicit_u32(i: Seq<u8>, tag: u32) -> Result<
    (Seq<u8>, Option<u32>),
    X509Error,
> {
    if !spec_starts_with(i, CLASS_CONTEXT, tag) {
        Ok((i, None))
    } else {
        match spec_container(i, CLASS_CONTEXT, tag) {
            Err(e) => Err(e),
            Ok((rest, c)) => match spec_u32_content(c) {
                Err(e) => Err(e),
                Ok(n) => Ok((rest, Some(n))),
            },
        }
    }
}

/// Reads an optional INTEGER behind an implicit context tag.
pub fn parse_implicit_u32<'a>(i: &'a [u8], tag: u32) -> (r: Result<
    (&'a [u8], Option<u32>),
    X509Error,
>)
    ensures
        match r {
            Ok((rest, n)) => spec_implicit_u32(i@, tag) == Ok::<(Seq<u8>, Option<u32>), X509Error>(
                (rest@, n),
            ),
            Err(e) => spec_implicit_u32(i@, tag) == Err::<(Seq<u8>, Option<u32>), X509Error>(e),
        },
{
    if !starts_with(i, CLASS_CONTEXT, tag) {
        return Ok((i, None));
    }
    let (rest, c) = match container(i, CLASS_CONTEXT, tag) {
        Ok(x) => x,
        Err(e) => { return Err(e); },
    };
    match u32_content(c) {
        Err(e) => Err(e),
        Ok(n) => Ok((rest, Some(n))),
    }
}

/// The content of a policyConstraints extension: a SEQUENCE of two optional
/// INTEGERs, tagged `[0]` and `[1]`, and nothing more.
pub open spec fn spec_policy_constraints(v: Seq<u8>) -> Result<PolicyConstraints, X509Error> {
    match spec_container(v, CLASS_UNIVERSAL, TAG_SEQUENCE) {
        Err(e) => Err(e),
        Ok((rest, c)) => if rest.len() != 0 {
            Err(X509Error::InvalidExtensions)
        } else {
            match spec_implicit_u32(c, 0) {
                Err(e) => Err(e),
                Ok((c1, require_explicit_policy)) => match spec_implicit_u32(c1, 1) {
                    Err(e) => Err(e),
                    Ok((c2, inhibit_policy_mapping)) => if c2.len() != 0 {
                        Err(X509Error::InvalidExtensions)
                    } else {
                        Ok(PolicyConstraints { require_explicit_policy, inhibit_policy_mapping })
                    },
                },
            }
        },
    }
}

/// Decodes the content of a policyConstraints extension.
pub fn parse_policy_constraints(v: &[u8]) -> (r: Result<PolicyConstraints, X509Error>)
    ensures
        r == spec_policy_constraints(v@),
{
    let (rest, c) = match container(v, CLASS_UNIVERSAL, TAG_SEQUENCE) {
        Ok(x) => x,
        Err(e) => { return Err(e); },
    };
    if rest.len() != 0 {
        return Err(X509Error::InvalidExtensions);
    }
    let (c1, require_explicit_policy) = match parse_implicit_u32(c, 0) {
        Ok(x) => x,
        Err(e) => { return Err(e); },
    };
    let (c2, inhibit_policy_mapping) = match parse_implicit_u32(c1, 1) {
        Ok(x) => x,
        Err(e) => { return Err(e); },
    };
    if c2.len() != 0 {
        return Err(X509Error::InvalidExtensions);
    }
    Ok(PolicyConstraints { require_explicit_policy, inhibit_policy_mapping })
}

/// The purposes for which a key may be used beyond the basic ones, each an
/// object identifier, in the order of the extension.
#[derive(Debug)]
pub struct ExtendedKeyUsage<'a> {
    pub purposes: Vec<Oid<'a>>,
}

impl<'a> View for ExtendedKeyUsage<'a> {
    type V = Seq<Seq<u8>>;

    open spec fn view(&self) -> Seq<Seq<u8>> {
        views(self.purposes@)
    }
}

/// The content of an extKeyUsage extension: a SEQUENCE whose content is
/// object identifiers from end to end, and nothing more.
pub open spec fn spec_extended_key_usage(v: Seq<u8>) -> Result<Seq<Seq<u8>>, X509Error> {
    match spec_container(v, CLASS_UNIVERSAL, TAG_SEQUENCE) {
        Err(e) => Err(e),
        Ok((rest, c)) => if rest.len() != 0 {
            Err(X509Error::InvalidExtensions)
        } else {
            spec_many(oid_reader(), c)
        },
    }
}

/// Decodes the content of an extKeyUsage extension.
pub fn parse_extended_key_usage<'a>(v: &'a [u8]) -> (r: Result<ExtendedKeyUsage<'a>, X509Error>)
    ensures
        match r {
            Ok(k) => spec_extended_key_usage(v@) == Ok::<Seq<Seq<u8>>, X509Error>(k@),
            Err(e) => spec_extended_key_usage(v@) == Err::<Seq<Seq<u8>>, X509Error>(e),
        },
{
    let (rest, c) = match container(v, CLASS_UNIVERSAL, TAG_SEQUENCE) {
        Ok(x) => x,
        Err(e) => { return Err(e); },
    };
    if rest.len() != 0 {
        return Err(X509Error::InvalidExtensions);
    }
    match many(c, parse_oid, Ghost(oid_reader())) {
        Ok(purposes) => Ok(ExtendedKeyUsage { purposes }),
        Err(e) => Err(e),
    }
}

/// One mapping of a policy of the issuer to a policy of the subject.
#[derive(Clone, Copy, Debug)]
pub struct PolicyMapping<'a> {
    pub issuer_domain_policy: Oid<'a>,
    pub subject_domain_policy: Oid<'a>,
}

/// What a `PolicyMapping` holds.
pub struct PolicyMappingView {
    pub issuer_domain_policy: Seq<u8>,
    pub subject_domain_policy: Seq<u8>,
}

impl<'a> View for PolicyMapping<'a> {
    type V = PolicyMappingView;

    open spec fn view(&self) -> PolicyMappingView {
        PolicyMappingView {
            issuer_domain_policy: self.issuer_domain_policy@,
            subject_domain_policy: self.subject_domain_policy@,
        }
    }
}

/// One policy mapping at the front of `i`: a SEQUENCE of two object
/// identifiers, and nothing more.
pub open spec fn spec_policy_mapping(i: Seq<u8>) -> Result<
    (Seq<u8>, PolicyMappingView),
    X509Error,
> {
    match spec_container(i, CLASS_UNIVERSAL, TAG_SEQUENCE) {
        Err(e) => Err(e),
        Ok((rest, c)) => match spec_oid(c) {
            Err(e) => Err(e),
            Ok((c1, issuer_domain_policy)) => match spec_oid(c1) {
                Err(e) => Err(e),
                Ok((c2, subject_domain_policy)) => if c2.len() != 0 {
                    Err(X509Error::InvalidExtensions)
                } else {
                    Ok((rest, PolicyMappingView { issuer_domain_policy, subject_domain_policy }))
                },
            },
        },
    }
}

/// The reader of one policy mapping, for `spec_many`.
pub open spec fn policy_mapping_reader() -> spec_fn(Seq<u8>) -> Result<
    (Seq<u8>, PolicyMappingView),
    X509Error,
> {
    |i: Seq<u8>| spec_policy_mapping(i)
}

/// Reads one policy mapping.
pub fn parse_policy_mapping<'a>(i: &'a [u8]) -> (r: Result<
    (&'a [u8], PolicyMapping<'a>),
    X509Error,
>)
    ensures
        parsed(r) == spec_policy_mapping(i@),
        consumes(i@, r),
{
    let (rest, c) = match container(i, CLASS_UNIVERSAL, TAG_SEQUENCE) {
        Ok(x) => x,
        Err(e) => { return Err(e); },
    };
    let (c1, issuer_domain_policy) = match parse_oid(c) {
        Ok(x) => x,
        Err(e) => { return Err(e); },
    };
    let (c2, subject_domain_policy) = match parse_oid(c1) {
        Ok(x) => x,
        Err(e) => { return Err(e); },
    };
    if c2.len() != 0 {
        return Err(X509Error::InvalidExtensions);
    }
    Ok((rest, PolicyMapping { issuer_domain_policy, subject_domain_policy }))
}

/// The policy mappings of a certificate, in the order of the extension.
#[derive(Debug)]
pub struct PolicyMappings<'a> {
    pub mappings: Vec<PolicyMapping<'a>>,
}

impl<'a> View for PolicyMappings<'a> {
    type V = Seq<PolicyMappingView>;

    open spec fn view(&self) -> Seq<PolicyMappingView> {
        views(self.mappings@)
    }
}

/// The content of a policyMappings extension: a SEQUENCE whose content is
/// policy mappings from end to end, and nothing more.
pub open spec fn spec_policy_mappings(v: Seq<u8>) -> Result<Seq<PolicyMappingView>, X509Error> {
    match spec_container(v, CLASS_UNIVERSAL, TAG_SEQUENCE) {
        Err(e) => Err(e),
        Ok((rest, c)) => if rest.len() != 0 {
            Err(X509Error::InvalidExtensions)
        } else {
            spec_many(policy_mapping_reader(), c)
        },
    }
}

/// Decodes the content of a policyMappings extension.
pub fn parse_policy_mappings<'a>(v: &'a [u8]) -> (r: Result<PolicyMappings<'a>, X509Error>)
    ensures
        match r {
            Ok(k) => spec_policy_mappings(v@) == Ok::<Seq<PolicyMappingView>, X509Error>(k@),
            Err(e) => spec_policy_mappings(v@) == Err::<Seq<PolicyMappingView>, X509Error>(e),
        },
{
    let (rest, c) = match container(v, CLASS_UNIVERSAL, TAG_SEQUENCE) {
        Ok(x) => x,
        Err(e) => { return Err(e); },
    };
    if rest.len() != 0 {
        return Err(X509Error::InvalidExtensions);
    }
    match many(c, parse_policy_mapping, Ghost(policy_mapping_reader())) {
        Ok(mappings) => Ok(PolicyMappings { mappings }),
        Err(e) => Err(e),
    }
}

/// The content of an INTEGER that is not negative.
pub open spec fn spec_unsigned_integer(i: Seq<u8>) -> Result<(Seq<u8>, Seq<u8>), X509Error> {
    match spec_tagged(i, TAG_INTEGER) {
        Err(e) => Err(e),
        Ok((rest, c)) => if c.len() == 0 {
            Err(X509Error::InvalidLength)
        } else if c[0] >= 0x80 {
            Err(X509Error::Malformed)
        } else {
            Ok((rest, c))
        },
    }
}

/// Reads one DER INTEGER that is not negative, and returns its content.
pub fn parse_unsigned_integer<'a>(i: &'a [u8]) -> (r: Result<(&'a [u8], &'a [u8]), X509Error>)
    ensures
        parsed(r) == spec_unsigned_integer(i@),
        consumes(i@, r),
{
    match tagged(i, TAG_INTEGER) {
        Err(e) => Err(e),
        Ok((rest, c)) => if c.len() == 0 {
            Err(X509Error::InvalidLength)
        } else if c[0] >= 0x80 {
            Err(X509Error::Malformed)
        } else {
            Ok((rest, c))
        },
    }
}

/// The content of a cRLNumber extension: one INTEGER that is not negative,
/// and nothing more; its value.
pub open spec fn spec_crl_number(v: Seq<u8>) -> Result<nat, X509Error> {
    match spec_unsigned_integer(v) {
        Err(e) => Err(e),
        Ok((rest, c)) => if rest.len() != 0 {
            Err(X509Error::InvalidExtensions)
        } else {
            Ok(spec_be_value(c))
        },
    }
}

/// Decodes the content of a cRLNumber extension.
pub fn parse_crl_number(v: &[u8]) -> (r: Result<BigUint, X509Error>)
    ensures
        match r {
            Ok(n) => spec_crl_number(v@) == Ok::<nat, X509Error>(biguint_value(n)),
            Err(e) => spec_crl_number(v@) == Err::<nat, X509Error>(e),
        },
{
    match parse_unsigned_integer(v) {
        Err(e) => Err(e),
        Ok((rest, c)) => if rest.len() != 0 {
            Err(X509Error::InvalidExtensions)
        } else {
            Ok(biguint_from_bytes_be(c))
        },
    }
}

/// The content of a reasonCode extension: one ENUMERATED of one byte, and
/// nothing more.
pub open spec fn spec_reason_code(v: Seq<u8>) -> Result<ReasonCode, X509Error> {
    match spec_tagged(v, TAG_ENUMERATED) {
        Err(e) => Err(e),
        Ok((rest, c)) => if rest.len() != 0 || c.len() != 1 {
            Err(X509Error::InvalidExtensions)
        } else {
            Ok(ReasonCode(c[0]))
        },
    }
}

/// Decodes the content of a reasonCode extension.
pub fn parse_reason_code(v: &[u8]) -> (r: Result<ReasonCode, X509Error>)
    ensures
        r == spec_reason_code(v@),
{
    match tagged(v, TAG_ENUMERATED) {
        Err(e) => Err(e),
        Ok((rest, c)) => if rest.len() != 0 || c.len() != 1 {
            Err(X509Error::InvalidExtensions)
        } else {
            Ok(ReasonCode(c[0]))
        },
    }
}

/// The content of an invalidityDate extension: one time, and nothing more.
pub open spec fn spec_invalidity_date(v: Seq<u8>) -> Result<ASN1Time, X509Error> {
    match spec_time(v) {
        Err(e) => Err(e),
        Ok((rest, t)) => if rest.len() != 0 {
            Err(X509Error::InvalidExtensions)
        } else {
            Ok(t)
        },
    }
}

/// Decodes the content of an invalidityDate extension.
pub fn parse_invalidity_date(v: &[u8]) -> (r: Result<ASN1Time, X509Error>)
    ensures
        r == spec_invalidity_date(v@),
{
    match ASN1Time::from_der(v) {
        Err(e) => Err(e),
        Ok((rest, t)) => if rest.len() != 0 {
            Err(X509Error::InvalidExtensions)
        } else {
            Ok(t)
        },
    }
}

} // verus!

//! The object identifiers that the decoders know by name, and the short
//! names under which names are written.
use crate::oid::Oid;
use vstd::array::array_as_slice;
use vstd::prelude::*;
use vstd::string::*;

verus! {

pub const OID_X509_COMMON_NAME_BYTES: [u8; 3] = [0x55, 0x04, 0x03];

/// 2.5.4.3, the attribute type commonName, as encoded.
pub open spec fn spec_oid_x509_common_name() -> Seq<u8> {
    seq![0x55u8, 0x04u8, 0x03u8]
}

/// 2.5.4.3, the attribute type commonName.
pub fn oid_x509_common_name() -> (r: Oid<'static>)
    ensures
        r@ == spec_oid_x509_common_name(),
{
    let r = Oid { bytes: array_as_slice(&OID_X509_COMMON_NAME_BYTES) };
    assert(r@ =~= spec_oid_x509_common_name());
    r
}

pub const OID_X509_COUNTRY_NAME_BYTES: [u8; 3] = [0x55, 0x04, 0x06];

/// 2.5.4.6, the attribute type countryName, as encoded.
pub open spec fn spec_oid_x509_country_name() -> Seq<u8> {
    seq![0x55u8, 0x04u8, 0x06u8]
}

/// 2.5.4.6, the attribute type countryName.
pub fn oid_x509_country_name() -> (r: Oid<'static>)
    ensures
        r@ == spec_oid_x509_country_name(),
{
    let r = Oid { bytes: array_as_slice(&OID_X509_COUNTRY_NAME_BYTES) };
    assert(r@ =~= spec_oid_x509_country_name());
    r
}

pub const OID_X509_LOCALITY_NAME_BYTES: [u8; 3] = [0x55, 0x04, 0x07];

/// 2.5.4.7, the attribute type localityName, as encoded.
pub open spec fn spec_oid_x509_locality_name() -> Seq<u8> {
    seq![0x55u8, 0x04u8, 0x07u8]
}

/// 2.5.4.7, the attribute type localityName.
pub fn oid_x509_locality_name() -> (r: Oid<'static>)
    ensures
        r@ == spec_oid_x509_locality_name(),
{
    let r = Oid { bytes: array_as_slice(&OID_X509_LOCALITY_NAME_BYTES) };
    assert(r@ =~= spec_oid_x509_locality_name());
    r
}

pub const OID_X509_STATE_OR_PROVINCE_NAME_BYTES: [u8; 3] = [0x55, 0x04, 0x08];

/// 2.5.4.8, the attribute type stateOrProvinceName, as encoded.
pub open spec fn spec_oid_x509_state_or_province_name() -> Seq<u8> {
    seq![0x55u8, 0x04u8, 0x08u8]
}

/// 2.5.4.8, the attribute type stateOrProvinceName.
pub fn oid_x509_state_or_province_name() -> (r: Oid<'static>)
    ensures
        r@ == spec_oid_x509_state_or_province_name(),
{
    let r = Oid { bytes: array_as_slice(&OID_X509_STATE_OR_PROVINCE_NAME_BYTES) };
    assert(r@ =~= spec_oid_x509_state_or_province_name());
    r
}

pub const OID_X509_ORGANIZATION_NAME_BYTES: [u8; 3] = [0x55, 0x04, 0x0A];

/// 2.5.4.10, the attribute type organizationName, as encoded.
pub open spec fn spec_oid_x509_organization_name() -> Seq<u8> {
    seq![0x55u8, 0x04u8, 0x0Au8]
}

/// 2.5.4.10, the attribute type organizationName.
pub fn oid_x509_organization_name() -> (r: Oid<'static>)
    ensures
        r@ == spec_oid_x509_organization_name(),
{
    let r = Oid { bytes: array_as_slice(&OID_X509_ORGANIZATION_NAME_BYTES) };
    assert(r@ =~= spec_oid_x509_organization_name());
    r
}

pub const OID_X509_ORGANIZATIONAL_UNIT_BYTES: [u8; 3] = [0x55, 0x04, 0x0B];

/// 2.5.4.11, the attribute type organizationalUnitName, as encoded.
pub open spec fn spec_oid_x509_organizational_unit() -> Seq<u8> {
    seq![0x55u8, 0x04u8, 0x0Bu8]
}

/// 2.5.4.11, the attribute type organizationalUnitName.
pub fn oid_x509_organizational_unit() -> (r: Oid<'static>)
    ensures
        r@ == spec_oid_x509_organizational_unit(),
{
    let r = Oid { bytes: array_as_slice(&OID_X509_ORGANIZATIONAL_UNIT_BYTES) };
    assert(r@ =~= spec_oid_x509_organizational_unit());
    r
}

pub const OID_DOMAIN_COMPONENT_BYTES: [u8; 10] = [
    0x09, 0x92, 0x26, 0x89, 0x93, 0xF2, 0x2C, 0x64, 0x01, 0x19,
];

/// 0.9.2342.19200300.100.1.25, the attribute type domainComponent, as encoded.
pub open spec fn spec_oid_domain_component() -> Seq<u8> {
    seq![0x09u8, 0x92u8, 0x26u8, 0x89u8, 0x93u8, 0xF2u8, 0x2Cu8, 0x64u8, 0x01u8, 0x19u8]
}

/// 0.9.2342.19200300.100.1.25, the attribute type domainComponent.
pub fn oid_domain_component() -> (r: Oid<'static>)
    ensures
        r@ == spec_oid_domain_component(),
{
    let r = Oid { bytes: array_as_slice(&OID_DOMAIN_COMPONENT_BYTES) };
    assert(r@ =~= spec_oid_domain_component());
    r
}

pub const OID_PKCS9_EMAIL_ADDRESS_BYTES: [u8; 9] = [
    0x2A, 0x86, 0x48, 0x86, 0xF7, 0x0D, 0x01, 0x09, 0x01,
];

/// 1.2.840.113549.1.9.1, the attribute type emailAddress, as encoded.
pub open spec fn spec_oid_pkcs9_email_address() -> Seq<u8> {
    seq![0x2Au8, 0x86u8, 0x48u8, 0x86u8, 0xF7u8, 0x0Du8, 0x01u8, 0x09u8, 0x01u8]
}

/// 1.2.840.113549.1.9.1, the attribute type emailAddress.
pub fn oid_pkcs9_email_address() -> (r: Oid<'static>)
    ensures
        r@ == spec_oid_pkcs9_email_address(),
{
    let r = Oid { bytes: array_as_slice(&OID_PKCS9_EMAIL_ADDRESS_BYTES) };
    assert(r@ =~= spec_oid_pkcs9_email_address());
    r
}

pub const OID_PKCS9_EXTENSION_REQUEST_BYTES: [u8; 9] = [
    0x2A, 0x86, 0x48, 0x86, 0xF7, 0x0D, 0x01, 0x09, 0x0E,
];

/// 1.2.840.113549.1.9.14, the request attribute extensionRequest, as encoded.
pub open spec fn spec_oid_pkcs9_extension_request() -> Seq<u8> {
    seq![0x2Au8, 0x86u8, 0x48u8, 0x86u8, 0xF7u8, 0x0Du8, 0x01u8, 0x09u8, 0x0Eu8]
}

/// 1.2.840.113549.1.9.14, the request attribute extensionRequest.
pub fn oid_pkcs9_extension_request() -> (r: Oid<'static>)
    ensures
        r@ == spec_oid_pkcs9_extension_request(),
{
    let r = Oid { bytes: array_as_slice(&OID_PKCS9_EXTENSION_REQUEST_BYTES) };
    assert(r@ =~= spec_oid_pkcs9_extension_request());
    r
}

pub const OID_X509_EXT_SUBJECT_KEY_IDENTIFIER_BYTES: [u8; 3] = [0x55, 0x1D, 0x0E];

/// 2.5.29.14, the extension subjectKeyIdentifier, as encoded.
pub open spec fn spec_oid_x509_ext_subject_key_identifier() -> Seq<u8> {
    seq![0x55u8, 0x1Du8, 0x0Eu8]
}

/// 2.5.29.14, the extension subjectKeyIdentifier.
pub fn oid_x509_ext_subject_key_identifier() -> (r: Oid<'static>)
    ensures
        r@ == spec_oid_x509_ext_subject_key_identifier(),
{
    let r = Oid { bytes: array_as_slice(&OID_X509_EXT_SUBJECT_KEY_IDENTIFIER_BYTES) };
    assert(r@ =~= spec_oid_x509_ext_subject_key_identifier());
    r
}

pub const OID_X509_EXT_KEY_USAGE_BYTES: [u8; 3] = [0x55, 0x1D, 0x0F];

/// 2.5.29.15, the extension keyUsage, as encoded.
pub open spec fn spec_oid_x509_ext_key_usage() -> Seq<u8> {
    seq![0x55u8, 0x1Du8, 0x0Fu8]
}

/// 2.5.29.15, the extension keyUsage.
pub fn oid_x509_ext_key_usage() -> (r: Oid<'static>)
    ensures
        r@ == spec_oid_x509_ext_key_usage(),
{
    let r = Oid { bytes: array_as_slice(&OID_X509_EXT_KEY_USAGE_BYTES) };
    assert(r@ =~= spec_oid_x509_ext_key_usage());
    r
}

pub const OID_X509_EXT_SUBJECT_ALT_NAME_BYTES: [u8; 3] = [0x55, 0x1D, 0x11];

/// 2.5.29.17, the extension subjectAltName, as encoded.
pub open spec fn spec_oid_x509_ext_subject_alt_name() -> Seq<u8> {
    seq![0x55u8, 0x1Du8, 0x11u8]
}

/// 2.5.29.17, the extension subjectAltName.
pub fn oid_x509_ext_subject_alt_name() -> (r: Oid<'static>)
    ensures
        r@ == spec_oid_x509_ext_subject_alt_name(),
{
    let r = Oid { bytes: array_as_slice(&OID_X509_EXT_SUBJECT_ALT_NAME_BYTES) };
    assert(r@ =~= spec_oid_x509_ext_subject_alt_name());
    r
}

pub const OID_X509_EXT_BASIC_CONSTRAINTS_BYTES: [u8; 3] = [0x55, 0x1D, 0x13];

/// 2.5.29.19, the extension basicConstraints, as encoded.
pub open spec fn spec_oid_x509_ext_basic_constraints() -> Seq<u8> {
    seq![0x55u8, 0x1Du8, 0x13u8]
}

/// 2.5.29.19, the extension basicConstraints.
pub fn oid_x509_ext_basic_constraints() -> (r: Oid<'static>)
    ensures
        r@ == spec_oid_x509_ext_basic_constraints(),
{
    let r = Oid { bytes: array_as_slice(&OID_X509_EXT_BASIC_CONSTRAINTS_BYTES) };
    assert(r@ =~= spec_oid_x509_ext_basic_constraints());
    r
}

pub const OID_X509_EXT_CRL_NUMBER_BYTES: [u8; 3] = [0x55, 0x1D, 0x14];

/// 2.5.29.20, the extension cRLNumber, as encoded.
pub open spec fn spec_oid_x509_ext_crl_number() -> Seq<u8> {
    seq![0x55u8, 0x1Du8, 0x14u8]
}

/// 2.5.29.20, the extension cRLNumber.
pub fn oid_x509_ext_crl_number() -> (r: Oid<'static>)
    ensures
        r@ == spec_oid_x509_ext_crl_number(),
{
    let r = Oid { bytes: array_as_slice(&OID_X509_EXT_CRL_NUMBER_BYTES) };
    assert(r@ =~= spec_oid_x509_ext_crl_number());
    r
}

pub const OID_X509_EXT_REASON_CODE_BYTES: [u8; 3] = [0x55, 0x1D, 0x15];

/// 2.5.29.21, the entry extension reasonCode, as encoded.
pub open spec fn spec_oid_x509_ext_reason_code() -> Seq<u8> {
    seq![0x55u8, 0x1Du8, 0x15u8]
}

/// 2.5.29.21, the entry extension reasonCode.
pub fn oid_x509_ext_reason_code() -> (r: Oid<'static>)
    ensures
        r@ == spec_oid_x509_ext_reason_code(),
{
    let r = Oid { bytes: array_as_slice(&OID_X509_EXT_REASON_CODE_BYTES) };
    assert(r@ =~= spec_oid_x509_ext_reason_code());
    r
}

pub const OID_X509_EXT_INVALIDITY_DATE_BYTES: [u8; 3] = [0x55, 0x1D, 0x18];

/// 2.5.29.24, the entry extension invalidityDate, as encoded.
pub open spec fn spec_oid_x509_ext_invalidity_date() -> Seq<u8> {
    seq![0x55u8, 0x1Du8, 0x18u8]
}

/// 2.5.29.24, the entry extension invalidityDate.
pub fn oid_x509_ext_invalidity_date() -> (r: Oid<'static>)
    ensures
        r@ == spec_oid_x509_ext_invalidity_date(),
{
    let r = Oid { bytes: array_as_slice(&OID_X509_EXT_INVALIDITY_DATE_BYTES) };
    assert(r@ =~= spec_oid_x509_ext_invalidity_date());
    r
}

pub const OID_X509_EXT_NAME_CONSTRAINTS_BYTES: [u8; 3] = [0x55, 0x1D, 0x1E];

/// 2.5.29.30, the extension nameConstraints, as encoded.
pub open spec fn spec_oid_x509_ext_name_constraints() -> Seq<u8> {
    seq![0x55u8, 0x1Du8, 0x1Eu8]
}

/// 2.5.29.30, the extension nameConstraints.
pub fn oid_x509_ext_name_constraints() -> (r: Oid<'static>)
    ensures
        r@ == spec_oid_x509_ext_name_constraints(),
{
    let r = Oid { bytes: array_as_slice(&OID_X509_EXT_NAME_CONSTRAINTS_BYTES) };
    assert(r@ =~= spec_oid_x509_ext_name_constraints());
    r
}

pub const OID_X509_EXT_POLICY_MAPPINGS_BYTES: [u8; 3] = [0x55, 0x1D, 0x21];

/// 2.5.29.33, the extension policyMappings, as encoded.
pub open spec fn spec_oid_x509_ext_policy_mappings() -> Seq<u8> {
    seq![0x55u8, 0x1Du8, 0x21u8]
}

/// 2.5.29.33, the extension policyMappings.
pub fn oid_x509_ext_policy_mappings() -> (r: Oid<'static>)
    ensures
        r@ == spec_oid_x509_ext_policy_mappings(),
{
    let r = Oid { bytes: array_as_slice(&OID_X509_EXT_POLICY_MAPPINGS_BYTES) };
    assert(r@ =~= spec_oid_x509_ext_policy_mappings());
    r
}

pub const OID_X509_EXT_POLICY_CONSTRAINTS_BYTES: [u8; 3] = [0x55, 0x1D, 0x24];

/// 2.5.29.36, the extension policyConstraints, as encoded.
pub open spec fn spec_oid_x509_ext_policy_constraints() -> Seq<u8> {
    seq![0x55u8, 0x1Du8, 0x24u8]
}

/// 2.5.29.36, the extension policyConstraints.
pub fn oid_x509_ext_policy_constraints() -> (r: Oid<'static>)
    ensures
        r@ == spec_oid_x509_ext_policy_constraints(),
{
    let r = Oid { bytes: array_as_slice(&OID_X509_EXT_POLICY_CONSTRAINTS_BYTES) };
    assert(r@ =~= spec_oid_x509_ext_policy_constraints());
    r
}

pub const OID_X509_EXT_EXTENDED_KEY_USAGE_BYTES: [u8; 3] = [0x55, 0x1D, 0x25];

/// 2.5.29.37, the extension extKeyUsage, as encoded.
pub open spec fn spec_oid_x509_ext_extended_key_usage() -> Seq<u8> {
    seq![0x55u8, 0x1Du8, 0x25u8]
}

/// 2.5.29.37, the extension extKeyUsage.
pub fn oid_x509_ext_extended_key_usage() -> (r: Oid<'static>)
    ensures
        r@ == spec_oid_x509_ext_extended_key_usage(),
{
    let r = Oid { bytes: array_as_slice(&OID_X509_EXT_EXTENDED_KEY_USAGE_BYTES) };
    assert(r@ =~= spec_oid_x509_ext_extended_key_usage());
    r
}

pub const OID_X509_EXT_INHIBITANT_ANY_POLICY_BYTES: [u8; 3] = [0x55, 0x1D, 0x36];

/// 2.5.29.54, the extension inhibitAnyPolicy, as encoded.
pub open spec fn spec_oid_x509_ext_inhibitant_any_policy() -> Seq<u8> {
    seq![0x55u8, 0x1Du8, 0x36u8]
}

/// 2.5.29.54, the extension inhibitAnyPolicy.
pub fn oid_x509_ext_inhibitant_any_policy() -> (r: Oid<'static>)
    ensures
        r@ == spec_oid_x509_ext_inhibitant_any_policy(),
{
    let r = Oid { bytes: array_as_slice(&OID_X509_EXT_INHIBITANT_ANY_POLICY_BYTES) };
    assert(r@ =~= spec_oid_x509_ext_inhibitant_any_policy());
    r
}

pub const OID_PKCS1_SHA1WITHRSA_BYTES: [u8; 9] = [
    0x2A, 0x86, 0x48, 0x86, 0xF7, 0x0D, 0x01, 0x01, 0x05,
];

/// 1.2.840.113549.1.1.5, RSA signatures over SHA-1, as encoded.
pub open spec fn spec_oid_pkcs1_sha1withrsa() -> Seq<u8> {
    seq![0x2Au8, 0x86u8, 0x48u8, 0x86u8, 0xF7u8, 0x0Du8, 0x01u8, 0x01u8, 0x05u8]
}

/// 1.2.840.113549.1.1.5, RSA signatures over SHA-1.
pub fn oid_pkcs1_sha1withrsa() -> (r: Oid<'static>)
    ensures
        r@ == spec_oid_pkcs1_sha1withrsa(),
{
    let r = Oid { bytes: array_as_slice(&OID_PKCS1_SHA1WITHRSA_BYTES) };
    assert(r@ =~= spec_oid_pkcs1_sha1withrsa());
    r
}

pub const OID_PKCS1_SHA256WITHRSA_BYTES: [u8; 9] = [
    0x2A, 0x86, 0x48, 0x86, 0xF7, 0x0D, 0x01, 0x01, 0x0B,
];

/// 1.2.840.113549.1.1.11, RSA signatures over SHA-256, as encoded.
pub open spec fn spec_oid_pkcs1_sha256withrsa() -> Seq<u8> {
    seq![0x2Au8, 0x86u8, 0x48u8, 0x86u8, 0xF7u8, 0x0Du8, 0x01u8, 0x01u8, 0x0Bu8]
}

/// 1.2.840.113549.1.1.11, RSA signatures over SHA-256.
pub fn oid_pkcs1_sha256withrsa() -> (r: Oid<'static>)
    ensures
        r@ == spec_oid_pkcs1_sha256withrsa(),
{
    let r = Oid { bytes: array_as_slice(&OID_PKCS1_SHA256WITHRSA_BYTES) };
    assert(r@ =~= spec_oid_pkcs1_sha256withrsa());
    r
}

pub const OID_PKCS1_SHA384WITHRSA_BYTES: [u8; 9] = [
    0x2A, 0x86, 0x48, 0x86, 0xF7, 0x0D, 0x01, 0x01, 0x0C,
];

/// 1.2.840.113549.1.1.12, RSA signatures over SHA-384, as encoded.
pub open spec fn spec_oid_pkcs1_sha384withrsa() -> Seq<u8> {
    seq![0x2Au8, 0x86u8, 0x48u8, 0x86u8, 0xF7u8, 0x0Du8, 0x01u8, 0x01u8, 0x0Cu8]
}

/// 1.2.840.113549.1.1.12, RSA signatures over SHA-384.
pub fn oid_pkcs1_sha384withrsa() -> (r: Oid<'static>)
    ensures
        r@ == spec_oid_pkcs1_sha384withrsa(),
{
    let r = Oid { bytes: array_as_slice(&OID_PKCS1_SHA384WITHRSA_BYTES) };
    assert(r@ =~= spec_oid_pkcs1_sha384withrsa());
    r
}

pub const OID_PKCS1_SHA512WITHRSA_BYTES: [u8; 9] = [
    0x2A, 0x86, 0x48, 0x86, 0xF7, 0x0D, 0x01, 0x01, 0x0D,
];

/// 1.2.840.113549.1.1.13, RSA signatures over SHA-512, as encoded.
pub open spec fn spec_oid_pkcs1_sha512withrsa() -> Seq<u8> {
    seq![0x2Au8, 0x86u8, 0x48u8, 0x86u8, 0xF7u8, 0x0Du8, 0x01u8, 0x01u8, 0x0Du8]
}

/// 1.2.840.113549.1.1.13, RSA signatures over SHA-512.
pub fn oid_pkcs1_sha512withrsa() -> (r: Oid<'static>)
    ensures
        r@ == spec_oid_pkcs1_sha512withrsa(),
{
    let r = Oid { bytes: array_as_slice(&OID_PKCS1_SHA512WITHRSA_BYTES) };
    assert(r@ =~= spec_oid_pkcs1_sha512withrsa());
    r
}

pub const OID_SIG_ECDSA_WITH_SHA256_BYTES: [u8; 8] = [
    0x2A, 0x86, 0x48, 0xCE, 0x3D, 0x04, 0x03, 0x02,
];

/// 1.2.840.10045.4.3.2, ECDSA signatures over SHA-256, as encoded.
pub open spec fn spec_oid_sig_ecdsa_with_sha256() -> Seq<u8> {
    seq![0x2Au8, 0x86u8, 0x48u8, 0xCEu8, 0x3Du8, 0x04u8, 0x03u8, 0x02u8]
}

/// 1.2.840.10045.4.3.2, ECDSA signatures over SHA-256.
pub fn oid_sig_ecdsa_with_sha256() -> (r: Oid<'static>)
    ensures
        r@ == spec_oid_sig_ecdsa_with_sha256(),
{
    let r = Oid { bytes: array_as_slice(&OID_SIG_ECDSA_WITH_SHA256_BYTES) };
    assert(r@ =~= spec_oid_sig_ecdsa_with_sha256());
    r
}

pub const OID_SIG_ECDSA_WITH_SHA384_BYTES: [u8; 8] = [
    0x2A, 0x86, 0x48, 0xCE, 0x3D, 0x04, 0x03, 0x03,
];

/// 1.2.840.10045.4.3.3, ECDSA signatures over SHA-384, as encoded.
pub open spec fn spec_oid_sig_ecdsa_with_sha384() -> Seq<u8> {
    seq![0x2Au8, 0x86u8, 0x48u8, 0xCEu8, 0x3Du8, 0x04u8, 0x03u8, 0x03u8]
}

/// 1.2.840.10045.4.3.3, ECDSA signatures over SHA-384.
pub fn oid_sig_ecdsa_with_sha384() -> (r: Oid<'static>)
    ensures
        r@ == spec_oid_sig_ecdsa_with_sha384(),
{
    let r = Oid { bytes: array_as_slice(&OID_SIG_ECDSA_WITH_SHA384_BYTES) };
    assert(r@ =~= spec_oid_sig_ecdsa_with_sha384());
    r
}

/// The short name that the registry of object identifiers has for `oid`,
/// if it has one.
pub uninterp spec fn registry_short_name(oid: Seq<u8>) -> Option<Seq<char>>;

/// Looks an object identifier up in `oid_registry::OidRegistry`, filled
/// with its cryptographic and X.509 entries, and takes the entry's short name.
///
/// Trusted: the result is a function of the identifier's encoding
/// (`registry_short_name`).
#[verifier::external_body]
pub(crate) fn lookup_short_name(oid: &[u8]) -> (r: Option<String>)
    ensures
        match r {
            Some(s) => registry_short_name(oid@) == Some(s@),
            None => registry_short_name(oid@) is None,
        },
{
    let registry = oid_registry::OidRegistry::default().with_all_crypto().with_x509();
    let key = der_parser::oid::Oid::new(std::borrow::Cow::Borrowed(oid));
    registry.get(&key).map(|e| e.sn().to_string())
}

/// The dotted decimal form of the identifier that `oid` encodes.
pub uninterp spec fn oid_id_string(oid: Seq<u8>) -> Seq<char>;

/// Writes an object identifier in dotted decimal with
/// `der_parser::oid::Oid::to_id_string`.
///
/// Trusted: the result is a function of the identifier's encoding
/// (`oid_id_string`).
#[verifier::external_body]
pub(crate) fn id_string(oid: &[u8]) -> (r: String)
    ensures
        r@ == oid_id_string(oid@),
{
    der_parser::oid::Oid::new(std::borrow::Cow::Borrowed(oid)).to_id_string()
}

/// The abbreviation under which an attribute type is written in a name,
/// for the eight types that have one.
pub open spec fn spec_abbreviation(oid: Seq<u8>) -> Option<Seq<char>> {
    if oid == spec_oid_x509_common_name() {
        Some("CN"@)
    } else if oid == spec_oid_x509_country_name() {
        Some("C"@)
    } else if oid == spec_oid_x509_locality_name() {
        Some("L"@)
    } else if oid == spec_oid_x509_state_or_province_name() {
        Some("ST"@)
    } else if oid == spec_oid_x509_organization_name() {
        Some("O"@)
    } else if oid == spec_oid_x509_organizational_unit() {
        Some("OU"@)
    } else if oid == spec_oid_domain_component() {
        Some("DC"@)
    } else if oid == spec_oid_pkcs9_email_address() {
        Some("Email"@)
    } else {
        None
    }
}

/// The name under which an object identifier is written: its abbreviation;
/// failing that, the registry's short name; failing that, its dotted decimal
/// form, as in `1.2.3.4`.
pub open spec fn spec_oid_name(oid: Seq<u8>) -> Seq<char> {
    match spec_abbreviation(oid) {
        Some(s) => s,
        None => match registry_short_name(oid) {
            Some(s) => s,
            None => oid_id_string(oid),
        },
    }
}

/// The abbreviation of an attribute type, if it has one.
pub fn oid2abbreviation(oid: &Oid) -> (r: Option<&'static str>)
    ensures
        match r {
            Some(s) => spec_abbreviation(oid@) == Some(s@),
            None => spec_abbreviation(oid@) is None,
        },
{
    if oid.equals(&oid_x509_common_name()) {
        Some("CN")
    } else if oid.equals(&oid_x509_country_name()) {
        Some("C")
    } else if oid.equals(&oid_x509_locality_name()) {
        Some("L")
    } else if oid.equals(&oid_x509_state_or_province_name()) {
        Some("ST")
    } else if oid.equals(&oid_x509_organization_name()) {
        Some("O")
    } else if oid.equals(&oid_x509_organizational_unit()) {
        Some("OU")
    } else if oid.equals(&oid_domain_component()) {
        Some("DC")
    } else if oid.equals(&oid_pkcs9_email_address()) {
        Some("Email")
    } else {
        None
    }
}

/// The abbreviation of an object identifier or, failing that, the
/// registry's short name for it.
pub fn oid2abbrev(oid: &Oid) -> (r: Option<String>)
    ensures
        match r {
            Some(s) => s@ == spec_oid_name(oid@) && (spec_abbreviation(oid@) is Some
                || registry_short_name(oid@) is Some),
            None => spec_abbreviation(oid@) is None && registry_short_name(oid@) is None,
        },
{
    match oid2abbreviation(oid) {
        Some(s) => Some(String::from_str(s)),
        None => lookup_short_name(oid.bytes()),
    }
}

/// The name under which an object identifier is written.
pub fn oid_name(oid: &Oid) -> (r: String)
    ensures
        r@ == spec_oid_name(oid@),
{
    match oid2abbrev(oid) {
        Some(s) => s,
        None => id_string(oid.bytes()),
    }
}

} // verus!

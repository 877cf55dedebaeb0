use std::borrow::Cow;

use x509_parser::objects::{
    oid_domain_component, oid_pkcs1_sha1withrsa, oid_pkcs1_sha256withrsa, oid_pkcs1_sha384withrsa,
    oid_pkcs1_sha512withrsa, oid_pkcs9_email_address, oid_pkcs9_extension_request,
    oid_sig_ecdsa_with_sha256, oid_sig_ecdsa_with_sha384, oid_x509_common_name,
    oid_x509_country_name, oid_x509_ext_basic_constraints, oid_x509_ext_crl_number,
    oid_x509_ext_extended_key_usage, oid_x509_ext_inhibitant_any_policy,
    oid_x509_ext_invalidity_date, oid_x509_ext_key_usage, oid_x509_ext_name_constraints,
    oid_x509_ext_policy_constraints, oid_x509_ext_policy_mappings, oid_x509_ext_reason_code,
    oid_x509_ext_subject_alt_name, oid_x509_ext_subject_key_identifier, oid_x509_locality_name,
    oid_x509_organization_name, oid_x509_organizational_unit, oid_x509_state_or_province_name,
    OID_DOMAIN_COMPONENT_BYTES, OID_PKCS1_SHA1WITHRSA_BYTES, OID_PKCS1_SHA256WITHRSA_BYTES,
    OID_PKCS1_SHA384WITHRSA_BYTES, OID_PKCS1_SHA512WITHRSA_BYTES, OID_PKCS9_EMAIL_ADDRESS_BYTES,
    OID_PKCS9_EXTENSION_REQUEST_BYTES, OID_SIG_ECDSA_WITH_SHA256_BYTES,
    OID_SIG_ECDSA_WITH_SHA384_BYTES, OID_X509_COMMON_NAME_BYTES, OID_X509_COUNTRY_NAME_BYTES,
    OID_X509_EXT_BASIC_CONSTRAINTS_BYTES, OID_X509_EXT_CRL_NUMBER_BYTES,
    OID_X509_EXT_EXTENDED_KEY_USAGE_BYTES, OID_X509_EXT_INHIBITANT_ANY_POLICY_BYTES,
    OID_X509_EXT_INVALIDITY_DATE_BYTES, OID_X509_EXT_KEY_USAGE_BYTES,
    OID_X509_EXT_NAME_CONSTRAINTS_BYTES, OID_X509_EXT_POLICY_CONSTRAINTS_BYTES,
    OID_X509_EXT_POLICY_MAPPINGS_BYTES, OID_X509_EXT_REASON_CODE_BYTES,
    OID_X509_EXT_SUBJECT_ALT_NAME_BYTES, OID_X509_EXT_SUBJECT_KEY_IDENTIFIER_BYTES,
    OID_X509_LOCALITY_NAME_BYTES, OID_X509_ORGANIZATION_NAME_BYTES,
    OID_X509_ORGANIZATIONAL_UNIT_BYTES, OID_X509_STATE_OR_PROVINCE_NAME_BYTES,
};
use x509_parser::oid::Oid;

/// Holds one identifier of the library, the function and the bytes, to the
/// registry's constant of the same name.
fn same(ours: Oid<'static>, bytes: &'static [u8], theirs: &oid_registry::Oid<'static>) {
    assert_eq!(ours.bytes(), theirs.bytes());
    assert_eq!(bytes, theirs.bytes());
    assert_eq!(&oid_registry::Oid::new(Cow::Borrowed(ours.bytes())), theirs);
    assert!(!theirs.relative);
}

#[test]
fn known_identifiers_are_those_of_the_registry() {
    same(oid_x509_common_name(), &OID_X509_COMMON_NAME_BYTES, &oid_registry::OID_X509_COMMON_NAME);
    same(
        oid_x509_country_name(),
        &OID_X509_COUNTRY_NAME_BYTES,
        &oid_registry::OID_X509_COUNTRY_NAME,
    );
    same(
        oid_x509_locality_name(),
        &OID_X509_LOCALITY_NAME_BYTES,
        &oid_registry::OID_X509_LOCALITY_NAME,
    );
    same(
        oid_x509_state_or_province_name(),
        &OID_X509_STATE_OR_PROVINCE_NAME_BYTES,
        &oid_registry::OID_X509_STATE_OR_PROVINCE_NAME,
    );
    same(
        oid_x509_organization_name(),
        &OID_X509_ORGANIZATION_NAME_BYTES,
        &oid_registry::OID_X509_ORGANIZATION_NAME,
    );
    same(
        oid_x509_organizational_unit(),
        &OID_X509_ORGANIZATIONAL_UNIT_BYTES,
        &oid_registry::OID_X509_ORGANIZATIONAL_UNIT,
    );
    same(oid_domain_component(), &OID_DOMAIN_COMPONENT_BYTES, &oid_registry::OID_DOMAIN_COMPONENT);
    same(
        oid_pkcs9_email_address(),
        &OID_PKCS9_EMAIL_ADDRESS_BYTES,
        &oid_registry::OID_PKCS9_EMAIL_ADDRESS,
    );
    same(
        oid_pkcs9_extension_request(),
        &OID_PKCS9_EXTENSION_REQUEST_BYTES,
        &oid_registry::OID_PKCS9_EXTENSION_REQUEST,
    );
    same(
        oid_x509_ext_subject_key_identifier(),
        &OID_X509_EXT_SUBJECT_KEY_IDENTIFIER_BYTES,
        &oid_registry::OID_X509_EXT_SUBJECT_KEY_IDENTIFIER,
    );
    same(
        oid_x509_ext_key_usage(),
        &OID_X509_EXT_KEY_USAGE_BYTES,
        &oid_registry::OID_X509_EXT_KEY_USAGE,
    );
    same(
        oid_x509_ext_subject_alt_name(),
        &OID_X509_EXT_SUBJECT_ALT_NAME_BYTES,
        &oid_registry::OID_X509_EXT_SUBJECT_ALT_NAME,
    );
    same(
        oid_x509_ext_basic_constraints(),
        &OID_X509_EXT_BASIC_CONSTRAINTS_BYTES,
        &oid_registry::OID_X509_EXT_BASIC_CONSTRAINTS,
    );
    same(
        oid_x509_ext_crl_number(),
        &OID_X509_EXT_CRL_NUMBER_BYTES,
        &oid_registry::OID_X509_EXT_CRL_NUMBER,
    );
    same(
        oid_x509_ext_reason_code(),
        &OID_X509_EXT_REASON_CODE_BYTES,
        &oid_registry::OID_X509_EXT_REASON_CODE,
    );
    same(
        oid_x509_ext_invalidity_date(),
        &OID_X509_EXT_INVALIDITY_DATE_BYTES,
        &oid_registry::OID_X509_EXT_INVALIDITY_DATE,
    );
    same(
        oid_x509_ext_name_constraints(),
        &OID_X509_EXT_NAME_CONSTRAINTS_BYTES,
        &oid_registry::OID_X509_EXT_NAME_CONSTRAINTS,
    );
    same(
        oid_x509_ext_policy_mappings(),
        &OID_X509_EXT_POLICY_MAPPINGS_BYTES,
        &oid_registry::OID_X509_EXT_POLICY_MAPPINGS,
    );
    same(
        oid_x509_ext_policy_constraints(),
        &OID_X509_EXT_POLICY_CONSTRAINTS_BYTES,
        &oid_registry::OID_X509_EXT_POLICY_CONSTRAINTS,
    );
    same(
        oid_x509_ext_extended_key_usage(),
        &OID_X509_EXT_EXTENDED_KEY_USAGE_BYTES,
        &oid_registry::OID_X509_EXT_EXTENDED_KEY_USAGE,
    );
    same(
        oid_x509_ext_inhibitant_any_policy(),
        &OID_X509_EXT_INHIBITANT_ANY_POLICY_BYTES,
        &oid_registry::OID_X509_EXT_INHIBITANT_ANY_POLICY,
    );
    same(
        oid_pkcs1_sha1withrsa(),
        &OID_PKCS1_SHA1WITHRSA_BYTES,
        &oid_registry::OID_PKCS1_SHA1WITHRSA,
    );
    same(
        oid_pkcs1_sha256withrsa(),
        &OID_PKCS1_SHA256WITHRSA_BYTES,
        &oid_registry::OID_PKCS1_SHA256WITHRSA,
    );
    same(
        oid_pkcs1_sha384withrsa(),
        &OID_PKCS1_SHA384WITHRSA_BYTES,
        &oid_registry::OID_PKCS1_SHA384WITHRSA,
    );
    same(
        oid_pkcs1_sha512withrsa(),
        &OID_PKCS1_SHA512WITHRSA_BYTES,
        &oid_registry::OID_PKCS1_SHA512WITHRSA,
    );
    same(
        oid_sig_ecdsa_with_sha256(),
        &OID_SIG_ECDSA_WITH_SHA256_BYTES,
        &oid_registry::OID_SIG_ECDSA_WITH_SHA256,
    );
    same(
        oid_sig_ecdsa_with_sha384(),
        &OID_SIG_ECDSA_WITH_SHA384_BYTES,
        &oid_registry::OID_SIG_ECDSA_WITH_SHA384,
    );
}

#[test]
fn known_identifiers_in_dotted_form() {
    let dotted = |oid: Oid| oid_registry::Oid::new(Cow::Borrowed(oid.bytes())).to_id_string();
    assert_eq!(dotted(oid_x509_common_name()), "2.5.4.3");
    assert_eq!(dotted(oid_x509_country_name()), "2.5.4.6");
    assert_eq!(dotted(oid_x509_locality_name()), "2.5.4.7");
    assert_eq!(dotted(oid_x509_state_or_province_name()), "2.5.4.8");
    assert_eq!(dotted(oid_x509_organization_name()), "2.5.4.10");
    assert_eq!(dotted(oid_x509_organizational_unit()), "2.5.4.11");
    assert_eq!(dotted(oid_domain_component()), "0.9.2342.19200300.100.1.25");
    assert_eq!(dotted(oid_pkcs9_email_address()), "1.2.840.113549.1.9.1");
    assert_eq!(dotted(oid_pkcs9_extension_request()), "1.2.840.113549.1.9.14");
    assert_eq!(dotted(oid_x509_ext_subject_key_identifier()), "2.5.29.14");
    assert_eq!(dotted(oid_x509_ext_key_usage()), "2.5.29.15");
    assert_eq!(dotted(oid_x509_ext_subject_alt_name()), "2.5.29.17");
    assert_eq!(dotted(oid_x509_ext_basic_constraints()), "2.5.29.19");
    assert_eq!(dotted(oid_x509_ext_crl_number()), "2.5.29.20");
    assert_eq!(dotted(oid_x509_ext_reason_code()), "2.5.29.21");
    assert_eq!(dotted(oid_x509_ext_invalidity_date()), "2.5.29.24");
    assert_eq!(dotted(oid_x509_ext_name_constraints()), "2.5.29.30");
    assert_eq!(dotted(oid_x509_ext_policy_mappings()), "2.5.29.33");
    assert_eq!(dotted(oid_x509_ext_policy_constraints()), "2.5.29.36");
    assert_eq!(dotted(oid_x509_ext_extended_key_usage()), "2.5.29.37");
    assert_eq!(dotted(oid_x509_ext_inhibitant_any_policy()), "2.5.29.54");
    assert_eq!(dotted(oid_pkcs1_sha1withrsa()), "1.2.840.113549.1.1.5");
    assert_eq!(dotted(oid_pkcs1_sha256withrsa()), "1.2.840.113549.1.1.11");
    assert_eq!(dotted(oid_pkcs1_sha384withrsa()), "1.2.840.113549.1.1.12");
    assert_eq!(dotted(oid_pkcs1_sha512withrsa()), "1.2.840.113549.1.1.13");
    assert_eq!(dotted(oid_sig_ecdsa_with_sha256()), "1.2.840.10045.4.3.2");
    assert_eq!(dotted(oid_sig_ecdsa_with_sha384()), "1.2.840.10045.4.3.3");
}

use x509_parser::error::X509Error;
use x509_parser::objects::{
    oid2abbrev, oid2abbreviation, oid_domain_component, oid_name, oid_pkcs1_sha1withrsa,
    oid_pkcs1_sha256withrsa, oid_pkcs1_sha384withrsa, oid_pkcs1_sha512withrsa,
    oid_pkcs9_email_address, oid_sig_ecdsa_with_sha256, oid_sig_ecdsa_with_sha384,
    oid_x509_common_name, oid_x509_country_name, oid_x509_ext_basic_constraints,
    oid_x509_ext_key_usage, oid_x509_locality_name, oid_x509_organization_name,
    oid_x509_organizational_unit, oid_x509_state_or_province_name,
};
use x509_parser::oid::{bytes_eq, parse_oid, Oid};
use x509_parser::signature::{signature_algorithm, verify, SignatureAlgorithm};

#[test]
fn common_name_is_2_5_4_3() {
    let cn = oid_x509_common_name();
    assert_eq!(cn.bytes(), &[0x55, 0x04, 0x03]);
    assert!(cn.equals(&Oid::new(&[0x55, 0x04, 0x03])));
    assert!(!cn.equals(&Oid::new(&[0x55, 0x04, 0x06])));
    assert!(!bytes_eq(&[1, 2], &[1, 2, 3]));
    assert!(bytes_eq(&[], &[]));
}

#[test]
fn names_of_identifiers() {
    assert_eq!(oid2abbreviation(&oid_x509_common_name()), Some("CN"));
    assert_eq!(oid2abbreviation(&oid_x509_country_name()), Some("C"));
    assert_eq!(oid2abbreviation(&oid_x509_locality_name()), Some("L"));
    assert_eq!(oid2abbreviation(&oid_x509_state_or_province_name()), Some("ST"));
    assert_eq!(oid2abbreviation(&oid_x509_organization_name()), Some("O"));
    assert_eq!(oid2abbreviation(&oid_x509_organizational_unit()), Some("OU"));
    assert_eq!(oid2abbreviation(&oid_domain_component()), Some("DC"));
    assert_eq!(oid2abbreviation(&oid_pkcs9_email_address()), Some("Email"));
    assert_eq!(oid2abbreviation(&oid_x509_ext_key_usage()), None);
    assert_eq!(oid2abbrev(&oid_x509_common_name()), Some("CN".to_string()));
    assert_eq!(oid2abbrev(&oid_x509_ext_key_usage()), Some("keyUsage".to_string()));
    assert_eq!(oid2abbrev(&oid_pkcs1_sha256withrsa()), Some("sha256WithRSAEncryption".to_string()));
    assert_eq!(oid2abbrev(&Oid::new(&[0x2a, 0x03, 0x04])), None);
    assert_eq!(oid_name(&Oid::new(&[0x2a, 0x03, 0x04])), "1.2.3.4");
    assert_eq!(oid_name(&Oid::new(&[0x2a, 0x86, 0x48])), "1.2.840");
    assert_eq!(oid_name(&oid_x509_organization_name()), "O");
    assert_eq!(oid_name(&oid_x509_ext_basic_constraints()), "basicConstraints");
}

#[test]
fn object_identifier_from_der() {
    let (rest, oid) = parse_oid(&[0x06, 0x03, 0x55, 0x04, 0x03, 0x0c]).unwrap();
    assert_eq!(rest, &[0x0c]);
    assert!(oid.equals(&oid_x509_common_name()));
    assert_eq!(parse_oid(&[0x06, 0x03, 0x55, 0x04]).err(), Some(X509Error::Truncated));
    assert_eq!(parse_oid(&[0x04, 0x01, 0x55]).err(), Some(X509Error::Malformed));
    // the last byte announces another one
    assert_eq!(parse_oid(&[0x06, 0x02, 0x55, 0x84]).err(), Some(X509Error::Malformed));
    assert_eq!(parse_oid(&[0x06, 0x00]).err(), Some(X509Error::Malformed));
}

#[test]
fn signature_algorithms_by_identifier() {
    assert_eq!(
        signature_algorithm(&oid_pkcs1_sha1withrsa()),
        Some(SignatureAlgorithm::RsaPkcs1Sha1)
    );
    assert_eq!(
        signature_algorithm(&oid_pkcs1_sha256withrsa()),
        Some(SignatureAlgorithm::RsaPkcs1Sha256)
    );
    assert_eq!(
        signature_algorithm(&oid_pkcs1_sha384withrsa()),
        Some(SignatureAlgorithm::RsaPkcs1Sha384)
    );
    assert_eq!(
        signature_algorithm(&oid_pkcs1_sha512withrsa()),
        Some(SignatureAlgorithm::RsaPkcs1Sha512)
    );
    assert_eq!(
        signature_algorithm(&oid_sig_ecdsa_with_sha256()),
        Some(SignatureAlgorithm::EcdsaP256Sha256)
    );
    assert_eq!(
        signature_algorithm(&oid_sig_ecdsa_with_sha384()),
        Some(SignatureAlgorithm::EcdsaP384Sha384)
    );
    assert_eq!(signature_algorithm(&oid_x509_common_name()), None);
    assert_eq!(
        verify(&oid_x509_common_name(), &[], &[], &[]),
        Err(X509Error::SignatureUnsupportedAlgorithm)
    );
    assert_eq!(
        verify(&oid_sig_ecdsa_with_sha256(), &[1, 2, 3], b"message", &[4, 5, 6]),
        Err(X509Error::SignatureVerificationError)
    );
}

#[test]
fn object_identifier_in_another_class_is_refused() {
    // [6] with the bytes of 2.5.4.3
    assert_eq!(parse_oid(&[0x86, 0x03, 0x55, 0x04, 0x03]).err(), Some(X509Error::InvalidTag));
}

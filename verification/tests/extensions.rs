use num_bigint::BigUint;
use x509_parser::error::X509Error;
use x509_parser::extensions::{
    parse_basic_constraints, parse_crl_number, parse_extended_key_usage,
    parse_inhibit_any_policy, parse_invalidity_date, parse_key_usage, parse_policy_constraints,
    parse_policy_mappings, parse_reason_code, parse_subject_key_identifier,
    parse_unsigned_integer, BasicConstraints, PolicyConstraints, ReasonCode,
};
use x509_parser::general_name::{
    parse_name_constraints, parse_subject_alternative_name, GeneralName,
};
use x509_parser::oid::Oid;
use x509_parser::x509_extension::{parse_extension, ParsedExtension};

#[test]
fn basic_constraints_forms() {
    assert_eq!(
        parse_basic_constraints(&[0x30, 0x00]),
        Ok(BasicConstraints { ca: false, path_len_constraint: None })
    );
    assert_eq!(
        parse_basic_constraints(&[0x30, 0x03, 0x01, 0x01, 0xff]),
        Ok(BasicConstraints { ca: true, path_len_constraint: None })
    );
    assert_eq!(
        parse_basic_constraints(&[0x30, 0x06, 0x01, 0x01, 0xff, 0x02, 0x01, 0x05]),
        Ok(BasicConstraints { ca: true, path_len_constraint: Some(5) })
    );
    assert_eq!(
        parse_basic_constraints(&[0x30, 0x03, 0x02, 0x01, 0x00]),
        Ok(BasicConstraints { ca: false, path_len_constraint: Some(0) })
    );
    assert_eq!(
        parse_basic_constraints(&[0x30, 0x02, 0x05, 0x00]),
        Err(X509Error::InvalidExtensions)
    );
    assert_eq!(parse_basic_constraints(&[0x30, 0x00, 0x00]), Err(X509Error::InvalidExtensions));
    assert_eq!(parse_basic_constraints(&[0x31, 0x00]), Err(X509Error::InvalidTag));
    assert_eq!(parse_basic_constraints(&[0x30, 0x01]), Err(X509Error::Truncated));
}

#[test]
fn key_usage_bits() {
    // nine bits, the first and the last set: digitalSignature and decipherOnly
    let ku = parse_key_usage(&[0x03, 0x03, 0x07, 0x80, 0x80]).unwrap();
    assert_eq!(ku.flags, 0x0101);
    assert!(ku.digital_signature());
    assert!(ku.decipher_only());
    assert!(!ku.encipher_only());
    let ku = parse_key_usage(&[0x03, 0x02, 0x00, 0x7f]).unwrap();
    assert_eq!(ku.flags, 0xfe);
    assert!(!ku.digital_signature());
    assert!(ku.non_repudiation());
    assert!(ku.key_encipherment());
    assert!(ku.data_encipherment());
    assert!(ku.key_agreement());
    assert!(ku.key_cert_sign());
    assert!(ku.crl_sign());
    assert!(ku.encipher_only());
    assert_eq!(parse_key_usage(&[0x03, 0x01, 0x00]).unwrap().flags, 0);
    assert_eq!(parse_key_usage(&[0x03, 0x04, 0x00, 1, 2, 3]), Err(X509Error::InvalidExtensions));
    assert_eq!(parse_key_usage(&[0x03, 0x02, 0x00, 0x80, 0x00]), Err(X509Error::InvalidExtensions));
}

#[test]
fn small_extensions() {
    assert_eq!(parse_subject_key_identifier(&[0x04, 0x02, 0xaa, 0xbb]).unwrap().0, &[0xaa, 0xbb]);
    assert_eq!(
        parse_subject_key_identifier(&[0x04, 0x01, 0xaa, 0xbb]).err(),
        Some(X509Error::InvalidExtensions)
    );
    assert_eq!(parse_inhibit_any_policy(&[0x02, 0x01, 0x02]).unwrap().skip_certs, 2);
    assert_eq!(
        parse_inhibit_any_policy(&[0x02, 0x01, 0x02, 0x00]).err(),
        Some(X509Error::InvalidExtensions)
    );
    assert_eq!(parse_reason_code(&[0x0a, 0x01, 0x04]), Ok(ReasonCode(4)));
    assert_eq!(parse_reason_code(&[0x0a, 0x02, 0x00, 0x04]), Err(X509Error::InvalidExtensions));
    assert_eq!(parse_reason_code(&[0x02, 0x01, 0x04]), Err(X509Error::Malformed));
    assert_eq!(parse_crl_number(&[0x02, 0x03, 0x01, 0x00, 0x01]), Ok(BigUint::from(65537u32)));
    assert_eq!(parse_crl_number(&[0x02, 0x01, 0x80]), Err(X509Error::Malformed));
    let t = parse_invalidity_date(&[
        0x18, 0x0f, b'2', b'0', b'2', b'4', b'0', b'1', b'0', b'1', b'0', b'0', b'0', b'0', b'0',
        b'0', b'Z',
    ])
    .unwrap();
    assert_eq!(t.timestamp(), 1704067200);
    assert_eq!(parse_invalidity_date(&[0x05, 0x00]), Err(X509Error::InvalidDate));
    assert_eq!(
        parse_unsigned_integer(&[0x02, 0x02, 0x00, 0x80]),
        Ok((&[][..], &[0x00u8, 0x80][..]))
    );
}

#[test]
fn big_numbers_keep_every_byte() {
    // twenty bytes, as revocation lists may number themselves
    let mut der = vec![0x02, 0x14];
    der.extend_from_slice(&[0x7f; 20]);
    let n = parse_crl_number(&der).unwrap();
    assert_eq!(n.to_bytes_be(), vec![0x7f; 20]);
}

#[test]
fn policy_extensions() {
    assert_eq!(
        parse_policy_constraints(&[0x30, 0x06, 0x80, 0x01, 0x03, 0x81, 0x01, 0x01]),
        Ok(PolicyConstraints { require_explicit_policy: Some(3), inhibit_policy_mapping: Some(1) })
    );
    assert_eq!(
        parse_policy_constraints(&[0x30, 0x03, 0x81, 0x01, 0x09]),
        Ok(PolicyConstraints { require_explicit_policy: None, inhibit_policy_mapping: Some(9) })
    );
    assert_eq!(
        parse_policy_constraints(&[0x30, 0x00]),
        Ok(PolicyConstraints { require_explicit_policy: None, inhibit_policy_mapping: None })
    );
    // the two fields in the wrong order
    assert_eq!(
        parse_policy_constraints(&[0x30, 0x06, 0x81, 0x01, 0x03, 0x80, 0x01, 0x01]),
        Err(X509Error::InvalidExtensions)
    );
    let pm = parse_policy_mappings(&[
        0x30, 0x0c, 0x30, 0x0a, 0x06, 0x03, 0x2a, 0x03, 0x04, 0x06, 0x03, 0x2a, 0x03, 0x05,
    ])
    .unwrap();
    assert_eq!(pm.mappings.len(), 1);
    assert_eq!(pm.mappings[0].subject_domain_policy.bytes(), &[0x2a, 0x03, 0x05]);
    let eku =
        parse_extended_key_usage(&[0x30, 0x08, 0x06, 0x02, 0x2a, 0x03, 0x06, 0x02, 0x2a, 0x04])
            .unwrap();
    assert_eq!(eku.purposes.len(), 2);
    assert_eq!(eku.purposes[1].bytes(), &[0x2a, 0x04]);
    assert!(parse_extended_key_usage(&[0x30, 0x04, 0x06, 0x02, 0x2a, 0x03, 0x00]).is_err());
    assert!(parse_extended_key_usage(&[0x30, 0x04, 0x05, 0x00, 0x05, 0x00]).is_err());
}

#[test]
fn general_names() {
    // SEQUENCE { [2] "a.b", [4] { Name { CN=x } }, [8] 1.2.3, [0] { .. }, [7] 4 bytes }
    let der = [
        0x30, 0x25, 0x82, 0x03, b'a', b'.', b'b', 0xa4, 0x0e, 0x30, 0x0c, 0x31, 0x0a, 0x30, 0x08,
        0x06, 0x03, 0x55, 0x04, 0x03, 0x0c, 0x01, b'x', 0x88, 0x02, 0x2a, 0x03, 0xa0, 0x02, 0x05,
        0x00, 0x87, 0x04, 10, 0, 0, 1, 0x81, 0x00,
    ];
    let san = parse_subject_alternative_name(&der).unwrap();
    assert_eq!(san.general_names.len(), 6);
    assert!(matches!(san.general_names[0], GeneralName::DNSName("a.b")));
    match &san.general_names[1] {
        GeneralName::DirectoryName(name) => assert_eq!(name.to_string(), "CN=x"),
        other => panic!("wrong variant: {:?}", other),
    }
    assert!(
        matches!(
            &san.general_names[2],
            GeneralName::RegisteredID(oid) if oid.bytes() == [0x2a, 0x03]
        )
    );
    assert!(matches!(san.general_names[3], GeneralName::OtherName(&[0x05, 0x00])));
    assert!(matches!(san.general_names[4], GeneralName::IPAddress(&[10, 0, 0, 1])));
    assert!(matches!(san.general_names[5], GeneralName::RFC822Name("")));
    // a name that is not ASCII
    assert_eq!(
        parse_subject_alternative_name(&[0x30, 0x04, 0x82, 0x02, 0xc3, 0xa9]).err(),
        Some(X509Error::Malformed)
    );
    // a universal element is no general name
    assert_eq!(
        parse_subject_alternative_name(&[0x30, 0x02, 0x05, 0x00]).err(),
        Some(X509Error::InvalidTag)
    );
    // [9] is no general name
    assert_eq!(
        GeneralName::from_der(&[0x89, 0x00]).err(),
        Some(X509Error::InvalidTag)
    );
    assert!(matches!(GeneralName::from_content(3, &[1]), Ok(GeneralName::X400Address(&[1]))));
    assert!(matches!(GeneralName::from_content(5, &[1]), Ok(GeneralName::EDIPartyName(&[1]))));
    assert!(matches!(GeneralName::from_content(6, b"u:r"), Ok(GeneralName::URI("u:r"))));
}

#[test]
fn name_constraints_with_depths() {
    // SEQUENCE { [1] { SEQUENCE { [2] "x", [0] 1, [1] 2 } } }
    let der = [
        0x30, 0x0d, 0xa1, 0x0b, 0x30, 0x09, 0x82, 0x01, b'x', 0x80, 0x01, 0x01, 0x81, 0x01, 0x02,
    ];
    let nc = parse_name_constraints(&der).unwrap();
    assert!(nc.permitted_subtrees.is_none());
    let excluded = nc.excluded_subtrees.unwrap();
    assert_eq!(excluded.len(), 1);
    assert_eq!(excluded[0].minimum, 1);
    assert_eq!(excluded[0].maximum, Some(2));
    let nc = parse_name_constraints(&[0x30, 0x00]).unwrap();
    assert!(nc.permitted_subtrees.is_none() && nc.excluded_subtrees.is_none());
    assert!(parse_name_constraints(&[0x30, 0x02, 0xa2, 0x00]).is_err());
}

#[test]
fn decoder_is_chosen_by_object_identifier() {
    let bc = [0x30, 0x03, 0x01, 0x01, 0xff];
    assert!(matches!(
        parse_extension(&bc, &Oid::new(&[0x55, 0x1d, 0x13])),
        ParsedExtension::BasicConstraints(BasicConstraints { ca: true, path_len_constraint: None })
    ));
    // the same content under the object identifier of keyUsage is refused by that decoder
    assert!(matches!(
        parse_extension(&bc, &Oid::new(&[0x55, 0x1d, 0x0f])),
        ParsedExtension::UnsupportedExtension
    ));
    assert!(matches!(
        parse_extension(&bc, &Oid::new(&[0x2a, 0x03])),
        ParsedExtension::UnsupportedExtension
    ));
    assert!(matches!(
        parse_extension(&[0x0a, 0x01, 0x06], &Oid::new(&[0x55, 0x1d, 0x15])),
        ParsedExtension::ReasonCode(ReasonCode(6))
    ));
    assert!(matches!(
        parse_extension(&[0x02, 0x01, 0x06], &Oid::new(&[0x55, 0x1d, 0x14])),
        ParsedExtension::CRLNumber(_)
    ));
    assert!(matches!(
        parse_extension(&[0x02, 0x01, 0x06], &Oid::new(&[0x55, 0x1d, 0x36])),
        ParsedExtension::InhibitAnyPolicy(_)
    ));
    assert!(matches!(
        parse_extension(&[0x04, 0x01, 0x06], &Oid::new(&[0x55, 0x1d, 0x0e])),
        ParsedExtension::SubjectKeyIdentifier(_)
    ));
    assert!(matches!(
        parse_extension(&[0x30, 0x00], &Oid::new(&[0x55, 0x1d, 0x25])),
        ParsedExtension::ExtendedKeyUsage(_)
    ));
    assert!(matches!(
        parse_extension(&[0x30, 0x00], &Oid::new(&[0x55, 0x1d, 0x21])),
        ParsedExtension::PolicyMappings(_)
    ));
    assert!(matches!(
        parse_extension(&[0x30, 0x00], &Oid::new(&[0x55, 0x1d, 0x24])),
        ParsedExtension::PolicyConstraints(_)
    ));
    assert!(matches!(
        parse_extension(&[0x30, 0x00], &Oid::new(&[0x55, 0x1d, 0x1e])),
        ParsedExtension::NameConstraints(_)
    ));
    assert!(matches!(
        parse_extension(&[0x30, 0x00], &Oid::new(&[0x55, 0x1d, 0x11])),
        ParsedExtension::SubjectAlternativeName(_)
    ));
}

use x509_parser::der::DerObject;
use x509_parser::error::X509Error;
use x509_parser::name::{
    attribute_to_string, attribute_value_to_string, parse_attribute_value,
    parse_unchecked_printable, rdn_to_string, x509name_to_string, AttributeTypeAndValue,
    RelativeDistinguishedName, X509Name,
};
use x509_parser::oid::Oid;

fn printable(oid: &'static [u8], text: &'static str) -> AttributeTypeAndValue<'static> {
    AttributeTypeAndValue {
        attr_type: Oid::new(oid),
        attr_value: DerObject::universal(19, text.as_bytes()),
    }
}

#[test]
fn test_x509_name() {
    let name = X509Name {
        rdn_seq: vec![
            RelativeDistinguishedName {
                set: vec![printable(&[0x55, 0x04, 0x06], "FR")], // countryName
            },
            RelativeDistinguishedName {
                set: vec![printable(&[0x55, 0x04, 0x08], "Some-State")], // stateOrProvinceName
            },
            RelativeDistinguishedName {
                // organizationName
                set: vec![printable(&[0x55, 0x04, 0x0a], "Internet Widgits Pty Ltd")],
            },
            RelativeDistinguishedName {
                set: vec![
                    printable(&[0x55, 0x04, 0x03], "Test1"), // CN
                    printable(&[0x55, 0x04, 0x03], "Test2"), // CN
                ],
            },
        ],
        raw: &[], // incorrect, but enough for testing
    };
    assert_eq!(
        name.to_string(),
        "C=FR, ST=Some-State, O=Internet Widgits Pty Ltd, CN=Test1 + CN=Test2"
    );
}

#[test]
fn name_with_one_rdn_of_two_attributes() {
    let name = X509Name {
        rdn_seq: vec![RelativeDistinguishedName {
            set: vec![
                printable(&[0x55, 0x04, 0x03], "Test1"),
                printable(&[0x55, 0x04, 0x03], "Test2"),
            ],
        }],
        raw: &[],
    };
    assert_eq!(name.to_string(), "CN=Test1 + CN=Test2");
}

#[test]
fn name_shows_other_values_in_hexadecimal() {
    let name = X509Name {
        rdn_seq: vec![RelativeDistinguishedName {
            set: vec![AttributeTypeAndValue {
                attr_type: Oid::new(&[0x55, 0x04, 0x03]),
                attr_value: DerObject::universal(4, &[0xde, 0xad, 0xbe, 0xef]),
            }],
        }],
        raw: &[],
    };
    assert_eq!(name.to_string(), "CN=DEADBEEF");
}

#[test]
fn name_uses_registry_name_then_dotted_form() {
    // 2.5.4.4 surname has no abbreviation but is in the registry;
    // 1.2.3.4 is in neither.
    let name = X509Name {
        rdn_seq: vec![
            RelativeDistinguishedName { set: vec![printable(&[0x55, 0x04, 0x04], "42")] },
            RelativeDistinguishedName { set: vec![printable(&[0x2a, 0x03, 0x04], "x")] },
        ],
        raw: &[],
    };
    assert_eq!(name.to_string(), "surname=42, 1.2.3.4=x");
}

#[test]
fn name_without_text_form_shows_placeholder() {
    let name = X509Name {
        rdn_seq: vec![RelativeDistinguishedName {
            set: vec![AttributeTypeAndValue {
                attr_type: Oid::new(&[0x55, 0x04, 0x03]),
                attr_value: DerObject::universal(5, &[]), // NULL
            }],
        }],
        raw: &[],
    };
    assert_eq!(name.to_string(), "<X509Error: Invalid X.509 name>");
}

#[test]
fn name_from_der_keeps_raw_bytes_and_order() {
    // SEQUENCE { SET { SEQUENCE { OID 2.5.4.6, PrintableString "FR" } },
    //            SET { SEQUENCE { OID 2.5.4.3, UTF8String "ab" } } } then 0xff
    let der: &[u8] = &[
        0x30, 0x1a, 0x31, 0x0b, 0x30, 0x09, 0x06, 0x03, 0x55, 0x04, 0x06, 0x13, 0x02, 0x46, 0x52,
        0x31, 0x0b, 0x30, 0x09, 0x06, 0x03, 0x55, 0x04, 0x03, 0x0c, 0x02, 0x61, 0x62, 0xff,
    ];
    let (rest, name) = X509Name::from_der(der).unwrap();
    assert_eq!(rest, &[0xff]);
    assert_eq!(name.as_raw(), &der[..28]);
    assert_eq!(name.rdn_seq.len(), 2);
    assert_eq!(name.to_string(), "C=FR, CN=ab");
}

#[test]
fn printable_string_outside_its_alphabet_is_accepted_in_a_name() {
    // SEQUENCE { OID 2.5.4.3, PrintableString "a*b" }: '*' is not printable
    let der = [0x30, 0x0a, 0x06, 0x03, 0x55, 0x04, 0x03, 0x13, 0x03, b'a', b'*', b'b'];
    let (rest, attr) = AttributeTypeAndValue::from_der(&der).unwrap();
    assert!(rest.is_empty());
    assert_eq!(attr.attr_value.header.tag, 19);
    assert_eq!(attr.as_str(), Ok("a*b"));
    // not so for another string type: an IA5String with a byte above 127
    let der = [0x30, 0x08, 0x06, 0x03, 0x55, 0x04, 0x03, 0x16, 0x01, 0xe9];
    assert_eq!(AttributeTypeAndValue::from_der(&der).err(), Some(X509Error::InvalidX509Name));
    // nor for a PrintableString that is not UTF-8
    let der = [0x30, 0x08, 0x06, 0x03, 0x55, 0x04, 0x03, 0x13, 0x01, 0xe9];
    assert_eq!(AttributeTypeAndValue::from_der(&der).err(), Some(X509Error::InvalidX509Name));
    assert_eq!(parse_unchecked_printable(&[0x13, 0x01, 0xe9]).err(), Some(X509Error::Malformed));
    assert_eq!(parse_unchecked_printable(&[0x0c, 0x01, 0x61]).err(), Some(X509Error::InvalidTag));
    assert_eq!(parse_unchecked_printable(&[0x13, 0x02, 0x61]).err(), Some(X509Error::Truncated));
    assert_eq!(parse_unchecked_printable(&[0x13, 0x80]).err(), Some(X509Error::Malformed));
    let (rest, v) = parse_attribute_value(&[0x13, 0x01, b'*', 0x00]).unwrap();
    assert_eq!(rest, &[0x00]);
    assert_eq!(v.data, b"*");
}

#[test]
fn name_errors() {
    // an empty name is a name
    let (rest, name) = X509Name::from_der(&[0x30, 0x00]).unwrap();
    assert!(rest.is_empty());
    assert!(name.rdn_seq.is_empty());
    assert_eq!(name.to_string(), "");
    assert_eq!(name.as_raw(), &[0x30, 0x00]);
    // an empty SET is no relative distinguished name
    assert_eq!(
        X509Name::from_der(&[0x30, 0x02, 0x31, 0x00]).err(),
        Some(X509Error::InvalidX509Name)
    );
    assert_eq!(
        RelativeDistinguishedName::from_der(&[0x31, 0x00]).err(),
        Some(X509Error::InvalidX509Name)
    );
    // a NULL after the last relative distinguished name
    let der = [
        0x30, 0x0f, 0x31, 0x0b, 0x30, 0x09, 0x06, 0x03, 0x55, 0x04, 0x06, 0x13, 0x02, 0x46, 0x52,
        0x05, 0x00,
    ];
    assert_eq!(X509Name::from_der(&der).err(), Some(X509Error::InvalidTag));
    // one byte after it: the start of an element that is not there
    let der = [
        0x30, 0x0e, 0x31, 0x0b, 0x30, 0x09, 0x06, 0x03, 0x55, 0x04, 0x06, 0x13, 0x02, 0x46, 0x52,
        0x31,
    ];
    assert_eq!(X509Name::from_der(&der).err(), Some(X509Error::Truncated));
    // a name cut short by its last byte
    let der = [
        0x30, 0x0d, 0x31, 0x0b, 0x30, 0x09, 0x06, 0x03, 0x55, 0x04, 0x06, 0x13, 0x02, 0x46, 0x52,
    ];
    assert!(X509Name::from_der(&der).is_ok());
    assert_eq!(X509Name::from_der(&der[..14]).err(), Some(X509Error::Truncated));
    assert_eq!(
        RelativeDistinguishedName::from_der(&der[2..14]).err(),
        Some(X509Error::Truncated)
    );
    assert_eq!(AttributeTypeAndValue::from_der(&der[4..14]).err(), Some(X509Error::Truncated));
    // an attribute with a third element
    let der = [0x30, 0x0b, 0x06, 0x03, 0x55, 0x04, 0x06, 0x13, 0x02, 0x46, 0x52, 0x05, 0x00];
    assert_eq!(AttributeTypeAndValue::from_der(&der).err(), Some(X509Error::InvalidX509Name));
}

#[test]
fn attribute_text_forms() {
    let a = printable(&[0x55, 0x04, 0x0b], "unit");
    assert_eq!(attribute_to_string(&a), Ok("OU=unit".to_string()));
    assert_eq!(
        attribute_value_to_string(&DerObject::universal(3, &[0x00, 0xab]), &a.attr_type),
        Ok("AB".to_string())
    );
    assert_eq!(
        attribute_value_to_string(&DerObject::universal(26, b"abc"), &a.attr_type),
        Ok("616263".to_string())
    );
    assert_eq!(
        attribute_value_to_string(&DerObject::universal(12, &[0xff]), &a.attr_type),
        Err(X509Error::InvalidX509Name)
    );
    assert_eq!(
        attribute_value_to_string(&DerObject::universal(16, &[]), &a.attr_type),
        Err(X509Error::InvalidX509Name)
    );
    let rdn = RelativeDistinguishedName { set: vec![a, printable(&[0x55, 0x04, 0x07], "town")] };
    assert_eq!(rdn_to_string(&rdn), Ok("OU=unit + L=town".to_string()));
    assert_eq!(x509name_to_string(&[]), Ok(String::new()));
    assert_eq!(
        x509name_to_string(&[rdn, RelativeDistinguishedName { set: vec![] }]),
        Ok("OU=unit + L=town, ".to_string())
    );
    let dc = printable(&[0x09, 0x92, 0x26, 0x89, 0x93, 0xf2, 0x2c, 0x64, 0x01, 0x19], "org");
    assert_eq!(attribute_to_string(&dc), Ok("DC=org".to_string()));
}

#[test]
fn attribute_type_without_a_name_is_written_in_dotted_form() {
    let rdn = RelativeDistinguishedName { set: vec![printable(&[0x2a, 0x03, 0x04], "x")] };
    assert_eq!(x509name_to_string(&[rdn]), Ok("1.2.3.4=x".to_string()));
    let a = printable(&[0x2a, 0x86, 0x48, 0x86, 0xf7, 0x0d, 0x7f], "y");
    assert_eq!(attribute_to_string(&a), Ok("1.2.840.113549.127=y".to_string()));
}

#[test]
fn class_of_the_elements_of_a_name_is_tested() {
    // [16] in place of the SEQUENCE of the name
    assert_eq!(X509Name::from_der(&[0xb0, 0x00]).err(), Some(X509Error::InvalidTag));
    // [APPLICATION 17] in place of the SET
    assert_eq!(
        X509Name::from_der(&[0x30, 0x02, 0x71, 0x00]).err(),
        Some(X509Error::InvalidTag)
    );
    // [6] in place of the OBJECT IDENTIFIER
    let der = [0x30, 0x09, 0x86, 0x03, 0x55, 0x04, 0x06, 0x13, 0x02, 0x46, 0x52];
    assert_eq!(AttributeTypeAndValue::from_der(&der).err(), Some(X509Error::InvalidX509Name));
}

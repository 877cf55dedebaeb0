use num_bigint::BigUint;
use x509_parser::error::X509Error;
use x509_parser::extensions::ReasonCode;
use x509_parser::revocation_list::{CertificateRevocationList, RevokedCertificate, TbsCertList};
use x509_parser::version::X509Version;

const CRL: &[u8] = &[
    0x30, 0x82, 0x02, 0x32, 0x30, 0x82, 0x01, 0x1a, 0x02, 0x01, 0x01, 0x30, 0x0d, 0x06, 0x09, 0x2a,
    0x86, 0x48, 0x86, 0xf7, 0x0d, 0x01, 0x01, 0x0b, 0x05, 0x00, 0x30, 0x57, 0x31, 0x0b, 0x30, 0x09,
    0x06, 0x03, 0x55, 0x04, 0x06, 0x13, 0x02, 0x46, 0x52, 0x31, 0x13, 0x30, 0x11, 0x06, 0x03, 0x55,
    0x04, 0x08, 0x0c, 0x0a, 0x53, 0x6f, 0x6d, 0x65, 0x2d, 0x53, 0x74, 0x61, 0x74, 0x65, 0x31, 0x21,
    0x30, 0x1f, 0x06, 0x03, 0x55, 0x04, 0x0a, 0x0c, 0x18, 0x49, 0x6e, 0x74, 0x65, 0x72, 0x6e, 0x65,
    0x74, 0x20, 0x57, 0x69, 0x64, 0x67, 0x69, 0x74, 0x73, 0x20, 0x50, 0x74, 0x79, 0x20, 0x4c, 0x74,
    0x64, 0x31, 0x10, 0x30, 0x0e, 0x06, 0x03, 0x55, 0x04, 0x03, 0x0c, 0x07, 0x54, 0x65, 0x73, 0x74,
    0x20, 0x43, 0x41, 0x17, 0x0d, 0x32, 0x36, 0x31, 0x30, 0x32, 0x38, 0x32, 0x31, 0x31, 0x34, 0x30,
    0x37, 0x5a, 0x17, 0x0d, 0x32, 0x36, 0x31, 0x31, 0x32, 0x37, 0x32, 0x31, 0x31, 0x34, 0x30, 0x37,
    0x5a, 0x30, 0x5e, 0x30, 0x20, 0x02, 0x01, 0x01, 0x17, 0x0d, 0x32, 0x36, 0x31, 0x30, 0x32, 0x38,
    0x32, 0x31, 0x31, 0x34, 0x30, 0x37, 0x5a, 0x30, 0x0c, 0x30, 0x0a, 0x06, 0x03, 0x55, 0x1d, 0x15,
    0x04, 0x03, 0x0a, 0x01, 0x01, 0x30, 0x3a, 0x02, 0x01, 0x02, 0x17, 0x0d, 0x32, 0x36, 0x31, 0x30,
    0x32, 0x38, 0x32, 0x31, 0x31, 0x34, 0x30, 0x37, 0x5a, 0x30, 0x26, 0x30, 0x0a, 0x06, 0x03, 0x55,
    0x1d, 0x15, 0x04, 0x03, 0x0a, 0x01, 0x01, 0x30, 0x18, 0x06, 0x03, 0x55, 0x1d, 0x18, 0x04, 0x11,
    0x18, 0x0f, 0x32, 0x30, 0x32, 0x34, 0x30, 0x31, 0x30, 0x31, 0x30, 0x30, 0x30, 0x30, 0x30, 0x30,
    0x5a, 0xa0, 0x2f, 0x30, 0x2d, 0x30, 0x1f, 0x06, 0x03, 0x55, 0x1d, 0x23, 0x04, 0x18, 0x30, 0x16,
    0x80, 0x14, 0x0e, 0xbd, 0xed, 0x02, 0x3b, 0xab, 0x25, 0xf1, 0xc0, 0x4e, 0xb4, 0x51, 0xbb, 0x95,
    0x83, 0xa8, 0xd5, 0x23, 0x0e, 0x53, 0x30, 0x0a, 0x06, 0x03, 0x55, 0x1d, 0x14, 0x04, 0x03, 0x02,
    0x01, 0x2b, 0x30, 0x0d, 0x06, 0x09, 0x2a, 0x86, 0x48, 0x86, 0xf7, 0x0d, 0x01, 0x01, 0x0b, 0x05,
    0x00, 0x03, 0x82, 0x01, 0x01, 0x00, 0x13, 0x42, 0x34, 0x82, 0x38, 0xc8, 0x4e, 0xde, 0xe3, 0xeb,
    0x7a, 0x07, 0x92, 0x9a, 0xb9, 0xb9, 0x86, 0xbb, 0x03, 0x48, 0x8b, 0xa7, 0xe6, 0x83, 0xd0, 0xa0,
    0x12, 0x01, 0xec, 0x34, 0x6e, 0xc0, 0xfb, 0x1a, 0x65, 0xb9, 0xe0, 0xaf, 0x92, 0x06, 0xe3, 0xf5,
    0xaa, 0xe5, 0x60, 0x9f, 0x3f, 0x6f, 0xfc, 0x05, 0x1a, 0x2f, 0x9c, 0xe9, 0xa7, 0x0f, 0x68, 0xa9,
    0x72, 0x9a, 0xab, 0xee, 0x3e, 0x65, 0x17, 0x4f, 0x16, 0xe2, 0x32, 0x88, 0x67, 0x45, 0x93, 0xdd,
    0x67, 0x33, 0x81, 0x57, 0x45, 0xdb, 0xba, 0x79, 0xd3, 0x1f, 0x30, 0xf9, 0x21, 0x5d, 0x90, 0x89,
    0x6a, 0x34, 0x0b, 0x1c, 0x1c, 0x35, 0x1d, 0xf6, 0x77, 0xc1, 0x8f, 0xe6, 0x6a, 0x5f, 0xb3, 0x89,
    0xc3, 0xdb, 0x93, 0x83, 0x66, 0xe5, 0xd5, 0xbd, 0x53, 0x4b, 0x89, 0x45, 0x6b, 0xad, 0x90, 0x83,
    0x18, 0x39, 0x66, 0x35, 0xa5, 0x55, 0x43, 0x3d, 0x69, 0xe0, 0xba, 0x11, 0x89, 0xa3, 0xd7, 0x81,
    0x5b, 0x03, 0x45, 0x13, 0x2a, 0xac, 0xbd, 0xc9, 0x37, 0x21, 0x38, 0xd1, 0xdf, 0xb5, 0xa6, 0x15,
    0x88, 0x95, 0x01, 0x9f, 0xfb, 0x52, 0x64, 0x6b, 0x4a, 0x78, 0xa2, 0x84, 0x40, 0x3e, 0x54, 0xdd,
    0x0b, 0x90, 0x18, 0x01, 0xb1, 0x32, 0x22, 0xb4, 0x1e, 0xb8, 0x5d, 0xc0, 0xae, 0xe8, 0x15, 0x1b,
    0x3b, 0x7d, 0x3e, 0xfc, 0x27, 0xc2, 0x3c, 0x20, 0x86, 0x34, 0x0b, 0x55, 0x74, 0x6c, 0x87, 0xad,
    0xc3, 0x8c, 0xe5, 0x08, 0x47, 0x8f, 0x26, 0x63, 0xc6, 0xfe, 0xbe, 0xca, 0xb5, 0x10, 0x1e, 0x56,
    0x21, 0x11, 0xf4, 0x04, 0x8e, 0x02, 0x3c, 0xa2, 0x35, 0xfc, 0xaa, 0xeb, 0x1b, 0xb8, 0x45, 0x90,
    0x13, 0x27, 0x9e, 0x2c, 0x7b, 0x8d, 0x6d, 0xdc, 0xe4, 0x9c, 0x86, 0x71, 0xce, 0x5b, 0x84, 0x32,
    0x22, 0xbd, 0xa6, 0x22, 0x4e, 0x9d,
];

const CRL_EMPTY: &[u8] = &[
    0x30, 0x82, 0x01, 0xd1, 0x30, 0x81, 0xba, 0x02, 0x01, 0x01, 0x30, 0x0d, 0x06, 0x09, 0x2a, 0x86,
    0x48, 0x86, 0xf7, 0x0d, 0x01, 0x01, 0x0b, 0x05, 0x00, 0x30, 0x57, 0x31, 0x0b, 0x30, 0x09, 0x06,
    0x03, 0x55, 0x04, 0x06, 0x13, 0x02, 0x46, 0x52, 0x31, 0x13, 0x30, 0x11, 0x06, 0x03, 0x55, 0x04,
    0x08, 0x0c, 0x0a, 0x53, 0x6f, 0x6d, 0x65, 0x2d, 0x53, 0x74, 0x61, 0x74, 0x65, 0x31, 0x21, 0x30,
    0x1f, 0x06, 0x03, 0x55, 0x04, 0x0a, 0x0c, 0x18, 0x49, 0x6e, 0x74, 0x65, 0x72, 0x6e, 0x65, 0x74,
    0x20, 0x57, 0x69, 0x64, 0x67, 0x69, 0x74, 0x73, 0x20, 0x50, 0x74, 0x79, 0x20, 0x4c, 0x74, 0x64,
    0x31, 0x10, 0x30, 0x0e, 0x06, 0x03, 0x55, 0x04, 0x03, 0x0c, 0x07, 0x54, 0x65, 0x73, 0x74, 0x20,
    0x43, 0x41, 0x17, 0x0d, 0x32, 0x36, 0x31, 0x30, 0x32, 0x38, 0x32, 0x31, 0x31, 0x34, 0x30, 0x37,
    0x5a, 0x17, 0x0d, 0x32, 0x36, 0x31, 0x31, 0x32, 0x37, 0x32, 0x31, 0x31, 0x34, 0x30, 0x37, 0x5a,
    0xa0, 0x2f, 0x30, 0x2d, 0x30, 0x1f, 0x06, 0x03, 0x55, 0x1d, 0x23, 0x04, 0x18, 0x30, 0x16, 0x80,
    0x14, 0x0e, 0xbd, 0xed, 0x02, 0x3b, 0xab, 0x25, 0xf1, 0xc0, 0x4e, 0xb4, 0x51, 0xbb, 0x95, 0x83,
    0xa8, 0xd5, 0x23, 0x0e, 0x53, 0x30, 0x0a, 0x06, 0x03, 0x55, 0x1d, 0x14, 0x04, 0x03, 0x02, 0x01,
    0x2a, 0x30, 0x0d, 0x06, 0x09, 0x2a, 0x86, 0x48, 0x86, 0xf7, 0x0d, 0x01, 0x01, 0x0b, 0x05, 0x00,
    0x03, 0x82, 0x01, 0x01, 0x00, 0x34, 0x2a, 0xd9, 0x4b, 0x02, 0x56, 0x8f, 0x66, 0xde, 0x9f, 0x17,
    0x92, 0x27, 0xce, 0x9a, 0x21, 0x5a, 0xca, 0x7d, 0xb1, 0xb7, 0xce, 0xaa, 0xf6, 0xe5, 0xfb, 0x6a,
    0x7d, 0xbd, 0x9e, 0x68, 0x7f, 0xf2, 0x7a, 0xb9, 0x7f, 0x72, 0x73, 0x41, 0xfa, 0xe8, 0x43, 0x39,
    0x4f, 0xc4, 0xbf, 0x90, 0x19, 0xf3, 0xef, 0x87, 0x12, 0x72, 0x1d, 0x6a, 0xc6, 0xa4, 0xd9, 0xc1,
    0x13, 0x64, 0xfe, 0x2d, 0x50, 0x5e, 0x83, 0x2f, 0x9b, 0x3e, 0xe7, 0x77, 0x5f, 0xf0, 0x12, 0xd6,
    0x6a, 0x5d, 0x45, 0xe7, 0xe0, 0x8f, 0xb7, 0x98, 0x4d, 0x99, 0x37, 0x66, 0x0e, 0x3c, 0xb2, 0x55,
    0x09, 0xdf, 0xc7, 0xcf, 0x07, 0x50, 0x5a, 0x7c, 0x72, 0x8b, 0x9a, 0x18, 0x33, 0x4f, 0xcb, 0xe3,
    0x73, 0x35, 0x9e, 0xdf, 0x79, 0x67, 0x0a, 0x41, 0x72, 0x8c, 0x31, 0xab, 0xa6, 0x3a, 0xed, 0x31,
    0xcb, 0x99, 0x49, 0x5d, 0x1a, 0x0e, 0x68, 0x28, 0x41, 0xd5, 0x12, 0x9a, 0x2e, 0x18, 0x12, 0x31,
    0xab, 0x5a, 0x3e, 0x27, 0x64, 0x20, 0x6a, 0x3c, 0x3d, 0x3c, 0x5d, 0xf9, 0xec, 0x61, 0x41, 0xa4,
    0x7d, 0x80, 0xe3, 0xee, 0xb0, 0x5b, 0xa0, 0xe2, 0xb0, 0xe2, 0xbc, 0x18, 0x5f, 0x6b, 0x22, 0x07,
    0xeb, 0xa8, 0x5f, 0x0d, 0x30, 0xc1, 0x76, 0x6d, 0xa7, 0x24, 0x96, 0x8d, 0xf3, 0xff, 0x7a, 0xd5,
    0x84, 0x18, 0x9f, 0x40, 0xd3, 0x50, 0xfb, 0xb1, 0x2e, 0xbd, 0xbc, 0xbb, 0xc0, 0x35, 0x5b, 0x1e,
    0x5d, 0x63, 0xb9, 0x05, 0xfe, 0x67, 0xaf, 0xc3, 0x11, 0x1c, 0x6f, 0x68, 0x03, 0x3c, 0x0f, 0xb9,
    0xd5, 0xae, 0xc9, 0xdc, 0xdc, 0x8b, 0x88, 0x42, 0x17, 0x80, 0xa4, 0x95, 0x9c, 0x84, 0x87, 0x4c,
    0x62, 0xa7, 0xcd, 0xb4, 0xd2, 0x2c, 0xda, 0xc5, 0xed, 0x57, 0x85, 0x6e, 0x38, 0x22, 0x65, 0x3e,
    0xda, 0xe2, 0x33, 0x6b, 0xb8,
];

#[test]
fn revocation_list_fields() {
    let (rest, crl) = CertificateRevocationList::from_der(CRL).unwrap();
    assert!(rest.is_empty());
    assert_eq!(crl.version(), Some(X509Version::v2()));
    assert_eq!(
        crl.issuer().to_string(),
        "C=FR, ST=Some-State, O=Internet Widgits Pty Ltd, CN=Test CA"
    );
    assert_eq!(crl.last_update().timestamp(), 1793222047);
    assert_eq!(crl.next_update().unwrap().timestamp(), 1793222047 + 30 * 86400);
    assert_eq!(crl.tbs_cert_list.as_ref(), &CRL[4..290]);
    assert_eq!(crl.extensions().len(), 2);
    assert_eq!(crl.crl_number(), Some(&BigUint::from(43u32)));
    assert_eq!(crl.signature_value.data.len(), 256);
}

#[test]
fn revoked_certificates_in_order() {
    let (_, crl) = CertificateRevocationList::from_der(CRL).unwrap();
    let revoked = crl.iter_revoked_certificates();
    assert_eq!(revoked.len(), 2);
    assert_eq!(revoked[0].raw_serial(), &[0x01]);
    assert_eq!(revoked[0].raw_serial_as_string(), "01");
    assert_eq!(revoked[0].serial(), &BigUint::from(1u32));
    assert_eq!(revoked[0].revocation_date.timestamp(), 1793222047);
    assert_eq!(revoked[0].reason_code(), Some((false, ReasonCode::key_compromise())));
    assert_eq!(revoked[0].invalidity_date(), None);
    assert_eq!(revoked[0].extensions().len(), 1);
    assert_eq!(revoked[1].raw_serial(), &[0x02]);
    assert_eq!(revoked[1].reason_code(), Some((false, ReasonCode(1))));
    let (critical, date) = revoked[1].invalidity_date().unwrap();
    assert!(!critical);
    assert_eq!(date.timestamp(), 1704067200); // 2024-01-01T00:00:00Z
    assert_eq!(revoked[1].extensions().len(), 2);
}

#[test]
fn revocation_list_without_revoked_certificates() {
    let (rest, crl) = CertificateRevocationList::from_der(CRL_EMPTY).unwrap();
    assert!(rest.is_empty());
    assert!(crl.tbs_cert_list.revoked_certificates.is_empty());
    assert!(crl.iter_revoked_certificates().is_empty());
    assert_eq!(crl.crl_number(), Some(&BigUint::from(42u32)));
    assert_eq!(crl.version(), Some(X509Version(1)));
    assert!(crl.next_update().is_some());
}

#[test]
fn revoked_certificate_alone() {
    // SEQUENCE { INTEGER 1, UTCTime, SEQUENCE { reasonCode } }
    let (rest, revoked) = RevokedCertificate::from_der(&CRL[147..]).unwrap();
    assert_eq!(rest, &CRL[181..]);
    assert_eq!(revoked.raw_serial(), &[0x01]);
    assert_eq!(revoked.reason_code().unwrap().1.to_string(), "KeyCompromise");
    // without extensions: SEQUENCE { INTEGER 0x00ff, UTCTime 700101000000Z }
    let der = [
        0x30, 0x13, 0x02, 0x02, 0x00, 0xff, 0x17, 0x0d, b'7', b'0', b'0', b'1', b'0', b'1', b'0',
        b'0', b'0', b'0', b'0', b'0', b'Z',
    ];
    let (rest, revoked) = RevokedCertificate::from_der(&der).unwrap();
    assert!(rest.is_empty());
    assert_eq!(revoked.raw_serial(), &[0x00, 0xff]);
    assert_eq!(revoked.raw_serial_as_string(), "00:ff");
    assert_eq!(revoked.serial(), &BigUint::from(255u32));
    assert_eq!(revoked.revocation_date.timestamp(), 0);
    assert!(revoked.extensions().is_empty());
    assert_eq!(revoked.reason_code(), None);
}

#[test]
fn truncated_revocation_list_is_refused() {
    assert_eq!(
        CertificateRevocationList::from_der(&CRL[..CRL.len() - 1]).err(),
        Some(X509Error::Truncated)
    );
    let tbs = &CRL[4..290];
    assert!(TbsCertList::from_der(tbs).is_ok());
    assert_eq!(TbsCertList::from_der(&tbs[..tbs.len() - 1]).err(), Some(X509Error::Truncated));
    assert_eq!(
        RevokedCertificate::from_der(&CRL[147..180]).err(),
        Some(X509Error::Truncated)
    );
}

#[test]
fn reason_code_text_and_default() {
    assert_eq!(ReasonCode::default(), ReasonCode::unspecified());
    assert_eq!(ReasonCode::default().to_string(), "Unspecified");
    assert_eq!(ReasonCode::ca_compromise().to_string(), "CACompromise");
    assert_eq!(ReasonCode::affiliation_changed(), ReasonCode(3));
    assert_eq!(ReasonCode::superseded(), ReasonCode(4));
    assert_eq!(ReasonCode::cessation_of_operation(), ReasonCode(5));
    assert_eq!(ReasonCode::certificate_hold(), ReasonCode(6));
    assert_eq!(ReasonCode::remove_from_crl().to_string(), "RemoveFromCRL");
    assert_eq!(ReasonCode::privilege_withdrawn(), ReasonCode(9));
    assert_eq!(ReasonCode::aa_compromise().to_string(), "AACompromise");
    assert_eq!(ReasonCode(7).to_string(), "ReasonCode(7 / 0x7)");
    assert_eq!(ReasonCode(255).to_string(), "ReasonCode(255 / 0xff)");
}

#[test]
fn every_cut_of_a_revocation_list_is_refused() {
    for n in 0..CRL.len() {
        let r = CertificateRevocationList::from_der(&CRL[..n]);
        if n >= 2 {
            assert_eq!(r.err(), Some(X509Error::Truncated), "cut at {}", n);
        } else {
            assert!(r.is_err(), "cut at {}", n);
        }
    }
}

#[test]
fn changed_revocation_lists_are_decoded_or_refused() {
    let mut state: u32 = 0x1234_5678;
    for k in 0..CRL.len() {
        for _ in 0..3 {
            state = state.wrapping_mul(1664525).wrapping_add(1013904223);
            let mut der = CRL.to_vec();
            der[k] ^= ((state >> 24) as u8) | 1;
            if let Ok((rest, crl)) = CertificateRevocationList::from_der(&der) {
                let read = der.len() - rest.len();
                assert_eq!(rest, &der[read..]);
                assert_eq!(crl.tbs_cert_list.as_ref(), &der[4..4 + crl.tbs_cert_list.raw.len()]);
                for revoked in crl.iter_revoked_certificates() {
                    let _ = revoked.raw_serial_as_string();
                    let _ = revoked.reason_code();
                }
                let _ = crl.crl_number();
            }
        }
    }
}

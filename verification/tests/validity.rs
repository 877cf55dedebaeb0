use x509_parser::error::X509Error;
use x509_parser::time::ASN1Time;
use x509_parser::validity::Validity;

#[test]
fn check_validity_expiration() {
    let mut v = Validity {
        not_before: ASN1Time::now(),
        not_after: ASN1Time::now(),
    };
    assert_eq!(v.time_to_expiration(), None);
    v.not_after = v.not_after.checked_add(60).unwrap();
    assert!(v.time_to_expiration().is_some());
    assert!(v.time_to_expiration().unwrap() <= std::time::Duration::from_secs(60));
    // The following assumes this timing won't take 10 seconds... I
    // think that is safe.
    assert!(v.time_to_expiration().unwrap() > std::time::Duration::from_secs(50));
}

#[test]
fn validity_is_half_open() {
    let v = Validity {
        not_before: ASN1Time::from_timestamp(1000),
        not_after: ASN1Time::from_timestamp(2000),
    };
    assert!(v.is_valid_at(ASN1Time::from_timestamp(1000)));
    assert!(!v.is_valid_at(ASN1Time::from_timestamp(2000)));
    assert!(!v.is_valid_at(ASN1Time::from_timestamp(999)));
    assert!(v.is_valid_at(ASN1Time::from_timestamp(1999)));
    assert!(!v.is_valid_at(ASN1Time::from_timestamp(2001)));
}

#[test]
fn remaining_time_only_inside_the_period() {
    let v = Validity {
        not_before: ASN1Time::from_timestamp(1000),
        not_after: ASN1Time::from_timestamp(2000),
    };
    assert_eq!(v.remaining_at(ASN1Time::from_timestamp(1000)), Some(1000));
    assert_eq!(v.remaining_at(ASN1Time::from_timestamp(1999)), Some(1));
    assert_eq!(v.remaining_at(ASN1Time::from_timestamp(2000)), None);
    assert_eq!(v.remaining_at(ASN1Time::from_timestamp(999)), None);
    let wide = Validity {
        not_before: ASN1Time::from_timestamp(i64::MIN),
        not_after: ASN1Time::from_timestamp(i64::MAX),
    };
    assert_eq!(wide.remaining_at(ASN1Time::from_timestamp(i64::MIN)), Some(u64::MAX));
}

#[test]
fn validity_now() {
    let now = ASN1Time::now();
    assert!(now.timestamp() > 1_600_000_000);
    let around = Validity {
        not_before: ASN1Time::from_timestamp(now.timestamp() - 100),
        not_after: ASN1Time::from_timestamp(now.timestamp() + 100),
    };
    assert!(around.is_valid());
    let past = Validity {
        not_before: ASN1Time::from_timestamp(0),
        not_after: ASN1Time::from_timestamp(10),
    };
    assert!(!past.is_valid());
    assert_eq!(past.time_to_expiration(), None);
    let future = Validity {
        not_before: ASN1Time::from_timestamp(now.timestamp() + 1000),
        not_after: ASN1Time::from_timestamp(now.timestamp() + 2000),
    };
    assert!(!future.is_valid());
    assert_eq!(future.time_to_expiration(), None);
}

#[test]
fn validity_from_der() {
    // SEQUENCE { UTCTime 700101000000Z, GeneralizedTime 20500101000000Z }
    let der = [
        0x30, 0x20, 0x17, 0x0d, b'7', b'0', b'0', b'1', b'0', b'1', b'0', b'0', b'0', b'0', b'0',
        b'0', b'Z', 0x18, 0x0f, b'2', b'0', b'5', b'0', b'0', b'1', b'0', b'1', b'0', b'0', b'0',
        b'0', b'0', b'0', b'Z', 0x00,
    ];
    let (rest, v) = Validity::from_der(&der).unwrap();
    assert_eq!(rest, &[0x00]);
    assert_eq!(v.not_before.timestamp(), 0);
    assert_eq!(v.not_after.timestamp(), 2524608000);
    assert_eq!(Validity::from_der(&der[..33]).err(), Some(X509Error::Truncated));
    // one time only
    let der = [
        0x30, 0x0f, 0x17, 0x0d, b'7', b'0', b'0', b'1', b'0', b'1', b'0', b'0', b'0', b'0', b'0',
        b'0', b'Z',
    ];
    assert_eq!(Validity::from_der(&der).err(), Some(X509Error::InvalidDate));
}

#[test]
fn time_from_fields() {
    assert_eq!(ASN1Time::from_civil(1970, 1, 1, 0, 0, 0), Ok(ASN1Time::from_timestamp(0)));
    assert_eq!(ASN1Time::from_civil(1969, 12, 31, 23, 59, 59).unwrap().timestamp(), -1);
    assert_eq!(ASN1Time::from_civil(2000, 2, 29, 12, 0, 0).unwrap().timestamp(), 951825600);
    assert_eq!(ASN1Time::from_civil(2026, 10, 28, 21, 14, 6).unwrap().timestamp(), 1793222046);
    assert_eq!(ASN1Time::from_civil(2038, 1, 19, 3, 14, 8).unwrap().timestamp(), 2147483648);
    assert_eq!(ASN1Time::from_civil(1, 1, 1, 0, 0, 0).unwrap().timestamp(), -62135596800);
    assert_eq!(ASN1Time::from_civil(9999, 12, 31, 23, 59, 59).unwrap().timestamp(), 253402300799);
    assert_eq!(ASN1Time::from_civil(1900, 2, 29, 0, 0, 0), Err(X509Error::InvalidDate));
    assert_eq!(ASN1Time::from_civil(2023, 2, 29, 0, 0, 0), Err(X509Error::InvalidDate));
    assert_eq!(ASN1Time::from_civil(2024, 2, 29, 0, 0, 0).unwrap().timestamp(), 1709164800);
    assert_eq!(ASN1Time::from_civil(2024, 4, 31, 0, 0, 0), Err(X509Error::InvalidDate));
    assert_eq!(ASN1Time::from_civil(2024, 0, 1, 0, 0, 0), Err(X509Error::InvalidDate));
    assert_eq!(ASN1Time::from_civil(2024, 13, 1, 0, 0, 0), Err(X509Error::InvalidDate));
    assert_eq!(ASN1Time::from_civil(2024, 1, 0, 0, 0, 0), Err(X509Error::InvalidDate));
    assert_eq!(ASN1Time::from_civil(2024, 1, 1, 24, 0, 0), Err(X509Error::InvalidDate));
    assert_eq!(ASN1Time::from_civil(2024, 1, 1, 0, 60, 0), Err(X509Error::InvalidDate));
    assert_eq!(ASN1Time::from_civil(2024, 1, 1, 0, 0, 60), Err(X509Error::InvalidDate));
    assert_eq!(ASN1Time::from_civil(0, 1, 1, 0, 0, 0), Err(X509Error::InvalidDate));
    assert_eq!(ASN1Time::from_civil(10000, 1, 1, 0, 0, 0), Err(X509Error::InvalidDate));
    assert_eq!(ASN1Time::from_civil(2024, 1, 1, -1, 0, 0), Err(X509Error::InvalidDate));
}

#[test]
fn time_from_text() {
    assert_eq!(ASN1Time::from_utc_time(b"261028211406Z").unwrap().timestamp(), 1793222046);
    // two-digit years from 50 on are in the 1900s
    assert_eq!(ASN1Time::from_utc_time(b"500101000000Z").unwrap().timestamp(), -631152000);
    assert_eq!(ASN1Time::from_utc_time(b"491231235959Z").unwrap().timestamp(), 2524607999);
    // without seconds
    assert_eq!(ASN1Time::from_utc_time(b"7001010001Z").unwrap().timestamp(), 60);
    assert_eq!(ASN1Time::from_utc_time(b"700101000000"), Err(X509Error::InvalidDate));
    assert_eq!(ASN1Time::from_utc_time(b"70010100000Z"), Err(X509Error::InvalidDate));
    assert_eq!(ASN1Time::from_utc_time(b"7001010000x0Z"), Err(X509Error::InvalidDate));
    assert_eq!(ASN1Time::from_utc_time(b"700101000000+"), Err(X509Error::InvalidDate));
    assert_eq!(ASN1Time::from_utc_time(b""), Err(X509Error::InvalidDate));
    assert_eq!(
        ASN1Time::from_generalized_time(b"20240101000000Z").unwrap().timestamp(),
        1704067200
    );
    assert_eq!(
        ASN1Time::from_generalized_time(b"19700101000000Z"),
        Ok(ASN1Time::from_timestamp(0))
    );
    assert_eq!(ASN1Time::from_generalized_time(b"2024010100000Z"), Err(X509Error::InvalidDate));
    assert_eq!(ASN1Time::from_generalized_time(b"20241301000000Z"), Err(X509Error::InvalidDate));
    assert_eq!(ASN1Time::from_generalized_time(b"00000101000000Z"), Err(X509Error::InvalidDate));
}

#[test]
fn time_from_der() {
    let utc = [
        0x17, 0x0d, b'2', b'6', b'1', b'0', b'2', b'8', b'2', b'1', b'1', b'4', b'0', b'6', b'Z',
        0x05, 0x00,
    ];
    let (rest, t) = ASN1Time::from_der(&utc).unwrap();
    assert_eq!(rest, &[0x05, 0x00]);
    assert_eq!(t.timestamp(), 1793222046);
    // not a time: nothing is read by the optional form
    let (rest, none) = ASN1Time::from_der_opt(&utc[15..]);
    assert_eq!(none, None);
    assert_eq!(rest, &[0x05, 0x00]);
    let (rest, some) = ASN1Time::from_der_opt(&utc);
    assert_eq!(some, Some(t));
    assert_eq!(rest, &[0x05, 0x00]);
    assert_eq!(ASN1Time::from_der(&utc[15..]).err(), Some(X509Error::InvalidDate));
    assert_eq!(ASN1Time::from_der(&utc[..10]).err(), Some(X509Error::InvalidDate));
    // a context tag 23 is no UTCTime
    let mut other = utc;
    other[0] = 0x97;
    assert_eq!(ASN1Time::from_der(&other).err(), Some(X509Error::InvalidDate));
}

#[test]
fn time_arithmetic() {
    let t = ASN1Time::from_timestamp(100);
    assert_eq!(t.checked_add(60), Some(ASN1Time::from_timestamp(160)));
    assert_eq!(ASN1Time::from_timestamp(i64::MAX).checked_add(1), None);
    assert_eq!(ASN1Time::from_timestamp(-5).checked_add(u64::MAX), None);
    assert_eq!(ASN1Time::from_timestamp(160).checked_sub(t), Some(60));
    assert_eq!(t.checked_sub(ASN1Time::from_timestamp(160)), None);
    assert_eq!(t.checked_sub(t), Some(0));
    assert!(ASN1Time::from_timestamp(1) < ASN1Time::from_timestamp(2));
}

#[test]
fn time_from_a_clock_count() {
    assert_eq!(ASN1Time::from_unix_seconds(Some(0)).timestamp(), 0);
    assert_eq!(ASN1Time::from_unix_seconds(Some(1793222046)).timestamp(), 1793222046);
    assert_eq!(ASN1Time::from_unix_seconds(Some(i64::MAX as u64)).timestamp(), i64::MAX);
    // a count beyond what a time holds: the last time
    assert_eq!(ASN1Time::from_unix_seconds(Some(i64::MAX as u64 + 1)).timestamp(), i64::MAX);
    assert_eq!(ASN1Time::from_unix_seconds(Some(u64::MAX)).timestamp(), i64::MAX);
    // a clock set before 1970 has no count
    assert_eq!(ASN1Time::from_unix_seconds(None).timestamp(), 0);
    assert!(ASN1Time::now().timestamp() >= 0);
}

#[test]
fn period_that_ends_by_1970_is_never_valid() {
    let v = Validity {
        not_before: ASN1Time::from_timestamp(-100),
        not_after: ASN1Time::from_timestamp(0),
    };
    assert!(!v.is_valid());
    assert_eq!(v.time_to_expiration(), None);
    let empty = Validity {
        not_before: ASN1Time::from_timestamp(i64::MAX),
        not_after: ASN1Time::from_timestamp(i64::MAX),
    };
    assert!(!empty.is_valid());
    assert_eq!(empty.time_to_expiration(), None);
}

#[test]
fn time_to_expiration_is_in_whole_seconds_of_the_period() {
    let now = ASN1Time::now();
    let v = Validity {
        not_before: ASN1Time::from_timestamp(now.timestamp() - 10),
        not_after: ASN1Time::from_timestamp(now.timestamp() + 1000),
    };
    let left = v.time_to_expiration().unwrap();
    assert_eq!(left.subsec_nanos(), 0);
    assert!(left.as_secs() <= 1000 && left.as_secs() > 990);
    let at = ASN1Time::from_timestamp(now.timestamp() + 1);
    assert_eq!(v.remaining_at(at), Some(999));
}

//! Points in time, as certificates hold them: UTCTime and GeneralizedTime,
//! kept as seconds since 1970-01-01T00:00:00Z.
use crate::der::{
    consumes, is_rest, parse_any, parsed, spec_any, CLASS_UNIVERSAL, TAG_GENERALIZED_TIME,
    TAG_UTC_TIME,
};
use crate::error::X509Error;
use vstd::prelude::*;

verus! {

/// A point in time, to the second.
#[derive(Clone, Copy, Debug, PartialEq, Eq, PartialOrd, Ord, Structural)]
pub struct ASN1Time {
    /// Seconds since 1970-01-01T00:00:00Z; negative before it.
    pub timestamp: i64,
}

impl View for ASN1Time {
    type V = ASN1Time;

    open spec fn view(&self) -> ASN1Time {
        *self
    }
}

/// The Gregorian rule for leap years.
pub open spec fn is_leap_year(y: int) -> bool {
    y % 4 == 0 && (y % 100 != 0 || y % 400 == 0)
}

/// The number of days of month `m` (1 to 12) in year `y`.
pub open spec fn days_in_month(y: int, m: int) -> int {
    if m == 2 {
        if is_leap_year(y) {
            29
        } else {
            28
        }
    } else if m == 4 || m == 6 || m == 9 || m == 11 {
        30
    } else {
        31
    }
}

/// The number of days from 0001-01-01 to the first day of year `y`, for `y >= 1`.
pub open spec fn days_before_year(y: int) -> int {
    365 * (y - 1) + (y - 1) / 4 - (y - 1) / 100 + (y - 1) / 400
}

/// The number of days from the first day of year `y` to the first day of its
/// month `m`.
pub open spec fn days_before_month(y: int, m: int) -> int
    decreases m,
{
    if m <= 1 {
        0
    } else {
        days_before_month(y, m - 1) + days_in_month(y, m - 1)
    }
}

/// True of the fields of a date and time of day that exists, in the years 1 to 9999.
pub open spec fn is_civil(y: int, mo: int, d: int, h: int, mi: int, s: int) -> bool {
    &&& 1 <= y <= 9999
    &&& 1 <= mo <= 12
    &&& 1 <= d <= days_in_month(y, mo)
    &&& 0 <= h < 24
    &&& 0 <= mi < 60
    &&& 0 <= s < 60
}

/// The seconds from 1970-01-01T00:00:00Z to the given date and time of day.
pub open spec fn civil_to_timestamp(y: int, mo: int, d: int, h: int, mi: int, s: int) -> int {
    (days_before_year(y) + days_before_month(y, mo) + (d - 1) - 719162) * 86400 + h * 3600 + mi
        * 60 + s
}

/// True of an ASCII decimal digit.
pub open spec fn is_digit(b: u8) -> bool {
    48 <= b <= 57
}

/// True when the first `n` bytes of `c` are decimal digits.
pub open spec fn all_digits(c: Seq<u8>, n: int) -> bool {
    forall|k: int| 0 <= k < n ==> is_digit(#[trigger] c[k])
}

/// The number written by the two digits of `c` at `k` and `k + 1`.
pub open spec fn two_digits(c: Seq<u8>, k: int) -> int {
    10 * (c[k] - 48) + (c[k + 1] - 48)
}

/// The time that the fields give, if they are a date and time that exists.
pub open spec fn spec_from_civil(y: int, mo: int, d: int, h: int, mi: int, s: int) -> Result<
    ASN1Time,
    X509Error,
> {
    if is_civil(y, mo, d, h, mi, s) {
        Ok(ASN1Time { timestamp: civil_to_timestamp(y, mo, d, h, mi, s) as i64 })
    } else {
        Err(X509Error::InvalidDate)
    }
}

/// The year that the two digits of a UTCTime stand for: 1950 to 2049.
pub open spec fn utc_year(yy: int) -> int {
    if yy >= 50 {
        1900 + yy
    } else {
        2000 + yy
    }
}

/// The time written by the content of a UTCTime: `YYMMDDhhmmssZ`, or
/// `YYMMDDhhmmZ` with the seconds left out.
pub open spec fn spec_utc_time(c: Seq<u8>) -> Result<ASN1Time, X509Error> {
    if c.len() == 13 && all_digits(c, 12) && c[12] == 90 {
        spec_from_civil(
            utc_year(two_digits(c, 0)),
            two_digits(c, 2),
            two_digits(c, 4),
            two_digits(c, 6),
            two_digits(c, 8),
            two_digits(c, 10),
        )
    } else if c.len() == 11 && all_digits(c, 10) && c[10] == 90 {
        spec_from_civil(
            utc_year(two_digits(c, 0)),
            two_digits(c, 2),
            two_digits(c, 4),
            two_digits(c, 6),
            two_digits(c, 8),
            0,
        )
    } else {
        Err(X509Error::InvalidDate)
    }
}

/// The time written by the content of a GeneralizedTime: `YYYYMMDDhhmmssZ`.
pub open spec fn spec_generalized_time(c: Seq<u8>) -> Result<ASN1Time, X509Error> {
    if c.len() == 15 && all_digits(c, 14) && c[14] == 90 {
        spec_from_civil(
            100 * two_digits(c, 0) + two_digits(c, 2),
            two_digits(c, 4),
            two_digits(c, 6),
            two_digits(c, 8),
            two_digits(c, 10),
            two_digits(c, 12),
        )
    } else {
        Err(X509Error::InvalidDate)
    }
}

/// One time value at the front of `i`: a universal UTCTime or
/// GeneralizedTime element. Every failure is `InvalidDate`.
pub open spec fn spec_time(i: Seq<u8>) -> Result<(Seq<u8>, ASN1Time), X509Error> {
    match spec_any(i) {
        Err(_) => Err(X509Error::InvalidDate),
        Ok((rest, obj)) => if obj.header.class != CLASS_UNIVERSAL {
            Err(X509Error::InvalidDate)
        } else if obj.header.tag == TAG_UTC_TIME {
            match spec_utc_time(obj.data) {
                Ok(t) => Ok((rest, t)),
                Err(e) => Err(e),
            }
        } else if obj.header.tag == TAG_GENERALIZED_TIME {
            match spec_generalized_time(obj.data) {
                Ok(t) => Ok((rest, t)),
                Err(e) => Err(e),
            }
        } else {
            Err(X509Error::InvalidDate)
        },
    }
}

/// An optional time value at the front of `i`: where none can be read,
/// nothing is taken from `i`.
pub open spec fn spec_time_opt(i: Seq<u8>) -> (Seq<u8>, Option<ASN1Time>) {
    match spec_time(i) {
        Ok((rest, t)) => (rest, Some(t)),
        Err(_) => (i, None),
    }
}

/// The time that a count of seconds since 1970-01-01T00:00:00Z stands for:
/// the start of 1970 where there is no count; the last time that can be held
/// where the count is beyond it.
pub open spec fn spec_from_unix_seconds(s: Option<u64>) -> ASN1Time {
    match s {
        Some(n) => if n <= i64::MAX {
            ASN1Time { timestamp: n as i64 }
        } else {
            ASN1Time { timestamp: i64::MAX }
        },
        None => ASN1Time { timestamp: 0 },
    }
}

fn leap_year(y: i64) -> (r: bool)
    requires
        1 <= y <= 9999,
    ensures
        r == is_leap_year(y as int),
{
    y % 4 == 0 && (y % 100 != 0 || y % 400 == 0)
}

fn month_length(y: i64, m: i64) -> (r: i64)
    requires
        1 <= y <= 9999,
    ensures
        r == days_in_month(y as int, m as int),
        28 <= r <= 31,
{
    if m == 2 {
        if leap_year(y) {
            29
        } else {
            28
        }
    } else if m == 4 || m == 6 || m == 9 || m == 11 {
        30
    } else {
        31
    }
}

fn month_start(y: i64, m: i64) -> (r: i64)
    requires
        1 <= y <= 9999,
        1 <= m <= 12,
    ensures
        r == days_before_month(y as int, m as int),
        0 <= r <= 31 * (m - 1),
{
    let mut acc: i64 = 0;
    let mut k: i64 = 1;
    while k < m
        invariant
            1 <= y <= 9999,
            1 <= k <= m <= 12,
            acc == days_before_month(y as int, k as int),
            0 <= acc <= 31 * (k - 1),
        decreases m - k,
    {
        let len = month_length(y, k);
        acc = acc + len;
        k = k + 1;
    }
    acc
}

/// Reads the two decimal digits of `c` at `k` and `k + 1`.
fn read_two_digits(c: &[u8], k: usize) -> (r: Option<i64>)
    requires
        k + 1 < c@.len(),
    ensures
        r is Some <==> is_digit(c@[k as int]) && is_digit(c@[k + 1]),
        r matches Some(v) ==> v == two_digits(c@, k as int) && 0 <= v <= 99,
{
    let a = c[k];
    let b = c[k + 1];
    if 48 <= a && a <= 57 && 48 <= b && b <= 57 {
        let hi: i64 = (a - 48) as i64;
        let lo: i64 = (b - 48) as i64;
        Some(10 * hi + lo)
    } else {
        None
    }
}

impl ASN1Time {
    /// The time `timestamp` seconds after 1970-01-01T00:00:00Z.
    pub fn from_timestamp(timestamp: i64) -> (r: ASN1Time)
        ensures
            r.timestamp == timestamp,
    {
        ASN1Time { timestamp }
    }

    /// The present time: the time that the count of seconds read from the
    /// machine's clock stands for, as `from_unix_seconds` gives it. Which
    /// count the clock gives is not known before the call; whatever it is,
    /// the time is not before 1970.
    pub fn now() -> (r: ASN1Time)
        ensures
            exists|s: Option<u64>| r == #[trigger] spec_from_unix_seconds(s),
            r.timestamp >= 0,
    {
        let reading = system_now();
        let s = match since_unix_epoch(&reading) {
            Some(d) => Some(duration_as_secs(d)),
            None => None,
        };
        let r = ASN1Time::from_unix_seconds(s);
        assert(r == spec_from_unix_seconds(s));
        r
    }

    /// The time that a count of seconds since 1970-01-01T00:00:00Z stands
    /// for, as a clock gives it: the start of 1970 where the clock has no
    /// count, being set before it; the last time that can be held, where the
    /// count is beyond it.
    pub fn from_unix_seconds(s: Option<u64>) -> (r: ASN1Time)
        ensures
            r == spec_from_unix_seconds(s),
    {
        match s {
            Some(n) => if n <= 0x7fff_ffff_ffff_ffff {
                ASN1Time { timestamp: n as i64 }
            } else {
                ASN1Time { timestamp: 0x7fff_ffff_ffff_ffff }
            },
            None => ASN1Time { timestamp: 0 },
        }
    }

    /// The time `secs` seconds later, unless it is beyond what a time can
    /// hold.
    pub fn checked_add(&self, secs: u64) -> (r: Option<ASN1Time>)
        ensures
            match r {
                Some(t) => t.timestamp == self.timestamp + secs,
                None => self.timestamp + secs > i64::MAX,
            },
    {
        let sum: i128 = self.timestamp as i128 + secs as i128;
        if sum > i64::MAX as i128 {
            None
        } else {
            Some(ASN1Time { timestamp: sum as i64 })
        }
    }

    /// The seconds from `earlier` to this time, unless `earlier` is later.
    pub fn checked_sub(&self, earlier: ASN1Time) -> (r: Option<u64>)
        ensures
            match r {
                Some(d) => d == self.timestamp - earlier.timestamp,
                None => self.timestamp < earlier.timestamp,
            },
    {
        if self.timestamp < earlier.timestamp {
            None
        } else {
            let d: i128 = self.timestamp as i128 - earlier.timestamp as i128;
            Some(d as u64)
        }
    }

    /// Seconds since 1970-01-01T00:00:00Z.
    pub fn timestamp(&self) -> (r: i64)
        ensures
            r == self.timestamp,
    {
        self.timestamp
    }

    /// The time of the given date and time of day, if they exist.
    pub fn from_civil(y: i64, mo: i64, d: i64, h: i64, mi: i64, s: i64) -> (r: Result<
        ASN1Time,
        X509Error,
    >)
        ensures
            r == spec_from_civil(y as int, mo as int, d as int, h as int, mi as int, s as int),
    {
        if y < 1 || y > 9999 || mo < 1 || mo > 12 || d < 1 || h < 0 || h >= 24 || mi < 0 || mi
            >= 60 || s < 0 || s >= 60 {
            return Err(X509Error::InvalidDate);
        }
        if d > month_length(y, mo) {
            return Err(X509Error::InvalidDate);
        }
        let before_year: i64 = 365 * (y - 1) + (y - 1) / 4 - (y - 1) / 100 + (y - 1) / 400;
        let days: i64 = before_year + month_start(y, mo) + (d - 1) - 719162;
        let timestamp: i64 = days * 86400 + h * 3600 + mi * 60 + s;
        Ok(ASN1Time { timestamp })
    }

    /// The time that the content of a UTCTime element writes.
    pub fn from_utc_time(c: &[u8]) -> (r: Result<ASN1Time, X509Error>)
        ensures
            r == spec_utc_time(c@),
    {
        let n = c.len();
        if n != 13 && n != 11 {
            return Err(X509Error::InvalidDate);
        }
        if c[n - 1] != 90 {
            return Err(X509Error::InvalidDate);
        }
        let yy = read_two_digits(c, 0);
        let mo = read_two_digits(c, 2);
        let d = read_two_digits(c, 4);
        let h = read_two_digits(c, 6);
        let mi = read_two_digits(c, 8);
        let s = if n == 13 {
            read_two_digits(c, 10)
        } else {
            Some(0)
        };
        match (yy, mo, d, h, mi, s) {
            (Some(yy), Some(mo), Some(d), Some(h), Some(mi), Some(s)) => {
                let y = if yy >= 50 {
                    1900 + yy
                } else {
                    2000 + yy
                };
                ASN1Time::from_civil(y, mo, d, h, mi, s)
            },
            _ => Err(X509Error::InvalidDate),
        }
    }

    /// The time that the content of a GeneralizedTime element writes.
    pub fn from_generalized_time(c: &[u8]) -> (r: Result<ASN1Time, X509Error>)
        ensures
            r == spec_generalized_time(c@),
    {
        if c.len() != 15 {
            return Err(X509Error::InvalidDate);
        }
        if c[14] != 90 {
            return Err(X509Error::InvalidDate);
        }
        let cc = read_two_digits(c, 0);
        let yy = read_two_digits(c, 2);
        let mo = read_two_digits(c, 4);
        let d = read_two_digits(c, 6);
        let h = read_two_digits(c, 8);
        let mi = read_two_digits(c, 10);
        let s = read_two_digits(c, 12);
        match (cc, yy, mo, d, h, mi, s) {
            (Some(cc), Some(yy), Some(mo), Some(d), Some(h), Some(mi), Some(s)) => {
                ASN1Time::from_civil(100 * cc + yy, mo, d, h, mi, s)
            },
            _ => Err(X509Error::InvalidDate),
        }
    }

    /// Reads one time value, a UTCTime or a GeneralizedTime.
    pub fn from_der<'a>(i: &'a [u8]) -> (r: Result<(&'a [u8], ASN1Time), X509Error>)
        ensures
            parsed(r) == spec_time(i@),
            consumes(i@, r),
    {
        match parse_any(i) {
            Err(_) => Err(X509Error::InvalidDate),
            Ok((rest, obj)) => {
                if obj.header.class != CLASS_UNIVERSAL {
                    Err(X509Error::InvalidDate)
                } else if obj.header.tag == TAG_UTC_TIME {
                    match ASN1Time::from_utc_time(obj.data) {
                        Ok(t) => Ok((rest, t)),
                        Err(e) => Err(e),
                    }
                } else if obj.header.tag == TAG_GENERALIZED_TIME {
                    match ASN1Time::from_generalized_time(obj.data) {
                        Ok(t) => Ok((rest, t)),
                        Err(e) => Err(e),
                    }
                } else {
                    Err(X509Error::InvalidDate)
                }
            },
        }
    }

    /// Reads a time value if one is there, and nothing otherwise.
    pub fn from_der_opt<'a>(i: &'a [u8]) -> (r: (&'a [u8], Option<ASN1Time>))
        ensures
            (r.0@, r.1) == spec_time_opt(i@),
            is_rest(i@, r.0@),
    {
        match ASN1Time::from_der(i) {
            Ok((rest, t)) => (rest, Some(t)),
            Err(_) => {
                assert(i@ =~= i@.skip(0));
                (i, None)
            },
        }
    }
}

#[verifier::external_type_specification]
#[verifier::external_body]
pub struct ExSystemTime(std::time::SystemTime);

/// Reads the clock with `std::time::SystemTime::now`.
///
/// Trusted: nothing is stated of the result, which differs from call to call.
#[verifier::external_body]
pub(crate) fn system_now() -> std::time::SystemTime {
    std::time::SystemTime::now()
}

/// Measures a reading of the clock from 1970-01-01T00:00:00Z with
/// `std::time::SystemTime::duration_since`; none where the reading is before
/// that.
///
/// Trusted: nothing is stated of the result; a reading of the clock is
/// opaque here.
#[verifier::external_body]
pub(crate) fn since_unix_epoch(t: &std::time::SystemTime) -> Option<core::time::Duration> {
    match t.duration_since(std::time::UNIX_EPOCH) {
        Ok(d) => Some(d),
        Err(_) => None,
    }
}

/// The whole seconds that a duration holds.
pub uninterp spec fn duration_secs(d: core::time::Duration) -> u64;

/// Counts the whole seconds of a duration with
/// `core::time::Duration::as_secs`.
///
/// Trusted: the result is the number of whole seconds that the duration
/// holds (`duration_secs`).
#[verifier::external_body]
pub(crate) fn duration_as_secs(d: core::time::Duration) -> (r: u64)
    ensures
        r == duration_secs(d),
{
    d.as_secs()
}

/// Makes a duration of whole seconds with `core::time::Duration::from_secs`.
///
/// Trusted: the duration holds as many whole seconds as it was made of.
#[verifier::external_body]
pub(crate) fn duration_from_secs(s: u64) -> (r: core::time::Duration)
    ensures
        duration_secs(r) == s,
{
    core::time::Duration::from_secs(s)
}

} // verus!

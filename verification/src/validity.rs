//! The period in which a certificate is valid.
use crate::der::{
    consumes, container, cut, is_truncated, parsed, spec_container, CLASS_UNIVERSAL, TAG_SEQUENCE,
};
use crate::error::X509Error;
use crate::time::{duration_from_secs, duration_secs, spec_time, ASN1Time};
use vstd::prelude::*;

verus! {

/// The period from `not_before` up to, but not including, `not_after`.
#[derive(Clone, Copy, Debug, PartialEq, Eq, Structural)]
pub struct Validity {
    pub not_before: ASN1Time,
    pub not_after: ASN1Time,
}

impl View for Validity {
    type V = Validity;

    open spec fn view(&self) -> Validity {
        *self
    }
}

/// One validity at the front of `i`: a SEQUENCE of two times, and nothing
/// more.
pub open spec fn spec_validity(i: Seq<u8>) -> Result<(Seq<u8>, Validity), X509Error> {
    match spec_container(i, CLASS_UNIVERSAL, TAG_SEQUENCE) {
        Err(e) => Err(e),
        Ok((rest, c)) => match spec_time(c) {
            Err(e) => Err(e),
            Ok((c1, not_before)) => match spec_time(c1) {
                Err(e) => Err(e),
                Ok((c2, not_after)) => if c2.len() != 0 {
                    Err(X509Error::InvalidDate)
                } else {
                    Ok((rest, Validity { not_before, not_after }))
                },
            },
        },
    }
}

impl Validity {
    /// Reads one validity.
    pub fn from_der<'a>(i: &'a [u8]) -> (r: Result<(&'a [u8], Validity), X509Error>)
        ensures
            parsed(r) == spec_validity(i@),
            consumes(i@, r),
            r matches Ok((rest, _)) ==> is_truncated(spec_validity(cut(i@, rest@))),
    {
        let (rest, c) = match container(i, CLASS_UNIVERSAL, TAG_SEQUENCE) {
            Ok(x) => x,
            Err(e) => { return Err(e); },
        };
        let (c1, not_before) = match ASN1Time::from_der(c) {
            Ok(x) => x,
            Err(e) => { return Err(e); },
        };
        let (c2, not_after) = match ASN1Time::from_der(c1) {
            Ok(x) => x,
            Err(e) => { return Err(e); },
        };
        if c2.len() != 0 {
            return Err(X509Error::InvalidDate);
        }
        Ok((rest, Validity { not_before, not_after }))
    }

    /// True when `time` is in the period: at or after `not_before`, and
    /// before `not_after`.
    pub open spec fn spec_is_valid_at(&self, time: ASN1Time) -> bool {
        self.not_before.timestamp <= time.timestamp < self.not_after.timestamp
    }

    /// The seconds from `now` to the end of the period, when `now` is in it.
    pub open spec fn spec_remaining_at(&self, now: ASN1Time) -> Option<u64> {
        if self.spec_is_valid_at(now) {
            Some((self.not_after.timestamp - now.timestamp) as u64)
        } else {
            None
        }
    }

    /// Tells whether the period holds `time`.
    #[verifier::when_used_as_spec(spec_is_valid_at)]
    pub fn is_valid_at(&self, time: ASN1Time) -> (r: bool)
        ensures
            r == self.spec_is_valid_at(time),
    {
        time.timestamp >= self.not_before.timestamp && time.timestamp < self.not_after.timestamp
    }

    /// The seconds left at `now` before the period ends: none when `now` is
    /// outside the period, before it or after it.
    pub fn remaining_at(&self, now: ASN1Time) -> (r: Option<u64>)
        ensures
            r == self.spec_remaining_at(now),
            r matches Some(s) ==> s > 0,
    {
        if !self.is_valid_at(now) {
            return None;
        }
        let after: i128 = self.not_after.timestamp as i128;
        let at: i128 = now.timestamp as i128;
        Some((after - at) as u64)
    }

    /// Tells whether the period holds the present time: the answer is that
    /// of `is_valid_at` for the time that the clock gives, which is not
    /// before 1970. So a period that is empty, or that ends in 1970 or
    /// before, is never valid.
    pub fn is_valid(&self) -> (r: bool)
        ensures
            exists|now: ASN1Time| now.timestamp >= 0 && r == #[trigger] self.spec_is_valid_at(now),
            r ==> self.not_before.timestamp < self.not_after.timestamp && 0
                < self.not_after.timestamp,
    {
        let now = ASN1Time::now();
        let r = self.is_valid_at(now);
        assert(now.timestamp >= 0 && r == self.spec_is_valid_at(now));
        r
    }

    /// The time left before the period ends: the duration of the seconds that
    /// `remaining_at` gives for the time that the clock gives, which is not
    /// before 1970; none where that time is outside the period, before it or
    /// after it.
    pub fn time_to_expiration(&self) -> (r: Option<core::time::Duration>)
        ensures
            exists|now: ASN1Time|
                now.timestamp >= 0 && match r {
                    Some(d) => #[trigger] self.spec_remaining_at(now) == Some(duration_secs(d)),
                    None => self.spec_remaining_at(now) is None,
                },
            r matches Some(d) ==> 0 < duration_secs(d) && self.not_before.timestamp
                < self.not_after.timestamp && 0 < self.not_after.timestamp,
    {
        let now = ASN1Time::now();
        let r = match self.remaining_at(now) {
            None => None,
            Some(s) => Some(duration_from_secs(s)),
        };
        assert(now.timestamp >= 0 && match r {
            Some(d) => self.spec_remaining_at(now) == Some(duration_secs(d)),
            None => self.spec_remaining_at(now) is None,
        });
        r
    }
}

/// The period is closed at its start and open at its end: it holds
/// `not_before`, it does not hold `not_after`, and it holds no time before
/// `not_before`.
pub proof fn lemma_validity_is_half_open(v: Validity, earlier: ASN1Time)
    requires
        v.not_before.timestamp < v.not_after.timestamp,
        earlier.timestamp < v.not_before.timestamp,
    ensures
        v.spec_is_valid_at(v.not_before),
        !v.spec_is_valid_at(v.not_after),
        !v.spec_is_valid_at(earlier),
{
}

} // verus!

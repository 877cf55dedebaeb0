//! Unsigned integers: the value that bytes write, integers of 32 bits, and
//! integers of any size, as `num_bigint` holds them.
use crate::error::X509Error;
use num_bigint::BigUint;
use vstd::prelude::*;

verus! {

/// The number that bytes write in base 256, the first byte weighing most.
pub open spec fn spec_be_value(b: Seq<u8>) -> nat
    decreases b.len(),
{
    if b.len() == 0 {
        0
    } else {
        spec_be_value(b.drop_last()) * 256 + b.last() as nat
    }
}

/// The first bytes of a number write no more than the whole.
pub proof fn lemma_be_value_grows(b: Seq<u8>, k: int)
    requires
        0 <= k <= b.len(),
    ensures
        spec_be_value(b.take(k)) <= spec_be_value(b),
    decreases b.len() - k,
{
    if k == b.len() {
        assert(b.take(k) =~= b);
    } else {
        assert(b.take(k + 1).drop_last() =~= b.take(k));
        lemma_be_value_grows(b, k + 1);
    }
}

/// The value of the content of an INTEGER that is not negative and fits in
/// 32 bits.
pub open spec fn spec_u32_content(c: Seq<u8>) -> Result<u32, X509Error> {
    if c.len() == 0 {
        Err(X509Error::InvalidLength)
    } else if c[0] >= 0x80 || spec_be_value(c) > u32::MAX {
        Err(X509Error::Malformed)
    } else {
        Ok(spec_be_value(c) as u32)
    }
}

/// Reads the content of an INTEGER as a `u32`.
pub fn u32_content(c: &[u8]) -> (r: Result<u32, X509Error>)
    ensures
        r == spec_u32_content(c@),
{
    if c.len() == 0 {
        return Err(X509Error::InvalidLength);
    }
    if c[0] >= 0x80 {
        return Err(X509Error::Malformed);
    }
    let mut acc: u64 = 0;
    let mut k: usize = 0;
    proof {
        assert(c@.take(0) =~= Seq::<u8>::empty());
    }
    while k < c.len()
        invariant
            k <= c.len(),
            acc == spec_be_value(c@.take(k as int)),
            acc <= u32::MAX,
        decreases c.len() - k,
    {
        proof {
            assert(c@.take(k + 1).drop_last() =~= c@.take(k as int));
        }
        acc = acc * 256 + c[k] as u64;
        k += 1;
        if acc > 0xffff_ffff {
            proof {
                lemma_be_value_grows(c@, k as int);
            }
            return Err(X509Error::Malformed);
        }
    }
    proof {
        assert(c@.take(c.len() as int) =~= c@);
    }
    Ok(acc as u32)
}

#[verifier::external_type_specification]
#[verifier::external_body]
pub struct ExBigUint(BigUint);

/// The number that a `BigUint` holds.
pub uninterp spec fn biguint_value(n: BigUint) -> nat;

/// Makes a number from its bytes, the first weighing most, with
/// `num_bigint::BigUint::from_bytes_be`.
///
/// Trusted: the number is the one that the bytes write in base 256.
#[verifier::external_body]
pub(crate) fn biguint_from_bytes_be(b: &[u8]) -> (r: BigUint)
    ensures
        biguint_value(r) == spec_be_value(b@),
{
    BigUint::from_bytes_be(b)
}

} // verus!

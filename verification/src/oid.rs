//! Object identifiers, held as the content bytes of their DER encoding.
use crate::der::{consumes, parsed, spec_tagged, tagged, TAG_OID};
use crate::error::X509Error;
use vstd::prelude::*;

verus! {

/// An object identifier: the content bytes of its encoding, borrowed.
#[derive(Clone, Copy, Debug)]
pub struct Oid<'a> {
    pub bytes: &'a [u8],
}

impl<'a> View for Oid<'a> {
    type V = Seq<u8>;

    open spec fn view(&self) -> Seq<u8> {
        self.bytes@
    }
}

/// True when two byte strings are the same.
pub fn bytes_eq(a: &[u8], b: &[u8]) -> (r: bool)
    ensures
        r == (a@ == b@),
{
    if a.len() != b.len() {
        return false;
    }
    let mut k: usize = 0;
    while k < a.len()
        invariant
            k <= a.len(),
            a.len() == b.len(),
            forall|j: int| 0 <= j < k ==> a@[j] == b@[j],
        decreases a.len() - k,
    {
        if a[k] != b[k] {
            return false;
        }
        k += 1;
    }
    assert(a@ =~= b@);
    true
}

impl<'a> Oid<'a> {
    /// The identifier whose encoded content is `bytes`.
    pub fn new(bytes: &'a [u8]) -> (r: Self)
        ensures
            r@ == bytes@,
    {
        Oid { bytes }
    }

    /// The encoded content.
    pub fn bytes(&self) -> (r: &'a [u8])
        ensures
            r@ == self@,
    {
        self.bytes
    }

    /// True when both identifiers have the same encoding.
    pub fn equals(&self, other: &Oid) -> (r: bool)
        ensures
            r == (self@ == other@),
    {
        bytes_eq(self.bytes, other.bytes)
    }
}

/// One DER OBJECT IDENTIFIER at the front of `i`.
pub open spec fn spec_oid(i: Seq<u8>) -> Result<(Seq<u8>, Seq<u8>), X509Error> {
    spec_tagged(i, TAG_OID)
}

/// Reads one DER OBJECT IDENTIFIER.
pub fn parse_oid<'a>(i: &'a [u8]) -> (r: Result<(&'a [u8], Oid<'a>), X509Error>)
    ensures
        parsed(r) == spec_oid(i@),
        consumes(i@, r),
{
    match tagged(i, TAG_OID) {
        Err(e) => Err(e),
        Ok((rest, c)) => Ok((rest, Oid { bytes: c })),
    }
}

/// The reader of one object identifier, for `spec_many`.
pub open spec fn oid_reader() -> spec_fn(Seq<u8>) -> Result<(Seq<u8>, Seq<u8>), X509Error> {
    |i: Seq<u8>| spec_oid(i)
}

} // verus!

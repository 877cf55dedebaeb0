//! The version of a certificate, a revocation list or a request.
use crate::der::{
    ber_header, consumes, leaves_rest, parse_u32, parsed, read_ber_header, spec_u32, CLASS_CONTEXT,
};
use crate::error::X509Error;
use crate::text::{spec_unnamed, unnamed};
use vstd::prelude::*;
use vstd::slice::slice_subrange;
use vstd::string::*;

verus! {

/// A version number as encoded: 0 for version 1, 1 for version 2, 2 for
/// version 3.
#[derive(Clone, Copy, Debug, PartialEq, Eq, Structural)]
pub struct X509Version(pub u32);

impl View for X509Version {
    type V = X509Version;

    open spec fn view(&self) -> X509Version {
        *self
    }
}

/// A version behind the explicit context tag `[0]`, with version 1 as the
/// default: where the element at the front of `i` is not tagged `[0]`, the
/// version is 1 and nothing is taken from `i`. Every failure is
/// `InvalidVersion`.
pub open spec fn spec_version(i: Seq<u8>) -> Result<(Seq<u8>, X509Version), X509Error> {
    match ber_header(i) {
        Err(_) => Err(X509Error::InvalidVersion),
        Ok((body, h)) => if h.class == CLASS_CONTEXT && h.tag == 0 {
            match spec_u32(body) {
                Err(_) => Err(X509Error::InvalidVersion),
                Ok((rest, v)) => Ok((rest, X509Version(v))),
            }
        } else {
            Ok((i, X509Version(0)))
        },
    }
}

/// The version of a certification request: behind `[0]` as in
/// `spec_version`; else the element at the front is taken for an INTEGER of
/// one byte, passed over, and the version is 1.
pub open spec fn spec_version_required(i: Seq<u8>) -> Result<(Seq<u8>, X509Version), X509Error> {
    match ber_header(i) {
        Err(_) => Err(X509Error::InvalidVersion),
        Ok((body, h)) => if h.class == CLASS_CONTEXT && h.tag == 0 {
            match spec_u32(body) {
                Err(_) => Err(X509Error::InvalidVersion),
                Ok((rest, v)) => Ok((rest, X509Version(v))),
            }
        } else if body.len() == 0 {
            Err(X509Error::InvalidVersion)
        } else {
            Ok((body.skip(1), X509Version(0)))
        },
    }
}

/// How a version is shown: `V1`, `V2` or `V3`; any other number as a number
/// without a name.
pub open spec fn spec_version_text(v: X509Version) -> Seq<char> {
    if v.0 == 0 {
        "V1"@
    } else if v.0 == 1 {
        "V2"@
    } else if v.0 == 2 {
        "V3"@
    } else {
        spec_unnamed("X509Version"@, v.0 as nat)
    }
}

/// An input that does not start with the tag `[0]` has the version 1, and
/// nothing of it is read for the version.
pub proof fn lemma_version_defaults_to_v1(i: Seq<u8>)
    requires
        ber_header(i) matches Ok((_, h)) && !(h.class == CLASS_CONTEXT && h.tag == 0),
    ensures
        spec_version(i) == Ok::<(Seq<u8>, X509Version), X509Error>((i, X509Version(0))),
{
}

impl X509Version {
    /// The version as text.
    pub fn to_string(&self) -> (r: String)
        ensures
            r@ == spec_version_text(*self),
    {
        if self.0 == 0 {
            String::from_str("V1")
        } else if self.0 == 1 {
            String::from_str("V2")
        } else if self.0 == 2 {
            String::from_str("V3")
        } else {
            unnamed("X509Version", self.0)
        }
    }

    /// Version 1, encoded as 0.
    pub fn v1() -> (r: X509Version)
        ensures
            r == X509Version(0),
    {
        X509Version(0)
    }

    /// Version 2, encoded as 1.
    pub fn v2() -> (r: X509Version)
        ensures
            r == X509Version(1),
    {
        X509Version(1)
    }

    /// Version 3, encoded as 2.
    pub fn v3() -> (r: X509Version)
        ensures
            r == X509Version(2),
    {
        X509Version(2)
    }

    /// Reads `[0] EXPLICIT Version DEFAULT v1`.
    pub fn from_der<'a>(i: &'a [u8]) -> (r: Result<(&'a [u8], X509Version), X509Error>)
        ensures
            parsed(r) == spec_version(i@),
            leaves_rest(i@, r),
    {
        let (body, h) = match read_ber_header(i) {
            Ok(x) => x,
            Err(_) => { return Err(X509Error::InvalidVersion); },
        };
        if h.class == CLASS_CONTEXT && h.tag == 0 {
            match parse_u32(body) {
                Err(_) => Err(X509Error::InvalidVersion),
                Ok((rest, v)) => {
                    proof {
                        crate::der::lemma_rest_of_rest(i@, body@, rest@);
                    }
                    Ok((rest, X509Version(v)))
                },
            }
        } else {
            assert(i@ =~= i@.skip(0));
            Ok((i, X509Version(0)))
        }
    }

    /// Reads the version of a certification request.
    pub fn from_der_required<'a>(i: &'a [u8]) -> (r: Result<(&'a [u8], X509Version), X509Error>)
        ensures
            parsed(r) == spec_version_required(i@),
            consumes(i@, r),
    {
        let (body, h) = match read_ber_header(i) {
            Ok(x) => x,
            Err(_) => { return Err(X509Error::InvalidVersion); },
        };
        if h.class == CLASS_CONTEXT && h.tag == 0 {
            match parse_u32(body) {
                Err(_) => Err(X509Error::InvalidVersion),
                Ok((rest, v)) => {
                    proof {
                        crate::der::lemma_rest_of_rest(i@, body@, rest@);
                    }
                    Ok((rest, X509Version(v)))
                },
            }
        } else if body.len() == 0 {
            Err(X509Error::InvalidVersion)
        } else {
            let rest = slice_subrange(body, 1, body.len());
            proof {
                assert(rest@ =~= body@.skip(1));
                assert(rest@ =~= i@.skip(i@.len() - rest@.len()));
            }
            Ok((rest, X509Version(0)))
        }
    }
}

} // verus!

//! Algorithm identifiers and public keys.
use crate::der::{
    consumes, container, cut, is_truncated, parse_any, parse_bit_string, parsed, spec_any,
    spec_bit_string, spec_container, BitStringObject, BitStringView, CLASS_UNIVERSAL, DerObject,
    DerObjectView, TAG_SEQUENCE,
};
use crate::error::X509Error;
use crate::oid::{parse_oid, spec_oid, Oid};
use vstd::prelude::*;

verus! {

/// An algorithm and its parameters, if it has any.
#[derive(Clone, Copy, Debug)]
pub struct AlgorithmIdentifier<'a> {
    pub algorithm: Oid<'a>,
    pub parameters: Option<DerObject<'a>>,
}

/// What an `AlgorithmIdentifier` holds.
pub struct AlgorithmIdentifierView {
    pub algorithm: Seq<u8>,
    pub parameters: Option<DerObjectView>,
}

impl<'a> View for AlgorithmIdentifier<'a> {
    type V = AlgorithmIdentifierView;

    open spec fn view(&self) -> AlgorithmIdentifierView {
        AlgorithmIdentifierView {
            algorithm: self.algorithm@,
            parameters: match self.parameters {
                Some(p) => Some(p@),
                None => None,
            },
        }
    }
}

/// One algorithm identifier at the front of `i`: a SEQUENCE of an object
/// identifier and, optionally, one element of any type, and nothing more.
pub open spec fn spec_algorithm_identifier(i: Seq<u8>) -> Result<
    (Seq<u8>, AlgorithmIdentifierView),
    X509Error,
> {
    match spec_container(i, CLASS_UNIVERSAL, TAG_SEQUENCE) {
        Err(e) => Err(e),
        Ok((rest, c)) => match spec_oid(c) {
            Err(_) => Err(X509Error::InvalidAlgorithmIdentifier),
            Ok((c1, algorithm)) => if c1.len() == 0 {
                Ok((rest, AlgorithmIdentifierView { algorithm, parameters: None }))
            } else {
                match spec_any(c1) {
                    Err(_) => Err(X509Error::InvalidAlgorithmIdentifier),
                    Ok((c2, p)) => if c2.len() != 0 {
                        Err(X509Error::InvalidAlgorithmIdentifier)
                    } else {
                        Ok((rest, AlgorithmIdentifierView { algorithm, parameters: Some(p) }))
                    },
                }
            },
        },
    }
}

impl<'a> AlgorithmIdentifier<'a> {
    /// Reads one algorithm identifier.
    pub fn from_der(i: &'a [u8]) -> (r: Result<(&'a [u8], AlgorithmIdentifier<'a>), X509Error>)
        ensures
            parsed(r) == spec_algorithm_identifier(i@),
            consumes(i@, r),
            r matches Ok((rest, _)) ==> is_truncated(spec_algorithm_identifier(cut(i@, rest@))),
    {
        let (rest, c) = match container(i, CLASS_UNIVERSAL, TAG_SEQUENCE) {
            Ok(x) => x,
            Err(e) => { return Err(e); },
        };
        let (c1, algorithm) = match parse_oid(c) {
            Ok(x) => x,
            Err(_) => { return Err(X509Error::InvalidAlgorithmIdentifier); },
        };
        if c1.len() == 0 {
            return Ok((rest, AlgorithmIdentifier { algorithm, parameters: None }));
        }
        let (c2, p) = match parse_any(c1) {
            Ok(x) => x,
            Err(_) => { return Err(X509Error::InvalidAlgorithmIdentifier); },
        };
        if c2.len() != 0 {
            return Err(X509Error::InvalidAlgorithmIdentifier);
        }
        Ok((rest, AlgorithmIdentifier { algorithm, parameters: Some(p) }))
    }
}

/// A public key and the algorithm it is for.
#[derive(Clone, Copy, Debug)]
pub struct SubjectPublicKeyInfo<'a> {
    pub algorithm: AlgorithmIdentifier<'a>,
    pub subject_public_key: BitStringObject<'a>,
}

/// What a `SubjectPublicKeyInfo` holds.
pub struct SubjectPublicKeyInfoView {
    pub algorithm: AlgorithmIdentifierView,
    pub subject_public_key: BitStringView,
}

impl<'a> View for SubjectPublicKeyInfo<'a> {
    type V = SubjectPublicKeyInfoView;

    open spec fn view(&self) -> SubjectPublicKeyInfoView {
        SubjectPublicKeyInfoView {
            algorithm: self.algorithm@,
            subject_public_key: self.subject_public_key@,
        }
    }
}

/// One public key at the front of `i`: a SEQUENCE of an algorithm identifier
/// and a BIT STRING, and nothing more. The bit string is kept as it is, with
/// its count of unused bits.
pub open spec fn spec_subject_public_key_info(i: Seq<u8>) -> Result<
    (Seq<u8>, SubjectPublicKeyInfoView),
    X509Error,
> {
    match spec_container(i, CLASS_UNIVERSAL, TAG_SEQUENCE) {
        Err(e) => Err(e),
        Ok((rest, c)) => match spec_algorithm_identifier(c) {
            Err(e) => Err(e),
            Ok((c1, algorithm)) => match spec_bit_string(c1) {
                Err(_) => Err(X509Error::InvalidSPKI),
                Ok((c2, subject_public_key)) => if c2.len() != 0 {
                    Err(X509Error::InvalidSPKI)
                } else {
                    Ok((rest, SubjectPublicKeyInfoView { algorithm, subject_public_key }))
                },
            },
        },
    }
}

impl<'a> SubjectPublicKeyInfo<'a> {
    /// Reads one public key with its algorithm.
    pub fn from_der(i: &'a [u8]) -> (r: Result<(&'a [u8], Self), X509Error>)
        ensures
            parsed(r) == spec_subject_public_key_info(i@),
            consumes(i@, r),
            r matches Ok((rest, _)) ==> is_truncated(spec_subject_public_key_info(cut(i@, rest@))),
    {
        let (rest, c) = match container(i, CLASS_UNIVERSAL, TAG_SEQUENCE) {
            Ok(x) => x,
            Err(e) => { return Err(e); },
        };
        let (c1, algorithm) = match AlgorithmIdentifier::from_der(c) {
            Ok(x) => x,
            Err(e) => { return Err(e); },
        };
        let (c2, subject_public_key) = match parse_bit_string(c1) {
            Ok(x) => x,
            Err(_) => { return Err(X509Error::InvalidSPKI); },
        };
        if c2.len() != 0 {
            return Err(X509Error::InvalidSPKI);
        }
        Ok((rest, SubjectPublicKeyInfo { algorithm, subject_public_key }))
    }
}

/// The signature of an envelope at the front of `i`: one BIT STRING. Every
/// failure is `InvalidSignatureValue`.
pub open spec fn spec_signature_value(i: Seq<u8>) -> Result<(Seq<u8>, BitStringView), X509Error> {
    match spec_bit_string(i) {
        Err(_) => Err(X509Error::InvalidSignatureValue),
        Ok(x) => Ok(x),
    }
}

/// Reads the signature of an envelope.
pub fn parse_signature_value<'a>(i: &'a [u8]) -> (r: Result<
    (&'a [u8], BitStringObject<'a>),
    X509Error,
>)
    ensures
        parsed(r) == spec_signature_value(i@),
        consumes(i@, r),
{
    match parse_bit_string(i) {
        Err(_) => Err(X509Error::InvalidSignatureValue),
        Ok(x) => Ok(x),
    }
}

} // verus!

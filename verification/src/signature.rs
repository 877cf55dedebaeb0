//! Verification of the signature of a certificate or a request.
use crate::error::X509Error;
use crate::objects::{
    oid_pkcs1_sha1withrsa, oid_pkcs1_sha256withrsa, oid_pkcs1_sha384withrsa,
    oid_pkcs1_sha512withrsa, oid_sig_ecdsa_with_sha256, oid_sig_ecdsa_with_sha384,
    spec_oid_pkcs1_sha1withrsa, spec_oid_pkcs1_sha256withrsa, spec_oid_pkcs1_sha384withrsa,
    spec_oid_pkcs1_sha512withrsa, spec_oid_sig_ecdsa_with_sha256, spec_oid_sig_ecdsa_with_sha384,
};
use crate::oid::Oid;
use vstd::prelude::*;

verus! {

/// The signature algorithms that can be verified.
#[derive(Clone, Copy, Debug, PartialEq, Eq, Structural)]
pub enum SignatureAlgorithm {
    RsaPkcs1Sha1,
    RsaPkcs1Sha256,
    RsaPkcs1Sha384,
    RsaPkcs1Sha512,
    EcdsaP256Sha256,
    EcdsaP384Sha384,
}

/// The algorithm that an object identifier names, if it is one of those
/// that can be verified.
pub open spec fn spec_signature_algorithm(oid: Seq<u8>) -> Option<SignatureAlgorithm> {
    if oid == spec_oid_pkcs1_sha1withrsa() {
        Some(SignatureAlgorithm::RsaPkcs1Sha1)
    } else if oid == spec_oid_pkcs1_sha256withrsa() {
        Some(SignatureAlgorithm::RsaPkcs1Sha256)
    } else if oid == spec_oid_pkcs1_sha384withrsa() {
        Some(SignatureAlgorithm::RsaPkcs1Sha384)
    } else if oid == spec_oid_pkcs1_sha512withrsa() {
        Some(SignatureAlgorithm::RsaPkcs1Sha512)
    } else if oid == spec_oid_sig_ecdsa_with_sha256() {
        Some(SignatureAlgorithm::EcdsaP256Sha256)
    } else if oid == spec_oid_sig_ecdsa_with_sha384() {
        Some(SignatureAlgorithm::EcdsaP384Sha384)
    } else {
        None
    }
}

/// Finds the algorithm that an object identifier names.
pub fn signature_algorithm(oid: &Oid) -> (r: Option<SignatureAlgorithm>)
    ensures
        r == spec_signature_algorithm(oid@),
{
    if oid.equals(&oid_pkcs1_sha1withrsa()) {
        Some(SignatureAlgorithm::RsaPkcs1Sha1)
    } else if oid.equals(&oid_pkcs1_sha256withrsa()) {
        Some(SignatureAlgorithm::RsaPkcs1Sha256)
    } else if oid.equals(&oid_pkcs1_sha384withrsa()) {
        Some(SignatureAlgorithm::RsaPkcs1Sha384)
    } else if oid.equals(&oid_pkcs1_sha512withrsa()) {
        Some(SignatureAlgorithm::RsaPkcs1Sha512)
    } else if oid.equals(&oid_sig_ecdsa_with_sha256()) {
        Some(SignatureAlgorithm::EcdsaP256Sha256)
    } else if oid.equals(&oid_sig_ecdsa_with_sha384()) {
        Some(SignatureAlgorithm::EcdsaP384Sha384)
    } else {
        None
    }
}

/// Whether `signature` is a signature of `message` under the public key
/// `key`, for the algorithm `algorithm`.
pub uninterp spec fn signature_holds(
    algorithm: SignatureAlgorithm,
    key: Seq<u8>,
    message: Seq<u8>,
    signature: Seq<u8>,
) -> bool;

/// Verifies a signature with `ring::signature::UnparsedPublicKey::verify`.
///
/// Trusted: the answer is a function of the algorithm, the key, the message
/// and the signature (`signature_holds`).
#[verifier::external_body]
pub(crate) fn ring_verify(
    algorithm: SignatureAlgorithm,
    key: &[u8],
    message: &[u8],
    signature: &[u8],
) -> (r: bool)
    ensures
        r == signature_holds(algorithm, key@, message@, signature@),
{
    let alg: &dyn ring::signature::VerificationAlgorithm = match algorithm {
        SignatureAlgorithm::RsaPkcs1Sha1 =>
            &ring::signature::RSA_PKCS1_1024_8192_SHA1_FOR_LEGACY_USE_ONLY,
        SignatureAlgorithm::RsaPkcs1Sha256 => &ring::signature::RSA_PKCS1_2048_8192_SHA256,
        SignatureAlgorithm::RsaPkcs1Sha384 => &ring::signature::RSA_PKCS1_2048_8192_SHA384,
        SignatureAlgorithm::RsaPkcs1Sha512 => &ring::signature::RSA_PKCS1_2048_8192_SHA512,
        SignatureAlgorithm::EcdsaP256Sha256 => &ring::signature::ECDSA_P256_SHA256_ASN1,
        SignatureAlgorithm::EcdsaP384Sha384 => &ring::signature::ECDSA_P384_SHA384_ASN1,
    };
    ring::signature::UnparsedPublicKey::new(alg, key).verify(message, signature).is_ok()
}

/// The outcome of a verification: an algorithm that cannot be verified is
/// reported as such; else the signature holds or it does not.
pub open spec fn spec_verify(
    algorithm: Seq<u8>,
    key: Seq<u8>,
    message: Seq<u8>,
    signature: Seq<u8>,
) -> Result<(), X509Error> {
    match spec_signature_algorithm(algorithm) {
        None => Err(X509Error::SignatureUnsupportedAlgorithm),
        Some(a) => if signature_holds(a, key, message, signature) {
            Ok(())
        } else {
            Err(X509Error::SignatureVerificationError)
        },
    }
}

/// Verifies that `signature` is a signature of `message` under `key`, for
/// the algorithm that `algorithm` names.
pub fn verify(algorithm: &Oid, key: &[u8], message: &[u8], signature: &[u8]) -> (r: Result<
    (),
    X509Error,
>)
    ensures
        r == spec_verify(algorithm@, key@, message@, signature@),
{
    match signature_algorithm(algorithm) {
        None => Err(X509Error::SignatureUnsupportedAlgorithm),
        Some(a) => if ring_verify(a, key, message, signature) {
            Ok(())
        } else {
            Err(X509Error::SignatureVerificationError)
        },
    }
}

} // verus!

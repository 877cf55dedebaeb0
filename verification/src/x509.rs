//! The types of certificates, revocation lists and certification requests,
//! in one place.
pub use crate::algorithm::{AlgorithmIdentifier, SubjectPublicKeyInfo};
pub use crate::certificate::{TbsCertificate, UniqueIdentifier, X509Certificate};
pub use crate::certification_request::{
    X509CertificationRequest, X509CertificationRequestInfo, X509CriAttribute,
};
pub use crate::extensions::ReasonCode;
pub use crate::name::{
    attribute_value_to_string, x509name_to_string, AttributeTypeAndValue,
    RelativeDistinguishedName, X509Name,
};
pub use crate::revocation_list::{CertificateRevocationList, RevokedCertificate, TbsCertList};
pub use crate::validity::Validity;
pub use crate::version::X509Version;
pub use crate::x509_extension::X509Extension;

//! Decoding of X.509 certificates, revocation lists and certification
//! requests from their DER encoding (RFC 5280, RFC 2986).
//!
//! Every decoder takes the bytes to read and returns the decoded object
//! together with the bytes that follow it. Decoded objects borrow from the
//! input; nothing is copied but what has to be owned.
//!
//! Elements are read by the `der_parser` codec; what the codec returns is
//! named in `der`, and the contract of each decoder says, over those names,
//! which inputs it accepts, what it returns for them, and which error it
//! gives for the others. The decoders do not panic.
//!
//! A decoder is strict about what it reads: the fields of a structure must
//! fill it from end to end; an object identifier occurs once in a list of
//! extensions or attributes; a critical extension that is unknown, or whose
//! content cannot be decoded, fails the structure that holds it.
pub mod algorithm;
pub mod certificate;
pub mod certification_request;
pub mod der;
pub mod error;
pub mod extensions;
pub mod general_name;
pub mod integer;
pub mod name;
pub mod objects;
pub mod oid;
pub mod repeated;
pub mod revocation_list;
pub mod signature;
pub mod text;
pub mod time;
pub mod validity;
pub mod version;
pub mod x509;
pub mod x509_extension;

//! Signed CoRIM: the `#6.18` COSE_Sign1 envelope, its protected header, CWT claims,
//! X.509 header parameters and COSE algorithm identifiers.
pub mod algorithm;
pub mod builder;
pub mod cwt;
pub mod envelope;
pub mod header;
pub mod x509;

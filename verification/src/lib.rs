//! Verified CoRIM (Concise Reference Integrity Manifest) support library.
//!
//! The crate models CBOR data items as [`cbor::Value`] with a mathematical
//! view [`cbor::VModel`], and proves the encoder and decoder against a
//! byte-level specification of the CBOR data model subset used by CoRIM.
pub mod baseline;
pub mod builder;
pub mod binary64;
pub mod cbor;
pub mod compat;
pub mod diagnose;
pub mod intmap;
pub mod text;
pub mod profile;
pub mod error;
pub mod tags;
pub mod types;
pub mod value_text;

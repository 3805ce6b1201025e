//! CoRIM data types.
pub mod comid;
pub mod common;
pub mod corim;
pub mod environment;
pub mod measurement;
pub mod signed;
pub mod triples;

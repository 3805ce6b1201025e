//! Error types of the crate.
use vstd::prelude::*;
use crate::text::{dec_int, push_str, push_u64};

verus! {

/// Errors from CBOR encoding.
#[derive(Debug)]
#[non_exhaustive]
pub enum EncodeError {
    /// CBOR serialization failed.
    Serialization(String),
}

/// Errors from CBOR decoding.
#[derive(Debug)]
#[non_exhaustive]
pub enum DecodeError {
    /// CBOR deserialization failed.
    Deserialization(String),
    /// Expected a specific CBOR tag but found a different one.
    UnexpectedTag {
        /// The tag number that was expected.
        expected: u64,
        /// The tag number that was found.
        found: u64,
    },
    /// The decoded structure is invalid.
    InvalidStructure(String),
}

/// Errors from the builder API.
#[derive(Debug)]
#[non_exhaustive]
pub enum BuilderError {
    /// A required field was not set.
    MissingField(&'static str),
    /// The triples map is empty.
    EmptyTriples,
    /// No CoMID tags were added to the CoRIM.
    NoTags,
    /// A list that must be non-empty (CDDL `[+ T]`) was empty.
    EmptyList {
        /// Name of the field.
        field: &'static str,
    },
    /// Validity constraint violated (not_before > not_after).
    InvalidValidity,
    /// A validation error from a type's validity check.
    Validation(String),
    /// A conditional triple references an environment that no reference triple characterises.
    UnanchoredConditionEnv {
        /// Which triple list the offending entry came from.
        triple_kind: &'static str,
        /// Position of the entry within that list (0-based).
        index: usize,
    },
    /// A condition-side measurement is not anchored by a reference-triple measurement.
    UnanchoredConditionMeasurement {
        /// Which triple list / sub-list the offending entry came from.
        triple_kind: &'static str,
        /// Position of the offending triple within its list (0-based).
        triple_index: usize,
        /// Position of the offending measurement within the to-anchor list (0-based).
        measurement_index: usize,
    },
    /// An environment label was declared twice on one builder.
    DuplicateEnvLabel {
        /// The duplicated label.
        label: String,
    },
    /// An environment reference produced by another builder was used.
    RefFromOtherBuilder {
        /// The label carried by the foreign ref.
        label: String,
    },
    /// An encoding error occurred during building.
    Encode(EncodeError),
}

/// Errors from validation / appraisal.
#[derive(Debug)]
#[non_exhaustive]
pub enum ValidationError {
    /// A decode error occurred during validation.
    Decode(DecodeError),
    /// The CoRIM has expired.
    Expired,
    /// The CoRIM is not yet valid.
    NotYetValid,
    /// No CoMID tags were found in the CoRIM.
    NoComidTags,
    /// The CoMID tag-identity is missing tag-id.
    MissingTagId,
    /// The CoMID triples map is empty.
    EmptyTriples,
    /// The CoTL tags-list is empty.
    EmptyTagsList,
    /// A type-level validation failed.
    Invalid(String),
    /// A non-empty constraint was violated.
    NonEmpty(String),
    /// No common digest algorithms between reference and evidence.
    NoCommonAlgorithms,
    /// Digest values do not match for a given algorithm.
    DigestMismatch {
        /// The algorithm identifier where the mismatch occurred.
        alg: i64,
    },
    /// SVN values do not match.
    SvnMismatch {
        /// The expected SVN value.
        expected: u64,
        /// The actual SVN value.
        actual: u64,
    },
    /// Conditional endorsement series entries use inconsistent mkeys.
    InconsistentMkeys,
    /// System clock error.
    Clock(String),
    /// Input payload exceeds maximum allowed size.
    PayloadTooLarge {
        /// Actual size in bytes.
        size: usize,
        /// Maximum allowed size in bytes.
        max: usize,
    },
}


/// The message of an encoding error.
pub open spec fn encode_error_text(e: EncodeError) -> Seq<char> {
    match e {
        EncodeError::Serialization(m) => "CBOR serialization failed: "@ + m@,
    }
}

impl EncodeError {
    /// The human-readable message of the error.
    pub fn to_text(&self) -> (s: String)
        ensures
            s@ == encode_error_text(*self),
    {
        proof {
            reveal_strlit("CBOR serialization failed: ");
        }
        match self {
            EncodeError::Serialization(m) => {
                let mut s = String::from_str("CBOR serialization failed: ");
                push_str(&mut s, m.as_str());
                s
            },
        }
    }
}

/// The message of a decoding error.
pub open spec fn decode_error_text(e: DecodeError) -> Seq<char> {
    match e {
        DecodeError::Deserialization(m) => "CBOR deserialization failed: "@ + m@,
        DecodeError::UnexpectedTag { expected, found } => "expected CBOR tag "@ + dec_int(
            expected as int,
        ) + ", found "@ + dec_int(found as int),
        DecodeError::InvalidStructure(m) => "invalid structure: "@ + m@,
    }
}

impl DecodeError {
    /// The human-readable message of the error.
    pub fn to_text(&self) -> (s: String)
        ensures
            s@ == decode_error_text(*self),
    {
        proof {
            reveal_strlit("CBOR deserialization failed: ");
            reveal_strlit("expected CBOR tag ");
            reveal_strlit(", found ");
            reveal_strlit("invalid structure: ");
        }
        match self {
            DecodeError::Deserialization(m) => {
                let mut s = String::from_str("CBOR deserialization failed: ");
                push_str(&mut s, m.as_str());
                s
            },
            DecodeError::UnexpectedTag { expected, found } => {
                let mut s = String::from_str("expected CBOR tag ");
                push_u64(&mut s, *expected);
                push_str(&mut s, ", found ");
                push_u64(&mut s, *found);
                s
            },
            DecodeError::InvalidStructure(m) => {
                let mut s = String::from_str("invalid structure: ");
                push_str(&mut s, m.as_str());
                s
            },
        }
    }
}

/// Mathematical form of a [`DecodeError`].
pub enum DecodeErrorModel {
    Deserialization(Seq<char>),
    UnexpectedTag { expected: u64, found: u64 },
    InvalidStructure(Seq<char>),
}

impl View for DecodeError {
    type V = DecodeErrorModel;

    open spec fn view(&self) -> DecodeErrorModel {
        match self {
            DecodeError::Deserialization(m) => DecodeErrorModel::Deserialization(m@),
            DecodeError::UnexpectedTag { expected, found } => DecodeErrorModel::UnexpectedTag {
                expected: *expected,
                found: *found,
            },
            DecodeError::InvalidStructure(m) => DecodeErrorModel::InvalidStructure(m@),
        }
    }
}

/// Mathematical form of an [`EncodeError`]: its message.
impl View for EncodeError {
    type V = Seq<char>;

    open spec fn view(&self) -> Seq<char> {
        match self {
            EncodeError::Serialization(m) => m@,
        }
    }
}
}

//! The errors of the library and the distance metrics of an index.

use vstd::prelude::*;
use crate::text::{decimal, append_decimal};
use crate::version::{FaissVersion, version_text};

verus! {

/// The distance that an index ranks vectors by.
#[derive(Debug, Clone, Copy, PartialEq, Eq, Structural)]
pub enum MetricType {
    InnerProduct,
    L2,
}

/// The number that the C API uses for each metric.
pub open spec fn metric_code(m: MetricType) -> i32 {
    match m {
        MetricType::InnerProduct => 0,
        MetricType::L2 => 1,
    }
}

impl MetricType {
    /// The number that the C API uses for this metric.
    pub fn code(&self) -> (c: i32)
        ensures
            c == metric_code(*self),
    {
        match self {
            MetricType::InnerProduct => 0,
            MetricType::L2 => 1,
        }
    }
}

/// Everything that can go wrong between Rust and the Faiss library.
#[derive(Debug)]
pub enum FaissError {
    LibraryLoad(String),
    Api(String),
    NullPointer(&'static str),
    InvalidArgument(String),
    DimensionMismatch { expected_multiple_of: usize, actual_len: usize },
    UnsupportedIndexType(&'static str),
    VersionParse(String),
    VersionTooOld { found: String, required: FaissVersion },
}

/// The text that describes an error.
pub open spec fn error_text(e: FaissError) -> Seq<char> {
    match e {
        FaissError::LibraryLoad(m) => m@,
        FaissError::Api(m) => "Faiss API call failed: "@ + m@,
        FaissError::NullPointer(m) => m@,
        FaissError::InvalidArgument(m) => m@,
        FaissError::DimensionMismatch { expected_multiple_of, actual_len } => "input length ("@
            + decimal(actual_len as nat) + ") is not a multiple of index dimension ("@ + decimal(
            expected_multiple_of as nat,
        ) + ")"@,
        FaissError::UnsupportedIndexType(m) => m@,
        FaissError::VersionParse(v) => "failed to parse Faiss version string: "@ + v@,
        FaissError::VersionTooOld { found, required } => "Faiss version "@ + found@
            + " does not support IVF-RaBitQ; requires >= "@ + version_text(required),
    }
}

impl FaissError {
    /// The text that describes this error.
    pub fn message(&self) -> (s: String)
        ensures
            s@ == error_text(*self),
    {
        match self {
            FaissError::LibraryLoad(m) => m.clone(),
            FaissError::Api(m) => {
                let mut s = String::from_str("Faiss API call failed: ");
                s.append(m.as_str());
                s
            },
            FaissError::NullPointer(m) => String::from_str(m),
            FaissError::InvalidArgument(m) => m.clone(),
            FaissError::DimensionMismatch { expected_multiple_of, actual_len } => {
                let mut s = String::from_str("input length (");
                append_decimal(&mut s, *actual_len as u64);
                s.append(") is not a multiple of index dimension (");
                append_decimal(&mut s, *expected_multiple_of as u64);
                s.append(")");
                s
            },
            FaissError::UnsupportedIndexType(m) => String::from_str(m),
            FaissError::VersionParse(v) => {
                let mut s = String::from_str("failed to parse Faiss version string: ");
                s.append(v.as_str());
                s
            },
            FaissError::VersionTooOld { found, required } => {
                let mut s = String::from_str("Faiss version ");
                s.append(found.as_str());
                s.append(" does not support IVF-RaBitQ; requires >= ");
                let r = required.to_string();
                s.append(r.as_str());
                s
            },
        }
    }
}

} // verus!

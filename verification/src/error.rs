use vstd::prelude::*;

verus! {

/// `std::io::Error`, carried through when reading a dataset fails.
#[verifier::external_type_specification]
#[verifier::external_body]
pub struct ExIoError(std::io::Error);

/// `serde_json::Error`, carried through when a dataset does not parse.
#[verifier::external_type_specification]
#[verifier::external_body]
pub struct ExJsonError(serde_json::Error);

/// Errors of the lookup and of loading the datasets.
#[derive(Debug)]
pub enum LakhuaError {
    /// Reading a dataset failed.
    Io(std::io::Error),
    /// A dataset is not valid JSON of the expected shape.
    Json(serde_json::Error),
    /// A resolution outside H3's range was asked for.
    H3(String),
    /// The text given is not an H3 cell index; holds the parser's message.
    InvalidH3Index(String),
    /// No dataset exists for this resolution.
    DataFileNotFound(u8),
}

} // verus!

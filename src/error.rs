//! The library's error type.
use vstd::prelude::*;

verus! {

#[derive(Clone, Copy, Debug, PartialEq, Eq, Structural)]
pub enum GrowthbookErrorCode {
    GenericError,
    SerdeDeserialize,
    ParseError,
    DurationOutOfRangeError,
    MissingEnvironmentVariable,
    GrowthbookGateway,
    GrowthbookGatewayDeserialize,
    InvalidResponseValueType,
    GrowthBookAttributeIsNotObject,
    DuplicateFeatureName,
}

#[derive(Debug)]
pub struct GrowthbookError {
    pub code: GrowthbookErrorCode,
    pub message: String,
}

impl GrowthbookError {
    pub fn new(code: GrowthbookErrorCode, message: &str) -> (r: Self)
        ensures
            r.code == code,
            r.message@ == message@,
    {
        GrowthbookError { code, message: String::from_str(message) }
    }
}

} // verus!

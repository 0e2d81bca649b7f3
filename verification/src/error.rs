//! Parity normalization errors.

use crate::channel::{BlobDecodeError, FrameParseError};
use vstd::prelude::*;
use vstd::string::*;

verus! {

/// Error returned while normalizing a batcher DA submission.
#[derive(Clone, Debug)]
pub enum ParityError {
    /// The blob payload failed blob decoding.
    BlobDecode(BlobDecodeError),
    /// The decoded payload failed batcher frame parsing.
    FrameParse(FrameParseError),
}

impl From<BlobDecodeError> for ParityError {
    fn from(error: BlobDecodeError) -> (parity: Self) {
        ParityError::BlobDecode(error)
    }
}

impl vstd::std_specs::convert::FromSpecImpl<BlobDecodeError> for ParityError {
    open spec fn obeys_from_spec() -> bool {
        true
    }

    open spec fn from_spec(error: BlobDecodeError) -> ParityError {
        ParityError::BlobDecode(error)
    }
}

impl From<FrameParseError> for ParityError {
    fn from(error: FrameParseError) -> (parity: Self) {
        ParityError::FrameParse(error)
    }
}

impl vstd::std_specs::convert::FromSpecImpl<FrameParseError> for ParityError {
    open spec fn obeys_from_spec() -> bool {
        true
    }

    open spec fn from_spec(error: FrameParseError) -> ParityError {
        ParityError::FrameParse(error)
    }
}

impl ParityError {
    /// The text of an error.
    pub open spec fn text(self) -> Seq<char> {
        match self {
            ParityError::BlobDecode(error) => "failed to decode blob payload: "@ + error.message@,
            ParityError::FrameParse(error) => "failed to parse batcher frames: "@
                + error.message@,
        }
    }

    /// The error as text.
    pub fn to_string(&self) -> (text: String)
        ensures
            text@ == self.text(),
    {
        match self {
            ParityError::BlobDecode(error) => {
                "failed to decode blob payload: ".to_owned().concat(error.message.as_str())
            },
            ParityError::FrameParse(error) => {
                "failed to parse batcher frames: ".to_owned().concat(error.message.as_str())
            },
        }
    }
}

} // verus!

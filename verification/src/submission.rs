//! Submissions of two batchers, read from hexadecimal input and compared after
//! normalization.

use crate::content_laws;
use crate::error::ParityError;
use crate::normalized;
use crate::normalized::{NormalizedBatch, NormalizedBatchView, ParityComparator, ParityComparison};
use crate::text;
use alloy_primitives::hex;
use vstd::prelude::*;
use vstd::string::*;
use vstd::utf8::*;

verus! {

/// Number of bytes of an EIP-4844 blob.
pub const BYTES_PER_BLOB: usize = 131_072;

/// Why hexadecimal input could not be decoded.
#[derive(Clone, Copy, Debug, PartialEq, Eq, Structural)]
pub enum HexError {
    /// A byte is no hexadecimal digit.
    InvalidHexCharacter {
        /// The byte, as the character with that code.
        c: char,
        /// Position of the byte among the digits.
        index: usize,
    },
    /// The input has an odd number of bytes.
    OddLength,
    /// The input does not have the length of a fixed-size target.
    InvalidStringLength,
}

/// Why a submission could not be read or normalized.
#[derive(Clone, Debug)]
pub enum SubmissionError {
    /// The input is not hexadecimal.
    InvalidHex(HexError),
    /// The blob does not have the length of a blob.
    BlobLength {
        /// Side of the comparison.
        side: String,
        /// Number of bytes in the input.
        got: usize,
    },
    /// Neither calldata nor a blob was given.
    MissingInput {
        /// Side of the comparison.
        side: String,
    },
    /// Both calldata and a blob were given.
    ConflictingInput {
        /// Side of the comparison.
        side: String,
    },
    /// The payload could not be normalized.
    Normalize(ParityError),
}

/// One submission, as read from the input.
#[derive(Clone, Debug)]
pub enum SubmissionInput {
    /// A calldata payload.
    Calldata(Vec<u8>),
    /// A blob of `BYTES_PER_BLOB` bytes.
    Blob(Vec<u8>),
}

/// The value of a hexadecimal digit.
pub open spec fn hex_digit(byte: u8) -> Option<u8> {
    if '0' as u8 <= byte <= '9' as u8 {
        Some((byte - '0' as u8) as u8)
    } else if 'a' as u8 <= byte <= 'f' as u8 {
        Some((byte - 'a' as u8 + 10) as u8)
    } else if 'A' as u8 <= byte <= 'F' as u8 {
        Some((byte - 'A' as u8 + 10) as u8)
    } else {
        None
    }
}

/// The bytes without one leading `0x` or `0X`.
pub open spec fn hex_digits(bytes: Seq<u8>) -> Seq<u8> {
    if bytes.len() >= 2 && bytes[0] == '0' as u8 && (bytes[1] == 'x' as u8 || bytes[1]
        == 'X' as u8) {
        bytes.skip(2)
    } else {
        bytes
    }
}

/// Every byte is a hexadecimal digit.
pub open spec fn all_hex(digits: Seq<u8>) -> bool {
    forall|i: int| 0 <= i < digits.len() ==> hex_digit(#[trigger] digits[i]) is Some
}

/// The position holds the first byte that is no hexadecimal digit.
pub open spec fn first_invalid(digits: Seq<u8>, index: int) -> bool {
    &&& 0 <= index < digits.len()
    &&& hex_digit(digits[index]) is None
    &&& forall|i: int| 0 <= i < index ==> hex_digit(#[trigger] digits[i]) is Some
}

/// The bytes that pairs of hexadecimal digits stand for.
pub open spec fn hex_values(digits: Seq<u8>) -> Seq<u8> {
    Seq::new(
        digits.len() / 2,
        |i: int| (hex_digit(digits[2 * i])->0 * 16 + hex_digit(digits[2 * i + 1])->0) as u8,
    )
}

/// Decoding the text gives the result.
pub open spec fn hex_decodes(text: Seq<char>, result: Result<Seq<u8>, HexError>) -> bool {
    let bytes = encode_utf8(text);
    let digits = hex_digits(bytes);
    if bytes.len() % 2 != 0 {
        result == Err::<Seq<u8>, HexError>(HexError::OddLength)
    } else if all_hex(digits) {
        result == Ok::<Seq<u8>, HexError>(hex_values(digits))
    } else {
        &&& result matches Err(HexError::InvalidHexCharacter { c, index })
        &&& first_invalid(digits, index as int)
        &&& c == digits[index as int] as char
    }
}

/// A decoding result with its bytes as a sequence.
pub open spec fn decoded_view(result: Result<Vec<u8>, HexError>) -> Result<Seq<u8>, HexError> {
    match result {
        Ok(bytes) => Ok(bytes@),
        Err(error) => Err(error),
    }
}

/// A character in single quotes and with escapes, as its `Debug` form shows it.
pub uninterp spec fn char_debug(c: char) -> Seq<char>;

/// Calls `alloy_primitives::hex::decode`. An input of odd length is refused. One
/// leading `0x` or `0X` is skipped. Then either every byte is a hexadecimal
/// digit and each pair of digits gives a byte, or the first other byte is
/// reported with its position after the prefix.
#[verifier::external_body]
fn hex_decode(text: &str) -> (result: Result<Vec<u8>, HexError>)
    ensures
        hex_decodes(text@, decoded_view(result)),
{
    hex::decode(text).map_err(|error| match error {
        hex::FromHexError::InvalidHexCharacter { c, index } => {
            HexError::InvalidHexCharacter { c, index }
        },
        hex::FromHexError::OddLength => HexError::OddLength,
        hex::FromHexError::InvalidStringLength => HexError::InvalidStringLength,
    })
}

/// Calls the `Display` of `alloy_primitives::hex::FromHexError`, which has a
/// fixed text for each kind of error and shows an invalid character in its
/// `Debug` form with its position in decimal.
#[verifier::external_body]
fn hex_error_text(error: &HexError) -> (text: String)
    ensures
        *error == HexError::OddLength ==> text@ == "odd number of digits"@,
        *error == HexError::InvalidStringLength ==> text@ == "invalid string length"@,
        *error matches HexError::InvalidHexCharacter { c, index } ==> text@
            == "invalid character "@ + char_debug(c) + " at position "@ + text::decimal(
            index as nat,
        ),
{
    let error = match *error {
        HexError::InvalidHexCharacter { c, index } => {
            hex::FromHexError::InvalidHexCharacter { c, index }
        },
        HexError::OddLength => hex::FromHexError::OddLength,
        HexError::InvalidStringLength => hex::FromHexError::InvalidStringLength,
    };
    format!("{error}")
}

impl HexError {
    /// The text of the error.
    pub open spec fn text(self) -> Seq<char> {
        match self {
            HexError::InvalidHexCharacter { c, index } => "invalid character "@ + char_debug(c)
                + " at position "@ + text::decimal(index as nat),
            HexError::OddLength => "odd number of digits"@,
            HexError::InvalidStringLength => "invalid string length"@,
        }
    }

    /// The error as text.
    pub fn to_string(&self) -> (text: String)
        ensures
            text@ == self.text(),
    {
        hex_error_text(self)
    }
}

impl SubmissionError {
    /// The text of the error.
    pub open spec fn text(self) -> Seq<char> {
        match self {
            SubmissionError::InvalidHex(error) => "invalid hex input: "@ + error.text(),
            SubmissionError::BlobLength { side, got } => side@ + " blob must be "@ + text::decimal(
                BYTES_PER_BLOB as nat,
            ) + " bytes, got "@ + text::decimal(got as nat),
            SubmissionError::MissingInput { side } => side@
                + " submission requires calldata or blob hex input"@,
            SubmissionError::ConflictingInput { side } => side@
                + " submission cannot set both calldata and blob hex input"@,
            SubmissionError::Normalize(error) => error.text(),
        }
    }

    /// The error as text.
    pub fn to_string(&self) -> (text: String)
        ensures
            text@ == self.text(),
    {
        match self {
            SubmissionError::InvalidHex(error) => {
                "invalid hex input: ".to_owned().concat(error.to_string().as_str())
            },
            SubmissionError::BlobLength { side, got } => {
                side.clone().concat(" blob must be ").concat(
                    text::decimal_text(BYTES_PER_BLOB as u64).as_str(),
                ).concat(" bytes, got ").concat(text::decimal_text(*got as u64).as_str())
            },
            SubmissionError::MissingInput { side } => {
                side.clone().concat(" submission requires calldata or blob hex input")
            },
            SubmissionError::ConflictingInput { side } => {
                side.clone().concat(" submission cannot set both calldata and blob hex input")
            },
            SubmissionError::Normalize(error) => error.to_string(),
        }
    }
}

/// The text that decoding looks at.
pub open spec fn hex_text(value: Seq<char>) -> Seq<char> {
    text::without_hex_prefixes(value)
}

/// The bytes that hexadecimal input stands for, where it is valid.
pub open spec fn hex_bytes(value: Seq<char>) -> Seq<u8> {
    hex_values(hex_digits(encode_utf8(hex_text(value))))
}

/// Decodes hexadecimal input, with or without a `0x` prefix.
pub fn decode_hex(value: &str) -> (result: Result<Vec<u8>, HexError>)
    ensures
        hex_decodes(hex_text(value@), decoded_view(result)),
{
    hex_decode(text::strip_hex_prefixes(value))
}

/// Reading calldata gives the result.
pub open spec fn reads_calldata(
    data: Seq<char>,
    result: Result<SubmissionInput, SubmissionError>,
) -> bool {
    match result {
        Ok(SubmissionInput::Calldata(bytes)) => hex_decodes(hex_text(data), Ok(bytes@)),
        Err(SubmissionError::InvalidHex(error)) => hex_decodes(hex_text(data), Err(error)),
        _ => false,
    }
}

/// Reading a blob for a side gives the result.
pub open spec fn reads_blob(
    data: Seq<char>,
    side: Seq<char>,
    result: Result<SubmissionInput, SubmissionError>,
) -> bool {
    match result {
        Ok(SubmissionInput::Blob(bytes)) => {
            &&& hex_decodes(hex_text(data), Ok(bytes@))
            &&& bytes@.len() == BYTES_PER_BLOB
        },
        Err(SubmissionError::InvalidHex(error)) => hex_decodes(hex_text(data), Err(error)),
        Err(SubmissionError::BlobLength { side: named, got }) => {
            &&& hex_decodes(hex_text(data), Ok(hex_bytes(data)))
            &&& hex_bytes(data).len() == got
            &&& got != BYTES_PER_BLOB
            &&& named@ == side
        },
        _ => false,
    }
}

/// Reading the submission of a side gives the result.
pub open spec fn reads_submission(
    calldata_hex: Option<String>,
    blob_hex: Option<String>,
    side: Seq<char>,
    result: Result<SubmissionInput, SubmissionError>,
) -> bool {
    match (calldata_hex, blob_hex) {
        (Some(data), None) => reads_calldata(data@, result),
        (None, Some(data)) => reads_blob(data@, side, result),
        (None, None) => result matches Err(SubmissionError::MissingInput { side: named })
            && named@ == side,
        (Some(_), Some(_)) => result matches Err(SubmissionError::ConflictingInput { side: named })
            && named@ == side,
    }
}

/// Reads the submission of a side from its calldata or its blob, of which
/// exactly one must be given.
pub fn submission_input(
    calldata_hex: Option<String>,
    blob_hex: Option<String>,
    side: &str,
) -> (result: Result<SubmissionInput, SubmissionError>)
    ensures
        reads_submission(calldata_hex, blob_hex, side@, result),
{
    match (calldata_hex, blob_hex) {
        (Some(data), None) => match decode_hex(data.as_str()) {
            Ok(bytes) => Ok(SubmissionInput::Calldata(bytes)),
            Err(error) => Err(SubmissionError::InvalidHex(error)),
        },
        (None, Some(data)) => match decode_hex(data.as_str()) {
            Ok(bytes) => {
                if bytes.len() == BYTES_PER_BLOB {
                    Ok(SubmissionInput::Blob(bytes))
                } else {
                    Err(SubmissionError::BlobLength { side: side.to_owned(), got: bytes.len() })
                }
            },
            Err(error) => Err(SubmissionError::InvalidHex(error)),
        },
        (None, None) => Err(SubmissionError::MissingInput { side: side.to_owned() }),
        (Some(_), Some(_)) => Err(SubmissionError::ConflictingInput { side: side.to_owned() }),
    }
}

/// A normalized submission: its batches and whatever else was found in it.
#[derive(Debug)]
pub struct NormalizedSubmission<S> {
    /// Normalized batches, in order.
    pub batches: Vec<NormalizedBatch>,
    /// The rest of the summary, which the comparison does not look at.
    pub summary: S,
}

/// The two ways to normalize a submission, each at an L1 inclusion timestamp.
pub struct SubmissionNormalizer<C, B> {
    /// Normalizes a calldata payload.
    pub normalize_calldata: C,
    /// Normalizes a blob.
    pub normalize_blob: B,
}

/// The submissions to compare.
#[derive(Debug)]
pub struct ParityRequest {
    /// L1 inclusion timestamp used for channel decompression fork gates.
    pub inclusion_timestamp: u64,
    /// Left calldata payload as hex, including the derivation version byte.
    pub left_calldata_hex: Option<String>,
    /// Right calldata payload as hex, including the derivation version byte.
    pub right_calldata_hex: Option<String>,
    /// Left EIP-4844 blob as hex.
    pub left_blob_hex: Option<String>,
    /// Right EIP-4844 blob as hex.
    pub right_blob_hex: Option<String>,
}

/// Report of one normalized parity comparison.
#[derive(Debug)]
pub struct Report<S> {
    /// Normalized left submission.
    pub left: NormalizedSubmission<S>,
    /// Normalized right submission.
    pub right: NormalizedSubmission<S>,
    /// Batch-list comparison.
    pub comparison: ParityComparison,
}

impl<
    S,
    C: Fn(&Vec<u8>, u64) -> Result<NormalizedSubmission<S>, ParityError>,
    B: Fn(&Vec<u8>, u64) -> Result<NormalizedSubmission<S>, ParityError>,
> SubmissionNormalizer<C, B> {
    /// Calldata payloads of any kind and blobs of the right length are accepted.
    pub open spec fn total(self) -> bool {
        &&& forall|data: &Vec<u8>, timestamp: u64|
            call_requires(self.normalize_calldata, (data, timestamp))
        &&& forall|blob: &Vec<u8>, timestamp: u64|
            blob@.len() == BYTES_PER_BLOB ==> call_requires(
                self.normalize_blob,
                (blob, timestamp),
            )
    }

    /// Normalizing the submission may give the result.
    pub open spec fn normalizes(
        self,
        input: SubmissionInput,
        timestamp: u64,
        result: Result<NormalizedSubmission<S>, ParityError>,
    ) -> bool {
        match input {
            SubmissionInput::Calldata(data) => call_ensures(
                self.normalize_calldata,
                (&data, timestamp),
                result,
            ),
            SubmissionInput::Blob(blob) => call_ensures(
                self.normalize_blob,
                (&blob, timestamp),
                result,
            ),
        }
    }

    /// Normalizes a submission.
    pub fn normalize(&self, input: &SubmissionInput, inclusion_timestamp: u64) -> (result: Result<
        NormalizedSubmission<S>,
        ParityError,
    >)
        requires
            self.total(),
            input.well_formed(),
        ensures
            self.normalizes(*input, inclusion_timestamp, result),
    {
        match input {
            SubmissionInput::Calldata(data) => (self.normalize_calldata)(
                data,
                inclusion_timestamp,
            ),
            SubmissionInput::Blob(blob) => (self.normalize_blob)(blob, inclusion_timestamp),
        }
    }

    /// Both inputs were read, and comparing them may give the result.
    pub open spec fn compares(
        self,
        left: SubmissionInput,
        right: SubmissionInput,
        timestamp: u64,
        result: Result<Report<S>, SubmissionError>,
    ) -> bool {
        match result {
            Ok(report) => {
                &&& self.normalizes(left, timestamp, Ok(report.left))
                &&& self.normalizes(right, timestamp, Ok(report.right))
                &&& report.comparison.is_match == (normalized::batch_views(report.left.batches@)
                    == normalized::batch_views(report.right.batches@))
            },
            Err(SubmissionError::Normalize(error)) => {
                ||| self.normalizes(left, timestamp, Err(error))
                ||| exists|first: NormalizedSubmission<S>|
                    #![trigger self.normalizes(left, timestamp, Ok(first))]
                    self.normalizes(left, timestamp, Ok(first)) && self.normalizes(
                        right,
                        timestamp,
                        Err(error),
                    )
            },
            _ => false,
        }
    }

    /// Normalizes both submissions, the left one first, and compares them.
    pub fn compare_inputs(
        &self,
        left: &SubmissionInput,
        right: &SubmissionInput,
        inclusion_timestamp: u64,
    ) -> (result: Result<Report<S>, SubmissionError>)
        requires
            self.total(),
            left.well_formed(),
            right.well_formed(),
        ensures
            self.compares(*left, *right, inclusion_timestamp, result),
    {
        let left = match self.normalize(left, inclusion_timestamp) {
            Ok(left) => left,
            Err(error) => return Err(SubmissionError::Normalize(error)),
        };
        let right = match self.normalize(right, inclusion_timestamp) {
            Ok(right) => right,
            Err(error) => return Err(SubmissionError::Normalize(error)),
        };
        let comparison = ParityComparator::compare(
            left.batches.as_slice(),
            right.batches.as_slice(),
        );
        Ok(Report { left, right, comparison })
    }

    /// Answering the request may give the result: the first side whose input
    /// cannot be read decides, else the comparison.
    pub open spec fn answers(
        self,
        request: ParityRequest,
        result: Result<Report<S>, SubmissionError>,
    ) -> bool {
        let (left_data, left_blob) = (request.left_calldata_hex, request.left_blob_hex);
        let (right_data, right_blob) = (request.right_calldata_hex, request.right_blob_hex);
        ||| exists|error: SubmissionError| #[trigger]
            reads_submission(left_data, left_blob, "left"@, Err(error)) && result
                == Err::<Report<S>, SubmissionError>(error)
        ||| exists|left: SubmissionInput, error: SubmissionError|
            {
                &&& #[trigger] reads_submission(left_data, left_blob, "left"@, Ok(left))
                &&& #[trigger] reads_submission(right_data, right_blob, "right"@, Err(error))
                &&& result == Err::<Report<S>, SubmissionError>(error)
            }
        ||| exists|left: SubmissionInput, right: SubmissionInput|
            {
                &&& reads_submission(left_data, left_blob, "left"@, Ok(left))
                &&& reads_submission(right_data, right_blob, "right"@, Ok(right))
                &&& #[trigger] self.compares(left, right, request.inclusion_timestamp, result)
            }
    }

    /// The side's submission is read.
    pub open spec fn reads(request: ParityRequest, left: bool, input: SubmissionInput) -> bool {
        if left {
            reads_submission(
                request.left_calldata_hex,
                request.left_blob_hex,
                "left"@,
                Ok(input),
            )
        } else {
            reads_submission(
                request.right_calldata_hex,
                request.right_blob_hex,
                "right"@,
                Ok(input),
            )
        }
    }

    /// Both submissions of the request are read.
    pub open spec fn readable(self, request: ParityRequest) -> bool {
        &&& !exists|error: SubmissionError| #[trigger]
            reads_submission(
                request.left_calldata_hex,
                request.left_blob_hex,
                "left"@,
                Err(error),
            )
        &&& !exists|error: SubmissionError| #[trigger]
            reads_submission(
                request.right_calldata_hex,
                request.right_blob_hex,
                "right"@,
                Err(error),
            )
    }

    /// Whatever is read for a side of the request normalizes to batches that say
    /// the given.
    pub open spec fn normalizes_to(
        self,
        request: ParityRequest,
        left: bool,
        batches: Seq<NormalizedBatchView>,
    ) -> bool {
        forall|
            input: SubmissionInput,
            result: Result<NormalizedSubmission<S>, ParityError>,
        |
            Self::reads(request, left, input) && #[trigger] self.normalizes(
                input,
                request.inclusion_timestamp,
                result,
            ) ==> result is Ok && normalized::batch_views(result->Ok_0.batches@) == batches
    }

    /// Normalization of calldata drops the differences between payloads that are
    /// related: where both normalize, they normalize to the same batches.
    pub open spec fn drops_differences(
        self,
        related: spec_fn(Seq<u8>, Seq<u8>) -> bool,
        timestamp: u64,
    ) -> bool {
        forall|
            left: Vec<u8>,
            right: Vec<u8>,
            left_result: Result<NormalizedSubmission<S>, ParityError>,
            right_result: Result<NormalizedSubmission<S>, ParityError>,
        |
            related(left@, right@) && #[trigger] call_ensures(
                self.normalize_calldata,
                (&left, timestamp),
                left_result,
            ) && #[trigger] call_ensures(
                self.normalize_calldata,
                (&right, timestamp),
                right_result,
            ) && left_result is Ok && right_result is Ok ==> normalized::batch_views(
                left_result->Ok_0.batches@,
            ) == normalized::batch_views(right_result->Ok_0.batches@)
    }

    /// Normalization of a calldata payload succeeds.
    pub open spec fn accepts(self, payload: Seq<u8>, timestamp: u64) -> bool {
        forall|data: Vec<u8>, result: Result<NormalizedSubmission<S>, ParityError>|
            data@ == payload && #[trigger] call_ensures(
                self.normalize_calldata,
                (&data, timestamp),
                result,
            ) ==> result is Ok
    }

    /// Reads both submissions, the left one first, and compares them.
    pub fn run(&self, request: ParityRequest) -> (result: Result<Report<S>, SubmissionError>)
        requires
            self.total(),
        ensures
            self.answers(request, result),
    {
        let left = match submission_input(
            request.left_calldata_hex,
            request.left_blob_hex,
            "left",
        ) {
            Ok(left) => left,
            Err(error) => return Err(error),
        };
        let right = match submission_input(
            request.right_calldata_hex,
            request.right_blob_hex,
            "right",
        ) {
            Ok(right) => right,
            Err(error) => return Err(error),
        };
        self.compare_inputs(&left, &right, request.inclusion_timestamp)
    }
}

impl SubmissionInput {
    /// A blob has the length of a blob.
    pub open spec fn well_formed(self) -> bool {
        match self {
            SubmissionInput::Calldata(data) => true,
            SubmissionInput::Blob(blob) => blob@.len() == BYTES_PER_BLOB,
        }
    }
}

/// Two submissions that are read and normalize are compared, and they match
/// exactly if they normalize to the same batches. Nothing else about them can
/// cause a mismatch, such as the channel identifiers in their frames, which
/// normalization drops.
pub proof fn law_only_batches_decide<
    S,
    C: Fn(&Vec<u8>, u64) -> Result<NormalizedSubmission<S>, ParityError>,
    B: Fn(&Vec<u8>, u64) -> Result<NormalizedSubmission<S>, ParityError>,
>(
    normalizer: SubmissionNormalizer<C, B>,
    request: ParityRequest,
    left: Seq<NormalizedBatchView>,
    right: Seq<NormalizedBatchView>,
    result: Result<Report<S>, SubmissionError>,
)
    requires
        normalizer.answers(request, result),
        normalizer.readable(request),
        normalizer.normalizes_to(request, true, left),
        normalizer.normalizes_to(request, false, right),
    ensures
        result is Ok,
        result->Ok_0.comparison.is_match <==> left == right,
{
    let (left_input, right_input) = choose|left: SubmissionInput, right: SubmissionInput|
        {
            &&& reads_submission(
                request.left_calldata_hex,
                request.left_blob_hex,
                "left"@,
                Ok(left),
            )
            &&& reads_submission(
                request.right_calldata_hex,
                request.right_blob_hex,
                "right"@,
                Ok(right),
            )
            &&& #[trigger] normalizer.compares(left, right, request.inclusion_timestamp, result)
        };
    assert(SubmissionNormalizer::<C, B>::reads(request, true, left_input));
    assert(SubmissionNormalizer::<C, B>::reads(request, false, right_input));
}

/// What normalization drops never causes a mismatch. Two valid calldata payloads
/// that differ only in such a way, as in the channel identifier that their
/// frames carry, are compared and match.
pub proof fn law_dropped_differences_match<
    S,
    C: Fn(&Vec<u8>, u64) -> Result<NormalizedSubmission<S>, ParityError>,
    B: Fn(&Vec<u8>, u64) -> Result<NormalizedSubmission<S>, ParityError>,
>(
    normalizer: SubmissionNormalizer<C, B>,
    request: ParityRequest,
    left: String,
    right: String,
    related: spec_fn(Seq<u8>, Seq<u8>) -> bool,
    result: Result<Report<S>, SubmissionError>,
)
    requires
        request.left_calldata_hex == Some(left),
        request.right_calldata_hex == Some(right),
        request.left_blob_hex is None,
        request.right_blob_hex is None,
        hex_decodes(hex_text(left@), Ok(hex_bytes(left@))),
        hex_decodes(hex_text(right@), Ok(hex_bytes(right@))),
        related(hex_bytes(left@), hex_bytes(right@)),
        normalizer.accepts(hex_bytes(left@), request.inclusion_timestamp),
        normalizer.accepts(hex_bytes(right@), request.inclusion_timestamp),
        normalizer.drops_differences(related, request.inclusion_timestamp),
        normalizer.answers(request, result),
    ensures
        result is Ok,
        result->Ok_0.comparison.is_match,
{
    lemma_calldata_is_read(left@);
    lemma_calldata_is_read(right@);
    let (left_input, right_input) = choose|left: SubmissionInput, right: SubmissionInput|
        {
            &&& reads_submission(
                request.left_calldata_hex,
                request.left_blob_hex,
                "left"@,
                Ok(left),
            )
            &&& reads_submission(
                request.right_calldata_hex,
                request.right_blob_hex,
                "right"@,
                Ok(right),
            )
            &&& #[trigger] normalizer.compares(left, right, request.inclusion_timestamp, result)
        };
    assert(reads_calldata(left@, Ok(left_input)));
    assert(reads_calldata(right@, Ok(right_input)));
}

/// Valid hexadecimal calldata is read as the bytes that it stands for.
proof fn lemma_calldata_is_read(data: Seq<char>)
    requires
        hex_decodes(hex_text(data), Ok(hex_bytes(data))),
    ensures
        forall|result: Result<SubmissionInput, SubmissionError>| #[trigger]
            reads_calldata(data, result) ==> (result matches Ok(SubmissionInput::Calldata(bytes))
                && bytes@ == hex_bytes(data)),
{
    assert forall|result: Result<SubmissionInput, SubmissionError>| #[trigger]
        reads_calldata(data, result) implies (result matches Ok(SubmissionInput::Calldata(bytes))
        && bytes@ == hex_bytes(data)) by {
        match result {
            Ok(SubmissionInput::Calldata(bytes)) => {
                law_hex_decoding_is_decided(
                    hex_text(data),
                    Ok(bytes@),
                    Ok(hex_bytes(data)),
                );
            },
            Err(SubmissionError::InvalidHex(error)) => {
                law_hex_decoding_is_decided(
                    hex_text(data),
                    Err(error),
                    Ok(hex_bytes(data)),
                );
            },
            _ => {},
        }
    }
}

/// Decoding has exactly one result: it is decided by the input alone.
pub proof fn law_hex_decoding_is_decided(
    text: Seq<char>,
    left: Result<Seq<u8>, HexError>,
    right: Result<Seq<u8>, HexError>,
)
    requires
        hex_decodes(text, left),
        hex_decodes(text, right),
    ensures
        left == right,
{
    let digits = hex_digits(encode_utf8(text));
    match (left, right) {
        (
            Err(HexError::InvalidHexCharacter { c, index }),
            Err(HexError::InvalidHexCharacter { c: other, index: position }),
        ) => {
            assert(hex_digit(digits[index as int]) is None);
            assert(hex_digit(digits[position as int]) is None);
        },
        _ => {},
    }
}

/// Hexadecimal input decodes alike with and without a `0x` prefix.
pub proof fn law_hex_input_may_be_prefixed(
    value: Seq<char>,
    result: Result<Seq<u8>, HexError>,
)
    ensures
        hex_decodes(hex_text(seq!['0', 'x'] + value), result) == hex_decodes(
            hex_text(value),
            result,
        ),
{
    text::law_hex_prefix_is_irrelevant(value);
}

/// A submission is read only where exactly one of calldata and blob is given,
/// and a blob that was read has the length of a blob.
pub proof fn law_submission_has_one_input(
    calldata_hex: Option<String>,
    blob_hex: Option<String>,
    side: Seq<char>,
    input: SubmissionInput,
)
    requires
        reads_submission(calldata_hex, blob_hex, side, Ok(input)),
    ensures
        calldata_hex is Some <==> blob_hex is None,
        input is Calldata <==> calldata_hex is Some,
        input.well_formed(),
{
}

/// What one side of a report rests on: the bytes that its hexadecimal input
/// stands for were normalized, as calldata or as a blob, whichever was given, at
/// the timestamp, and the side may be what that gave.
pub open spec fn side_was_normalized<
    S,
    C: Fn(&Vec<u8>, u64) -> Result<NormalizedSubmission<S>, ParityError>,
    B: Fn(&Vec<u8>, u64) -> Result<NormalizedSubmission<S>, ParityError>,
>(
    normalizer: SubmissionNormalizer<C, B>,
    calldata_hex: Option<String>,
    blob_hex: Option<String>,
    timestamp: u64,
    bytes: Vec<u8>,
    result: Result<NormalizedSubmission<S>, ParityError>,
) -> bool {
    match (calldata_hex, blob_hex) {
        (Some(hex), None) => {
            &&& hex_decodes(text::without_hex_prefixes(hex@), Ok(bytes@))
            &&& call_ensures(normalizer.normalize_calldata, (&bytes, timestamp), result)
        },
        (None, Some(hex)) => {
            &&& hex_decodes(text::without_hex_prefixes(hex@), Ok(bytes@))
            &&& bytes@.len() == 131072
            &&& call_ensures(normalizer.normalize_blob, (&bytes, timestamp), result)
        },
        _ => false,
    }
}

/// A report shows what was asked for. Its left side is what normalizing the left
/// input at the inclusion timestamp of the request gave, as calldata or as a
/// blob, whichever was given, and its right side alike. Both match exactly if
/// they have equally many batches and the batches at every position say the
/// same.
pub proof fn law_report_is_normalized_at_the_inclusion_timestamp<
    S,
    C: Fn(&Vec<u8>, u64) -> Result<NormalizedSubmission<S>, ParityError>,
    B: Fn(&Vec<u8>, u64) -> Result<NormalizedSubmission<S>, ParityError>,
>(
    normalizer: SubmissionNormalizer<C, B>,
    request: ParityRequest,
    report: Report<S>,
) -> (bytes: (Vec<u8>, Vec<u8>))
    requires
        normalizer.answers(request, Ok(report)),
    ensures
        request.left_calldata_hex is Some <==> request.left_blob_hex is None,
        request.right_calldata_hex is Some <==> request.right_blob_hex is None,
        request.left_calldata_hex is Some ==> hex_decodes(
            text::without_hex_prefixes(request.left_calldata_hex->0@),
            Ok(bytes.0@),
        ) && call_ensures(
            normalizer.normalize_calldata,
            (&bytes.0, request.inclusion_timestamp),
            Ok(report.left),
        ),
        request.left_blob_hex is Some ==> hex_decodes(
            text::without_hex_prefixes(request.left_blob_hex->0@),
            Ok(bytes.0@),
        ) && bytes.0@.len() == 131072 && call_ensures(
            normalizer.normalize_blob,
            (&bytes.0, request.inclusion_timestamp),
            Ok(report.left),
        ),
        request.right_calldata_hex is Some ==> hex_decodes(
            text::without_hex_prefixes(request.right_calldata_hex->0@),
            Ok(bytes.1@),
        ) && call_ensures(
            normalizer.normalize_calldata,
            (&bytes.1, request.inclusion_timestamp),
            Ok(report.right),
        ),
        request.right_blob_hex is Some ==> hex_decodes(
            text::without_hex_prefixes(request.right_blob_hex->0@),
            Ok(bytes.1@),
        ) && bytes.1@.len() == 131072 && call_ensures(
            normalizer.normalize_blob,
            (&bytes.1, request.inclusion_timestamp),
            Ok(report.right),
        ),
        report.comparison.is_match <==> (report.left.batches@.len() == report.right.batches@.len()
            && forall|i: int|
            0 <= i < report.left.batches@.len() ==> (#[trigger] report.left.batches@[i])@
                == report.right.batches@[i]@),
{
    let result: Result<Report<S>, SubmissionError> = Ok(report);
    let (left, right) = choose|left: SubmissionInput, right: SubmissionInput|
        {
            &&& reads_submission(
                request.left_calldata_hex,
                request.left_blob_hex,
                "left"@,
                Ok(left),
            )
            &&& reads_submission(
                request.right_calldata_hex,
                request.right_blob_hex,
                "right"@,
                Ok(right),
            )
            &&& #[trigger] normalizer.compares(left, right, request.inclusion_timestamp, result)
        };
    content_laws::law_lists_match_position_by_position(
        report.left.batches@,
        report.right.batches@,
    );
    (read_bytes(left), read_bytes(right))
}

/// The bytes of a submission that was read.
pub open spec fn read_bytes(input: SubmissionInput) -> Vec<u8> {
    match input {
        SubmissionInput::Calldata(data) => data,
        SubmissionInput::Blob(blob) => blob,
    }
}

/// A side is refused for what is wrong with its own input: with neither or with
/// both of calldata and blob given, with input that is not hexadecimal, or with
/// a blob of another length than blobs have. The error names the side and the
/// length.
pub proof fn law_unreadable_input_is_refused(
    calldata_hex: Option<String>,
    blob_hex: Option<String>,
    side: Seq<char>,
    error: SubmissionError,
)
    requires
        reads_submission(calldata_hex, blob_hex, side, Err(error)),
    ensures
        calldata_hex is None && blob_hex is None <==> error is MissingInput,
        calldata_hex is Some && blob_hex is Some <==> error is ConflictingInput,
        error matches SubmissionError::MissingInput { side: named } ==> named@ == side,
        error matches SubmissionError::ConflictingInput { side: named } ==> named@ == side,
        error matches SubmissionError::BlobLength { side: named, got } ==> named@ == side && got
            != 131072 && blob_hex is Some && calldata_hex is None && hex_decodes(
            text::without_hex_prefixes(blob_hex->0@),
            Ok(hex_bytes(blob_hex->0@)),
        ) && hex_bytes(blob_hex->0@).len() == got,
        error matches SubmissionError::InvalidHex(reason) ==> hex_decodes(
            text::without_hex_prefixes(
                if calldata_hex is Some {
                    calldata_hex->0@
                } else {
                    blob_hex->0@
                },
            ),
            Err(reason),
        ),
        !(error is Normalize),
{
}

/// A request that is not answered with a report is refused for its left input
/// or, where that is read, for its right input, or because normalizing one of
/// them at the inclusion timestamp of the request failed. The right input is
/// normalized only once the left one was.
pub proof fn law_refused_request_has_a_cause<
    S,
    C: Fn(&Vec<u8>, u64) -> Result<NormalizedSubmission<S>, ParityError>,
    B: Fn(&Vec<u8>, u64) -> Result<NormalizedSubmission<S>, ParityError>,
>(
    normalizer: SubmissionNormalizer<C, B>,
    request: ParityRequest,
    error: SubmissionError,
) -> (bytes: (Vec<u8>, Vec<u8>))
    requires
        normalizer.answers(request, Err::<Report<S>, SubmissionError>(error)),
    ensures
        ({
            let timestamp = request.inclusion_timestamp;
            ||| reads_submission(
                request.left_calldata_hex,
                request.left_blob_hex,
                "left"@,
                Err(error),
            )
            ||| reads_submission(
                request.right_calldata_hex,
                request.right_blob_hex,
                "right"@,
                Err(error),
            ) && (request.left_calldata_hex is Some <==> request.left_blob_hex is None)
            ||| error is Normalize && side_was_normalized(
                normalizer,
                request.left_calldata_hex,
                request.left_blob_hex,
                timestamp,
                bytes.0,
                Err::<NormalizedSubmission<S>, ParityError>(error->Normalize_0),
            )
            ||| error is Normalize && (exists|first: NormalizedSubmission<S>| #[trigger]
                side_was_normalized(
                    normalizer,
                    request.left_calldata_hex,
                    request.left_blob_hex,
                    timestamp,
                    bytes.0,
                    Ok(first),
                )) && side_was_normalized(
                normalizer,
                request.right_calldata_hex,
                request.right_blob_hex,
                timestamp,
                bytes.1,
                Err::<NormalizedSubmission<S>, ParityError>(error->Normalize_0),
            )
        }),
{
    let result = Err::<Report<S>, SubmissionError>(error);
    let timestamp = request.inclusion_timestamp;
    if exists|left: SubmissionInput, right: SubmissionInput|
        {
            &&& reads_submission(
                request.left_calldata_hex,
                request.left_blob_hex,
                "left"@,
                Ok(left),
            )
            &&& reads_submission(
                request.right_calldata_hex,
                request.right_blob_hex,
                "right"@,
                Ok(right),
            )
            &&& #[trigger] normalizer.compares(left, right, timestamp, result)
        } {
        let (left, right) = choose|left: SubmissionInput, right: SubmissionInput|
            {
                &&& reads_submission(
                    request.left_calldata_hex,
                    request.left_blob_hex,
                    "left"@,
                    Ok(left),
                )
                &&& reads_submission(
                    request.right_calldata_hex,
                    request.right_blob_hex,
                    "right"@,
                    Ok(right),
                )
                &&& #[trigger] normalizer.compares(left, right, timestamp, result)
            };
        let reason = error->Normalize_0;
        if !normalizer.normalizes(left, timestamp, Err(reason)) {
            let first = choose|first: NormalizedSubmission<S>|
                #![trigger normalizer.normalizes(left, timestamp, Ok(first))]
                normalizer.normalizes(left, timestamp, Ok(first)) && normalizer.normalizes(
                    right,
                    timestamp,
                    Err(reason),
                );
            assert(side_was_normalized(
                normalizer,
                request.left_calldata_hex,
                request.left_blob_hex,
                timestamp,
                read_bytes(left),
                Ok(first),
            ));
        }
        (read_bytes(left), read_bytes(right))
    } else {
        arbitrary()
    }
}

/// The value of a hexadecimal digit is its position in the digits, in either
/// case of letters.
pub proof fn law_hex_digits_have_their_value(byte: u8, value: u8)
    ensures
        hex_digit(byte) == Some(value) <==> value < 16 && (byte == 48 + value && value < 10 || byte
            == 87 + value && value >= 10 || byte == 55 + value && value >= 10),
{
}

/// Decoded input has one byte for two digits: the first digit is worth sixteen
/// times the second one.
pub proof fn law_two_digits_make_a_byte(text: Seq<char>, bytes: Seq<u8>, i: int)
    requires
        hex_decodes(text, Ok(bytes)),
        0 <= i < bytes.len(),
    ensures
        ({
            let digits = hex_digits(encode_utf8(text));
            &&& digits.len() == 2 * bytes.len()
            &&& hex_digit(digits[2 * i]) is Some
            &&& hex_digit(digits[2 * i + 1]) is Some
            &&& bytes[i] == hex_digit(digits[2 * i])->0 * 16 + hex_digit(digits[2 * i + 1])->0
        }),
{
    let digits = hex_digits(encode_utf8(text));
    assert(hex_digit(digits[2 * i]) is Some);
    assert(hex_digit(digits[2 * i + 1]) is Some);
}

/// The text of an error says what is wrong and with what: it begins with the
/// side or ends with the cause, and a wrong length ends with the length. An error
/// of normalization is shown as it is.
pub proof fn law_error_texts_name_the_cause(error: SubmissionError)
    ensures
        ({
            let shown = error.text();
            match error {
                SubmissionError::InvalidHex(cause) => shown.len() >= cause.text().len()
                    && shown.skip(shown.len() - cause.text().len()) == cause.text(),
                SubmissionError::BlobLength { side, got } => {
                    let length = text::decimal(got as nat);
                    &&& shown.len() >= side@.len() + length.len()
                    &&& shown.take(side@.len() as int) == side@
                    &&& shown.skip(shown.len() - length.len()) == length
                },
                SubmissionError::MissingInput { side } => shown.len() >= side@.len() && shown.take(
                    side@.len() as int,
                ) == side@,
                SubmissionError::ConflictingInput { side } => shown.len() >= side@.len()
                    && shown.take(side@.len() as int) == side@,
                SubmissionError::Normalize(ParityError::BlobDecode(cause)) => shown.len()
                    >= cause.message@.len() && shown.skip(shown.len() - cause.message@.len())
                    == cause.message@,
                SubmissionError::Normalize(ParityError::FrameParse(cause)) => shown.len()
                    >= cause.message@.len() && shown.skip(shown.len() - cause.message@.len())
                    == cause.message@,
            }
        }),
{
    let shown = error.text();
    match error {
        SubmissionError::InvalidHex(cause) => {
            assert(shown.skip(shown.len() - cause.text().len()) =~= cause.text());
        },
        SubmissionError::BlobLength { side, got } => {
            let length = text::decimal(got as nat);
            assert(shown.take(side@.len() as int) =~= side@);
            assert(shown.skip(shown.len() - length.len()) =~= length);
        },
        SubmissionError::MissingInput { side } => {
            assert(shown.take(side@.len() as int) =~= side@);
        },
        SubmissionError::ConflictingInput { side } => {
            assert(shown.take(side@.len() as int) =~= side@);
        },
        SubmissionError::Normalize(ParityError::BlobDecode(cause)) => {
            assert(shown.skip(shown.len() - cause.message@.len()) =~= cause.message@);
        },
        SubmissionError::Normalize(ParityError::FrameParse(cause)) => {
            assert(shown.skip(shown.len() - cause.message@.len()) =~= cause.message@);
        },
    }
}

} // verus!

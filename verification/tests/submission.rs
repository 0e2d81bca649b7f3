//! Reading and comparing submissions.

use base_batcher_prover::channel::{BlobDecodeError, FrameParseError};
use base_batcher_prover::error::ParityError;
use base_batcher_prover::normalized::{NormalizedBatch, NormalizedBatchKind};
use base_batcher_prover::submission::{
    decode_hex, submission_input, HexError, NormalizedSubmission, ParityRequest, SubmissionError,
    SubmissionInput, SubmissionNormalizer, BYTES_PER_BLOB,
};
use base_batcher_prover::text::decimal_text;

fn batch(timestamp: u64) -> NormalizedBatch {
    NormalizedBatch {
        kind: NormalizedBatchKind::Single,
        parent_hash: None,
        epoch_hash: None,
        parent_check: None,
        l1_origin_check: None,
        chain_id: None,
        origin_bits: None,
        start_timestamp: timestamp,
        end_timestamp: timestamp,
        start_epoch_num: 0,
        end_epoch_num: 0,
        block_count: 1,
        tx_counts: vec![],
        tx_hashes: vec![],
    }
}

/// Calldata lists timestamps behind a version byte; a blob counts its bytes.
fn normalizer() -> SubmissionNormalizer<
    impl Fn(&Vec<u8>, u64) -> Result<NormalizedSubmission<usize>, ParityError>,
    impl Fn(&Vec<u8>, u64) -> Result<NormalizedSubmission<usize>, ParityError>,
> {
    SubmissionNormalizer {
        normalize_calldata: |data: &Vec<u8>, timestamp: u64| match data.split_first() {
            Some((0, rest)) => Ok(NormalizedSubmission {
                batches: rest.iter().map(|byte| batch(*byte as u64 + timestamp)).collect(),
                summary: data.len(),
            }),
            _ => Err(ParityError::FrameParse(FrameParseError {
                message: "unsupported version".to_owned(),
            })),
        },
        normalize_blob: |blob: &Vec<u8>, _timestamp: u64| {
            if blob[0] == 0 {
                Ok(NormalizedSubmission { batches: vec![batch(1)], summary: blob.len() })
            } else {
                Err(ParityError::BlobDecode(BlobDecodeError { message: "bad".to_owned() }))
            }
        },
    }
}

fn request(left: Option<&str>, right: Option<&str>) -> ParityRequest {
    ParityRequest {
        inclusion_timestamp: 10,
        left_calldata_hex: left.map(str::to_owned),
        right_calldata_hex: right.map(str::to_owned),
        left_blob_hex: None,
        right_blob_hex: None,
    }
}

#[test]
fn hex_is_decoded_with_and_without_prefix() {
    assert_eq!(decode_hex("48656c6C6F"), Ok(b"Hello".to_vec()));
    assert_eq!(decode_hex("0x48656c6C6F"), Ok(b"Hello".to_vec()));
    assert_eq!(decode_hex("0x0x48656c6C6F"), Ok(b"Hello".to_vec()));
    assert_eq!(decode_hex("0X48656c6C6F"), Ok(b"Hello".to_vec()));
    assert_eq!(decode_hex("0x0X48656c6C6F"), Ok(b"Hello".to_vec()));
    assert_eq!(decode_hex(""), Ok(vec![]));
    assert_eq!(decode_hex("0x"), Ok(vec![]));
    assert_eq!(decode_hex("00ff7F80"), Ok(vec![0, 255, 127, 128]));
}

#[test]
fn odd_hex_is_refused() {
    assert_eq!(decode_hex("abc"), Err(HexError::OddLength));
    assert_eq!(HexError::OddLength.to_string(), "odd number of digits");
    assert_eq!(decode_hex("0X1"), Err(HexError::OddLength));
}

#[test]
fn first_invalid_character_is_reported() {
    assert_eq!(
        decode_hex("00zy"),
        Err(HexError::InvalidHexCharacter { c: 'z', index: 2 })
    );
    assert_eq!(
        decode_hex("0x00zy"),
        Err(HexError::InvalidHexCharacter { c: 'z', index: 2 })
    );
    assert_eq!(
        decode_hex("0Xg0"),
        Err(HexError::InvalidHexCharacter { c: 'g', index: 0 })
    );
    assert_eq!(
        decode_hex("\u{e9}"),
        Err(HexError::InvalidHexCharacter { c: '\u{c3}', index: 0 })
    );
    assert_eq!(
        HexError::InvalidHexCharacter { c: '\n', index: 15 }.to_string(),
        "invalid character '\\n' at position 15"
    );
    assert_eq!(HexError::InvalidStringLength.to_string(), "invalid string length");
}

#[test]
fn calldata_is_read() {
    let input = submission_input(Some("0x00ff".to_owned()), None, "left").unwrap();
    assert!(matches!(input, SubmissionInput::Calldata(data) if data == [0, 255]));
}

#[test]
fn blob_of_the_right_length_is_read() {
    let hex = "0x".to_owned() + &"ab".repeat(BYTES_PER_BLOB);
    let input = submission_input(None, Some(hex), "left").unwrap();
    assert!(
        matches!(input, SubmissionInput::Blob(blob) if blob.len() == 131_072 && blob[7] == 0xab)
    );
}

#[test]
fn blob_of_another_length_is_refused() {
    let error = submission_input(None, Some("00ff".to_owned()), "right").unwrap_err();
    assert!(matches!(error, SubmissionError::BlobLength { .. }));
    assert_eq!(error.to_string(), "right blob must be 131072 bytes, got 2");
}

#[test]
fn exactly_one_input_is_required() {
    let none = submission_input(None, None, "left").unwrap_err();
    assert_eq!(none.to_string(), "left submission requires calldata or blob hex input");
    let both =
        submission_input(Some("00".to_owned()), Some("00".to_owned()), "right").unwrap_err();
    assert_eq!(
        both.to_string(),
        "right submission cannot set both calldata and blob hex input"
    );
}

#[test]
fn invalid_hex_is_reported_for_both_kinds() {
    let calldata = submission_input(Some("0".to_owned()), None, "left").unwrap_err();
    assert_eq!(calldata.to_string(), "invalid hex input: odd number of digits");
    let blob = submission_input(None, Some("xx".to_owned()), "left").unwrap_err();
    assert_eq!(
        blob.to_string(),
        "invalid hex input: invalid character 'x' at position 0"
    );
}

#[test]
fn equal_submissions_match() {
    let report = normalizer().run(request(Some("0x000102"), Some("000102"))).unwrap();
    assert!(report.comparison.is_match);
    assert_eq!(report.left.batches[1].start_timestamp, 12);
    assert_eq!((report.left.summary, report.right.summary), (3, 3));
}

#[test]
fn different_submissions_do_not_match() {
    let report = normalizer().run(request(Some("000102"), Some("0001"))).unwrap();
    assert!(!report.comparison.is_match);
}

#[test]
fn calldata_and_blob_can_be_compared() {
    let mut both = request(Some("0001"), None);
    both.inclusion_timestamp = 0;
    both.right_blob_hex = Some("00".repeat(BYTES_PER_BLOB));
    let report = normalizer().run(both).unwrap();
    assert!(report.comparison.is_match);
    assert_eq!(report.right.summary, BYTES_PER_BLOB);
}

#[test]
fn left_side_is_judged_first() {
    let both_missing = normalizer().run(request(None, None)).unwrap_err();
    assert!(both_missing.to_string().starts_with("left submission"));
    let right_missing = normalizer().run(request(Some("09"), None)).unwrap_err();
    assert!(right_missing.to_string().starts_with("right submission"));
    let unsupported = normalizer().run(request(Some("09"), Some("00"))).unwrap_err();
    assert_eq!(
        unsupported.to_string(),
        "failed to parse batcher frames: unsupported version"
    );
    let mut blob = request(Some("00"), None);
    blob.right_blob_hex = Some("01".repeat(BYTES_PER_BLOB));
    assert_eq!(
        normalizer().run(blob).unwrap_err().to_string(),
        "failed to decode blob payload: bad"
    );
}

#[test]
fn numbers_have_no_leading_zeros() {
    assert_eq!(decimal_text(0), "0");
    assert_eq!(decimal_text(10), "10");
    assert_eq!(decimal_text(u64::MAX), "18446744073709551615");
}

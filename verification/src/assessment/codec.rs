//! Byte encodings of the assessment values kept in storage: counters,
//! configurations and results. Integers are stored little-endian.

use vstd::prelude::*;
use vstd::bytes::*;
use vstd::slice::{slice_subrange, slice_to_vec};

use crate::storage::append_bytes;

use super::types::{AssessmentConfig, AssessmentRecord, AssessmentResult};

verus! {

/// The bytes an attempt counter is stored as.
pub open spec fn count_bytes(n: u32) -> Seq<u8> {
    spec_u32_to_le_bytes(n)
}

/// The counter that `bytes` stand for, if they stand for one.
pub open spec fn decode_count(bytes: Seq<u8>) -> Option<u32> {
    if bytes.len() == 4 {
        Some(spec_u32_from_le_bytes(bytes))
    } else {
        None
    }
}

/// The bytes a configuration is stored as.
pub open spec fn config_bytes(c: AssessmentConfig) -> Seq<u8> {
    spec_u32_to_le_bytes(c.max_score) + spec_u32_to_le_bytes(c.passing_score)
        + spec_u32_to_le_bytes(c.max_attempts)
}

/// The configuration that `bytes` stand for, if they stand for one.
pub open spec fn decode_config(bytes: Seq<u8>) -> Option<AssessmentConfig> {
    if bytes.len() == 12 {
        Some(AssessmentConfig {
            max_score: spec_u32_from_le_bytes(bytes.subrange(0, 4)),
            passing_score: spec_u32_from_le_bytes(bytes.subrange(4, 8)),
            max_attempts: spec_u32_from_le_bytes(bytes.subrange(8, 12)),
        })
    } else {
        None
    }
}

/// The bytes a result is stored as: the fixed-width fields, then the
/// student's address.
pub open spec fn result_bytes(r: AssessmentRecord) -> Seq<u8> {
    spec_u64_to_le_bytes(r.assessment_id) + spec_u32_to_le_bytes(r.score)
        + seq![if r.passed { 1u8 } else { 0u8 }] + spec_u32_to_le_bytes(r.attempt)
        + spec_u64_to_le_bytes(r.submitted_at) + r.student
}

/// The result that `bytes` stand for, if they stand for one.
pub open spec fn decode_result(bytes: Seq<u8>) -> Option<AssessmentRecord> {
    if bytes.len() >= 25 && bytes[12] <= 1 {
        Some(AssessmentRecord {
            assessment_id: spec_u64_from_le_bytes(bytes.subrange(0, 8)),
            score: spec_u32_from_le_bytes(bytes.subrange(8, 12)),
            passed: bytes[12] == 1,
            attempt: spec_u32_from_le_bytes(bytes.subrange(13, 17)),
            submitted_at: spec_u64_from_le_bytes(bytes.subrange(17, 25)),
            student: bytes.subrange(25, bytes.len() as int),
        })
    } else {
        None
    }
}

/// Decoding gives back what was encoded.
pub proof fn lemma_codec_roundtrip()
    ensures
        forall|n: u32| #[trigger] decode_count(count_bytes(n)) == Some(n),
        forall|c: AssessmentConfig| #[trigger] decode_config(config_bytes(c)) == Some(c),
        forall|r: AssessmentRecord| #[trigger] decode_result(result_bytes(r)) == Some(r),
{
    lemma_auto_spec_u32_to_from_le_bytes();
    lemma_auto_spec_u64_to_from_le_bytes();
    assert forall|c: AssessmentConfig| #[trigger] decode_config(config_bytes(c)) == Some(c) by {
        let b = config_bytes(c);
        assert(b.subrange(0, 4) =~= spec_u32_to_le_bytes(c.max_score));
        assert(b.subrange(4, 8) =~= spec_u32_to_le_bytes(c.passing_score));
        assert(b.subrange(8, 12) =~= spec_u32_to_le_bytes(c.max_attempts));
    }
    assert forall|r: AssessmentRecord| #[trigger] decode_result(result_bytes(r)) == Some(r) by {
        let b = result_bytes(r);
        assert(b.subrange(0, 8) =~= spec_u64_to_le_bytes(r.assessment_id));
        assert(b.subrange(8, 12) =~= spec_u32_to_le_bytes(r.score));
        assert(b[12] == if r.passed { 1u8 } else { 0u8 });
        assert(b.subrange(13, 17) =~= spec_u32_to_le_bytes(r.attempt));
        assert(b.subrange(17, 25) =~= spec_u64_to_le_bytes(r.submitted_at));
        assert(b.subrange(25, b.len() as int) =~= r.student);
    }
}

/// Encodes an attempt counter.
pub fn encode_count(n: u32) -> (out: Vec<u8>)
    ensures
        out@ == count_bytes(n),
{
    u32_to_le_bytes(n)
}

/// Decodes a stored attempt counter.
pub fn parse_count(bytes: &[u8]) -> (n: Option<u32>)
    ensures
        n == decode_count(bytes@),
{
    if bytes.len() == 4 {
        Some(u32_from_le_bytes(bytes))
    } else {
        None
    }
}

/// Encodes a configuration.
pub fn encode_config(c: &AssessmentConfig) -> (out: Vec<u8>)
    ensures
        out@ == config_bytes(*c),
{
    let mut out = u32_to_le_bytes(c.max_score);
    append_bytes(&mut out, u32_to_le_bytes(c.passing_score).as_slice());
    append_bytes(&mut out, u32_to_le_bytes(c.max_attempts).as_slice());
    out
}

/// Decodes a stored configuration.
pub fn parse_config(bytes: &[u8]) -> (c: Option<AssessmentConfig>)
    ensures
        c == decode_config(bytes@),
{
    if bytes.len() != 12 {
        return None;
    }
    Some(AssessmentConfig {
        max_score: u32_from_le_bytes(slice_subrange(bytes, 0, 4)),
        passing_score: u32_from_le_bytes(slice_subrange(bytes, 4, 8)),
        max_attempts: u32_from_le_bytes(slice_subrange(bytes, 8, 12)),
    })
}

/// Encodes a result.
pub fn encode_result(r: &AssessmentResult) -> (out: Vec<u8>)
    ensures
        out@ == result_bytes(r@),
{
    let mut out = u64_to_le_bytes(r.assessment_id);
    append_bytes(&mut out, u32_to_le_bytes(r.score).as_slice());
    out.push(if r.passed { 1u8 } else { 0u8 });
    append_bytes(&mut out, u32_to_le_bytes(r.attempt).as_slice());
    append_bytes(&mut out, u64_to_le_bytes(r.submitted_at).as_slice());
    append_bytes(&mut out, r.student.as_slice());
    out
}

/// Decodes a stored result.
pub fn parse_result(bytes: &[u8]) -> (r: Option<AssessmentResult>)
    ensures
        match r {
            Some(res) => decode_result(bytes@) == Some(res@),
            None => decode_result(bytes@) is None,
        },
{
    if bytes.len() < 25 || bytes[12] > 1 {
        return None;
    }
    let res = AssessmentResult {
        student: slice_to_vec(slice_subrange(bytes, 25, bytes.len())),
        assessment_id: u64_from_le_bytes(slice_subrange(bytes, 0, 8)),
        score: u32_from_le_bytes(slice_subrange(bytes, 8, 12)),
        passed: bytes[12] == 1,
        attempt: u32_from_le_bytes(slice_subrange(bytes, 13, 17)),
        submitted_at: u64_from_le_bytes(slice_subrange(bytes, 17, 25)),
    };
    Some(res)
}

} // verus!

//! Storage keys of the LMS contract and their byte encoding.
//!
//! Every key starts with a tag byte naming its kind, so keys of different
//! kinds never coincide; within a kind the fixed-width fields come first
//! and the variable-length user address last, so the encoding is
//! one-to-one.
//!
//! This byte layout is the library's own. It is not the layout of
//! soroban's contract-type encoding of keys and values, so ledger entries
//! written under that encoding cannot be read through this library, nor
//! the reverse.

use vstd::prelude::*;
use vstd::bytes::*;

verus! {

/// Storage keys used by the LMS contract.
///
/// A user is named by the bytes of the address's text form.
#[derive(Clone, Debug, PartialEq, Eq)]
pub enum StorageKey {
    /// Marks that the contract has been initialized (instance storage).
    Configuration,
    /// Access-control record for a registered LMS user.
    User(Vec<u8>),
    /// Configuration of an assessment.
    AssessmentConfig(u64),
    /// Number of attempts a student has made at an assessment.
    AssessmentAttemptCount(Vec<u8>, u64),
    /// Result of one attempt of a student at an assessment.
    AssessmentResult(Vec<u8>, u64, u32),
    /// Number of the latest attempt of a student at an assessment.
    AssessmentLatestAttempt(Vec<u8>, u64),
}

pub open spec fn configuration_key() -> Seq<u8> {
    seq![0u8]
}

pub open spec fn user_key(user: Seq<u8>) -> Seq<u8> {
    seq![1u8] + user
}

pub open spec fn config_key(assessment_id: u64) -> Seq<u8> {
    seq![2u8] + spec_u64_to_le_bytes(assessment_id)
}

pub open spec fn attempt_count_key(student: Seq<u8>, assessment_id: u64) -> Seq<u8> {
    seq![3u8] + spec_u64_to_le_bytes(assessment_id) + student
}

pub open spec fn result_key(student: Seq<u8>, assessment_id: u64, attempt: u32) -> Seq<u8> {
    seq![4u8] + spec_u64_to_le_bytes(assessment_id) + spec_u32_to_le_bytes(attempt) + student
}

pub open spec fn latest_attempt_key(student: Seq<u8>, assessment_id: u64) -> Seq<u8> {
    seq![5u8] + spec_u64_to_le_bytes(assessment_id) + student
}

impl StorageKey {
    /// The bytes under which this key is stored.
    pub open spec fn encoded(&self) -> Seq<u8> {
        match self {
            StorageKey::Configuration => configuration_key(),
            StorageKey::User(u) => user_key(u@),
            StorageKey::AssessmentConfig(id) => config_key(*id),
            StorageKey::AssessmentAttemptCount(u, id) => attempt_count_key(u@, *id),
            StorageKey::AssessmentResult(u, id, a) => result_key(u@, *id, *a),
            StorageKey::AssessmentLatestAttempt(u, id) => latest_attempt_key(u@, *id),
        }
    }

    /// Encodes the key as the bytes it is stored under.
    pub fn to_bytes(&self) -> (out: Vec<u8>)
        ensures
            out@ == self.encoded(),
    {
        let mut out: Vec<u8> = Vec::new();
        match self {
            StorageKey::Configuration => {
                out.push(0u8);
            },
            StorageKey::User(u) => {
                out.push(1u8);
                append_bytes(&mut out, u.as_slice());
            },
            StorageKey::AssessmentConfig(id) => {
                out.push(2u8);
                append_bytes(&mut out, u64_to_le_bytes(*id).as_slice());
            },
            StorageKey::AssessmentAttemptCount(u, id) => {
                out.push(3u8);
                append_bytes(&mut out, u64_to_le_bytes(*id).as_slice());
                append_bytes(&mut out, u.as_slice());
            },
            StorageKey::AssessmentResult(u, id, a) => {
                out.push(4u8);
                append_bytes(&mut out, u64_to_le_bytes(*id).as_slice());
                append_bytes(&mut out, u32_to_le_bytes(*a).as_slice());
                append_bytes(&mut out, u.as_slice());
            },
            StorageKey::AssessmentLatestAttempt(u, id) => {
                out.push(5u8);
                append_bytes(&mut out, u64_to_le_bytes(*id).as_slice());
                append_bytes(&mut out, u.as_slice());
            },
        }
        assert(out@ == self.encoded());
        out
    }
}

/// Appends `tail` to `out`.
pub fn append_bytes(out: &mut Vec<u8>, tail: &[u8])
    ensures
        final(out)@ == old(out)@ + tail@,
{
    let mut i: usize = 0;
    while i < tail.len()
        invariant
            i <= tail@.len(),
            out@ == old(out)@ + tail@.subrange(0, i as int),
        decreases tail@.len() - i,
    {
        out.push(tail[i]);
        i = i + 1;
        assert(tail@.subrange(0, i as int) == tail@.subrange(0, i - 1) + seq![tail@[i - 1]]);
    }
    assert(tail@.subrange(0, i as int) == tail@);
}

/// Keys of different kinds never coincide, and each kind of key determines
/// what it was built from.
pub proof fn lemma_keys_distinct()
    ensures
        forall|u: Seq<u8>, v: Seq<u8>| #[trigger] user_key(u) == #[trigger] user_key(v) ==> u == v,
        forall|u: Seq<u8>| (#[trigger] user_key(u))[0] == 1u8,
        forall|id: u64| (#[trigger] config_key(id))[0] == 2u8,
        forall|u: Seq<u8>, id: u64| (#[trigger] attempt_count_key(u, id))[0] == 3u8,
        forall|u: Seq<u8>, id: u64, a: u32| (#[trigger] result_key(u, id, a))[0] == 4u8,
        forall|u: Seq<u8>, id: u64| (#[trigger] latest_attempt_key(u, id))[0] == 5u8,
        configuration_key()[0] == 0u8,
{
    assert forall|u: Seq<u8>, v: Seq<u8>| #[trigger] user_key(u) == #[trigger] user_key(v) implies u == v by {
        assert(user_key(u).subrange(1, user_key(u).len() as int) == u);
        assert(user_key(v).subrange(1, user_key(v).len() as int) == v);
    }
}

/// A result key determines the student, the assessment and the attempt.
pub proof fn lemma_result_key_injective(u: Seq<u8>, id: u64, a: u32, v: Seq<u8>, jd: u64, b: u32)
    requires
        result_key(u, id, a) == result_key(v, jd, b),
    ensures
        u == v && id == jd && a == b,
{
    lemma_auto_spec_u32_to_from_le_bytes();
    lemma_auto_spec_u64_to_from_le_bytes();
    let k = result_key(u, id, a);
    let l = result_key(v, jd, b);
    assert(k.subrange(1, 9) =~= spec_u64_to_le_bytes(id));
    assert(l.subrange(1, 9) =~= spec_u64_to_le_bytes(jd));
    assert(k.subrange(9, 13) =~= spec_u32_to_le_bytes(a));
    assert(l.subrange(9, 13) =~= spec_u32_to_le_bytes(b));
    assert(k.subrange(13, k.len() as int) =~= u);
    assert(l.subrange(13, l.len() as int) =~= v);
}

/// An attempt-counter key determines the student and the assessment.
pub proof fn lemma_attempt_count_key_injective(u: Seq<u8>, id: u64, v: Seq<u8>, jd: u64)
    requires
        attempt_count_key(u, id) == attempt_count_key(v, jd),
    ensures
        u == v && id == jd,
{
    lemma_auto_spec_u64_to_from_le_bytes();
    let k = attempt_count_key(u, id);
    let l = attempt_count_key(v, jd);
    assert(k.subrange(1, 9) =~= spec_u64_to_le_bytes(id));
    assert(l.subrange(1, 9) =~= spec_u64_to_le_bytes(jd));
    assert(k.subrange(9, k.len() as int) =~= u);
    assert(l.subrange(9, l.len() as int) =~= v);
}

/// A latest-attempt key determines the student and the assessment.
pub proof fn lemma_latest_attempt_key_injective(u: Seq<u8>, id: u64, v: Seq<u8>, jd: u64)
    requires
        latest_attempt_key(u, id) == latest_attempt_key(v, jd),
    ensures
        u == v && id == jd,
{
    lemma_auto_spec_u64_to_from_le_bytes();
    let k = latest_attempt_key(u, id);
    let l = latest_attempt_key(v, jd);
    assert(k.subrange(1, 9) =~= spec_u64_to_le_bytes(id));
    assert(l.subrange(1, 9) =~= spec_u64_to_le_bytes(jd));
    assert(k.subrange(9, k.len() as int) =~= u);
    assert(l.subrange(9, l.len() as int) =~= v);
}

/// A configuration key determines the assessment.
pub proof fn lemma_config_key_injective(id: u64, jd: u64)
    requires
        config_key(id) == config_key(jd),
    ensures
        id == jd,
{
    lemma_auto_spec_u64_to_from_le_bytes();
    assert(config_key(id).subrange(1, 9) =~= spec_u64_to_le_bytes(id));
    assert(config_key(jd).subrange(1, 9) =~= spec_u64_to_le_bytes(jd));
}

} // verus!

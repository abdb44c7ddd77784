//! Properties of whole runs: what holds after any sequence of operations.

use vstd::prelude::*;

use crate::access::{initialize_admin_step, AccessError};
use crate::access::storage::{initialized, registered, role_of};
use crate::assessment::{result_lookup, submission_step, AssessmentConfig};
use crate::assessment::codec::lemma_codec_roundtrip;
use crate::assessment::storage::{attempts_of, config_of, latest_attempt_of, result_of};
use crate::host::StoreView;
use crate::laws::{
    apply, initialization_is_permanent, lemma_writes_by_kind, only_initialization_writes_the_marker,
    operation_footprint, operations_keep_the_store_well_formed, registrations_are_permanent,
    same_entry, store_well_formed, submission_key, writes, Operation,
};
use crate::storage::{
    attempt_count_key, config_key, latest_attempt_key, lemma_attempt_count_key_injective,
    lemma_keys_distinct, lemma_latest_attempt_key_injective, lemma_result_key_injective, result_key,
};

verus! {

/// The stores after running `ops`, in order, from `s`.
pub open spec fn run(s: StoreView, ops: Seq<Operation>) -> StoreView
    decreases ops.len(),
{
    if ops.len() == 0 {
        s
    } else {
        apply(run(s, ops.drop_last()), ops.last()).1
    }
}

/// Whether the `i`-th operation of `ops` succeeds, when `ops` is run from `s`.
pub open spec fn succeeds_at(s: StoreView, ops: Seq<Operation>, i: int) -> bool {
    apply(run(s, ops.take(i)), ops[i]).0
}

/// Running one more operation of `ops` applies it to the stores so far.
pub proof fn lemma_run_step(s: StoreView, ops: Seq<Operation>, i: int)
    requires
        0 <= i < ops.len(),
    ensures
        run(s, ops.take(i + 1)) == apply(run(s, ops.take(i)), ops[i]).1,
{
    assert(ops.take(i + 1).drop_last() =~= ops.take(i));
    assert(ops.take(i + 1).last() == ops[i]);
}

/// A fresh contract's stores are well formed, and every run keeps them so:
/// whatever the library reads back was written by the library and decodes.
pub proof fn runs_keep_the_store_well_formed(s: StoreView, ops: Seq<Operation>)
    requires
        store_well_formed(s),
    ensures
        store_well_formed(run(s, ops)),
        store_well_formed(StoreView { persistent: Map::empty(), instance: Map::empty() }),
    decreases ops.len(),
{
    if ops.len() > 0 {
        runs_keep_the_store_well_formed(s, ops.drop_last());
        operations_keep_the_store_well_formed(run(s, ops.drop_last()), ops.last());
    }
}

/// Once initialized, a contract stays initialized over any run.
pub proof fn initialized_stays(s: StoreView, ops: Seq<Operation>, from: int, to: int)
    requires
        0 <= from <= to <= ops.len(),
        initialized(run(s, ops.take(from))),
    ensures
        initialized(run(s, ops.take(to))),
    decreases to - from,
{
    if from < to {
        initialized_stays(s, ops, from, to - 1);
        lemma_run_step(s, ops, to - 1);
        initialization_is_permanent(run(s, ops.take(to - 1)), ops[to - 1]);
    }
}

/// From an uninitialized contract, a run leaves it initialized exactly when
/// one of its operations was a successful initialization.
pub proof fn initialized_exactly_after_an_initialization(s: StoreView, ops: Seq<Operation>)
    requires
        !initialized(s),
    ensures
        initialized(run(s, ops)) <==> exists|i: int|
            0 <= i < ops.len() && (#[trigger] ops[i]) is InitializeAdmin && succeeds_at(s, ops, i),
    decreases ops.len(),
{
    if ops.len() > 0 {
        let prefix = ops.drop_last();
        let last = (ops.len() - 1) as int;
        initialized_exactly_after_an_initialization(s, prefix);
        only_initialization_writes_the_marker(run(s, prefix), ops.last());
        assert(ops.take(last) =~= prefix);
        assert forall|i: int| 0 <= i < prefix.len() implies
            (#[trigger] prefix[i] == ops[i]) && succeeds_at(s, prefix, i) == succeeds_at(s, ops, i) by {
            assert(prefix.take(i) =~= ops.take(i));
        }
        if initialized(run(s, ops)) {
            if initialized(run(s, prefix)) {
                let i = choose|i: int| 0 <= i < prefix.len() && (#[trigger] prefix[i]) is InitializeAdmin && succeeds_at(s, prefix, i);
                assert(ops[i] is InitializeAdmin && succeeds_at(s, ops, i));
            } else {
                assert(ops[last] is InitializeAdmin && succeeds_at(s, ops, last));
            }
        } else {
            assert forall|i: int| 0 <= i < ops.len() && (#[trigger] ops[i]) is InitializeAdmin implies !succeeds_at(s, ops, i) by {
                if i < last {
                    assert(prefix[i] == ops[i]);
                }
            }
        }
    }
}

/// At most one initialization succeeds in any run: once one has, every
/// later initialization, by any address, is refused.
pub proof fn initialization_succeeds_at_most_once(s: StoreView, ops: Seq<Operation>, i: int, j: int)
    requires
        0 <= i < j < ops.len(),
        ops[i] is InitializeAdmin,
        succeeds_at(s, ops, i),
        ops[j] is InitializeAdmin,
    ensures
        !succeeds_at(s, ops, j),
        initialize_admin_step(run(s, ops.take(j)), ops[j]->InitializeAdmin_admin).0 == Err::<(), AccessError>(AccessError::AlreadyInitialized),
{
    lemma_run_step(s, ops, i);
    only_initialization_writes_the_marker(run(s, ops.take(i)), ops[i]);
    initialized_stays(s, ops, i + 1, j);
}

/// Whether `op` is a submission by `student` at `assessment_id`.
pub open spec fn submits_for(op: Operation, student: Seq<u8>, assessment_id: u64) -> bool {
    op matches Operation::SubmitAssessment { student: who, assessment_id: which, .. }
        && who == student && which == assessment_id
}

/// An operation other than a submission by `student` at `assessment_id`
/// leaves that student's counter, latest-attempt number and results there
/// as they were.
pub proof fn submission_entries_kept(t: StoreView, op: Operation, student: Seq<u8>, assessment_id: u64)
    requires
        !submits_for(op, student, assessment_id),
    ensures
        same_entry(t.persistent, apply(t, op).1.persistent, attempt_count_key(student, assessment_id)),
        same_entry(t.persistent, apply(t, op).1.persistent, latest_attempt_key(student, assessment_id)),
        forall|n: u32| #[trigger] same_entry(t.persistent, apply(t, op).1.persistent, result_key(student, assessment_id, n)),
{
    lemma_keys_distinct();
    operation_footprint(t, op);
    let (ak, lk) = (attempt_count_key(student, assessment_id), latest_attempt_key(student, assessment_id));
    lemma_writes_by_kind(op, student, student, assessment_id, 0);
    if let Operation::SubmitAssessment { student: who, assessment_id: which, score, now } = op {
        assert(ak[0] == 3u8 && lk[0] == 5u8);
        assert(!writes(op, ak)) by {
            if ak == attempt_count_key(who, which) {
                lemma_attempt_count_key_injective(who, which, student, assessment_id);
            }
            if exists|m: u32| ak == result_key(who, which, m) {
                let m = choose|m: u32| ak == result_key(who, which, m);
                assert(result_key(who, which, m)[0] == 4u8);
            }
            assert(latest_attempt_key(who, which)[0] == 5u8);
        }
        assert(!writes(op, lk)) by {
            if lk == latest_attempt_key(who, which) {
                lemma_latest_attempt_key_injective(who, which, student, assessment_id);
            }
            if exists|m: u32| lk == result_key(who, which, m) {
                let m = choose|m: u32| lk == result_key(who, which, m);
                assert(result_key(who, which, m)[0] == 4u8);
            }
            assert(attempt_count_key(who, which)[0] == 3u8);
        }
        assert forall|n: u32| #[trigger] same_entry(t.persistent, apply(t, op).1.persistent, result_key(student, assessment_id, n)) by {
            let rk = result_key(student, assessment_id, n);
            assert(rk[0] == 4u8);
            assert(!writes(op, rk)) by {
                if exists|m: u32| rk == result_key(who, which, m) {
                    let m = choose|m: u32| rk == result_key(who, which, m);
                    lemma_result_key_injective(who, which, m, student, assessment_id, n);
                }
                assert(attempt_count_key(who, which)[0] == 3u8);
                assert(latest_attempt_key(who, which)[0] == 5u8);
            }
        }
    } else {
        assert forall|n: u32| #[trigger] same_entry(t.persistent, apply(t, op).1.persistent, result_key(student, assessment_id, n)) by {
            lemma_writes_by_kind(op, student, student, assessment_id, n);
        }
    }
}

/// A student's results read back unchanged over any run with no further
/// submission by that student at that assessment: the latest result, and
/// the result of every attempt, stay what they were, and so does the
/// attempt counter.
pub proof fn results_survive_other_operations(
    s: StoreView,
    ops: Seq<Operation>,
    student: Seq<u8>,
    assessment_id: u64,
    attempt: Option<u32>,
)
    requires
        forall|i: int| 0 <= i < ops.len() ==> !submits_for(#[trigger] ops[i], student, assessment_id),
    ensures
        result_lookup(run(s, ops), student, assessment_id, attempt) == result_lookup(s, student, assessment_id, attempt),
        attempts_of(run(s, ops), student, assessment_id) == attempts_of(s, student, assessment_id),
        same_entry(s.persistent, run(s, ops).persistent, latest_attempt_key(student, assessment_id)),
        forall|n: u32| #[trigger] same_entry(s.persistent, run(s, ops).persistent, result_key(student, assessment_id, n)),
    decreases ops.len(),
{
    if ops.len() > 0 {
        let prefix = ops.drop_last();
        assert forall|i: int| 0 <= i < prefix.len() implies !submits_for(#[trigger] prefix[i], student, assessment_id) by {
            assert(prefix[i] == ops[i]);
        }
        results_survive_other_operations(s, prefix, student, assessment_id, attempt);
        assert(!submits_for(ops[ops.len() - 1], student, assessment_id));
        submission_entries_kept(run(s, prefix), ops.last(), student, assessment_id);
        let t = run(s, ops);
        assert forall|n: u32| #[trigger] same_entry(s.persistent, t.persistent, result_key(student, assessment_id, n)) by {
            assert(same_entry(s.persistent, run(s, prefix).persistent, result_key(student, assessment_id, n)));
            assert(same_entry(run(s, prefix).persistent, t.persistent, result_key(student, assessment_id, n)));
        }
    }
    let t = run(s, ops);
    let number = match attempt {
        Some(n) => Some(n),
        None => latest_attempt_of(s, student, assessment_id),
    };
    if let Some(n) = number {
        assert(same_entry(s.persistent, t.persistent, result_key(student, assessment_id, n)));
    }
}

/// The number of operations of `ops` that succeed, when run from `s`.
pub open spec fn successes(s: StoreView, ops: Seq<Operation>) -> nat
    decreases ops.len(),
{
    if ops.len() == 0 {
        0
    } else {
        successes(s, ops.drop_last()) + if apply(run(s, ops.drop_last()), ops.last()).0 { 1nat } else { 0nat }
    }
}

/// The state of a student's attempts at an assessment after `k`
/// successful submissions from `s0` under configuration `c`: `k` attempts
/// within the limit, the latest being the `k`-th, results present for
/// attempts `1..=k` and for no other, and every other entry as in `s0`.
pub open spec fn attempts_filled(
    s0: StoreView,
    t: StoreView,
    student: Seq<u8>,
    assessment_id: u64,
    c: AssessmentConfig,
    k: nat,
) -> bool {
    &&& config_of(t, assessment_id) == Some(c)
    &&& k <= c.max_attempts
    &&& attempts_of(t, student, assessment_id) == k
    &&& latest_attempt_of(t, student, assessment_id) == (if k == 0 { None } else { Some(k as u32) })
    &&& forall|n: u32| #[trigger] result_of(t, student, assessment_id, n) is Some <==> 1 <= n <= k
    &&& forall|key: Seq<u8>| !#[trigger] submission_key(student, assessment_id, key)
        ==> same_entry(s0.persistent, t.persistent, key)
    &&& t.instance == s0.instance
}

/// One more submission by the same student keeps the attempts filled in
/// order: a success is the next attempt and adds exactly its result.
pub proof fn submission_fills_the_next_attempt(
    s0: StoreView,
    t: StoreView,
    student: Seq<u8>,
    assessment_id: u64,
    c: AssessmentConfig,
    k: nat,
    score: u32,
    now: u64,
)
    requires
        attempts_filled(s0, t, student, assessment_id, c, k),
    ensures
        ({
            let (r, t2) = submission_step(t, student, assessment_id, score, now);
            &&& attempts_filled(s0, t2, student, assessment_id, c, k + if r is Ok { 1nat } else { 0nat })
            &&& r is Ok ==> r->Ok_0.attempt == k + 1
        }),
{
    let (r, t2) = submission_step(t, student, assessment_id, score, now);
    if r is Ok {
        lemma_keys_distinct();
        lemma_codec_roundtrip();
        let a = r->Ok_0.attempt;
        let (ak, lk, rk) = (
            attempt_count_key(student, assessment_id),
            latest_attempt_key(student, assessment_id),
            result_key(student, assessment_id, a),
        );
        assert(ak[0] == 3u8 && lk[0] == 5u8 && rk[0] == 4u8);
        assert(config_key(assessment_id)[0] == 2u8);
        assert(a == k + 1);
        assert forall|n: u32| #[trigger] result_of(t2, student, assessment_id, n) is Some <==> 1 <= n <= k + 1 by {
            let nk = result_key(student, assessment_id, n);
            assert(nk[0] == 4u8);
            if n != a {
                if nk == rk {
                    lemma_result_key_injective(student, assessment_id, n, student, assessment_id, a);
                }
                assert(result_of(t, student, assessment_id, n) is Some <==> 1 <= n <= k);
            }
        }
        assert forall|key: Seq<u8>| !#[trigger] submission_key(student, assessment_id, key)
            implies same_entry(s0.persistent, t2.persistent, key) by {
            if key == rk {
                assert(submission_key(student, assessment_id, key));
            }
            assert(same_entry(s0.persistent, t.persistent, key));
        }
    }
}

/// Whether every operation of `ops` is a submission by `student` at
/// `assessment_id`.
pub open spec fn only_submissions_for(ops: Seq<Operation>, student: Seq<u8>, assessment_id: u64) -> bool {
    forall|i: int| 0 <= i < ops.len() ==> submits_for(#[trigger] ops[i], student, assessment_id)
}

/// Over any run of submissions by one student at one assessment whose
/// configuration stays `c`, starting with nothing recorded: the `k`
/// successful ones never exceed the attempt limit, the counter and the
/// latest attempt end at `k`, results exist exactly for attempts `1..=k`,
/// and every other entry of the stores is untouched.
pub proof fn submissions_fill_attempts_in_order(
    s: StoreView,
    ops: Seq<Operation>,
    student: Seq<u8>,
    assessment_id: u64,
    c: AssessmentConfig,
)
    requires
        config_of(s, assessment_id) == Some(c),
        attempts_of(s, student, assessment_id) == 0,
        latest_attempt_of(s, student, assessment_id) is None,
        forall|n: u32| #[trigger] result_of(s, student, assessment_id, n) is None,
        only_submissions_for(ops, student, assessment_id),
    ensures
        attempts_filled(s, run(s, ops), student, assessment_id, c, successes(s, ops)),
    decreases ops.len(),
{
    if ops.len() == 0 {
        assert forall|n: u32| #[trigger] result_of(s, student, assessment_id, n) is Some <==> 1 <= n <= 0 by {}
    } else {
        let prefix = ops.drop_last();
        assert forall|i: int| 0 <= i < prefix.len() implies submits_for(#[trigger] prefix[i], student, assessment_id) by {
            assert(prefix[i] == ops[i]);
        }
        submissions_fill_attempts_in_order(s, prefix, student, assessment_id, c);
        assert(submits_for(ops[ops.len() - 1], student, assessment_id));
        let op = ops.last();
        submission_fills_the_next_attempt(
            s,
            run(s, prefix),
            student,
            assessment_id,
            c,
            successes(s, prefix),
            op->score,
            op->now,
        );
    }
}

/// In such a run, the `j`-th successful submission is attempt `j`.
pub proof fn each_success_is_the_next_attempt(
    s: StoreView,
    ops: Seq<Operation>,
    student: Seq<u8>,
    assessment_id: u64,
    c: AssessmentConfig,
    i: int,
)
    requires
        config_of(s, assessment_id) == Some(c),
        attempts_of(s, student, assessment_id) == 0,
        latest_attempt_of(s, student, assessment_id) is None,
        forall|n: u32| #[trigger] result_of(s, student, assessment_id, n) is None,
        only_submissions_for(ops, student, assessment_id),
        0 <= i < ops.len(),
        succeeds_at(s, ops, i),
    ensures
        submission_step(run(s, ops.take(i)), student, assessment_id, ops[i]->score, ops[i]->now).0->Ok_0.attempt
            == successes(s, ops.take(i)) + 1,
{
    let prefix = ops.take(i);
    assert forall|j: int| 0 <= j < prefix.len() implies submits_for(#[trigger] prefix[j], student, assessment_id) by {
        assert(prefix[j] == ops[j]);
    }
    submissions_fill_attempts_in_order(s, prefix, student, assessment_id, c);
    assert(submits_for(ops[i], student, assessment_id));
    submission_fills_the_next_attempt(
        s,
        run(s, prefix),
        student,
        assessment_id,
        c,
        successes(s, prefix),
        ops[i]->score,
        ops[i]->now,
    );
}

} // verus!

//! Properties that hold across the library's operations: what every
//! operation keeps, and where privileges can come from.

use vstd::prelude::*;

use crate::access::{
    authorize_instructor_step, initialize_admin_step, register_admin_step, register_student_step,
    AccessError, Role,
};
use crate::access::storage::{initialized, registered, role_of};
use crate::access::types::lemma_role_roundtrip;
use crate::assessment::{configure_step, submission_step, AssessmentConfig};
use crate::assessment::codec::lemma_codec_roundtrip;
use crate::assessment::codec::decode_count;
use crate::assessment::storage::{attempts_of, config_of, latest_attempt_of, result_of};
use crate::host::StoreView;
use crate::storage::{
    attempt_count_key, config_key, latest_attempt_key, lemma_attempt_count_key_injective,
    lemma_config_key_injective, lemma_keys_distinct, lemma_latest_attempt_key_injective,
    lemma_result_key_injective, result_key, user_key,
};

verus! {

/// A state-changing operation of the library, with its arguments as plain
/// values.
pub enum Operation {
    InitializeAdmin { admin: Seq<u8> },
    RegisterAdmin { caller: Seq<u8>, admin: Seq<u8> },
    AuthorizeInstructor { caller: Seq<u8>, instructor: Seq<u8> },
    RegisterStudent { student: Seq<u8> },
    ConfigureAssessment { caller: Seq<u8>, assessment_id: u64, config: AssessmentConfig },
    SubmitAssessment { student: Seq<u8>, assessment_id: u64, score: u32, now: u64 },
}

/// Whether `op` succeeds on `s`, and the stores it leaves behind.
pub open spec fn apply(s: StoreView, op: Operation) -> (bool, StoreView) {
    match op {
        Operation::InitializeAdmin { admin } => {
            let (r, t) = initialize_admin_step(s, admin);
            (r is Ok, t)
        },
        Operation::RegisterAdmin { caller, admin } => {
            let (r, t) = register_admin_step(s, caller, admin);
            (r is Ok, t)
        },
        Operation::AuthorizeInstructor { caller, instructor } => {
            let (r, t) = authorize_instructor_step(s, caller, instructor);
            (r is Ok, t)
        },
        Operation::RegisterStudent { student } => {
            let (r, t) = register_student_step(s, student);
            (r is Ok, t)
        },
        Operation::ConfigureAssessment { caller, assessment_id, config } => {
            let (r, t) = configure_step(s, caller, assessment_id, config);
            (r is Ok, t)
        },
        Operation::SubmitAssessment { student, assessment_id, score, now } => {
            let (r, t) = submission_step(s, student, assessment_id, score, now);
            (r is Ok, t)
        },
    }
}

/// The keys a submission by `student` at `assessment_id` may write: its
/// attempt counter, its latest-attempt number and its per-attempt results.
pub open spec fn submission_key(student: Seq<u8>, assessment_id: u64, key: Seq<u8>) -> bool {
    ||| key == attempt_count_key(student, assessment_id)
    ||| key == latest_attempt_key(student, assessment_id)
    ||| exists|n: u32| key == result_key(student, assessment_id, n)
}

/// The persistent keys that `op` may write.
pub open spec fn writes(op: Operation, key: Seq<u8>) -> bool {
    match op {
        Operation::InitializeAdmin { admin } => key == user_key(admin),
        Operation::RegisterAdmin { caller, admin } => key == user_key(admin),
        Operation::AuthorizeInstructor { caller, instructor } => key == user_key(instructor),
        Operation::RegisterStudent { student } => key == user_key(student),
        Operation::ConfigureAssessment { caller, assessment_id, config } => key == config_key(assessment_id),
        Operation::SubmitAssessment { student, assessment_id, score, now } => submission_key(student, assessment_id, key),
    }
}

/// Whether two maps agree at `key`.
pub open spec fn same_entry(m: Map<Seq<u8>, Seq<u8>>, n: Map<Seq<u8>, Seq<u8>>, key: Seq<u8>) -> bool {
    m.contains_key(key) == n.contains_key(key) && m[key] == n[key]
}

/// What each operation may touch: persistent entries only under the keys
/// it writes, and instance storage only by a successful initialization.
pub proof fn operation_footprint(s: StoreView, op: Operation)
    ensures
        forall|key: Seq<u8>| !#[trigger] writes(op, key) ==> same_entry(s.persistent, apply(s, op).1.persistent, key),
        !(op is InitializeAdmin && apply(s, op).0) ==> apply(s, op).1.instance == s.instance,
{
    if let Operation::SubmitAssessment { student, assessment_id, score, now } = op {
        let (r, t) = submission_step(s, student, assessment_id, score, now);
        if r is Ok {
            let a = r->Ok_0.attempt;
            assert forall|key: Seq<u8>| !#[trigger] writes(op, key) implies same_entry(s.persistent, t.persistent, key) by {
                if key == result_key(student, assessment_id, a) {
                    assert(submission_key(student, assessment_id, key));
                }
            }
        }
    }
}

/// The keys of different kinds that the operations write never meet: no
/// assessment operation writes a registration, and no access operation
/// writes an assessment entry.
pub proof fn lemma_writes_by_kind(op: Operation, user: Seq<u8>, student: Seq<u8>, assessment_id: u64, n: u32)
    ensures
        writes(op, user_key(user)) ==> op is InitializeAdmin || op is RegisterAdmin
            || op is AuthorizeInstructor || op is RegisterStudent,
        writes(op, attempt_count_key(student, assessment_id)) ==> op is SubmitAssessment,
        writes(op, latest_attempt_key(student, assessment_id)) ==> op is SubmitAssessment,
        writes(op, result_key(student, assessment_id, n)) ==> op is SubmitAssessment,
{
    lemma_keys_distinct();
    let (uk, ak, lk, rk) = (
        user_key(user),
        attempt_count_key(student, assessment_id),
        latest_attempt_key(student, assessment_id),
        result_key(student, assessment_id, n),
    );
    assert(uk[0] == 1u8 && ak[0] == 3u8 && lk[0] == 5u8 && rk[0] == 4u8);
    match op {
        Operation::ConfigureAssessment { caller, assessment_id: which, config } => {
            assert(config_key(which)[0] == 2u8);
        },
        Operation::SubmitAssessment { student: who, assessment_id: which, score, now } => {
            assert(attempt_count_key(who, which)[0] == 3u8);
            assert(latest_attempt_key(who, which)[0] == 5u8);
        },
        _ => {
            assert(ak != uk && lk != uk && rk != uk);
        },
    }
}

/// An operation that is refused leaves both stores exactly as they were;
/// in particular a failed initialization does not mark the contract
/// initialized.
pub proof fn refused_operations_change_nothing(s: StoreView, op: Operation)
    requires
        !apply(s, op).0,
    ensures
        apply(s, op).1 == s,
{
}

/// Only a successful initialization writes the initialization marker, and
/// it always does: afterwards the contract is initialized exactly when it
/// was before or this operation was a successful initialization.
pub proof fn only_initialization_writes_the_marker(s: StoreView, op: Operation)
    ensures
        initialized(apply(s, op).1) == (initialized(s) || (op is InitializeAdmin && apply(s, op).0)),
{
    operation_footprint(s, op);
}

/// Once the contract is initialized, no operation touches instance
/// storage again: the contract stays initialized, with the marker it got.
pub proof fn initialization_is_permanent(s: StoreView, op: Operation)
    requires
        initialized(s),
    ensures
        apply(s, op).1.instance == s.instance,
        initialized(apply(s, op).1),
{
}

/// Initialization happens once: after it succeeds the contract is
/// initialized with `admin` as administrator, and every later attempt, by
/// the same or any other address, is refused with `AlreadyInitialized`
/// and changes nothing.
pub proof fn initialization_happens_once(s: StoreView, admin: Seq<u8>, other: Seq<u8>)
    requires
        initialize_admin_step(s, admin).0 is Ok,
    ensures
        initialized(initialize_admin_step(s, admin).1),
        role_of(initialize_admin_step(s, admin).1, admin) == Some(Role::Admin),
        initialize_admin_step(initialize_admin_step(s, admin).1, other) == (
            Err::<(), AccessError>(AccessError::AlreadyInitialized),
            initialize_admin_step(s, admin).1,
        ),
{
    lemma_role_roundtrip(Role::Admin);
}

/// A registration is permanent: no operation changes or removes the entry
/// of an address that is already registered, so its role never changes.
pub proof fn registrations_are_permanent(s: StoreView, op: Operation, user: Seq<u8>)
    requires
        registered(s, user),
    ensures
        registered(apply(s, op).1, user),
        apply(s, op).1.persistent[user_key(user)] == s.persistent[user_key(user)],
        role_of(apply(s, op).1, user) == role_of(s, user),
{
    lemma_keys_distinct();
    operation_footprint(s, op);
    // An operation that writes this registration refuses: the address is taken.
    assert(!writes(op, user_key(user)) || !apply(s, op).0);
}

/// Administrator rights have exactly two origins: the one-time
/// initialization, or registration by an existing administrator.
pub proof fn admin_role_has_an_origin(s: StoreView, op: Operation, user: Seq<u8>)
    requires
        role_of(s, user) != Some(Role::Admin),
        role_of(apply(s, op).1, user) == Some(Role::Admin),
    ensures
        match op {
            Operation::InitializeAdmin { admin } => admin == user && !initialized(s),
            Operation::RegisterAdmin { caller, admin } => admin == user && role_of(s, caller) == Some(Role::Admin),
            _ => false,
        },
{
    lemma_keys_distinct();
    operation_footprint(s, op);
    lemma_writes_by_kind(op, user, user, 0, 0);
    assert(writes(op, user_key(user)));
    assert(seq![0u8][0] != seq![1u8][0] && seq![0u8][0] != seq![2u8][0]);
}

/// The instructor role has exactly one origin: authorization by an
/// existing administrator.
pub proof fn instructor_role_has_an_origin(s: StoreView, op: Operation, user: Seq<u8>)
    requires
        role_of(s, user) != Some(Role::Instructor),
        role_of(apply(s, op).1, user) == Some(Role::Instructor),
    ensures
        match op {
            Operation::AuthorizeInstructor { caller, instructor } => instructor == user && role_of(s, caller) == Some(Role::Admin),
            _ => false,
        },
{
    lemma_keys_distinct();
    operation_footprint(s, op);
    lemma_writes_by_kind(op, user, user, 0, 0);
    assert(writes(op, user_key(user)));
    assert(seq![1u8][0] != seq![0u8][0] && seq![1u8][0] != seq![2u8][0]);
}

/// Attempt counters never go down: no operation lets a student win back
/// used attempts, and a successful submission uses exactly one.
pub proof fn attempt_counts_never_decrease(s: StoreView, op: Operation, student: Seq<u8>, assessment_id: u64)
    ensures
        attempts_of(apply(s, op).1, student, assessment_id) >= attempts_of(s, student, assessment_id),
        (op matches Operation::SubmitAssessment { student: who, assessment_id: which, .. }
            && who == student && which == assessment_id && apply(s, op).0)
            ==> attempts_of(apply(s, op).1, student, assessment_id) == attempts_of(s, student, assessment_id) + 1,
{
    lemma_keys_distinct();
    lemma_codec_roundtrip();
    operation_footprint(s, op);
    let k = attempt_count_key(student, assessment_id);
    if writes(op, k) && apply(s, op).0 {
        lemma_writes_by_kind(op, student, student, assessment_id, 0);
        if let Operation::SubmitAssessment { student: who, assessment_id: which, score, now } = op {
            let a = submission_step(s, who, which, score, now).0->Ok_0.attempt;
            if k == result_key(who, which, a) {
                assert(k[0] == 3u8);
            } else if k == latest_attempt_key(who, which) {
                assert(k[0] == 3u8);
            } else if k == attempt_count_key(who, which) {
                lemma_attempt_count_key_injective(who, which, student, assessment_id);
            } else {
                let n = choose|n: u32| k == result_key(who, which, n);
                assert(k[0] == 3u8 && result_key(who, which, n)[0] == 4u8);
            }
        }
    }
}

/// Every entry of a library key decodes: each registration holds a role,
/// each configuration entry a configuration, each counter and latest
/// attempt number a counter, and each result entry a result.
pub open spec fn store_well_formed(s: StoreView) -> bool {
    &&& forall|u: Seq<u8>| #[trigger] registered(s, u) ==> role_of(s, u) is Some
    &&& forall|id: u64| s.persistent.contains_key(#[trigger] config_key(id)) ==> config_of(s, id) is Some
    &&& forall|st: Seq<u8>, id: u64| s.persistent.contains_key(#[trigger] attempt_count_key(st, id))
        ==> decode_count(s.persistent[attempt_count_key(st, id)]) is Some
    &&& forall|st: Seq<u8>, id: u64| s.persistent.contains_key(#[trigger] latest_attempt_key(st, id))
        ==> latest_attempt_of(s, st, id) is Some
    &&& forall|st: Seq<u8>, id: u64, n: u32| s.persistent.contains_key(#[trigger] result_key(st, id, n))
        ==> result_of(s, st, id, n) is Some
}

/// Every operation writes only entries that decode, so a store that only
/// the library has written is well formed: an entry that does not decode
/// never arises from the library's own operations.
pub proof fn operations_keep_the_store_well_formed(s: StoreView, op: Operation)
    requires
        store_well_formed(s),
    ensures
        store_well_formed(apply(s, op).1),
{
    let (ok, t) = apply(s, op);
    if ok {
        lemma_keys_distinct();
        lemma_codec_roundtrip();
        operation_footprint(s, op);
        assert forall|u: Seq<u8>| #[trigger] registered(t, u) implies role_of(t, u) is Some by {
            let k = user_key(u);
            lemma_writes_by_kind(op, u, u, 0, 0);
            if writes(op, k) {
                match op {
                    Operation::InitializeAdmin { admin } => {
                        assert(user_key(admin) == k);
                        lemma_role_roundtrip(Role::Admin);
                        assert(t.persistent[k] == crate::access::types::role_bytes(Role::Admin));
                    },
                    Operation::RegisterAdmin { caller, admin } => {
                        assert(user_key(admin) == k);
                        lemma_role_roundtrip(Role::Admin);
                        assert(t.persistent[k] == crate::access::types::role_bytes(Role::Admin));
                    },
                    Operation::AuthorizeInstructor { caller, instructor } => {
                        assert(user_key(instructor) == k);
                        lemma_role_roundtrip(Role::Instructor);
                        assert(t.persistent[k] == crate::access::types::role_bytes(Role::Instructor));
                    },
                    Operation::RegisterStudent { student } => {
                        assert(user_key(student) == k);
                        lemma_role_roundtrip(Role::Student);
                        assert(t.persistent[k] == crate::access::types::role_bytes(Role::Student));
                    },
                    _ => {},
                }
            } else {
                assert(same_entry(s.persistent, t.persistent, k));
                assert(registered(s, u));
            }
        }
        assert forall|id: u64| t.persistent.contains_key(#[trigger] config_key(id)) implies config_of(t, id) is Some by {
            let k = config_key(id);
            assert(k[0] == 2u8);
            if writes(op, k) {
                match op {
                    Operation::ConfigureAssessment { caller, assessment_id, config } => {
                        lemma_config_key_injective(assessment_id, id);
                    },
                    Operation::SubmitAssessment { student, assessment_id, score, now } => {
                        assert(attempt_count_key(student, assessment_id)[0] == 3u8);
                        assert(latest_attempt_key(student, assessment_id)[0] == 5u8);
                        if exists|m: u32| k == result_key(student, assessment_id, m) {
                            let m = choose|m: u32| k == result_key(student, assessment_id, m);
                            assert(result_key(student, assessment_id, m)[0] == 4u8);
                        }
                    },
                    Operation::InitializeAdmin { admin } => { assert(user_key(admin)[0] == 1u8); },
                    Operation::RegisterAdmin { caller, admin } => { assert(user_key(admin)[0] == 1u8); },
                    Operation::AuthorizeInstructor { caller, instructor } => { assert(user_key(instructor)[0] == 1u8); },
                    Operation::RegisterStudent { student } => { assert(user_key(student)[0] == 1u8); },
                }
            } else {
                assert(same_entry(s.persistent, t.persistent, k));
            }
        }
        if let Operation::SubmitAssessment { student: who, assessment_id: which, score, now } = op {
            let a = submission_step(s, who, which, score, now).0->Ok_0.attempt;
            let (ak, lk, rk) = (attempt_count_key(who, which), latest_attempt_key(who, which), result_key(who, which, a));
            assert(ak[0] == 3u8 && lk[0] == 5u8 && rk[0] == 4u8);
            assert forall|st: Seq<u8>, id: u64| t.persistent.contains_key(#[trigger] attempt_count_key(st, id))
                implies decode_count(t.persistent[attempt_count_key(st, id)]) is Some by {
                let k = attempt_count_key(st, id);
                if k == ak {
                } else if k == lk || k == rk {
                    assert(k[0] == 3u8);
                } else {
                    assert(same_entry(s.persistent, t.persistent, k));
                }
            }
            assert forall|st: Seq<u8>, id: u64| t.persistent.contains_key(#[trigger] latest_attempt_key(st, id))
                implies latest_attempt_of(t, st, id) is Some by {
                let k = latest_attempt_key(st, id);
                if k == lk {
                    lemma_latest_attempt_key_injective(who, which, st, id);
                } else if k == ak || k == rk {
                    assert(k[0] == 5u8);
                } else {
                    assert(same_entry(s.persistent, t.persistent, k));
                }
            }
            assert forall|st: Seq<u8>, id: u64, n: u32| t.persistent.contains_key(#[trigger] result_key(st, id, n))
                implies result_of(t, st, id, n) is Some by {
                let k = result_key(st, id, n);
                if k == rk {
                    lemma_result_key_injective(who, which, a, st, id, n);
                } else if k == ak || k == lk {
                    assert(k[0] == 4u8);
                } else {
                    assert(same_entry(s.persistent, t.persistent, k));
                }
            }
        } else {
            assert forall|st: Seq<u8>, id: u64| t.persistent.contains_key(#[trigger] attempt_count_key(st, id))
                implies decode_count(t.persistent[attempt_count_key(st, id)]) is Some by {
                lemma_writes_by_kind(op, st, st, id, 0);
                assert(same_entry(s.persistent, t.persistent, attempt_count_key(st, id)));
            }
            assert forall|st: Seq<u8>, id: u64| t.persistent.contains_key(#[trigger] latest_attempt_key(st, id))
                implies latest_attempt_of(t, st, id) is Some by {
                lemma_writes_by_kind(op, st, st, id, 0);
                assert(same_entry(s.persistent, t.persistent, latest_attempt_key(st, id)));
            }
            assert forall|st: Seq<u8>, id: u64, n: u32| t.persistent.contains_key(#[trigger] result_key(st, id, n))
                implies result_of(t, st, id, n) is Some by {
                lemma_writes_by_kind(op, st, st, id, n);
                assert(same_entry(s.persistent, t.persistent, result_key(st, id, n)));
            }
        }
    }
}

} // verus!

use lms::access::storage::{get_role as stored_role, has_user, set_role};
use lms::assessment::storage::{get_attempt_count, get_config, get_latest_attempt_number, get_result};
use lms::{AccessControl, AccessError, AssessmentConfig, AssessmentError, AssessmentService, Role};
use soroban_sdk::testutils::{Address as _, ContractFunctionSet, EnvTestConfig};
use soroban_sdk::{Address, Env, Val};

struct Host;

impl ContractFunctionSet for Host {
    fn call(&self, _func: &str, _env: Env, _args: &[Val]) -> Option<Val> {
        None
    }
}

fn call<T>(env: &Env, contract_id: &Address, f: impl FnOnce(&mut Env) -> T) -> T {
    let mut inner = env.clone();
    env.as_contract(contract_id, || f(&mut inner))
}

fn fresh(env: &Env) -> Vec<u8> {
    let text = Address::generate(env).to_string();
    let mut bytes = vec![0u8; text.len() as usize];
    text.copy_into_slice(&mut bytes);
    bytes
}

fn setup() -> (Env, Address) {
    let env = Env::new_with_config(EnvTestConfig {
        capture_snapshot_at_drop: false,
    });
    let contract_id = env.register(Host, ());
    env.mock_all_auths();
    (env, contract_id)
}

fn config(max_attempts: u32) -> AssessmentConfig {
    AssessmentConfig {
        max_score: 100,
        passing_score: 70,
        max_attempts,
    }
}

#[test]
fn refused_registration_changes_nothing() {
    let (env, id) = setup();
    let (admin, student, target) = (fresh(&env), fresh(&env), fresh(&env));
    call(&env, &id, |e| AccessControl::initialize_admin(e, &admin).unwrap());
    call(&env, &id, |e| AccessControl::register_student(e, &student).unwrap());

    assert_eq!(
        call(&env, &id, |e| AccessControl::register_admin(e, &student, &target)),
        Err(AccessError::AdminRequired)
    );
    assert_eq!(call(&env, &id, |e| AccessControl::get_role(e, &target)), None);
    assert_eq!(
        call(&env, &id, |e| AccessControl::authorize_instructor(e, &target, &target)),
        Err(AccessError::UserNotRegistered)
    );
    assert_eq!(call(&env, &id, |e| AccessControl::get_role(e, &target)), None);
}

#[test]
fn roles_are_never_reassigned() {
    let (env, id) = setup();
    let (admin, student) = (fresh(&env), fresh(&env));
    call(&env, &id, |e| AccessControl::initialize_admin(e, &admin).unwrap());
    call(&env, &id, |e| AccessControl::register_student(e, &student).unwrap());

    assert_eq!(
        call(&env, &id, |e| AccessControl::register_admin(e, &admin, &student)),
        Err(AccessError::AlreadyRegistered)
    );
    assert_eq!(
        call(&env, &id, |e| AccessControl::authorize_instructor(e, &admin, &student)),
        Err(AccessError::AlreadyRegistered)
    );
    assert_eq!(
        call(&env, &id, |e| AccessControl::register_student(e, &student)),
        Err(AccessError::AlreadyRegistered)
    );
    assert_eq!(
        call(&env, &id, |e| AccessControl::get_role(e, &student)),
        Some(Role::Student)
    );
    assert_eq!(
        call(&env, &id, |e| set_role(e, &admin, Role::Student)),
        Err(AccessError::AlreadyRegistered)
    );
    assert_eq!(call(&env, &id, |e| stored_role(e, &admin)), Some(Role::Admin));
}

#[test]
fn lookups_agree_with_the_recorded_role() {
    let (env, id) = setup();
    let (admin, instructor, outsider) = (fresh(&env), fresh(&env), fresh(&env));
    call(&env, &id, |e| AccessControl::initialize_admin(e, &admin).unwrap());
    call(&env, &id, |e| AccessControl::authorize_instructor(e, &admin, &instructor).unwrap());

    let record = call(&env, &id, |e| AccessControl::get_user(e, &instructor)).unwrap();
    assert_eq!(record.address, instructor);
    assert_eq!(record.role, Role::Instructor);
    assert_eq!(call(&env, &id, |e| AccessControl::get_user(e, &outsider)), None);

    assert!(call(&env, &id, |e| AccessControl::has_role(e, &instructor, Role::Instructor)));
    assert!(!call(&env, &id, |e| AccessControl::has_role(e, &instructor, Role::Admin)));
    assert!(!call(&env, &id, |e| AccessControl::has_role(e, &outsider, Role::Student)));
    assert!(call(&env, &id, |e| has_user(e, &instructor)));
    assert!(!call(&env, &id, |e| has_user(e, &outsider)));

    assert_eq!(
        call(&env, &id, |e| AccessControl::require_instructor(e, &admin)),
        Err(AccessError::InstructorRequired)
    );
    assert_eq!(
        call(&env, &id, |e| AccessControl::require_instructor(e, &outsider)),
        Err(AccessError::UserNotRegistered)
    );
    assert_eq!(
        call(&env, &id, |e| AccessControl::require_admin(e, &instructor)),
        Err(AccessError::AdminRequired)
    );
    assert_eq!(
        call(&env, &id, |e| AccessControl::require_admin(e, &outsider)),
        Err(AccessError::UserNotRegistered)
    );
    assert_eq!(
        call(&env, &id, |e| AccessControl::require_staff(e, &outsider)),
        Err(AccessError::UserNotRegistered)
    );
    assert_eq!(call(&env, &id, |e| AccessControl::require_registered(e, &admin)), Ok(()));
}

#[test]
fn configuration_reads_back_and_can_be_replaced() {
    let (env, id) = setup();
    let (admin, instructor) = (fresh(&env), fresh(&env));
    call(&env, &id, |e| AccessControl::initialize_admin(e, &admin).unwrap());
    call(&env, &id, |e| AccessControl::authorize_instructor(e, &admin, &instructor).unwrap());

    assert_eq!(call(&env, &id, |e| get_config(e, 5)), None);
    call(&env, &id, |e| AssessmentService::configure_assessment(e, &instructor, 5, config(3)).unwrap());
    assert_eq!(call(&env, &id, |e| get_config(e, 5)), Some(config(3)));
    call(&env, &id, |e| AssessmentService::configure_assessment(e, &admin, 5, config(1)).unwrap());
    assert_eq!(call(&env, &id, |e| get_config(e, 5)), Some(config(1)));
    assert_eq!(call(&env, &id, |e| get_config(e, 6)), None);
}

#[test]
fn recorded_submissions_read_back() {
    let (env, id) = setup();
    let (admin, student, other) = (fresh(&env), fresh(&env), fresh(&env));
    call(&env, &id, |e| AccessControl::initialize_admin(e, &admin).unwrap());
    call(&env, &id, |e| AccessControl::register_student(e, &student).unwrap());
    call(&env, &id, |e| AccessControl::register_student(e, &other).unwrap());
    call(&env, &id, |e| AssessmentService::configure_assessment(e, &admin, 1, config(3)).unwrap());

    let first = call(&env, &id, |e| AssessmentService::record_submission(e, &student, 1, 70, 1000)).unwrap();
    assert_eq!(first.submitted_at, 1000);
    assert_eq!(first.assessment_id, 1);
    assert!(first.passed);
    let second = call(&env, &id, |e| AssessmentService::record_submission(e, &student, 1, 69, 2000)).unwrap();
    assert_eq!(second.attempt, 2);
    assert!(!second.passed);

    assert_eq!(call(&env, &id, |e| get_attempt_count(e, &student, 1)), 2);
    assert_eq!(call(&env, &id, |e| get_latest_attempt_number(e, &student, 1)), Some(2));
    assert_eq!(call(&env, &id, |e| get_result(e, &student, 1, 1)), Some(first.clone()));
    assert_eq!(
        call(&env, &id, |e| AssessmentService::get_assessment_result(e, &student, 1, None)),
        Ok(second.clone())
    );
    assert_eq!(
        call(&env, &id, |e| AssessmentService::get_assessment_result(e, &student, 1, Some(3))),
        Err(AssessmentError::ResultNotFound)
    );

    // Another student's counters and results are untouched.
    assert_eq!(call(&env, &id, |e| get_attempt_count(e, &other, 1)), 0);
    assert_eq!(call(&env, &id, |e| get_latest_attempt_number(e, &other, 1)), None);
    assert_eq!(
        call(&env, &id, |e| AssessmentService::get_assessment_result(e, &other, 1, None)),
        Err(AssessmentError::ResultNotFound)
    );
}

#[test]
fn only_students_submit_and_refusals_record_nothing() {
    let (env, id) = setup();
    let (admin, student) = (fresh(&env), fresh(&env));
    call(&env, &id, |e| AccessControl::initialize_admin(e, &admin).unwrap());
    call(&env, &id, |e| AccessControl::register_student(e, &student).unwrap());
    call(&env, &id, |e| AssessmentService::configure_assessment(e, &admin, 1, config(1)).unwrap());

    assert_eq!(
        call(&env, &id, |e| AssessmentService::submit_assessment(e, &admin, 1, 90)),
        Err(AssessmentError::NotEnrolled)
    );
    assert_eq!(
        call(&env, &id, |e| AssessmentService::submit_assessment(e, &student, 1, 101)),
        Err(AssessmentError::InvalidScore)
    );
    assert_eq!(call(&env, &id, |e| get_attempt_count(e, &student, 1)), 0);

    let only = call(&env, &id, |e| AssessmentService::submit_assessment(e, &student, 1, 100)).unwrap();
    assert_eq!(only.attempt, 1);
    assert_eq!(
        call(&env, &id, |e| AssessmentService::submit_assessment(e, &student, 1, 100)),
        Err(AssessmentError::AttemptLimitExceeded)
    );
    assert_eq!(call(&env, &id, |e| get_attempt_count(e, &student, 1)), 1);
    assert_eq!(
        call(&env, &id, |e| AssessmentService::configure_assessment(e, &student, 1, config(5))),
        Err(AssessmentError::Unauthorized)
    );
    assert_eq!(call(&env, &id, |e| get_config(e, 1)), Some(config(1)));
}

#[test]
fn initialization_guard_protects_the_contract() {
    let (env, id) = setup();
    let (founder, second) = (fresh(&env), fresh(&env));
    call(&env, &id, |e| AccessControl::initialize_admin(e, &founder).unwrap());
    call(&env, &id, |e| AccessControl::register_admin(e, &founder, &second).unwrap());
    assert_eq!(
        call(&env, &id, |e| AccessControl::initialize_admin(e, &second)),
        Err(AccessError::AlreadyInitialized)
    );
    assert!(call(&env, &id, |e| AccessControl::is_initialized(e)));
    assert_eq!(call(&env, &id, |e| AccessControl::get_role(e, &second)), Some(Role::Admin));
}

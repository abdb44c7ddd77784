use lms::{AccessControl, AssessmentConfig, AssessmentError, AssessmentService};
use soroban_sdk::testutils::{Address as _, ContractFunctionSet, EnvTestConfig};
use soroban_sdk::{Address, Env, Val};

/// A contract with no entry points, registered so that storage can be used.
struct Host;

impl ContractFunctionSet for Host {
    fn call(&self, _func: &str, _env: Env, _args: &[Val]) -> Option<Val> {
        None
    }
}

/// Run one call inside its own contract frame.
fn call<T>(env: &Env, contract_id: &Address, f: impl FnOnce(&mut Env) -> T) -> T {
    let mut inner = env.clone();
    env.as_contract(contract_id, || f(&mut inner))
}

/// The bytes of a fresh address's text form.
fn fresh(env: &Env) -> Vec<u8> {
    let text = Address::generate(env).to_string();
    let mut bytes = vec![0u8; text.len() as usize];
    text.copy_into_slice(&mut bytes);
    bytes
}

fn setup() -> (Env, Address, Vec<u8>, Vec<u8>, Vec<u8>) {
    let env = Env::new_with_config(EnvTestConfig {
        capture_snapshot_at_drop: false,
    });
    let contract_id = env.register(Host, ());

    let admin = fresh(&env);
    let student = fresh(&env);
    let outsider = fresh(&env);

    (env, contract_id, admin, student, outsider)
}

fn default_config() -> AssessmentConfig {
    AssessmentConfig {
        max_score: 100,
        passing_score: 70,
        max_attempts: 2,
    }
}

#[test]
fn admin_can_configure_assessment() {
    let (env, id, admin, _, _) = setup();
    env.mock_all_auths();

    call(&env, &id, |e| AccessControl::initialize_admin(e, &admin).unwrap());

    call(&env, &id, |e| {
        AssessmentService::configure_assessment(e, &admin, 1, default_config()).unwrap()
    });
}

#[test]
fn non_staff_cannot_configure_assessment() {
    let (env, id, _, student, _) = setup();
    env.mock_all_auths();

    call(&env, &id, |e| AccessControl::register_student(e, &student).unwrap());

    assert_eq!(
        call(&env, &id, |e| {
            AssessmentService::configure_assessment(e, &student, 1, default_config())
        }),
        Err(AssessmentError::Unauthorized)
    );
}

#[test]
fn enrolled_student_can_submit_and_pass() {
    let (env, id, admin, student, _) = setup();
    env.mock_all_auths();

    call(&env, &id, |e| AccessControl::initialize_admin(e, &admin).unwrap());
    call(&env, &id, |e| AccessControl::register_student(e, &student).unwrap());
    call(&env, &id, |e| {
        AssessmentService::configure_assessment(e, &admin, 1, default_config()).unwrap()
    });

    let result = call(&env, &id, |e| {
        AssessmentService::submit_assessment(e, &student, 1, 80).unwrap()
    });

    assert_eq!(result.student, student);
    assert_eq!(result.score, 80);
    assert_eq!(result.attempt, 1);
    assert!(result.passed);
}

#[test]
fn submission_below_passing_score_is_recorded_as_failed() {
    let (env, id, admin, student, _) = setup();
    env.mock_all_auths();

    call(&env, &id, |e| AccessControl::initialize_admin(e, &admin).unwrap());
    call(&env, &id, |e| AccessControl::register_student(e, &student).unwrap());
    call(&env, &id, |e| {
        AssessmentService::configure_assessment(e, &admin, 1, default_config()).unwrap()
    });

    let result = call(&env, &id, |e| {
        AssessmentService::submit_assessment(e, &student, 1, 40).unwrap()
    });

    assert!(!result.passed);
}

#[test]
fn unregistered_caller_cannot_submit() {
    let (env, id, admin, _, outsider) = setup();
    env.mock_all_auths();

    call(&env, &id, |e| AccessControl::initialize_admin(e, &admin).unwrap());
    call(&env, &id, |e| {
        AssessmentService::configure_assessment(e, &admin, 1, default_config()).unwrap()
    });

    assert_eq!(
        call(&env, &id, |e| AssessmentService::submit_assessment(e, &outsider, 1, 80)),
        Err(AssessmentError::NotEnrolled)
    );
}

#[test]
fn submission_to_unconfigured_assessment_fails() {
    let (env, id, _, student, _) = setup();
    env.mock_all_auths();

    call(&env, &id, |e| AccessControl::register_student(e, &student).unwrap());

    assert_eq!(
        call(&env, &id, |e| AssessmentService::submit_assessment(e, &student, 1, 80)),
        Err(AssessmentError::AssessmentNotFound)
    );
}

#[test]
fn mod_score_above_max_is_rejected() {
    let (env, id, admin, student, _) = setup();
    env.mock_all_auths();

    call(&env, &id, |e| AccessControl::initialize_admin(e, &admin).unwrap());
    call(&env, &id, |e| AccessControl::register_student(e, &student).unwrap());
    call(&env, &id, |e| {
        AssessmentService::configure_assessment(e, &admin, 1, default_config()).unwrap()
    });

    assert_eq!(
        call(&env, &id, |e| AssessmentService::submit_assessment(e, &student, 1, 150)),
        Err(AssessmentError::InvalidScore)
    );
}

#[test]
fn attempt_limit_is_enforced() {
    let (env, id, admin, student, _) = setup();
    env.mock_all_auths();

    call(&env, &id, |e| AccessControl::initialize_admin(e, &admin).unwrap());
    call(&env, &id, |e| AccessControl::register_student(e, &student).unwrap());
    call(&env, &id, |e| {
        AssessmentService::configure_assessment(e, &admin, 1, default_config()).unwrap()
    });

    call(&env, &id, |e| AssessmentService::submit_assessment(e, &student, 1, 40).unwrap());
    call(&env, &id, |e| AssessmentService::submit_assessment(e, &student, 1, 50).unwrap());

    assert_eq!(
        call(&env, &id, |e| AssessmentService::submit_assessment(e, &student, 1, 90)),
        Err(AssessmentError::AttemptLimitExceeded)
    );
}

#[test]
fn get_result_defaults_to_latest_attempt() {
    let (env, id, admin, student, _) = setup();
    env.mock_all_auths();

    call(&env, &id, |e| AccessControl::initialize_admin(e, &admin).unwrap());
    call(&env, &id, |e| AccessControl::register_student(e, &student).unwrap());
    call(&env, &id, |e| {
        AssessmentService::configure_assessment(e, &admin, 1, default_config()).unwrap()
    });

    call(&env, &id, |e| AssessmentService::submit_assessment(e, &student, 1, 40).unwrap());
    call(&env, &id, |e| AssessmentService::submit_assessment(e, &student, 1, 90).unwrap());

    let latest = call(&env, &id, |e| {
        AssessmentService::get_assessment_result(e, &student, 1, None).unwrap()
    });

    assert_eq!(latest.attempt, 2);
    assert_eq!(latest.score, 90);
}

#[test]
fn get_result_can_target_a_specific_attempt() {
    let (env, id, admin, student, _) = setup();
    env.mock_all_auths();

    call(&env, &id, |e| AccessControl::initialize_admin(e, &admin).unwrap());
    call(&env, &id, |e| AccessControl::register_student(e, &student).unwrap());
    call(&env, &id, |e| {
        AssessmentService::configure_assessment(e, &admin, 1, default_config()).unwrap()
    });

    call(&env, &id, |e| AssessmentService::submit_assessment(e, &student, 1, 40).unwrap());
    call(&env, &id, |e| AssessmentService::submit_assessment(e, &student, 1, 90).unwrap());

    let first = call(&env, &id, |e| {
        AssessmentService::get_assessment_result(e, &student, 1, Some(1)).unwrap()
    });

    assert_eq!(first.attempt, 1);
    assert_eq!(first.score, 40);
}

#[test]
fn get_result_fails_when_nothing_submitted() {
    let (env, id, _, student, _) = setup();

    assert_eq!(
        call(&env, &id, |e| AssessmentService::get_assessment_result(e, &student, 1, None)),
        Err(AssessmentError::ResultNotFound)
    );
}

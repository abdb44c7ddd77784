use lms::{AccessControl, AccessError, Role};
use soroban_sdk::testutils::{Address as _, ContractFunctionSet, EnvTestConfig};
use soroban_sdk::{Address, Env, Val};

/// A contract with no entry points, registered so that storage can be used.
struct Host;

impl ContractFunctionSet for Host {
    fn call(&self, _func: &str, _env: Env, _args: &[Val]) -> Option<Val> {
        None
    }
}

/// Run one call inside its own contract frame.
fn call<T>(env: &Env, contract_id: &Address, f: impl FnOnce(&mut Env) -> T) -> T {
    let mut inner = env.clone();
    env.as_contract(contract_id, || f(&mut inner))
}

/// The bytes of a fresh address's text form.
fn fresh(env: &Env) -> Vec<u8> {
    let text = Address::generate(env).to_string();
    let mut bytes = vec![0u8; text.len() as usize];
    text.copy_into_slice(&mut bytes);
    bytes
}

fn setup() -> (Env, Address, Vec<u8>, Vec<u8>, Vec<u8>, Vec<u8>) {
    let env = Env::new_with_config(EnvTestConfig {
        capture_snapshot_at_drop: false,
    });
    let contract_id = env.register(Host, ());

    let admin = fresh(&env);
    let instructor = fresh(&env);
    let student = fresh(&env);
    let outsider = fresh(&env);

    (env, contract_id, admin, instructor, student, outsider)
}

#[test]
fn initializes_admin() {
    let (env, id, admin, _, _, _) = setup();

    env.mock_all_auths();

    call(&env, &id, |e| AccessControl::initialize_admin(e, &admin).unwrap());

    assert_eq!(
        call(&env, &id, |e| AccessControl::get_role(e, &admin)),
        Some(Role::Admin)
    );
}

#[test]
fn re_initializing_with_the_same_admin_is_rejected() {
    let (env, id, admin, _, _, _) = setup();

    env.mock_all_auths();

    call(&env, &id, |e| AccessControl::initialize_admin(e, &admin).unwrap());

    assert_eq!(
        call(&env, &id, |e| AccessControl::initialize_admin(e, &admin)),
        Err(AccessError::AlreadyInitialized)
    );
}

#[test]
fn a_second_address_cannot_initialize_after_launch() {
    let (env, id, founder, _, _, attacker) = setup();

    env.mock_all_auths();

    call(&env, &id, |e| AccessControl::initialize_admin(e, &founder).unwrap());

    assert_eq!(
        call(&env, &id, |e| AccessControl::initialize_admin(e, &attacker)),
        Err(AccessError::AlreadyInitialized)
    );

    // The attacker gained nothing at all.
    assert_eq!(call(&env, &id, |e| AccessControl::get_role(e, &attacker)), None);

    // And the legitimate admin is untouched.
    assert_eq!(
        call(&env, &id, |e| AccessControl::get_role(e, &founder)),
        Some(Role::Admin)
    );
}

#[test]
fn initialization_state_is_reported() {
    let (env, id, admin, _, _, _) = setup();

    env.mock_all_auths();

    assert!(!call(&env, &id, |e| AccessControl::is_initialized(e)));

    call(&env, &id, |e| AccessControl::initialize_admin(e, &admin).unwrap());

    assert!(call(&env, &id, |e| AccessControl::is_initialized(e)));
}

#[test]
fn a_failed_initialization_leaves_the_contract_uninitialized() {
    let (env, id, _, _, student, _) = setup();

    env.mock_all_auths();

    // Registering as a student first makes `set_role` fail inside
    // `initialize_admin`, after the guard has been passed.
    call(&env, &id, |e| AccessControl::register_student(e, &student).unwrap());

    assert_eq!(
        call(&env, &id, |e| AccessControl::initialize_admin(e, &student)),
        Err(AccessError::AlreadyRegistered)
    );

    assert!(
        !call(&env, &id, |e| AccessControl::is_initialized(e)),
        "a failed initialization must not mark the contract initialized"
    );

    // Recovery is still possible.
    let admin = fresh(&env);
    call(&env, &id, |e| AccessControl::initialize_admin(e, &admin).unwrap());
    assert!(call(&env, &id, |e| AccessControl::is_initialized(e)));
}

#[test]
fn admin_can_register_another_admin() {
    let (env, id, admin, new_admin, _, _) = setup();

    env.mock_all_auths();

    call(&env, &id, |e| AccessControl::initialize_admin(e, &admin).unwrap());
    call(&env, &id, |e| AccessControl::register_admin(e, &admin, &new_admin).unwrap());

    assert_eq!(
        call(&env, &id, |e| AccessControl::get_role(e, &new_admin)),
        Some(Role::Admin)
    );
}

#[test]
fn non_admin_cannot_register_admin() {
    let (env, id, admin, _, student, _) = setup();

    env.mock_all_auths();

    call(&env, &id, |e| AccessControl::initialize_admin(e, &admin).unwrap());
    call(&env, &id, |e| AccessControl::register_student(e, &student).unwrap());

    assert_eq!(
        call(&env, &id, |e| AccessControl::register_admin(e, &student, &student)),
        Err(AccessError::AdminRequired)
    );
}

#[test]
fn admin_can_authorize_instructor() {
    let (env, id, admin, instructor, _, _) = setup();

    env.mock_all_auths();

    call(&env, &id, |e| AccessControl::initialize_admin(e, &admin).unwrap());
    call(&env, &id, |e| AccessControl::authorize_instructor(e, &admin, &instructor).unwrap());

    assert_eq!(
        call(&env, &id, |e| AccessControl::get_role(e, &instructor)),
        Some(Role::Instructor)
    );
}

#[test]
fn non_admin_cannot_authorize_instructor() {
    let (env, id, admin, instructor, student, _) = setup();

    env.mock_all_auths();

    call(&env, &id, |e| AccessControl::initialize_admin(e, &admin).unwrap());
    call(&env, &id, |e| AccessControl::register_student(e, &student).unwrap());

    assert_eq!(
        call(&env, &id, |e| AccessControl::authorize_instructor(e, &student, &instructor)),
        Err(AccessError::AdminRequired)
    );
}

#[test]
fn student_can_register() {
    let (env, id, _, _, student, _) = setup();

    env.mock_all_auths();

    call(&env, &id, |e| AccessControl::register_student(e, &student).unwrap());

    assert_eq!(
        call(&env, &id, |e| AccessControl::get_role(e, &student)),
        Some(Role::Student)
    );
}

#[test]
fn unknown_user_has_no_role() {
    let (env, id, _, _, _, outsider) = setup();

    assert_eq!(call(&env, &id, |e| AccessControl::get_role(e, &outsider)), None);
}

#[test]
fn admin_authorization_succeeds_for_admin() {
    let (env, id, admin, _, _, _) = setup();

    env.mock_all_auths();

    call(&env, &id, |e| AccessControl::initialize_admin(e, &admin).unwrap());

    assert_eq!(call(&env, &id, |e| AccessControl::require_admin(e, &admin)), Ok(()));
}

#[test]
fn admin_authorization_rejects_student() {
    let (env, id, _, _, student, _) = setup();

    env.mock_all_auths();

    call(&env, &id, |e| AccessControl::register_student(e, &student).unwrap());

    assert_eq!(
        call(&env, &id, |e| AccessControl::require_admin(e, &student)),
        Err(AccessError::AdminRequired)
    );
}

#[test]
fn instructor_authorization_succeeds_for_instructor() {
    let (env, id, admin, instructor, _, _) = setup();

    env.mock_all_auths();

    call(&env, &id, |e| AccessControl::initialize_admin(e, &admin).unwrap());
    call(&env, &id, |e| AccessControl::authorize_instructor(e, &admin, &instructor).unwrap());

    assert_eq!(
        call(&env, &id, |e| AccessControl::require_instructor(e, &instructor)),
        Ok(())
    );
}

#[test]
fn instructor_authorization_rejects_student() {
    let (env, id, _, _, student, _) = setup();

    env.mock_all_auths();

    call(&env, &id, |e| AccessControl::register_student(e, &student).unwrap());

    assert_eq!(
        call(&env, &id, |e| AccessControl::require_instructor(e, &student)),
        Err(AccessError::InstructorRequired)
    );
}

#[test]
fn staff_authorization_accepts_admin() {
    let (env, id, admin, _, _, _) = setup();

    env.mock_all_auths();

    call(&env, &id, |e| AccessControl::initialize_admin(e, &admin).unwrap());

    assert_eq!(call(&env, &id, |e| AccessControl::require_staff(e, &admin)), Ok(()));
}

#[test]
fn staff_authorization_accepts_instructor() {
    let (env, id, admin, instructor, _, _) = setup();

    env.mock_all_auths();

    call(&env, &id, |e| AccessControl::initialize_admin(e, &admin).unwrap());
    call(&env, &id, |e| AccessControl::authorize_instructor(e, &admin, &instructor).unwrap());

    assert_eq!(
        call(&env, &id, |e| AccessControl::require_staff(e, &instructor)),
        Ok(())
    );
}

#[test]
fn staff_authorization_rejects_student() {
    let (env, id, _, _, student, _) = setup();

    env.mock_all_auths();

    call(&env, &id, |e| AccessControl::register_student(e, &student).unwrap());

    assert_eq!(
        call(&env, &id, |e| AccessControl::require_staff(e, &student)),
        Err(AccessError::Unauthorized)
    );
}

#[test]
fn registered_authorization_rejects_unknown_user() {
    let (env, id, _, _, _, outsider) = setup();

    env.mock_all_auths();

    assert_eq!(
        call(&env, &id, |e| AccessControl::require_registered(e, &outsider)),
        Err(AccessError::UserNotRegistered)
    );
}

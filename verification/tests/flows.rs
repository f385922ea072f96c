use house_hub::api::controller::signup::{after_signup_step, SignupNext, SignupRefusal, SignupStep};
use house_hub::api::login::{after_login_step, LoginNext, LoginRefusal, LoginStep};
use house_hub::api::my::device::service_message;
use house_hub::api::my::house::{house_removal, HouseRemoval};
use serde_json::Value;

fn run_login(results: &[bool]) -> Option<LoginNext> {
    let mut step = LoginStep::Connect;
    for &passed in results {
        match after_login_step(step, passed) {
            LoginNext::Then(s) => step = s,
            answer => return Some(answer),
        }
    }
    None
}

fn run_signup(results: &[bool]) -> Option<SignupNext> {
    let mut step = SignupStep::Connect;
    for &passed in results {
        match after_signup_step(step, passed) {
            SignupNext::Then(s) => step = s,
            answer => return Some(answer),
        }
    }
    None
}

#[test]
fn login_steps_follow_each_other() {
    assert_eq!(after_login_step(LoginStep::Connect, true), LoginNext::Then(LoginStep::FindAccount));
    assert_eq!(after_login_step(LoginStep::FindAccount, true), LoginNext::Then(LoginStep::CheckPassword));
    assert_eq!(after_login_step(LoginStep::CheckPassword, true), LoginNext::Then(LoginStep::RecordLogin));
    assert_eq!(after_login_step(LoginStep::RecordLogin, true), LoginNext::IssueToken);
}

#[test]
fn login_refusals() {
    assert_eq!(run_login(&[false]), Some(LoginNext::Refuse(LoginRefusal::DatabaseError)));
    assert_eq!(run_login(&[true, false]), Some(LoginNext::Refuse(LoginRefusal::NoSuchUser)));
    assert_eq!(run_login(&[true, true, false]), Some(LoginNext::Refuse(LoginRefusal::PasswordError)));
    assert_eq!(run_login(&[true, true, true, false]), Some(LoginNext::Refuse(LoginRefusal::LastLoginNotRecorded)));
    assert_eq!(run_login(&[true, true, true, true]), Some(LoginNext::IssueToken));
    assert_eq!(run_login(&[true, true]), None);
}

#[test]
fn login_refusal_answers() {
    assert_eq!(LoginRefusal::DatabaseError.status(), 500);
    assert_eq!(LoginRefusal::DatabaseError.message(), "database error");
    assert_eq!(LoginRefusal::NoSuchUser.status(), 401);
    assert_eq!(LoginRefusal::NoSuchUser.message(), "no such user");
    assert_eq!(LoginRefusal::PasswordError.status(), 401);
    assert_eq!(LoginRefusal::PasswordError.message(), "password error");
    assert_eq!(LoginRefusal::LastLoginNotRecorded.status(), 500);
    assert_eq!(LoginRefusal::LastLoginNotRecorded.message(), "database error when update user's last_login");
}

#[test]
fn a_wrong_password_gets_no_token() {
    for results in [[true, true, false, true], [true, true, false, false]] {
        assert_eq!(run_login(&results), Some(LoginNext::Refuse(LoginRefusal::PasswordError)));
    }
}

#[test]
fn signup_steps_and_refusals() {
    assert_eq!(run_signup(&[false]), Some(SignupNext::Refuse(SignupRefusal::DatabaseError)));
    assert_eq!(run_signup(&[true, false, true]), Some(SignupNext::Refuse(SignupRefusal::AlreadyExists)));
    assert_eq!(run_signup(&[true, true, false]), Some(SignupNext::Refuse(SignupRefusal::InsertFailed)));
    assert_eq!(run_signup(&[true, true, true]), Some(SignupNext::Created));
    assert_eq!(run_signup(&[true]), None);
    assert_eq!(SignupRefusal::DatabaseError.status(), 500);
    assert_eq!(SignupRefusal::DatabaseError.message(), "database error");
    assert_eq!(SignupRefusal::AlreadyExists.status(), 400);
    assert_eq!(SignupRefusal::AlreadyExists.message(), "user already exist");
    assert_eq!(SignupRefusal::InsertFailed.status(), 500);
    assert_eq!(SignupRefusal::InsertFailed.message(), "sql execute error");
}

#[test]
fn service_requests_carry_the_json_body() {
    let m = service_message("toggle".to_string(), br#"{"on": true, "level": 3}"#);
    assert_eq!(m.service_name(), "toggle");
    let expected: Value = serde_json::from_str(r#"{"on":true,"level":3}"#).unwrap();
    assert_eq!(m.payload(), &Some(expected));
    let n = service_message("status".to_string(), b"42");
    assert_eq!(n.payload(), &Some(Value::from(42)));
}

#[test]
fn service_requests_without_json_body_carry_nothing() {
    assert!(service_message("toggle".to_string(), b"").payload().is_none());
    assert!(service_message("toggle".to_string(), b"on please").payload().is_none());
    assert!(service_message("toggle".to_string(), b"{\"on\": true} trailing").payload().is_none());
}

#[test]
fn account_route_login_messages() {
    assert_eq!(LoginRefusal::NoSuchUser.account_route_message().as_deref(), Some("No such Account"));
    assert_eq!(LoginRefusal::PasswordError.account_route_message().as_deref(), Some("Wrong password"));
    assert!(LoginRefusal::DatabaseError.account_route_message().is_none());
    assert!(LoginRefusal::LastLoginNotRecorded.account_route_message().is_none());
}

#[test]
fn only_the_creator_deletes_a_house() {
    assert_eq!(house_removal(true), HouseRemoval::DeleteHouse);
    assert_eq!(house_removal(false), HouseRemoval::LeaveHouse);
}

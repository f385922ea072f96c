//! The decisions of a login, between the steps that need the database and
//! the password hash: which step comes next, and how a login is answered.
use vstd::prelude::*;

verus! {

/// The credentials of a login request.
pub struct LoginRequest {
    pub username: String,
    pub password: String,
}

/// The steps of a login that need the outside, in the order they run: get a
/// database connection, look up the account's password hash by name, check
/// the password against that hash, record the time of the login.
#[derive(PartialEq, Eq, Structural, Debug, Clone, Copy)]
pub enum LoginStep {
    Connect,
    FindAccount,
    CheckPassword,
    RecordLogin,
}

/// Why a login is refused.
#[derive(PartialEq, Eq, Structural, Debug, Clone, Copy)]
pub enum LoginRefusal {
    /// No database connection could be had.
    DatabaseError,
    /// No account has the name.
    NoSuchUser,
    /// The password does not match the account's hash.
    PasswordError,
    /// The time of the login could not be recorded.
    LastLoginNotRecorded,
}

/// What follows a step of a login: another step, a refusal, or the token
/// that answers a successful login.
#[derive(PartialEq, Eq, Structural, Debug, Clone, Copy)]
pub enum LoginNext {
    Then(LoginStep),
    Refuse(LoginRefusal),
    IssueToken,
}

/// What follows `step`, given whether it passed: each step that passes leads
/// to the next, and the token follows the record of the login; a step that
/// fails ends the login with its refusal.
pub open spec fn login_next(step: LoginStep, passed: bool) -> LoginNext {
    match step {
        LoginStep::Connect => if passed {
            LoginNext::Then(LoginStep::FindAccount)
        } else {
            LoginNext::Refuse(LoginRefusal::DatabaseError)
        },
        LoginStep::FindAccount => if passed {
            LoginNext::Then(LoginStep::CheckPassword)
        } else {
            LoginNext::Refuse(LoginRefusal::NoSuchUser)
        },
        LoginStep::CheckPassword => if passed {
            LoginNext::Then(LoginStep::RecordLogin)
        } else {
            LoginNext::Refuse(LoginRefusal::PasswordError)
        },
        LoginStep::RecordLogin => if passed {
            LoginNext::IssueToken
        } else {
            LoginNext::Refuse(LoginRefusal::LastLoginNotRecorded)
        },
    }
}

/// How a login ends when its steps, from `step` on, report `results` in
/// turn; `None` while the results run out before an answer.
pub open spec fn run_login(step: LoginStep, results: Seq<bool>) -> Option<LoginNext>
    decreases results.len(),
{
    if results.len() == 0 {
        None
    } else {
        match login_next(step, results[0]) {
            LoginNext::Then(s) => run_login(s, results.drop_first()),
            answer => Some(answer),
        }
    }
}

/// Decides what follows `step` of a login, given whether it passed.
pub fn after_login_step(step: LoginStep, passed: bool) -> (next: LoginNext)
    ensures
        next == login_next(step, passed),
{
    match step {
        LoginStep::Connect => if passed {
            LoginNext::Then(LoginStep::FindAccount)
        } else {
            LoginNext::Refuse(LoginRefusal::DatabaseError)
        },
        LoginStep::FindAccount => if passed {
            LoginNext::Then(LoginStep::CheckPassword)
        } else {
            LoginNext::Refuse(LoginRefusal::NoSuchUser)
        },
        LoginStep::CheckPassword => if passed {
            LoginNext::Then(LoginStep::RecordLogin)
        } else {
            LoginNext::Refuse(LoginRefusal::PasswordError)
        },
        LoginStep::RecordLogin => if passed {
            LoginNext::IssueToken
        } else {
            LoginNext::Refuse(LoginRefusal::LastLoginNotRecorded)
        },
    }
}

impl LoginRefusal {
    /// The HTTP status of the refusal: 500 when the database failed, 401 when
    /// the credentials are wrong.
    pub fn status(&self) -> (s: u16)
        ensures
            s == (match *self {
                LoginRefusal::NoSuchUser | LoginRefusal::PasswordError => 401u16,
                _ => 500u16,
            }),
    {
        match self {
            LoginRefusal::NoSuchUser | LoginRefusal::PasswordError => 401,
            _ => 500,
        }
    }

    /// The message that goes with the refusal.
    pub fn message(&self) -> (m: String)
        ensures
            m@ == (match *self {
                LoginRefusal::DatabaseError => "database error"@,
                LoginRefusal::NoSuchUser => "no such user"@,
                LoginRefusal::PasswordError => "password error"@,
                LoginRefusal::LastLoginNotRecorded => "database error when update user's last_login"@,
            }),
    {
        match self {
            LoginRefusal::DatabaseError => "database error".to_string(),
            LoginRefusal::NoSuchUser => "no such user".to_string(),
            LoginRefusal::PasswordError => "password error".to_string(),
            LoginRefusal::LastLoginNotRecorded => "database error when update user's last_login".to_string(),
        }
    }

    /// The message that goes with the refusal on the account route's login,
    /// which answers database failures with no message.
    pub fn account_route_message(&self) -> (m: Option<String>)
        ensures
            match *self {
                LoginRefusal::NoSuchUser => m matches Some(t) && t@ == "No such Account"@,
                LoginRefusal::PasswordError => m matches Some(t) && t@ == "Wrong password"@,
                _ => m is None,
            },
    {
        match self {
            LoginRefusal::NoSuchUser => Some("No such Account".to_string()),
            LoginRefusal::PasswordError => Some("Wrong password".to_string()),
            _ => None,
        }
    }
}

/// A login, started at `Connect`, ends with a token exactly when all four
/// steps pass; when the account is found but the password does not match,
/// it is refused with a password error.
pub proof fn law_token_only_for_matching_password(results: Seq<bool>)
    ensures
        run_login(LoginStep::Connect, results) == Some(LoginNext::IssueToken) <==> (results.len() >= 4
            && results[0] && results[1] && results[2] && results[3]),
        results.len() >= 3 && results[0] && results[1] && !results[2] ==>
            run_login(LoginStep::Connect, results) == Some(LoginNext::Refuse(LoginRefusal::PasswordError)),
{
    reveal_with_fuel(run_login, 5);
    if results.len() >= 1 {
        let r1 = results.drop_first();
        if r1.len() >= 1 {
            let r2 = r1.drop_first();
            if r2.len() >= 1 {
                let r3 = r2.drop_first();
                assert(r1[0] == results[1]);
                assert(r2[0] == results[2]);
                if r3.len() >= 1 {
                    assert(r3[0] == results[3]);
                }
            }
        }
    }
}

} // verus!

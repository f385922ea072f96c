//! The decisions of a sign-up, between the steps that need the database.
use vstd::prelude::*;

verus! {

/// The steps of a sign-up that need the database, in the order they run:
/// get a connection, look for an account of the same name, insert the new
/// account.
#[derive(PartialEq, Eq, Structural, Debug, Clone, Copy)]
pub enum SignupStep {
    Connect,
    FindExisting,
    Insert,
}

/// Why a sign-up is refused.
#[derive(PartialEq, Eq, Structural, Debug, Clone, Copy)]
pub enum SignupRefusal {
    /// No database connection could be had.
    DatabaseError,
    /// An account already has the name.
    AlreadyExists,
    /// The new account could not be inserted.
    InsertFailed,
}

/// What follows a step of a sign-up: another step, a refusal, or the answer
/// that the account was created.
#[derive(PartialEq, Eq, Structural, Debug, Clone, Copy)]
pub enum SignupNext {
    Then(SignupStep),
    Refuse(SignupRefusal),
    Created,
}

/// What follows `step`, given whether it passed (for `FindExisting`: whether
/// the name is free): each step that passes leads to the next, and the
/// insertion to the answer; a step that fails ends the sign-up with its
/// refusal.
pub open spec fn signup_next(step: SignupStep, passed: bool) -> SignupNext {
    match step {
        SignupStep::Connect => if passed {
            SignupNext::Then(SignupStep::FindExisting)
        } else {
            SignupNext::Refuse(SignupRefusal::DatabaseError)
        },
        SignupStep::FindExisting => if passed {
            SignupNext::Then(SignupStep::Insert)
        } else {
            SignupNext::Refuse(SignupRefusal::AlreadyExists)
        },
        SignupStep::Insert => if passed {
            SignupNext::Created
        } else {
            SignupNext::Refuse(SignupRefusal::InsertFailed)
        },
    }
}

/// How a sign-up ends when its steps, from `step` on, report `results` in
/// turn; `None` while the results run out before an answer.
pub open spec fn run_signup(step: SignupStep, results: Seq<bool>) -> Option<SignupNext>
    decreases results.len(),
{
    if results.len() == 0 {
        None
    } else {
        match signup_next(step, results[0]) {
            SignupNext::Then(s) => run_signup(s, results.drop_first()),
            answer => Some(answer),
        }
    }
}

/// Decides what follows `step` of a sign-up, given whether it passed.
pub fn after_signup_step(step: SignupStep, passed: bool) -> (next: SignupNext)
    ensures
        next == signup_next(step, passed),
{
    match step {
        SignupStep::Connect => if passed {
            SignupNext::Then(SignupStep::FindExisting)
        } else {
            SignupNext::Refuse(SignupRefusal::DatabaseError)
        },
        SignupStep::FindExisting => if passed {
            SignupNext::Then(SignupStep::Insert)
        } else {
            SignupNext::Refuse(SignupRefusal::AlreadyExists)
        },
        SignupStep::Insert => if passed {
            SignupNext::Created
        } else {
            SignupNext::Refuse(SignupRefusal::InsertFailed)
        },
    }
}

impl SignupRefusal {
    /// The HTTP status of the refusal: 400 for a name already taken, 500 when
    /// the database failed.
    pub fn status(&self) -> (s: u16)
        ensures
            s == (match *self {
                SignupRefusal::AlreadyExists => 400u16,
                _ => 500u16,
            }),
    {
        match self {
            SignupRefusal::AlreadyExists => 400,
            _ => 500,
        }
    }

    /// The message that goes with the refusal.
    pub fn message(&self) -> (m: String)
        ensures
            m@ == (match *self {
                SignupRefusal::DatabaseError => "database error"@,
                SignupRefusal::AlreadyExists => "user already exist"@,
                SignupRefusal::InsertFailed => "sql execute error"@,
            }),
    {
        match self {
            SignupRefusal::DatabaseError => "database error".to_string(),
            SignupRefusal::AlreadyExists => "user already exist".to_string(),
            SignupRefusal::InsertFailed => "sql execute error".to_string(),
        }
    }
}

/// A sign-up, started at `Connect`, creates the account exactly when all
/// three steps pass; a name already taken is refused before anything is
/// inserted.
pub proof fn law_taken_names_are_refused(results: Seq<bool>)
    ensures
        run_signup(SignupStep::Connect, results) == Some(SignupNext::Created) <==> (results.len() >= 3
            && results[0] && results[1] && results[2]),
        results.len() >= 2 && results[0] && !results[1] ==>
            run_signup(SignupStep::Connect, results) == Some(SignupNext::Refuse(SignupRefusal::AlreadyExists)),
{
    reveal_with_fuel(run_signup, 4);
    if results.len() >= 1 {
        let r1 = results.drop_first();
        if r1.len() >= 1 {
            assert(r1[0] == results[1]);
            let r2 = r1.drop_first();
            if r2.len() >= 1 {
                assert(r2[0] == results[2]);
            }
        }
    }
}

} // verus!

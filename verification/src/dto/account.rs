//! Accounts as the in-memory store keeps them.
use vstd::prelude::*;

verus! {

/// The name of an account; the key of the in-memory stores.
#[derive(Debug)]
pub struct Username(pub String);

impl Clone for Username {
    fn clone(&self) -> (r: Self)
        ensures
            r == *self,
    {
        Username(self.0.clone())
    }
}

/// An account of the in-memory store.
#[derive(Debug)]
pub struct Account {
    pub username: Username,
    pub password_hash: String,
}

impl Clone for Account {
    fn clone(&self) -> (r: Self)
        ensures
            r == *self,
    {
        Account { username: self.username.clone(), password_hash: self.password_hash.clone() }
    }
}

/// What a client asks to do with an account.
#[derive(Debug, Clone, Copy, PartialEq, Eq, Structural)]
pub enum AccountAction {
    Create,
    Update,
    Delete,
}

/// A request on the in-memory account store.
#[derive(Debug)]
pub struct AccountQuery {
    pub account: Account,
    pub action: AccountAction,
}

/// The credentials of a sign-up request.
#[derive(Debug)]
pub struct SignupAccount {
    username: String,
    password: String,
}

impl SignupAccount {
    /// Holds the given name and password as they are.
    pub fn new(username: String, password: String) -> (r: Self)
        ensures
            r.spec_username() == username@,
            r.spec_password() == password@,
    {
        SignupAccount { username, password }
    }

    /// The name that was signed up with.
    pub closed spec fn spec_username(&self) -> Seq<char> {
        self.username@
    }

    /// The password that was signed up with.
    pub closed spec fn spec_password(&self) -> Seq<char> {
        self.password@
    }

    /// The name that was signed up with.
    pub fn username(&self) -> (r: &str)
        ensures
            r@ == self.spec_username(),
    {
        self.username.as_str()
    }

    /// The password that was signed up with.
    pub fn password(&self) -> (r: &str)
        ensures
            r@ == self.spec_password(),
    {
        self.password.as_str()
    }
}

} // verus!

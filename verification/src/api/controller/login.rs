use vstd::prelude::*;

verus! {

/// The credentials of a login request.
pub struct LoginRequest {
    pub username: String,
    pub password: String,
}

} // verus!

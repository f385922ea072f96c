use vstd::prelude::*;

verus! {

/// The personal information of an account, as the user-info endpoints take and give it.
pub struct UserInfo {
    pub real_name: Option<String>,
    pub gender: Option<String>,
    pub location: Option<String>,
    pub age: Option<i32>,
    pub identity: Option<String>,
    pub email: Option<String>,
}

} // verus!

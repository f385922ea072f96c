//! The bodies of API requests.
use vstd::prelude::*;

verus! {

/// The new name of a house.
pub struct HouseUpdate {
    pub house_name: String,
}

/// The new name of an area.
pub struct AreaUpdate {
    pub area_name: String,
}

/// The fields of a device to change; a missing field is left as it is.
pub struct DeviceUpdate {
    pub device_name: Option<String>,
    pub area_id: Option<i32>,
}

/// A change of account name or password, confirmed by the current password.
pub struct AccountUpdate {
    pub account_name: Option<String>,
    pub old_password: String,
    pub new_password: Option<String>,
}

/// A new area, named, in the given house.
pub struct AreaAdd {
    pub area_name: String,
    pub house_id: i32,
}

/// A new house, by its name.
pub struct HouseAdd {
    pub house_name: String,
}

/// The personal information to change; a missing field keeps its stored value.
#[derive(Debug)]
pub struct UserInfoUpdate {
    pub age: Option<i32>,
    pub gender: Option<String>,
    pub email: Option<String>,
    pub name: Option<String>,
    pub city: Option<String>,
}

/// The credentials of a login.
pub struct Login {
    pub username: String,
    pub password: String,
}

/// The credentials of a new account.
pub struct Signup {
    pub username: String,
    pub password: String,
}

/// The account to remove from a house's members.
pub struct MemberDelete {
    pub account_id: i32,
    pub house_id: i32,
}

/// The account to add to a house's members.
pub struct MemberAdd {
    pub account_id: i32,
    pub house_id: i32,
}

} // verus!

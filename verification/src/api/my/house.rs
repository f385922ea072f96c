//! What the house handlers decide between their database steps.
use vstd::prelude::*;

verus! {

/// What a request to delete a house does for the account that sends it.
#[derive(PartialEq, Eq, Structural, Debug, Clone, Copy)]
pub enum HouseRemoval {
    /// The account created the house: the house itself is deleted.
    DeleteHouse,
    /// The account is only a member: it leaves the house, which stays.
    LeaveHouse,
}

/// Decides what a request to delete a house does, given whether the account
/// that sends it created the house.
pub fn house_removal(created_by_caller: bool) -> (r: HouseRemoval)
    ensures
        r == (if created_by_caller { HouseRemoval::DeleteHouse } else { HouseRemoval::LeaveHouse }),
{
    if created_by_caller {
        HouseRemoval::DeleteHouse
    } else {
        HouseRemoval::LeaveHouse
    }
}

} // verus!

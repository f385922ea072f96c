use vstd::prelude::*;

verus! {

/// A request to add a house.
pub struct AddHouse {
    pub house_name: String,
}

} // verus!

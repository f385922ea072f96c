use vstd::prelude::*;

verus! {

/// A request to add an area to a house.
pub struct AddArea {
    pub area_name: String,
    pub house_id: i32,
}

} // verus!

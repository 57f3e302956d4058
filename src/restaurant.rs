use vstd::prelude::*;

verus! {

/// Puts a guest on the front-of-house waiting list; the list is not kept.
pub fn add_to_waitlist() {
}

/// Goes through the front of house: adds a guest to the waiting list twice.
pub fn eat_at_restaurant() {
    add_to_waitlist();
    add_to_waitlist();
}

} // verus!

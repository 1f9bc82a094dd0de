//! Making potato items.
use vstd::prelude::*;
use super::Item;
use crate::ids::{Uuid, is_random_v4, drawn_v4};

verus! {

/// A fresh potato, with a random version 4 UUID as its id.
pub fn new() -> (r: Item)
    ensures
        r matches Item::Potato { id } && is_random_v4(id.value) && drawn_v4(id.value),
{
    Item::Potato { id: Uuid::new_v4() }
}

} // verus!

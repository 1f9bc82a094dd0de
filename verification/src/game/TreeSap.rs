//! Making treesap items.
use vstd::prelude::*;
use super::Item;
use crate::ids::{Uuid, is_random_v4, drawn_v4};

verus! {

/// A fresh tree sap, with a random version 4 UUID as its id.
pub fn new() -> (r: Item)
    ensures
        r matches Item::TreeSap { id } && is_random_v4(id.value) && drawn_v4(id.value),
{
    Item::TreeSap { id: Uuid::new_v4() }
}

} // verus!

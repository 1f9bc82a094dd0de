//! Making players that are not known by name.
use vstd::prelude::*;
use super::{Inventory, Item, Player, PlayerState, Potato};

verus! {

/// A new anonymous player, who holds one fresh potato.
pub fn new() -> (r: Player)
    ensures
        r is AnonymousPlayer,
        r.spec_state().inventory@.len() == 1,
        forall|item: Item| #[trigger] r.spec_state().inventory@.contains(item)
            ==> item.fresh_of_kind(0),
{
    let mut new_player_inventory = Inventory::new();
    let potato = Potato::new();
    new_player_inventory.insert(potato);
    assert(new_player_inventory@ =~= set![potato]);
    Player::AnonymousPlayer { state: PlayerState { inventory: new_player_inventory } }
}

} // verus!

//! Making players that are known by id and name.
use vstd::prelude::*;
use super::{Inventory, Item, Player, PlayerState, Potato};

verus! {

/// A new registered player with the given id and name, who holds one fresh potato.
pub fn new(id: i32, name: String) -> (r: Player)
    ensures
        r matches Player::RegisteredPlayer { id: rid, name: rname, .. } && rid == id && rname
            == name,
        r.spec_state().inventory@.len() == 1,
        forall|item: Item| #[trigger] r.spec_state().inventory@.contains(item)
            ==> item.fresh_of_kind(0),
{
    let mut new_player_inventory = Inventory::new();
    let potato = Potato::new();
    new_player_inventory.insert(potato);
    assert(new_player_inventory@ =~= set![potato]);
    Player::RegisteredPlayer {
        id: id,
        name: name,
        state: PlayerState { inventory: new_player_inventory },
    }
}

} // verus!

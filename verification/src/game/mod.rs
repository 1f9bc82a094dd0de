//! The game's state: items, actions, and the players that hold items.
use vstd::prelude::*;
use crate::ParseFrom;
use crate::ids::{Uuid, is_random_v4, drawn_v4};
use crate::text::{i32_chars, i32_text, concat_str};

#[allow(non_snake_case)]
pub mod Potato;
#[allow(non_snake_case)]
pub mod Berry;
#[allow(non_snake_case)]
pub mod TreeSap;
#[allow(non_snake_case)]
pub mod AnonymousPlayer;
#[allow(non_snake_case)]
pub mod RegisteredPlayer;

verus! {

/// An item a player can hold; each one has an id of its own.
#[derive(Clone, Copy, PartialEq, Eq, Structural, Debug, Hash)]
pub enum Item {
    Potato { id: Uuid },
    Berry { id: Uuid },
    TreeSap { id: Uuid },
}

impl Item {
    /// The number by which messages name the kind of an item.
    pub open spec fn code(self) -> int {
        match self {
            Item::Potato { .. } => 0,
            Item::Berry { .. } => 1,
            Item::TreeSap { .. } => 2,
        }
    }

    /// The item's id.
    pub open spec fn id(self) -> Uuid {
        match self {
            Item::Potato { id } => id,
            Item::Berry { id } => id,
            Item::TreeSap { id } => id,
        }
    }

    /// The item is a fresh one of the kind `code` names: its id is a random
    /// version 4 UUID, drawn for it by `Uuid::new_v4`.
    pub open spec fn fresh_of_kind(self, code: int) -> bool {
        &&& self.code() == code
        &&& is_random_v4(self.id().value)
        &&& drawn_v4(self.id().value)
    }
}

/// The message of `Item::parse` for a number that names no item.
pub open spec fn unrecognized_item_message(i: i32) -> Seq<char> {
    "Item.parse<i32> failure: unrecognized Item "@ + i32_text(i)
}

impl ParseFrom<i32> for Item {
    /// A fresh item of the kind that `i` names: 0 a potato, 1 a berry, 2 tree sap.
    fn parse(i: i32) -> (r: Result<Self, String>)
        ensures
            r is Ok <==> 0 <= i <= 2,
            r matches Ok(item) ==> item.fresh_of_kind(i as int),
            r matches Err(e) ==> e@ == unrecognized_item_message(i),
    {
        match i {
            0 => Ok(Potato::new()),
            1 => Ok(Berry::new()),
            2 => Ok(TreeSap::new()),
            _ => {
                let digits = i32_chars(i);
                Err(concat_str("Item.parse<i32> failure: unrecognized Item ", digits.as_slice()))
            },
        }
    }
}

/// Something a player asks the game to do.
#[allow(non_camel_case_types)]
#[derive(Clone, Copy, PartialEq, Eq, Structural, Debug)]
pub enum Action {
    addItemToInventory(Item),
}

/// A set of items: no item occurs twice.
#[derive(Debug)]
pub struct Inventory {
    items: Vec<Item>,
}

impl Inventory {
    #[verifier::type_invariant]
    spec fn wf(self) -> bool {
        self.items@.no_duplicates()
    }

    /// The items, as a set.
    pub closed spec fn spec_items(self) -> Set<Item> {
        self.items@.to_set()
    }

    /// An empty inventory.
    pub fn new() -> (r: Inventory)
        ensures
            r@ == Set::<Item>::empty(),
    {
        let r = Inventory { items: Vec::new() };
        assert(r.items@.to_set() =~= Set::<Item>::empty());
        r
    }

    /// Whether `item` is held.
    pub fn contains(&self, item: &Item) -> (r: bool)
        ensures
            r == self@.contains(*item),
    {
        let mut i: usize = 0;
        while i < self.items.len()
            invariant
                i <= self.items@.len(),
                forall|j: int| 0 <= j < i ==> self.items@[j] != *item,
            decreases self.items@.len() - i,
        {
            if self.items[i] == *item {
                assert(self.items@.contains(*item));
                return true;
            }
            i += 1;
        }
        assert(!self.items@.contains(*item));
        false
    }

    /// Adds `item` (`HashSet::insert`): returns whether it was not held before.
    pub fn insert(&mut self, item: Item) -> (r: bool)
        ensures
            final(self)@ == old(self)@.insert(item),
            r == !old(self)@.contains(item),
    {
        proof {
            use_type_invariant(&*self);
        }
        if self.contains(&item) {
            assert(self@.insert(item) =~= self@);
            false
        } else {
            let ghost before = self.items@;
            let mut items = self.items.clone();
            assert(items@ =~= before);
            items.push(item);
            proof {
                assert(items@.no_duplicates()) by {
                    assert(!before.contains(item));
                }
            }
            self.items = items;
            assert(self.items@.to_set() =~= before.to_set().insert(item)) by {
                assert(forall|x: Item| #[trigger] self.items@.contains(x) <==> (before.contains(x) || x == item)) by {
                    assert forall|x: Item| before.contains(x) implies #[trigger] self.items@.contains(x) by {
                        let j = choose|j: int| 0 <= j < before.len() && before[j] == x;
                        assert(self.items@[j] == x);
                    }
                    assert(self.items@[before.len() as int] == item);
                }
            }
            true
        }
    }

    /// The number of items held.
    pub fn len(&self) -> (r: usize)
        ensures
            r == self@.len(),
    {
        proof {
            use_type_invariant(self);
            self.items@.unique_seq_to_set();
        }
        self.items.len()
    }

    /// The items held, each once.
    pub fn to_vec(&self) -> (r: Vec<Item>)
        ensures
            r@.to_set() == self@,
            r@.no_duplicates(),
    {
        proof {
            use_type_invariant(self);
        }
        self.items.clone()
    }
}

impl View for Inventory {
    type V = Set<Item>;

    open spec fn view(&self) -> Set<Item> {
        self.spec_items()
    }
}

impl Clone for Inventory {
    fn clone(&self) -> (r: Self)
        ensures
            r@ == self@,
    {
        proof {
            use_type_invariant(self);
        }
        let items = self.items.clone();
        assert(items@ =~= self.items@);
        Inventory { items }
    }
}

/// What a player has.
#[derive(Debug)]
pub struct PlayerState {
    pub inventory: Inventory,
}

impl Clone for PlayerState {
    fn clone(&self) -> (r: Self)
        ensures
            r.inventory@ == self.inventory@,
    {
        PlayerState { inventory: self.inventory.clone() }
    }
}

/// A player, known by name or not.
#[derive(Debug, Clone)]
pub enum Player {
    AnonymousPlayer { state: PlayerState },
    RegisteredPlayer { id: i32, name: String, state: PlayerState },
}

impl Player {
    /// The player's state.
    pub open spec fn spec_state(self) -> PlayerState {
        match self {
            Player::AnonymousPlayer { state } => state,
            Player::RegisteredPlayer { state, .. } => state,
        }
    }

    /// The player with `state` in place of its state.
    pub open spec fn with_state(self, state: PlayerState) -> Player {
        match self {
            Player::AnonymousPlayer { .. } => Player::AnonymousPlayer { state },
            Player::RegisteredPlayer { id, name, .. } => Player::RegisteredPlayer { id, name, state },
        }
    }

    /// The player's state, to read or change.
    pub fn state(&mut self) -> (r: &mut PlayerState)
        ensures
            *r == old(self).spec_state(),
            *final(self) == old(self).with_state(*final(r)),
    {
        match self {
            Player::AnonymousPlayer { state } => state,
            Player::RegisteredPlayer { state, .. } => state,
        }
    }
}

} // verus!

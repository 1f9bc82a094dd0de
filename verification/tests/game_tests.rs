use rusted_wheel::game::{AnonymousPlayer, Berry, Inventory, Item, Player, Potato, RegisteredPlayer, TreeSap};
use rusted_wheel::ParseFrom;

#[test]
fn item_parse_gives_the_kind_of_each_code() {
    assert!(matches!(Item::parse(0), Ok(Item::Potato { .. })));
    assert!(matches!(Item::parse(1), Ok(Item::Berry { .. })));
    assert!(matches!(Item::parse(2), Ok(Item::TreeSap { .. })));
}

#[test]
fn item_parse_refuses_other_codes() {
    match Item::parse(3) {
        Err(e) => assert_eq!(e, "Item.parse<i32> failure: unrecognized Item 3"),
        Ok(_) => panic!("code 3 names no item"),
    }
    match Item::parse(-17) {
        Err(e) => assert_eq!(e, "Item.parse<i32> failure: unrecognized Item -17"),
        Ok(_) => panic!("code -17 names no item"),
    }
    match Item::parse(i32::MIN) {
        Err(e) => assert_eq!(e, "Item.parse<i32> failure: unrecognized Item -2147483648"),
        Ok(_) => panic!("no item"),
    }
    match Item::parse(2147483647) {
        Err(e) => assert_eq!(e, "Item.parse<i32> failure: unrecognized Item 2147483647"),
        Ok(_) => panic!("no item"),
    }
}

#[test]
fn fresh_items_have_distinct_ids() {
    let a = Potato::new();
    let b = Potato::new();
    assert!(matches!(a, Item::Potato { .. }));
    assert!(a != b);
    assert!(matches!(Berry::new(), Item::Berry { .. }));
    assert!(matches!(TreeSap::new(), Item::TreeSap { .. }));
}

#[test]
fn inventory_holds_each_item_once() {
    let mut inv = Inventory::new();
    let p = Potato::new();
    let b = Berry::new();
    assert!(inv.insert(p));
    assert!(!inv.insert(p));
    assert_eq!(inv.len(), 1);
    assert!(inv.insert(b));
    assert_eq!(inv.len(), 2);
    assert!(inv.contains(&p));
    assert!(inv.contains(&b));
    assert!(!inv.contains(&TreeSap::new()));
    assert_eq!(inv.to_vec(), vec![p, b]);
}

#[test]
fn new_players_hold_one_potato() {
    let mut anon = AnonymousPlayer::new();
    assert!(matches!(anon, Player::AnonymousPlayer { .. }));
    let items = anon.state().inventory.to_vec();
    assert_eq!(items.len(), 1);
    assert!(matches!(items[0], Item::Potato { .. }));

    let mut reg = RegisteredPlayer::new(7, String::from("bob"));
    match &reg {
        Player::RegisteredPlayer { id, name, .. } => {
            assert_eq!(*id, 7);
            assert_eq!(name, "bob");
        }
        _ => panic!("a registered player"),
    }
    let berry = Berry::new();
    assert!(reg.state().inventory.insert(berry));
    assert_eq!(reg.state().inventory.len(), 2);
    assert!(reg.state().inventory.contains(&berry));
}

#[test]
fn fresh_item_ids_are_version_4_uuids() {
    let mut anon = AnonymousPlayer::new();
    let held = anon.state().inventory.to_vec()[0];
    let mut reg = RegisteredPlayer::new(1, String::from("ann"));
    let held_too = reg.state().inventory.to_vec()[0];
    for item in [
        Potato::new(),
        Berry::new(),
        TreeSap::new(),
        Item::parse(0).unwrap(),
        Item::parse(2).unwrap(),
        held,
        held_too,
    ] {
        let id = match item {
            Item::Potato { id } | Item::Berry { id } | Item::TreeSap { id } => id,
        };
        let u = uuid::Uuid::from_u128(id.value);
        assert_eq!(u.get_version_num(), 4);
        assert_eq!(u.get_variant(), uuid::Variant::RFC4122);
    }
}

#[test]
fn players_can_be_cloned() {
    let mut p = RegisteredPlayer::new(3, String::from("cy"));
    let mut q = p.clone();
    assert_eq!(q.state().inventory.to_vec(), p.state().inventory.to_vec());
    match q {
        Player::RegisteredPlayer { id, name, .. } => {
            assert_eq!(id, 3);
            assert_eq!(name, "cy");
        }
        _ => panic!("a registered player"),
    }
}

use rusted_wheel::game::{Action, Item};
use rusted_wheel::sock::msg::parse;
use rusted_wheel::sock::Message;

const TICKET: &str = "936da01f-9abd-4d9d-80c7-02af85c822a8";

fn text(s: &str) -> Message {
    Message::Text(String::from(s))
}

fn err_of(s: &str) -> String {
    match parse(text(s)) {
        Err(e) => e,
        Ok(_) => panic!("expected an error for {}", s),
    }
}

#[test]
fn an_action_message_is_read() {
    let m = parse(text(&format!("{}:addItemToInventory(1)", TICKET))).unwrap();
    assert!(matches!(m.val, Action::addItemToInventory(Item::Berry { .. })));
    assert_eq!(m.next.val.value, 0x936da01f9abd4d9d80c702af85c822a8u128);
}

#[test]
fn binary_messages_are_read_as_utf8() {
    let bytes = format!("{}:addItemToInventory(+2)", TICKET).into_bytes();
    let m = parse(Message::Binary(bytes)).unwrap();
    assert!(matches!(m.val, Action::addItemToInventory(Item::TreeSap { .. })));
    match parse(Message::Binary(vec![0xff, 0xfe])) {
        Err(e) => assert_eq!(e, "parse_ticket failure: cannot get text from Message; is it a binary Message?"),
        Ok(_) => panic!("invalid utf-8"),
    }
}

#[test]
fn the_last_nonempty_parameter_is_the_item() {
    let m = parse(text(&format!("{}:addItemToInventory(7,,0,)tail", TICKET))).unwrap();
    assert!(matches!(m.val, Action::addItemToInventory(Item::Potato { .. })));
}

#[test]
fn message_errors_are_reported() {
    assert_eq!(err_of("not-a-uuid:addItemToInventory(1)"), "parse_ticket failure: ticket is invalid uuidv4");
    assert_eq!(err_of(TICKET), "parse_action failure: got None for action_string");
    assert_eq!(err_of(&format!("{}:addItemToInventory", TICKET)), "parse_action failure: could not find \"(\"");
    assert_eq!(err_of(&format!("{}:addItemToInventory(1", TICKET)), "parse_action failure: could not find \")\"");
    assert_eq!(err_of(&format!("{}:(1)", TICKET)), "missing action type");
    assert_eq!(err_of(&format!("{}:dropItem(1)", TICKET)), "unrecognized action dropItem");
    assert_eq!(err_of(&format!("{}:addItemToInventory(,)", TICKET)), "addItemToInventory: no item");
    assert_eq!(err_of(&format!("{}:addItemToInventory( 1)", TICKET)), "invalid i32");
    assert_eq!(err_of(&format!("{}:addItemToInventory(2147483648)", TICKET)), "invalid i32");
    assert_eq!(err_of(&format!("{}:addItemToInventory(007)", TICKET)), "Item.parse<i32> failure: unrecognized Item 7");
    assert_eq!(err_of(&format!("{}:addItemToInventory(-2147483648)", TICKET)), "Item.parse<i32> failure: unrecognized Item -2147483648");
}

#[test]
fn a_braced_ticket_is_read() {
    let m = parse(text(&format!("{{{}}}:addItemToInventory(0)", TICKET))).unwrap();
    assert_eq!(m.next.val.value, 0x936da01f9abd4d9d80c702af85c822a8u128);
}

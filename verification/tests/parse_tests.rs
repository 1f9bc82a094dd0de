use rusted_wheel::game::{Action, Item};
use rusted_wheel::sock::parse::{parse, parse_message_action, parse_message_ticket, parse_message_type, try_parse, MsgVal};
use rusted_wheel::sock::Message;

const TICKET: &str = "936da01f-9abd-4d9d-80c7-02af85c822a8";

fn text(s: &str) -> Message {
    Message::Text(String::from(s))
}

#[test]
fn the_list_reader_reads_an_action_message() {
    let c = parse(text(&format!("{}:addItemToInventory(2)", TICKET))).unwrap();
    assert!(matches!(c.val, MsgVal::Action(Action::addItemToInventory(Item::TreeSap { .. }))));
    let n = c.next.as_ref().unwrap();
    assert!(matches!(n.val, MsgVal::Uuid(u) if u.value == 0x936da01f9abd4d9d80c702af85c822a8u128));
    assert!(n.next.is_none());
}

#[test]
fn the_list_reader_reports_errors() {
    let err = |s: String| match parse(text(&s)) {
        Err(e) => e,
        Ok(_) => panic!("expected an error"),
    };
    assert_eq!(err(String::from(TICKET)), "No pending to parse");
    assert_eq!(err(format!("{}:(1)", TICKET)), "missing action type");
    assert_eq!(err(format!("{}:addItemToInventory(1,)", TICKET)), "invalid i32");
    assert_eq!(err(format!("{}:other(1)", TICKET)), "unrecognized action other");
    assert_eq!(err(String::from("x:addItemToInventory(1)")), "parse_ticket failure: ticket is invalid uuidv4");
}

#[test]
fn without_closing_paren_the_rest_is_parameters() {
    let c = parse(text(&format!("{}:addItemToInventory(1,2", TICKET))).unwrap();
    assert!(matches!(c.val, MsgVal::Action(Action::addItemToInventory(Item::TreeSap { .. }))));
}

#[test]
fn an_action_without_paren_is_not_read() {
    assert!(try_parse(text(&format!("{}:addItemToInventory", TICKET))).is_none());
    assert!(matches!(try_parse(text(TICKET)), Some(Err(_))));
    assert!(matches!(try_parse(text(&format!("{}:addItemToInventory(0)", TICKET))), Some(Ok(_))));
}

#[test]
fn message_tickets_and_pieces_are_read() {
    let (u, rest) = parse_message_ticket(text(&format!("{}:addItemToInventory:1", TICKET))).unwrap();
    assert_eq!(u.value, 0x936da01f9abd4d9d80c702af85c822a8u128);
    assert_eq!(rest, vec![String::from("addItemToInventory"), String::from("1")]);
    match parse_message_ticket(text("nope:x")) {
        Err(e) => assert_eq!(e, "parse_message_ticket failure: ticket is invalid uuidv4"),
        Ok(_) => panic!("not a uuid"),
    }
    match parse_message_ticket(Message::Binary(vec![0xc3])) {
        Err(e) => assert_eq!(e, "parse_message_ticket failure: cannot get text from Message; is it a binary Message?"),
        Ok(_) => panic!("invalid utf-8"),
    }
}

#[test]
fn message_types_are_split_off() {
    assert_eq!(parse_message_type(vec![]), Err(String::from("missing message type and params")));
    assert_eq!(parse_message_type(vec![String::new(), String::from("1")]), Err(String::from("msg_type is empty")));
    assert_eq!(
        parse_message_type(vec![String::from("t"), String::from("1"), String::from("2")]),
        Ok((String::from("t"), vec![String::from("1"), String::from("2")]))
    );
}

#[test]
fn message_actions_are_read() {
    let add = String::from("addItemToInventory");
    assert!(matches!(parse_message_action((add.clone(), vec![String::from("2")])), Ok(Action::addItemToInventory(Item::TreeSap { .. }))));
    assert_eq!(parse_message_action((add.clone(), vec![])), Err(String::from("parse_message failure: addItemToInventory: no item code")));
    assert_eq!(parse_message_action((add.clone(), vec![String::from("1"), String::from("2")])), Err(String::from("parse_message failure: addItemToInventory: no item code")));
    assert_eq!(parse_message_action((add.clone(), vec![String::from("x")])), Err(String::from("parse_message failure: addItemToInventory: invalid i32 item code")));
    assert_eq!(parse_message_action((add, vec![String::from("9")])), Err(String::from("Item.parse<i32> failure: unrecognized Item 9")));
    assert_eq!(parse_message_action((String::from("drop"), vec![])), Err(String::from("parse_message failure: unrecognized message type")));
}

#[test]
fn a_printed_ticket_and_pieces_read_back() {
    let u = uuid::Uuid::from_u128(0x0123456789abcdef0123456789abcdefu128);
    for xs in [vec![], vec![String::new()], vec![String::from("a"), String::new(), String::from("b c")]] {
        let joined: String = xs.iter().map(|x| format!(":{}", x)).collect();
        let (t, rest) = parse_message_ticket(text(&format!("{}{}", u, joined))).unwrap();
        assert_eq!(t.value, u.as_u128());
        assert_eq!(rest, xs);
    }
}

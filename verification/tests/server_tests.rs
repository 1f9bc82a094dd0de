use rusted_wheel::game::{Action, Item};
use rusted_wheel::sock::authorizer::AuthorizesTicket;
use rusted_wheel::sock::{Message, RequestOutcome, WSServer};

fn connect(server: &mut WSServer, token: usize) -> (u128, Vec<u8>) {
    let mut headers: Vec<(String, Vec<u8>)> = Vec::new();
    match server.on_request(token, None, &mut headers) {
        RequestOutcome::NewConnection(t) => {
            assert_eq!(headers.len(), 1);
            assert_eq!(headers[0].0, "Set-Cookie");
            let expected = format!("bzwf_anon_wstx={}", uuid::Uuid::from_u128(t.value));
            assert_eq!(headers[0].1, expected.clone().into_bytes());
            (t.value, headers[0].1.clone())
        }
        other => panic!("expected a new connection, got {:?}", other),
    }
}

#[test]
fn a_request_without_ticket_opens_a_connection() {
    let mut server = WSServer::new();
    assert_eq!(server.len(), 0);
    let (t, cookie) = connect(&mut server, 4);
    assert_eq!(server.len(), 1);
    let conn = server.on_open(4, Some(cookie.as_slice())).unwrap();
    assert_eq!(conn.token, 4);
    assert_eq!(conn.ticket.value, t);
}

#[test]
fn a_request_with_its_ticket_is_recognized() {
    let mut server = WSServer::new();
    let (_, cookie) = connect(&mut server, 1);
    let mut headers: Vec<(String, Vec<u8>)> = Vec::new();
    match server.on_request(1, Some(cookie.as_slice()), &mut headers) {
        RequestOutcome::Returning(Ok(())) => {}
        other => panic!("expected a returning connection, got {:?}", other),
    }
    assert!(headers.is_empty());
    let (_, other_cookie) = connect(&mut server, 2);
    match server.on_request(1, Some(other_cookie.as_slice()), &mut headers) {
        RequestOutcome::Returning(Err(e)) => assert_eq!(e, "authorization failed: ticket mismatch"),
        other => panic!("expected a mismatch, got {:?}", other),
    }
}

#[test]
fn a_ticket_on_an_unknown_token_is_not_handled() {
    let mut server = WSServer::new();
    let (_, cookie) = connect(&mut server, 1);
    let mut headers: Vec<(String, Vec<u8>)> = Vec::new();
    assert!(server.try_on_request(9, Some(cookie.as_slice()), &mut headers).is_none());
    assert!(server.try_on_request(9, None, &mut headers).is_some());
    assert_eq!(server.len(), 2);
}

#[test]
fn opening_needs_a_valid_ticket_cookie() {
    let mut server = WSServer::new();
    let (_, _) = connect(&mut server, 1);
    assert_eq!(server.on_open(1, None).err(), Some(String::from("No bzwf_anon_wstx cookie!")));
    assert_eq!(server.on_open(1, Some(b"bzwf_anon_wstx=zzz".as_slice())).err(), Some(String::from("invalid cookie")));
    assert_eq!(
        server.on_open(1, Some(b"bzwf_anon_wstx=936da01f-9abd-4d9d-80c7-02af85c822a8".as_slice())).err(),
        Some(String::from("authorization failed: ticket mismatch"))
    );
    assert_eq!(
        server.on_open(2, Some(b"bzwf_anon_wstx=936da01f-9abd-4d9d-80c7-02af85c822a8".as_slice())).err(),
        Some(String::from("authorization failed: no connection for token"))
    );
}

#[test]
fn messages_add_items_to_the_inventory() {
    let mut server = WSServer::new();
    let (t, _) = connect(&mut server, 3);
    let ticket = uuid::Uuid::from_u128(t);
    let (read, result) = server.on_message(3, Message::Text(format!("{}:addItemToInventory(1)", ticket)));
    assert_eq!(read.map(|u| u.value), Some(t));
    let (action, state) = result.unwrap();
    assert!(matches!(action, Action::addItemToInventory(Item::Berry { .. })));
    assert_eq!(state.inventory.len(), 2);
    let Action::addItemToInventory(berry) = action;
    assert!(state.inventory.contains(&berry));
    assert!(server.on_message(3, Message::Text(String::from("garbage"))).0.is_none());
    let conn = server.authorizer.authorize_ticket(3, rusted_wheel::ids::Uuid { value: t }).unwrap();
    assert_eq!(conn.ticket.value, t);

    assert_eq!(
        server.on_message(3, Message::Text(format!("{}:addItemToInventory(4)", ticket))).1.err(),
        Some(String::from("Item.parse<i32> failure: unrecognized Item 4"))
    );
    assert_eq!(
        server.on_message(5, Message::Text(format!("{}:addItemToInventory(1)", ticket))).1.err(),
        Some(String::from("authorization failed: no connection for token"))
    );
    assert_eq!(
        server.on_message(3, Message::Text(String::from("936da01f-9abd-4d9d-80c7-02af85c822a8:addItemToInventory(1)"))).1.err(),
        Some(String::from("authorization failed: ticket mismatch"))
    );
}

#[test]
fn closing_forgets_the_connection() {
    let mut server = WSServer::new();
    let (t, cookie) = connect(&mut server, 8);
    let closed = server.on_close(8).unwrap();
    assert_eq!(closed.ticket.value, t);
    assert!(server.on_close(8).is_none());
    assert_eq!(server.len(), 0);
    assert_eq!(
        server.on_open(8, Some(cookie.as_slice())).err(),
        Some(String::from("authorization failed: no connection for token"))
    );
}

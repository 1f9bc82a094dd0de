//! The websocket side of the server: cookies, messages, tickets, and the
//! decisions taken on each websocket event.
use vstd::prelude::*;
use vstd::utf8::{valid_utf8, decode_utf8};
use std::collections::HashMap;
use crate::ids::{Uuid, uuid_parsed, hyphenated, lemma_hyphenated_chars, is_random_v4, drawn_v4};
use crate::game::{Action, Item, Player, PlayerState, AnonymousPlayer};
use crate::text::{decode_utf8_bytes, opt_view, string_from, i32_text, lemma_trim_plain, trim};
use self::cookie::{
    parse_cookies, put_cookie, cookie_map, header_text, set_cookie_value, lemma_cookie_roundtrip,
    lemma_cookie_appended,
};
use self::authorizer::{AuthorizesTicket, DumbTicketStamper, authorization};
use self::msg::{parse, spec_parse, lemma_action_message_reads};

pub mod cookie;
pub mod msg;
pub mod parse;
pub mod authorizer;

verus! {

/// A websocket message, as the transport hands it over: text or bytes.
#[derive(Debug)]
pub enum Message {
    Text(String),
    Binary(Vec<u8>),
}

/// The text of a message: a text message's own, or a binary message's bytes
/// read as UTF-8, where they are valid UTF-8.
pub open spec fn message_text(m: Message) -> Option<Seq<char>> {
    match m {
        Message::Text(s) => Some(s@),
        Message::Binary(b) => if valid_utf8(b@) {
            Some(decode_utf8(b@))
        } else {
            None
        },
    }
}

/// Two messages of the same kind with the same contents.
pub open spec fn same_message(a: Message, b: Message) -> bool {
    match a {
        Message::Text(s) => b matches Message::Text(s2) && s2@ == s@,
        Message::Binary(v) => b matches Message::Binary(v2) && v2@ == v@,
    }
}

impl Clone for Message {
    fn clone(&self) -> (r: Self)
        ensures
            same_message(*self, r),
            message_text(r) == message_text(*self),
    {
        match self {
            Message::Text(s) => Message::Text(s.clone()),
            Message::Binary(v) => {
                let w = v.clone();
                assert(w@ =~= v@);
                Message::Binary(w)
            },
        }
    }
}

impl Message {
    /// The text of the message (`ws::Message::into_text`).
    pub fn into_text(self) -> (r: Option<String>)
        ensures
            opt_view(r) == message_text(self),
    {
        match self {
            Message::Text(s) => Some(s),
            Message::Binary(b) => decode_utf8_bytes(b.as_slice()),
        }
    }
}

/// A websocket connection: its transport token, the ticket issued to it, and
/// its player.
#[derive(Debug, Clone)]
pub struct Connection {
    pub token: usize,
    pub ticket: Uuid,
    pub player: Player,
}

impl Connection {
    fn new(tk: usize, tx: Uuid, p: Player) -> (r: Connection)
        ensures
            r == (Connection { token: tk, ticket: tx, player: p }),
    {
        Connection { token: tk, ticket: tx, player: p }
    }
}

/// The open connections, by transport token.
pub type ConnectionMap = HashMap<usize, Connection>;

broadcast use vstd::std_specs::hash::group_hash_axioms;

/// The name of the cookie that holds a connection's ticket.
pub open spec fn ticket_cookie() -> Seq<char> {
    "bzwf_anon_wstx"@
}

/// The bytes of an optional header.
pub open spec fn header_bytes(header: Option<&[u8]>) -> Option<Seq<u8>> {
    match header {
        Some(b) => Some(b@),
        None => None,
    }
}

/// The ticket that the cookies of a request hold, where they hold a readable one.
pub open spec fn request_ticket(header: Option<Seq<u8>>) -> Option<u128> {
    let cookies = cookie_map(header_text(header));
    if cookies.contains_key(ticket_cookie()) {
        uuid_parsed(cookies[ticket_cookie()])
    } else {
        None
    }
}

/// What opening the websocket of `token` with the cookies of `header` gives: the
/// connection the ticket cookie was issued to, or why there is none.
pub open spec fn open_result(conns: Map<usize, Connection>, token: usize, header: Option<Seq<u8>>) -> Result<
    Connection,
    Seq<char>,
> {
    let cookies = cookie_map(header_text(header));
    if !cookies.contains_key(ticket_cookie()) {
        Err("No bzwf_anon_wstx cookie!"@)
    } else {
        match uuid_parsed(cookies[ticket_cookie()]) {
            None => Err("invalid cookie"@),
            Some(t) => authorization(conns, token, Uuid { value: t }),
        }
    }
}

/// What became of a websocket request.
#[derive(Debug)]
pub enum RequestOutcome {
    /// The request held a ticket: whether it is the ticket of the connection.
    Returning(Result<(), String>),
    /// The request held no ticket: a new connection was opened with this ticket,
    /// and a cookie holding it was added to the response.
    NewConnection(Uuid),
}

/// What handling the request that opens the websocket of `token` does, with the
/// cookies of `header`: the connections go from `before` to `after`, the response
/// headers from `h0` to `h1`, and `r` is the outcome. A request with a ticket is
/// checked against the connection and changes nothing; one without is given a new
/// connection, with a fresh ticket and an anonymous player holding one potato,
/// and a `Set-Cookie` header holding that ticket, with which opening the
/// websocket gives that connection.
pub open spec fn request_handled(
    before: Map<usize, Connection>,
    after: Map<usize, Connection>,
    token: usize,
    header: Option<Seq<u8>>,
    h0: Seq<(String, Vec<u8>)>,
    h1: Seq<(String, Vec<u8>)>,
    r: RequestOutcome,
) -> bool {
    match request_ticket(header) {
        Some(t) => {
            &&& after == before
            &&& h1 == h0
            &&& r matches RequestOutcome::Returning(a) && match authorization(
                before,
                token,
                Uuid { value: t },
            ) {
                Ok(_) => a is Ok,
                Err(e) => a matches Err(e2) && e2@ == e,
            }
        },
        None => r matches RequestOutcome::NewConnection(t) && {
            let c = after[token];
            &&& after == before.insert(token, c)
            &&& c.token == token
            &&& c.ticket == t
            &&& c.player is AnonymousPlayer
            &&& c.player.spec_state().inventory@.len() == 1
            &&& is_random_v4(t.value)
            &&& drawn_v4(t.value)
            &&& forall|item: Item| #[trigger] c.player.spec_state().inventory@.contains(item)
                ==> item.fresh_of_kind(0)
            &&& uuid_parsed(hyphenated(t.value)) == Some(t.value)
            &&& h1.len() == h0.len() + 1
            &&& h1.drop_last() == h0
            &&& h1.last().0@ == "Set-Cookie"@
            &&& h1.last().1@ == set_cookie_value(ticket_cookie(), hyphenated(t.value))
            &&& open_result(after, token, Some(h1.last().1@)) == Ok::<Connection, Seq<char>>(c)
        },
    }
}

/// The websocket server's state: the open connections, through the checker of
/// their tickets.
pub struct WSServer {
    pub authorizer: DumbTicketStamper,
}

impl WSServer {
    /// The open connections.
    pub open spec fn conns(&self) -> Map<usize, Connection> {
        self.authorizer.connections@
    }

    /// A server with no connections.
    pub fn new() -> (r: WSServer)
        ensures
            r.conns() == Map::<usize, Connection>::empty(),
    {
        let connections: ConnectionMap = HashMap::new();
        WSServer { authorizer: DumbTicketStamper::new(connections) }
    }

    /// The ticket held by the cookies of a request.
    pub fn cookie_ticket(cookie_header: Option<&[u8]>) -> (r: Option<Uuid>)
        ensures
            match request_ticket(header_bytes(cookie_header)) {
                Some(t) => r == Some(Uuid { value: t }),
                None => r is None,
            },
    {
        let cookies = parse_cookies(cookie_header);
        match cookies.get("bzwf_anon_wstx") {
            Some(v) => Uuid::parse_str(v.as_str()),
            None => None,
        }
    }

    /// Handles the request that opens the websocket of `token`, with the cookies
    /// of `cookie_header` and the response headers `headers`. A request with a
    /// ticket is checked against its connection; one without is given a new
    /// connection, an anonymous player and a ticket, which a cookie carries back.
    /// A request with a ticket must come on a token that has a connection.
    pub fn on_request(
        &mut self,
        token: usize,
        cookie_header: Option<&[u8]>,
        headers: &mut Vec<(String, Vec<u8>)>,
    ) -> (r: RequestOutcome)
        requires
            request_ticket(header_bytes(cookie_header)) is Some ==> old(self).conns().contains_key(
                token,
            ),
        ensures
            request_handled(
                old(self).conns(),
                final(self).conns(),
                token,
                header_bytes(cookie_header),
                old(headers)@,
                final(headers)@,
                r,
            ),
    {
        match Self::cookie_ticket(cookie_header) {
            Some(ticket) => {
                let a = match self.authorizer.authorize_ticket(token, ticket) {
                    Ok(_) => Ok(()),
                    Err(e) => Err(e),
                };
                RequestOutcome::Returning(a)
            },
            None => {
                let ticket = Uuid::new_v4();
                let new_conn = Connection::new(token, ticket, AnonymousPlayer::new());
                let value = ticket.to_text();
                put_cookie(string_from("bzwf_anon_wstx"), value, headers);
                self.authorizer.connections.insert(token, new_conn);
                proof {
                    lemma_issued_ticket_opens(self.conns(), token, ticket.value);
                }
                RequestOutcome::NewConnection(ticket)
            },
        }
    }
}

impl WSServer {
    /// Handles a websocket request as `on_request` does, or gives `None` for a
    /// request with a ticket on a token that has no connection, which
    /// `on_request` cannot handle.
    pub fn try_on_request(
        &mut self,
        token: usize,
        cookie_header: Option<&[u8]>,
        headers: &mut Vec<(String, Vec<u8>)>,
    ) -> (r: Option<RequestOutcome>)
        ensures
            r is None <==> (request_ticket(header_bytes(cookie_header)) is Some
                && !old(self).conns().contains_key(token)),
            r is None ==> final(self).conns() == old(self).conns() && final(headers)@ == old(
                headers,
            )@,
            r matches Some(x) ==> request_handled(
                old(self).conns(),
                final(self).conns(),
                token,
                header_bytes(cookie_header),
                old(headers)@,
                final(headers)@,
                x,
            ),
    {
        if Self::cookie_ticket(cookie_header).is_some() && !self.authorizer.connections.contains_key(
            &token,
        ) {
            return None;
        }
        Some(self.on_request(token, cookie_header, headers))
    }

    /// Handles the opening of the websocket of `token`, with the cookies of
    /// `cookie_header`: the connection its ticket cookie was issued to.
    pub fn on_open(&self, token: usize, cookie_header: Option<&[u8]>) -> (r: Result<
        &Connection,
        String,
    >)
        ensures
            match open_result(self.conns(), token, header_bytes(cookie_header)) {
                Ok(c) => r matches Ok(c2) && *c2 == c,
                Err(e) => r matches Err(e2) && e2@ == e,
            },
    {
        let cookies = parse_cookies(cookie_header);
        let ticket_string = match cookies.get("bzwf_anon_wstx") {
            None => {
                return Err(string_from("No bzwf_anon_wstx cookie!"));
            },
            Some(t) => t,
        };
        let ticket = match Uuid::parse_str(ticket_string.as_str()) {
            None => {
                return Err(string_from("invalid cookie"));
            },
            Some(t) => t,
        };
        self.authorizer.authorize_ticket(token, ticket)
    }

    /// Handles a message on the websocket of `token`: reads its ticket and
    /// action, checks the ticket against the connection, and adds the item the
    /// action names to the player's inventory. Gives the ticket the message was
    /// read with, where it could be read, and the action and the player's state
    /// after it, or the message of what failed; on failure nothing changes.
    pub fn on_message(&mut self, token: usize, msg: Message) -> (r: (
        Option<Uuid>,
        Result<(Action, PlayerState), String>,
    ))
        ensures
            match spec_parse(msg) {
                Err(e) => r.1 matches Err(e2) && e2@ == e && r.0 is None && final(self).conns()
                    == old(self).conns(),
                Ok((code, t)) => r.0 == Some(Uuid { value: t }) && match authorization(
                    old(self).conns(),
                    token,
                    Uuid { value: t },
                ) {
                    Err(e) => r.1 matches Err(e2) && e2@ == e && final(self).conns() == old(
                        self,
                    ).conns(),
                    Ok(c) => r.1 matches Ok((Action::addItemToInventory(item), st)) && {
                        let c2 = final(self).conns()[token];
                        &&& item.fresh_of_kind(code as int)
                        &&& final(self).conns() == old(self).conns().insert(token, c2)
                        &&& c2.token == c.token
                        &&& c2.ticket == c.ticket
                        &&& c2.player == c.player.with_state(c2.player.spec_state())
                        &&& c2.player.spec_state().inventory@
                            == c.player.spec_state().inventory@.insert(item)
                        &&& st.inventory@ == c2.player.spec_state().inventory@
                    },
                },
            },
    {
        let m = match parse(msg) {
            Ok(m) => m,
            Err(e) => {
                return (None, Err(e));
            },
        };
        let action = m.val;
        let ticket = m.next.val;
        match self.authorizer.authorize_ticket(token, ticket) {
            Ok(_) => {},
            Err(e) => {
                return (Some(ticket), Err(e));
            },
        }
        let mut conn = match self.authorizer.connections.remove(&token) {
            Some(c) => c,
            None => {
                return (
                    Some(ticket),
                    Err(string_from("authorization failed: no connection for token")),
                );
            },
        };
        let Action::addItemToInventory(item) = action;
        conn.player.state().inventory.insert(item);
        let state = conn.player.state().clone();
        self.authorizer.connections.insert(token, conn);
        (Some(ticket), Ok((action, state)))
    }

    /// Handles the closing of the websocket of `token`: its connection is
    /// forgotten, and given back where there was one.
    pub fn on_close(&mut self, token: usize) -> (r: Option<Connection>)
        ensures
            final(self).conns() == old(self).conns().remove(token),
            r is Some <==> old(self).conns().contains_key(token),
            r matches Some(c) ==> c == old(self).conns()[token],
    {
        self.authorizer.connections.remove(&token)
    }

    /// The number of open connections.
    pub fn len(&self) -> (r: usize)
        ensures
            r == self.conns().len(),
    {
        self.authorizer.connections.len()
    }
}

/// Once the connection of `token` is closed, nothing is authorized on `token`:
/// neither opening its websocket, with any cookies, nor any ticket.
pub proof fn lemma_closed_token_refused(
    conns: Map<usize, Connection>,
    token: usize,
    header: Option<Seq<u8>>,
    ticket: Uuid,
)
    ensures
        authorization(conns.remove(token), token, ticket) == Err::<Connection, Seq<char>>(
            "authorization failed: no connection for token"@,
        ),
        open_result(conns.remove(token), token, header) is Err,
{
}

/// The client of a new connection can act with the ticket it was given: where
/// the connection of `token` has ticket `t` (and `uuid::Uuid` reads the
/// hyphenated form of `t` back as `t`), a message `<t>:addItemToInventory(<code>)`
/// with a code that names an item is read as that code and that ticket, and the
/// ticket is authorized on `token`.
pub proof fn lemma_ticket_holder_can_act(
    conns: Map<usize, Connection>,
    token: usize,
    t: u128,
    msg: Message,
    code: i32,
)
    requires
        conns.contains_key(token),
        conns[token].ticket == (Uuid { value: t }),
        uuid_parsed(hyphenated(t)) == Some(t),
        0 <= code <= 2,
        message_text(msg) == Some(hyphenated(t) + ":addItemToInventory("@ + i32_text(code) + ")"@),
    ensures
        spec_parse(msg) == Ok::<(i32, u128), Seq<char>>((code, t)),
        authorization(conns, token, Uuid { value: t }) == Ok::<Connection, Seq<char>>(conns[token]),
{
    lemma_hyphenated_chars(t);
    assert forall|i: int| 0 <= i < hyphenated(t).len() implies hyphenated(t)[i] != ':' by {
        let c = hyphenated(t)[i];
        assert(c == '-' || ('0' <= c <= '9') || ('a' <= c <= 'f'));
    }
    lemma_action_message_reads(msg, hyphenated(t), t, code);
}

/// The ticket of a request is read from the cookies of its whole header: where
/// the cookies before hold no ticket cookie, a header that ends in the piece
/// `<name>=<v>`, whose name trims to the ticket cookie's (neither holding `;`
/// or `=`), holds the ticket that `uuid::Uuid` reads from the trimmed `v`,
/// however many pieces come before it.
pub proof fn lemma_ticket_cookie_read(a: Seq<char>, name: Seq<char>, v: Seq<char>)
    requires
        !cookie_map(a).contains_key(ticket_cookie()),
        trim(name) == ticket_cookie(),
        forall|i: int| 0 <= i < name.len() ==> name[i] != ';' && name[i] != '=',
        forall|i: int| 0 <= i < v.len() ==> v[i] != ';' && v[i] != '=',
    ensures
        request_ticket(Some(vstd::utf8::encode_utf8(a + ";"@ + name + "="@ + v))) == uuid_parsed(
            trim(v),
        ),
{
    let text = a + ";"@ + name + "="@ + v;
    vstd::utf8::encode_utf8_valid_utf8(text);
    vstd::utf8::encode_utf8_decode_utf8(text);
    assert(header_text(Some(vstd::utf8::encode_utf8(text))) == text);
    lemma_cookie_appended(a, name, v);
    assert(cookie_map(text) == cookie_map(a).insert(ticket_cookie(), trim(v)));
}

/// The cookie that a new connection's ticket is sent back in opens that
/// connection: where `conns` holds the connection of `token` with ticket `t`
/// (and `uuid::Uuid` reads the hyphenated form of `t` back as `t`), opening the
/// websocket of `token` with that cookie gives that connection.
pub proof fn lemma_issued_ticket_opens(conns: Map<usize, Connection>, token: usize, t: u128)
    requires
        conns.contains_key(token),
        conns[token].ticket == (Uuid { value: t }),
        uuid_parsed(hyphenated(t)) == Some(t),
    ensures
        open_result(conns, token, Some(set_cookie_value(ticket_cookie(), hyphenated(t))))
            == Ok::<Connection, Seq<char>>(conns[token]),
{
    let name = ticket_cookie();
    let value = hyphenated(t);
    reveal_strlit("bzwf_anon_wstx");
    lemma_hyphenated_chars(t);
    assert(value[0] == hyphenated(t)[0]);
    assert(value[35] == hyphenated(t)[35]);
    lemma_trim_plain(name);
    lemma_trim_plain(value);
    lemma_cookie_roundtrip(name, value);
    let text = name + "="@ + value;
    vstd::utf8::encode_utf8_valid_utf8(text);
    vstd::utf8::encode_utf8_decode_utf8(text);
    assert(header_text(Some(set_cookie_value(name, value))) == text);
    assert(cookie_map(text).contains_key(name));
}

} // verus!

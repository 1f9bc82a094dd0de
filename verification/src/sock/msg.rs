//! Reading an action message: `<ticket>:<action>(<parameters>)`, where the
//! ticket is a UUID and the action names what to do.
use vstd::prelude::*;
use std::rc::Rc;
use crate::ParseFrom;
use crate::ids::{Uuid, uuid_parsed};
use crate::game::{Action, Item, unrecognized_item_message};
use crate::text::{
    opt_view, first_index, split_on, last_nonempty, parse_i32, chars_of, find_char,
    sub_chars, string_of, string_from, concat_str, concat_strs, chars_eq, split_chars, last_nonempty_piece,
    parse_i32_chars, i32_text, digit_char, unsigned_part, digits_value, all_digits,
    lemma_first_index, lemma_split_no_sep,
};
use super::{Message, message_text};

verus! {

/// A value read from a message.
#[derive(Debug, Clone)]
pub enum MsgVal {
    WsMessage(Message),
    Uuid(Uuid),
    Item(Item),
    Action(Action),
    String(String),
}

impl From<Uuid> for MsgVal {
    fn from(v: Uuid) -> (r: MsgVal)
        ensures
            r == MsgVal::Uuid(v),
    {
        MsgVal::Uuid(v)
    }
}

impl vstd::std_specs::convert::FromSpecImpl<Uuid> for MsgVal {
    open spec fn obeys_from_spec() -> bool {
        true
    }

    open spec fn from_spec(v: Uuid) -> MsgVal {
        MsgVal::Uuid(v)
    }
}

impl From<Item> for MsgVal {
    fn from(v: Item) -> (r: MsgVal)
        ensures
            r == MsgVal::Item(v),
    {
        MsgVal::Item(v)
    }
}

impl vstd::std_specs::convert::FromSpecImpl<Item> for MsgVal {
    open spec fn obeys_from_spec() -> bool {
        true
    }

    open spec fn from_spec(v: Item) -> MsgVal {
        MsgVal::Item(v)
    }
}

impl From<Action> for MsgVal {
    fn from(v: Action) -> (r: MsgVal)
        ensures
            r == MsgVal::Action(v),
    {
        MsgVal::Action(v)
    }
}

impl vstd::std_specs::convert::FromSpecImpl<Action> for MsgVal {
    open spec fn obeys_from_spec() -> bool {
        true
    }

    open spec fn from_spec(v: Action) -> MsgVal {
        MsgVal::Action(v)
    }
}

impl From<String> for MsgVal {
    fn from(v: String) -> (r: MsgVal)
        ensures
            r == MsgVal::String(v),
    {
        MsgVal::String(v)
    }
}

impl vstd::std_specs::convert::FromSpecImpl<String> for MsgVal {
    open spec fn obeys_from_spec() -> bool {
        true
    }

    open spec fn from_spec(v: String) -> MsgVal {
        MsgVal::String(v)
    }
}

/// A value read from a message, before the values read earlier.
#[derive(Debug)]
pub struct MsgCell<T, U> {
    pub val: T,
    pub next: U,
}

/// The first value read from a message.
#[derive(Debug)]
pub struct UnitMsgCell<T> {
    pub val: T,
}

/// A message of which nothing is read yet.
#[derive(Debug)]
struct PendingMsg<T> {
    pending: T,
}

/// A message partly read: the values read so far, and what is left to read.
#[derive(Debug)]
struct PartialMsg<T, P> {
    parsed: P,
    pending: Option<T>,
}

impl PendingMsg<Message> {
    fn new(msg: Message) -> (r: Self)
        ensures
            r.pending == msg,
    {
        PendingMsg { pending: msg }
    }
}

impl<T> PendingMsg<T> {
    /// Reads the first value with `parser`, which also hands back what it left.
    fn parse_next<F, Tnew, V>(self, parser: F) -> (res: Result<
        PartialMsg<Tnew, Rc<UnitMsgCell<V>>>,
        String,
    >) where F: Fn(Option<T>) -> Result<(V, Option<Tnew>), String>
        requires
            call_requires(parser, (Some(self.pending),)),
        ensures
            exists|r: Result<(V, Option<Tnew>), String>|
                #[trigger] call_ensures(parser, (Some(self.pending),), r) && match r {
                    Ok((v, t)) => res matches Ok(p) && p.parsed.val == v && p.pending == t,
                    Err(e) => res matches Err(e2) && e2 == e,
                },
    {
        let r = parser(Some(self.pending));
        match r {
            Ok((newly_parsed, still_pending)) => Ok(
                PartialMsg {
                    parsed: Rc::new(UnitMsgCell { val: newly_parsed }),
                    pending: still_pending,
                },
            ),
            Err(e) => Err(e),
        }
    }
}

impl<T, P> PartialMsg<T, Rc<P>> {
    /// Reads the next value with `parser` from what is left, keeping the values read before.
    fn parse_next<F, Tnew, V>(self, parser: F) -> (res: Result<
        PartialMsg<Tnew, Rc<MsgCell<V, Rc<P>>>>,
        String,
    >) where F: Fn(Option<T>) -> Result<(V, Option<Tnew>), String>
        requires
            call_requires(parser, (self.pending,)),
        ensures
            exists|r: Result<(V, Option<Tnew>), String>|
                #[trigger] call_ensures(parser, (self.pending,), r) && match r {
                    Ok((v, t)) => res matches Ok(p) && p.parsed.val == v && p.parsed.next
                        == self.parsed && p.pending == t,
                    Err(e) => res matches Err(e2) && e2 == e,
                },
    {
        let r = parser(self.pending);
        match r {
            Ok((newly_parsed, still_pending)) => Ok(
                PartialMsg {
                    parsed: Rc::new(MsgCell { next: self.parsed, val: newly_parsed }),
                    pending: still_pending,
                },
            ),
            Err(e) => Err(e),
        }
    }
}

/// The message of a failure to read the ticket.
pub open spec fn ticket_failure(reason: Seq<char>) -> Seq<char> {
    "parse_ticket failure: "@ + reason
}

/// The ticket part of a text (before the first `:`, or all of it) and the rest
/// after that `:`, if there is one (`splitn(2, ':')`).
pub open spec fn split_ticket(t: Seq<char>) -> (Seq<char>, Option<Seq<char>>) {
    match first_index(t, ':') {
        Some(i) => (t.take(i), Some(t.skip(i + 1))),
        None => (t, None),
    }
}

/// Reading the ticket at the head of a message: its value and the rest of the text.
pub open spec fn spec_parse_ticket(msg: Option<Message>) -> Result<
    (u128, Option<Seq<char>>),
    Seq<char>,
> {
    match msg {
        None => Err(ticket_failure("there is no message"@)),
        Some(m) => match message_text(m) {
            None => Err(
                ticket_failure("cannot get text from Message; is it a binary Message?"@),
            ),
            Some(t) => match uuid_parsed(split_ticket(t).0) {
                Some(v) => Ok((v, split_ticket(t).1)),
                None => Err(ticket_failure("ticket is invalid uuidv4"@)),
            },
        },
    }
}

/// Reading an action from the rest of a message: the item code of
/// `addItemToInventory(..)` (its last non-empty parameter) and what follows.
/// The text kept after the action starts with `()`: the parentheses stay, the
/// parameters between them are taken out.
pub open spec fn spec_parse_action(s: Option<Seq<char>>) -> Result<
    (i32, Option<Seq<char>>),
    Seq<char>,
> {
    match s {
        None => Err("parse_action failure: got None for action_string"@),
        Some(s) => match first_index(s, '(') {
            None => Err("parse_action failure: could not find \"(\""@),
            Some(lp) => {
                let action_type = s.take(lp);
                let rest = s.skip(lp);
                match first_index(rest, ')') {
                    None => Err("parse_action failure: could not find \")\""@),
                    Some(rp) => {
                        let params = split_on(rest.subrange(1, rp), ',');
                        let remainder = rest.take(1) + rest.skip(rp);
                        if action_type.len() == 0 {
                            Err("missing action type"@)
                        } else if action_type == "addItemToInventory"@ {
                            match last_nonempty(params) {
                                None => Err("addItemToInventory: no item"@),
                                Some(p) => match parse_i32(p) {
                                    None => Err("invalid i32"@),
                                    Some(code) => if 0 <= code <= 2 {
                                        Ok((code, Some(remainder)))
                                    } else {
                                        Err(unrecognized_item_message(code))
                                    },
                                },
                            }
                        } else {
                            Err("unrecognized action "@ + action_type)
                        }
                    },
                }
            },
        },
    }
}

/// Reading a whole message: the item code of its action and its ticket.
pub open spec fn spec_parse(msg: Message) -> Result<(i32, u128), Seq<char>> {
    match spec_parse_ticket(Some(msg)) {
        Err(e) => Err(e),
        Ok((t, rest)) => match spec_parse_action(rest) {
            Err(e) => Err(e),
            Ok((code, _)) => Ok((code, t)),
        },
    }
}

/// The message of a failure to read the ticket, for `reason`.
fn parse_error_msg(reason: &str) -> (r: String)
    ensures
        r@ == ticket_failure(reason@),
{
    concat_strs("parse_ticket failure: ", reason)
}

/// A message `<ticket>:addItemToInventory(<code>)` is read as that code and that
/// ticket, where the ticket text has no `:` and reads as the ticket `t`, and the
/// code names an item.
pub proof fn lemma_action_message_reads(msg: Message, ticket: Seq<char>, t: u128, code: i32)
    requires
        forall|i: int| 0 <= i < ticket.len() ==> ticket[i] != ':',
        uuid_parsed(ticket) == Some(t),
        0 <= code <= 2,
        message_text(msg) == Some(ticket + ":addItemToInventory("@ + i32_text(code) + ")"@),
    ensures
        spec_parse(msg) == Ok::<(i32, u128), Seq<char>>((code, t)),
{
    reveal_strlit(":addItemToInventory(");
    reveal_strlit("addItemToInventory");
    reveal_strlit(")");
    let name = "addItemToInventory"@;
    let a = ":addItemToInventory("@;
    assert(a =~= seq![':'] + name + seq!['(']);
    let c = digit_char(code as int);
    let d = i32_text(code);
    assert(d =~= seq![c]);
    let s = ticket + a + d + ")"@;
    let tl = ticket.len() as int;
    assert(s =~= ticket + (seq![':'] + (name + (seq!['(', c, ')']))));
    assert(s[tl] == ':');
    lemma_first_index(s, ':', tl);
    assert(s.take(tl) =~= ticket);
    let rest = s.skip(tl + 1);
    assert(rest =~= name + seq!['(', c, ')']);
    assert(split_ticket(s) == (ticket, Some(rest)));
    assert(spec_parse_ticket(Some(msg)) == Ok::<(u128, Option<Seq<char>>), Seq<char>>(
        (t, Some(rest)),
    ));
    assert forall|j: int| 0 <= j < 18 implies rest[j] != '(' by {
        assert(rest[j] == name[j]);
    }
    assert(rest[18] == '(');
    lemma_first_index(rest, '(', 18);
    assert(rest.take(18) =~= name);
    let rest2 = rest.skip(18);
    assert(rest2 =~= seq!['(', c, ')']);
    assert(rest2[1] != ')');
    lemma_first_index(rest2, ')', 2);
    assert(rest2.subrange(1, 2) =~= seq![c]);
    lemma_split_no_sep(seq![c], ',');
    let params = split_on(rest2.subrange(1, 2), ',');
    assert(params == seq![seq![c]]);
    assert(last_nonempty(params) == Some(seq![c]));
    let one = seq![c];
    assert(unsigned_part(one) == one);
    assert(one.drop_last() =~= Seq::<char>::empty());
    assert(digits_value(Seq::<char>::empty()) == 0);
    assert(one.last() == c);
    assert(c as int == code as int + 48);
    assert(digits_value(one) == code as int);
    assert(all_digits(one));
    assert(parse_i32(one) == Some(code));
}

/// Reads the ticket at the head of a message.
pub(crate) fn parse_ticket(msg: Option<Message>) -> (res: Result<(Uuid, Option<String>), String>)
    ensures
        match spec_parse_ticket(msg) {
            Ok((v, rest)) => res matches Ok((u, r)) && u.value == v && opt_view(r) == rest,
            Err(e) => res matches Err(e2) && e2@ == e,
        },
{
    let m = match msg {
        None => {
            return Err(parse_error_msg("there is no message"));
        },
        Some(m) => m,
    };
    let ghost mv = message_text(m);
    let text = match m.into_text() {
        None => {
            return Err(parse_error_msg("cannot get text from Message; is it a binary Message?"));
        },
        Some(t) => t,
    };
    let chars = chars_of(text.as_str());
    let found = find_char(chars.as_slice(), ':');
    let mut ticket_chars = chars.clone();
    let mut rest: Option<String> = None;
    if let Some(i) = found {
        assert(i < chars@.len());
        ticket_chars = sub_chars(chars.as_slice(), 0, i);
        rest = Some(string_of(sub_chars(chars.as_slice(), i + 1, chars.len()).as_slice()));
    }
    assert(found is None ==> ticket_chars@ == chars@);
    proof {
        assert(chars@ == text@);
        if let Some(i) = first_index(text@, ':') {
            assert(text@.subrange(0, i) =~= text@.take(i));
            assert(text@.subrange(i + 1, text@.len() as int) =~= text@.skip(i + 1));
        }
    }
    let ticket_string = string_of(ticket_chars.as_slice());
    match Uuid::parse_str(ticket_string.as_str()) {
        Some(uuid) => Ok((uuid, rest)),
        None => Err(parse_error_msg("ticket is invalid uuidv4")),
    }
}

/// Reads the action from the rest of a message.
fn parse_action(action_string: Option<String>) -> (res: Result<(Action, Option<String>), String>)
    ensures
        match spec_parse_action(opt_view(action_string)) {
            Ok((code, rest)) => res matches Ok((Action::addItemToInventory(item), r))
                && item.fresh_of_kind(code as int) && opt_view(r) == rest,
            Err(e) => res matches Err(e2) && e2@ == e,
        },
{
    let action_string = match action_string {
        None => {
            return Err(string_from("parse_action failure: got None for action_string"));
        },
        Some(s) => s,
    };
    let s = chars_of(action_string.as_str());
    let left_paren = match find_char(s.as_slice(), '(') {
        None => {
            return Err(string_from("parse_action failure: could not find \"(\""));
        },
        Some(i) => i,
    };
    let action_type = sub_chars(s.as_slice(), 0, left_paren);
    let rest = sub_chars(s.as_slice(), left_paren, s.len());
    proof {
        assert(action_type@ =~= s@.take(left_paren as int));
        assert(rest@ =~= s@.skip(left_paren as int));
    }
    let right_paren = match find_char(rest.as_slice(), ')') {
        None => {
            return Err(string_from("parse_action failure: could not find \")\""));
        },
        Some(i) => i,
    };
    assert(rest@[0] == '(');
    let params_chars = sub_chars(rest.as_slice(), 1, right_paren);
    let action_parameters = split_chars(params_chars.as_slice(), ',');
    let mut remainder_chars = sub_chars(rest.as_slice(), 0, 1);
    let tail = sub_chars(rest.as_slice(), right_paren, rest.len());
    let mut k: usize = 0;
    while k < tail.len()
        invariant
            k <= tail@.len(),
            remainder_chars@ == rest@.take(1) + tail@.take(k as int),
        decreases tail@.len() - k,
    {
        remainder_chars.push(tail[k]);
        k += 1;
        assert(tail@.take(k as int) =~= tail@.take(k - 1).push(tail@[k - 1]));
    }
    proof {
        assert(tail@.take(tail@.len() as int) =~= tail@);
        assert(rest@.subrange(0, 1) =~= rest@.take(1));
        assert(tail@ =~= rest@.skip(right_paren as int));
    }
    let remainder = string_of(remainder_chars.as_slice());
    if action_type.len() == 0 {
        return Err(string_from("missing action type"));
    }
    let add_item = chars_of("addItemToInventory");
    if chars_eq(action_type.as_slice(), add_item.as_slice()) {
        proof {
            assert(action_parameters@.map_values(|x: Vec<char>| x@) =~= split_on(
                rest@.subrange(1, right_paren as int),
                ',',
            ));
        }
        let item_str = match last_nonempty_piece(&action_parameters) {
            None => {
                return Err(string_from("addItemToInventory: no item"));
            },
            Some(p) => p,
        };
        let item_code = match parse_i32_chars(item_str.as_slice()) {
            None => {
                return Err(string_from("invalid i32"));
            },
            Some(c) => c,
        };
        match Item::parse(item_code) {
            Ok(item) => Ok((Action::addItemToInventory(item), Some(remainder))),
            Err(e) => Err(e),
        }
    } else {
        Err(concat_str("unrecognized action ", action_type.as_slice()))
    }
}

/// An action message: the action, before the ticket it came with.
pub type ActionMsg = Rc<MsgCell<Action, Rc<UnitMsgCell<Uuid>>>>;

/// Reads a message `<ticket>:<action>`: its ticket and its action, or the
/// message of the first thing that could not be read.
pub fn parse(msg: Message) -> (res: Result<ActionMsg, String>)
    ensures
        match spec_parse(msg) {
            Ok((code, t)) => res matches Ok(m) && m.val matches Action::addItemToInventory(item)
                && item.fresh_of_kind(code as int) && m.next.val.value == t,
            Err(e) => res matches Err(e2) && e2@ == e,
        },
{
    let ghost m0 = msg;
    let first = PendingMsg::new(msg).parse_next(parse_ticket);
    let partial = match first {
        Ok(p) => p,
        Err(e) => {
            return Err(e);
        },
    };
    match partial.parse_next(parse_action) {
        Ok(p) => Ok(p.parsed),
        Err(e) => Err(e),
    }
}

} // verus!

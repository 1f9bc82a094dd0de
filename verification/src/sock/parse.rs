//! A reader of messages that keeps its values in one list, and the
//! step-by-step readers of
//! `<ticket>:<type>:<parameter>:...` messages.
use vstd::prelude::*;
use std::rc::Rc;
use crate::ParseFrom;
use crate::ids::{Uuid, uuid_parsed, hyphenated, lemma_hyphenated_chars};
use crate::game::{Action, Item, unrecognized_item_message};
use crate::text::{
    opt_view, views, first_index, split_on, parse_i32, chars_of, find_char, sub_chars,
    string_of, string_from, concat_str, concat_strs, chars_eq, split_chars, parse_i32_chars,
    i32_text, digit_char, unsigned_part, digits_value, all_digits, lemma_first_index,
    lemma_split_nonempty, lemma_split_no_sep, lemma_split_sep_append,
};
use super::{Message, message_text};
use super::msg::{spec_parse_ticket, split_ticket};

verus! {

/// A value read from a message.
#[derive(Debug)]
pub enum MsgVal {
    WsMessage(Message),
    Uuid(Uuid),
    Item(Item),
    Action(Action),
    String(String),
}

impl From<Uuid> for MsgVal {
    fn from(v: Uuid) -> (r: MsgVal)
        ensures
            r == MsgVal::Uuid(v),
    {
        MsgVal::Uuid(v)
    }
}

impl vstd::std_specs::convert::FromSpecImpl<Uuid> for MsgVal {
    open spec fn obeys_from_spec() -> bool {
        true
    }

    open spec fn from_spec(v: Uuid) -> MsgVal {
        MsgVal::Uuid(v)
    }
}

impl From<Item> for MsgVal {
    fn from(v: Item) -> (r: MsgVal)
        ensures
            r == MsgVal::Item(v),
    {
        MsgVal::Item(v)
    }
}

impl vstd::std_specs::convert::FromSpecImpl<Item> for MsgVal {
    open spec fn obeys_from_spec() -> bool {
        true
    }

    open spec fn from_spec(v: Item) -> MsgVal {
        MsgVal::Item(v)
    }
}

impl From<Action> for MsgVal {
    fn from(v: Action) -> (r: MsgVal)
        ensures
            r == MsgVal::Action(v),
    {
        MsgVal::Action(v)
    }
}

impl vstd::std_specs::convert::FromSpecImpl<Action> for MsgVal {
    open spec fn obeys_from_spec() -> bool {
        true
    }

    open spec fn from_spec(v: Action) -> MsgVal {
        MsgVal::Action(v)
    }
}

impl From<String> for MsgVal {
    fn from(v: String) -> (r: MsgVal)
        ensures
            r == MsgVal::String(v),
    {
        MsgVal::String(v)
    }
}

impl vstd::std_specs::convert::FromSpecImpl<String> for MsgVal {
    open spec fn obeys_from_spec() -> bool {
        true
    }

    open spec fn from_spec(v: String) -> MsgVal {
        MsgVal::String(v)
    }
}

/// The values read from a message, the last one read first.
#[derive(Debug)]
pub struct MsgCell {
    pub val: MsgVal,
    pub next: Option<Rc<MsgCell>>,
}

/// A message partly read: the values read so far, and what is left to read.
#[derive(Debug)]
struct PartialMsg<T> {
    parsed: Option<Rc<MsgCell>>,
    pending: Option<T>,
}

impl PartialMsg<Message> {
    fn new(msg: Message) -> (r: Self)
        ensures
            r.parsed is None,
            r.pending == Some(msg),
    {
        PartialMsg { parsed: None, pending: Some(msg) }
    }
}

impl<T> PartialMsg<T> {
    /// Reads the next value with `parser` from what is left, keeping the values
    /// read before; fails where nothing is left.
    fn parse_next<F, Tnew, Tresult>(self, parser: F) -> (res: Result<PartialMsg<Tnew>, String>) where
        F: Fn(T) -> Result<(Tresult, Option<Tnew>), String>,
        MsgVal: From<Tresult>,

        requires
            self.pending matches Some(p) ==> call_requires(parser, (p,)),
        ensures
            self.pending is None ==> (res matches Err(e) && e@ == "No pending to parse"@),
            self.pending matches Some(p) ==> exists|r: Result<(Tresult, Option<Tnew>), String>|
                #[trigger] call_ensures(parser, (p,), r) && match r {
                    Ok((v, t)) => res matches Ok(q) && q.parsed matches Some(c) && call_ensures(
                        MsgVal::from,
                        (v,),
                        c.val,
                    ) && c.next == self.parsed && q.pending == t,
                    Err(e) => res matches Err(e2) && e2 == e,
                },
    {
        let pending = match self.pending {
            None => {
                return Err(string_from("No pending to parse"));
            },
            Some(p) => p,
        };
        match parser(pending) {
            Ok((newly_parsed, still_pending)) => Ok(
                PartialMsg {
                    parsed: Some(Rc::new(MsgCell { next: self.parsed, val: newly_parsed.into() })),
                    pending: still_pending,
                },
            ),
            Err(e) => Err(e),
        }
    }
}

/// Reads the ticket at the head of a message: its value and the text after the
/// first `:`, if there is one.
fn parse_ticket(msg: Message) -> (res: Result<(Uuid, Option<String>), String>)
    ensures
        match spec_parse_ticket(Some(msg)) {
            Ok((v, rest)) => res matches Ok((u, r)) && u.value == v && opt_view(r) == rest,
            Err(e) => res matches Err(e2) && e2@ == e,
        },
{
    super::msg::parse_ticket(Some(msg))
}

/// Reading an action `<type>(<parameters>)`, where the text holds a `(`: the item
/// code of `addItemToInventory(..)` (its last parameter) and what follows. The
/// parentheses stay in the text kept, the parameters between them are taken out;
/// without a `)` everything after the `(` is a parameter.
pub open spec fn spec_parse_action(s: Seq<char>) -> Result<(i32, Option<Seq<char>>), Seq<char>> {
    let lp = first_index(s, '(')->0;
    let action_type = s.take(lp);
    let rest = s.skip(lp);
    let rp = match first_index(rest, ')') {
        Some(i) => i,
        None => rest.len() as int,
    };
    let params = split_on(rest.subrange(1, rp), ',');
    let remainder = rest.take(1) + rest.skip(rp);
    if action_type.len() == 0 {
        Err("missing action type"@)
    } else if params.len() == 0 {
        Err("missing action params"@)
    } else if action_type == "addItemToInventory"@ {
        match parse_i32(params.last()) {
            None => Err("invalid i32"@),
            Some(code) => if 0 <= code <= 2 {
                Ok((code, Some(remainder)))
            } else {
                Err(unrecognized_item_message(code))
            },
        }
    } else {
        Err("unrecognized action "@ + action_type)
    }
}

/// Reads an action `<type>(<parameters>)` from a text that holds a `(`.
fn parse_action(action_string: String) -> (res: Result<(Action, Option<String>), String>)
    requires
        first_index(action_string@, '(') is Some,
    ensures
        match spec_parse_action(action_string@) {
            Ok((code, rest)) => res matches Ok((Action::addItemToInventory(item), r))
                && item.fresh_of_kind(code as int) && opt_view(r) == rest,
            Err(e) => res matches Err(e2) && e2@ == e,
        },
{
    let s = chars_of(action_string.as_str());
    let left_paren = match find_char(s.as_slice(), '(') {
        Some(i) => i,
        None => s.len(),
    };
    let action_type = sub_chars(s.as_slice(), 0, left_paren);
    let rest = sub_chars(s.as_slice(), left_paren, s.len());
    proof {
        assert(action_type@ =~= s@.take(left_paren as int));
        assert(rest@ =~= s@.skip(left_paren as int));
    }
    let right_paren = match find_char(rest.as_slice(), ')') {
        Some(i) => i,
        None => rest.len(),
    };
    assert(rest@[0] == '(');
    let params_chars = sub_chars(rest.as_slice(), 1, right_paren);
    let mut action_parameters = split_chars(params_chars.as_slice(), ',');
    let mut remainder_chars = sub_chars(rest.as_slice(), 0, 1);
    let tail = sub_chars(rest.as_slice(), right_paren, rest.len());
    let mut k: usize = 0;
    while k < tail.len()
        invariant
            k <= tail@.len(),
            remainder_chars@ == rest@.take(1) + tail@.take(k as int),
        decreases tail@.len() - k,
    {
        remainder_chars.push(tail[k]);
        k += 1;
        assert(tail@.take(k as int) =~= tail@.take(k - 1).push(tail@[k - 1]));
    }
    proof {
        assert(tail@.take(tail@.len() as int) =~= tail@);
        assert(rest@.subrange(0, 1) =~= rest@.take(1));
        assert(tail@ =~= rest@.skip(right_paren as int));
    }
    let remainder = string_of(remainder_chars.as_slice());
    let ghost params = split_on(rest@.subrange(1, right_paren as int), ',');
    if action_type.len() == 0 {
        return Err(string_from("missing action type"));
    }
    if action_parameters.len() == 0 {
        return Err(string_from("missing action params"));
    }
    let add_item = chars_of("addItemToInventory");
    if chars_eq(action_type.as_slice(), add_item.as_slice()) {
        let item_str = match action_parameters.pop() {
            Some(p) => p,
            None => {
                return Err(string_from("addItemToInventory: no item"));
            },
        };
        assert(item_str@ == params.last());
        let item_code = match parse_i32_chars(item_str.as_slice()) {
            None => {
                return Err(string_from("invalid i32"));
            },
            Some(c) => c,
        };
        match Item::parse(item_code) {
            Ok(item) => Ok((Action::addItemToInventory(item), Some(remainder))),
            Err(e) => Err(e),
        }
    } else {
        Err(concat_str("unrecognized action ", action_type.as_slice()))
    }
}

/// Reading a whole message: the item code of its action and its ticket. There
/// is nothing to read the action from where the ticket has no `:` after it.
pub open spec fn spec_parse(msg: Message) -> Result<(i32, u128), Seq<char>> {
    match spec_parse_ticket(Some(msg)) {
        Err(e) => Err(e),
        Ok((t, None)) => Err("No pending to parse"@),
        Ok((t, Some(rest))) => match spec_parse_action(rest) {
            Err(e) => Err(e),
            Ok((code, _)) => Ok((code, t)),
        },
    }
}

/// Whether reading the message gets to an action text without `(`, where the
/// reader cannot go on.
pub open spec fn action_without_paren(msg: Message) -> bool {
    spec_parse_ticket(Some(msg)) matches Ok((_, Some(rest))) && first_index(rest, '(') is None
}

/// The values read from an action message: the action, adding an item of kind
/// `code`, and then the ticket `t`.
pub open spec fn action_cell(c: MsgCell, code: i32, t: u128) -> bool {
    &&& c.val matches MsgVal::Action(Action::addItemToInventory(item)) && item.fresh_of_kind(
        code as int,
    )
    &&& c.next matches Some(n) && n.val == (MsgVal::Uuid(Uuid { value: t })) && n.next is None
}

/// Every item code reads: a message `<ticket>:addItemToInventory(<code>)` with a
/// code that names an item (0, 1 or 2) is read by the list reader as that code
/// and that ticket, where the ticket text holds no `:` and reads as the UUID `t`;
/// the reader gets to the action's `(`.
pub proof fn lemma_list_reader_reads_action(msg: Message, ticket: Seq<char>, t: u128, code: i32)
    requires
        forall|i: int| 0 <= i < ticket.len() ==> ticket[i] != ':',
        uuid_parsed(ticket) == Some(t),
        0 <= code <= 2,
        message_text(msg) == Some(ticket + ":addItemToInventory("@ + i32_text(code) + ")"@),
    ensures
        spec_parse(msg) == Ok::<(i32, u128), Seq<char>>((code, t)),
        !action_without_paren(msg),
{
    reveal_strlit(":addItemToInventory(");
    reveal_strlit("addItemToInventory");
    reveal_strlit(")");
    let name = "addItemToInventory"@;
    let a = ":addItemToInventory("@;
    assert(a =~= seq![':'] + name + seq!['(']);
    let c = digit_char(code as int);
    let d = i32_text(code);
    assert(d =~= seq![c]);
    let s = ticket + a + d + ")"@;
    let tl = ticket.len() as int;
    assert(s =~= ticket + (seq![':'] + (name + (seq!['(', c, ')']))));
    assert(s[tl] == ':');
    lemma_first_index(s, ':', tl);
    assert(s.take(tl) =~= ticket);
    let rest = s.skip(tl + 1);
    assert(rest =~= name + seq!['(', c, ')']);
    assert(split_ticket(s) == (ticket, Some(rest)));
    assert(spec_parse_ticket(Some(msg)) == Ok::<(u128, Option<Seq<char>>), Seq<char>>(
        (t, Some(rest)),
    ));
    assert forall|j: int| 0 <= j < 18 implies rest[j] != '(' by {
        assert(rest[j] == name[j]);
    }
    assert(rest[18] == '(');
    lemma_first_index(rest, '(', 18);
    assert(rest.take(18) =~= name);
    let rest2 = rest.skip(18);
    assert(rest2 =~= seq!['(', c, ')']);
    assert(rest2[1] != ')');
    lemma_first_index(rest2, ')', 2);
    assert(rest2.subrange(1, 2) =~= seq![c]);
    lemma_split_no_sep(seq![c], ',');
    let params = split_on(rest2.subrange(1, 2), ',');
    assert(params == seq![seq![c]]);
    let one = seq![c];
    assert(params.last() == one);
    assert(unsigned_part(one) == one);
    assert(one.drop_last() =~= Seq::<char>::empty());
    assert(digits_value(Seq::<char>::empty()) == 0);
    assert(one.last() == c);
    assert(c as int == code as int + 48);
    assert(digits_value(one) == code as int);
    assert(all_digits(one));
    assert(parse_i32(one) == Some(code));
}

/// Reads a message `<ticket>:<action>`: the values read, the action first and
/// the ticket after it, or the message of the first thing that could not be read.
pub fn parse(msg: Message) -> (res: Result<Rc<MsgCell>, String>)
    requires
        !action_without_paren(msg),
    ensures
        match spec_parse(msg) {
            Ok((code, t)) => res matches Ok(c) && action_cell(*c, code, t),
            Err(e) => res matches Err(e2) && e2@ == e,
        },
{
    let first = PartialMsg::new(msg).parse_next(parse_ticket);
    let partial = match first {
        Ok(p) => p,
        Err(e) => {
            return Err(e);
        },
    };
    let second = partial.parse_next(parse_action);
    let done = match second {
        Ok(p) => p,
        Err(e) => {
            return Err(e);
        },
    };
    match done.parsed {
        Some(c) => Ok(c),
        None => Err(string_from("")),
    }
}

/// Reads a message as `parse` does, or gives `None` for a message whose action
/// text has no `(`, which `parse` cannot read.
pub fn try_parse(msg: Message) -> (res: Option<Result<Rc<MsgCell>, String>>)
    ensures
        res is None <==> action_without_paren(msg),
        res matches Some(r) ==> match spec_parse(msg) {
            Ok((code, t)) => r matches Ok(c) && action_cell(*c, code, t),
            Err(e) => r matches Err(e2) && e2@ == e,
        },
{
    let copy = msg.clone();
    if let Ok((_, Some(rest))) = parse_ticket(copy) {
        let chars = chars_of(rest.as_str());
        if find_char(chars.as_slice(), '(').is_none() {
            return None;
        }
    }
    Some(parse(msg))
}

/// Reading a `:`-separated message: the value of the ticket before the first `:`
/// and the pieces between the other `:`s, empty pieces kept.
pub open spec fn spec_parse_message_ticket(msg: Message) -> Result<
    (u128, Seq<Seq<char>>),
    Seq<char>,
> {
    match message_text(msg) {
        None => Err(
            "parse_message_ticket failure: "@
                + "cannot get text from Message; is it a binary Message?"@,
        ),
        Some(t) => match uuid_parsed(split_on(t, ':')[0]) {
            None => Err("parse_message_ticket failure: "@ + "ticket is invalid uuidv4"@),
            Some(v) => Ok((v, split_on(t, ':').drop_first())),
        },
    }
}

/// The text `:<x0>:<x1>...` of pieces, each after a `:`.
pub open spec fn colon_pieces(xs: Seq<Seq<char>>) -> Seq<char>
    decreases xs.len(),
{
    if xs.len() == 0 {
        Seq::empty()
    } else {
        colon_pieces(xs.drop_last()) + seq![':'] + xs.last()
    }
}

/// A text without `:` followed by `:`-led pieces without `:` splits back into
/// that text and those pieces.
pub proof fn lemma_split_colon_pieces(head: Seq<char>, xs: Seq<Seq<char>>)
    requires
        forall|i: int| 0 <= i < head.len() ==> head[i] != ':',
        forall|k: int, i: int| 0 <= k < xs.len() && 0 <= i < xs[k].len() ==> xs[k][i] != ':',
    ensures
        split_on(head + colon_pieces(xs), ':') == seq![head] + xs,
    decreases xs.len(),
{
    if xs.len() == 0 {
        assert(head + colon_pieces(xs) =~= head);
        lemma_split_no_sep(head, ':');
        assert(seq![head] + xs =~= seq![head]);
    } else {
        let ys = xs.drop_last();
        let x = xs.last();
        assert forall|k: int, i: int| 0 <= k < ys.len() && 0 <= i < ys[k].len() implies ys[k][i]
            != ':' by {
            assert(ys[k] == xs[k]);
        }
        lemma_split_colon_pieces(head, ys);
        assert forall|i: int| 0 <= i < x.len() implies x[i] != ':' by {
            assert(xs[xs.len() - 1] == x);
        }
        let a = head + colon_pieces(ys);
        assert(head + colon_pieces(xs) =~= a.push(':') + x);
        lemma_split_sep_append(a, ':', x);
        assert(seq![head] + xs =~= (seq![head] + ys).push(x));
    }
}

/// A message `<ticket>:<x0>:<x1>...` is read back as the ticket and the pieces,
/// empty pieces kept, where the ticket text reads as the UUID `t` and neither it
/// nor any piece holds `:`.
pub proof fn lemma_message_ticket_roundtrip(
    msg: Message,
    ticket: Seq<char>,
    t: u128,
    xs: Seq<Seq<char>>,
)
    requires
        forall|i: int| 0 <= i < ticket.len() ==> ticket[i] != ':',
        forall|k: int, i: int| 0 <= k < xs.len() && 0 <= i < xs[k].len() ==> xs[k][i] != ':',
        uuid_parsed(ticket) == Some(t),
        message_text(msg) == Some(ticket + colon_pieces(xs)),
    ensures
        spec_parse_message_ticket(msg) == Ok::<(u128, Seq<Seq<char>>), Seq<char>>((t, xs)),
{
    lemma_split_colon_pieces(ticket, xs);
    assert((seq![ticket] + xs)[0] == ticket);
    assert((seq![ticket] + xs).drop_first() =~= xs);
}

/// A message made of a UUID's printed (hyphenated) form and `:`-led pieces
/// without `:` is read back as that UUID and those pieces, where `uuid::Uuid`
/// reads the hyphenated form back as the UUID.
pub proof fn lemma_printed_ticket_roundtrip(msg: Message, t: u128, xs: Seq<Seq<char>>)
    requires
        forall|k: int, i: int| 0 <= k < xs.len() && 0 <= i < xs[k].len() ==> xs[k][i] != ':',
        uuid_parsed(hyphenated(t)) == Some(t),
        message_text(msg) == Some(hyphenated(t) + colon_pieces(xs)),
    ensures
        spec_parse_message_ticket(msg) == Ok::<(u128, Seq<Seq<char>>), Seq<char>>((t, xs)),
{
    lemma_hyphenated_chars(t);
    assert forall|i: int| 0 <= i < hyphenated(t).len() implies hyphenated(t)[i] != ':' by {
        let c = hyphenated(t)[i];
        assert(c == '-' || ('0' <= c <= '9') || ('a' <= c <= 'f'));
    }
    lemma_message_ticket_roundtrip(msg, hyphenated(t), t, xs);
}

/// Reads the ticket at the head of a `:`-separated message, and the other pieces.
pub fn parse_message_ticket(msg: Message) -> (res: Result<(Uuid, Vec<String>), String>)
    ensures
        match spec_parse_message_ticket(msg) {
            Ok((v, pieces)) => res matches Ok((u, rest)) && u.value == v && views(rest@) == pieces,
            Err(e) => res matches Err(e2) && e2@ == e,
        },
{
    let text = match msg.into_text() {
        None => {
            return Err(
                concat_strs(
                    "parse_message_ticket failure: ",
                    "cannot get text from Message; is it a binary Message?",
                ),
            );
        },
        Some(t) => t,
    };
    let chars = chars_of(text.as_str());
    let pieces = split_chars(chars.as_slice(), ':');
    let ghost sp = split_on(text@, ':');
    proof {
        lemma_split_nonempty(text@, ':');
    }
    let uuid_string = string_of(pieces[0].as_slice());
    let uuid = match Uuid::parse_str(uuid_string.as_str()) {
        None => {
            return Err(
                concat_strs("parse_message_ticket failure: ", "ticket is invalid uuidv4"),
            );
        },
        Some(u) => u,
    };
    let mut rest: Vec<String> = Vec::new();
    let mut i: usize = 1;
    while i < pieces.len()
        invariant
            1 <= i <= pieces@.len(),
            pieces@.len() == sp.len(),
            forall|k: int| 0 <= k < pieces@.len() ==> #[trigger] pieces@[k]@ == sp[k],
            views(rest@) == sp.subrange(1, i as int),
        decreases pieces@.len() - i,
    {
        let ghost before = rest@;
        rest.push(string_of(pieces[i].as_slice()));
        assert(views(rest@) =~= views(before).push(sp[i as int]));
        i += 1;
        assert(sp.subrange(1, i as int) =~= sp.subrange(1, i - 1).push(sp[i - 1]));
    }
    assert(sp.subrange(1, sp.len() as int) =~= sp.drop_first());
    Ok((uuid, rest))
}

/// Splits the message type off its parameters: fails where there is no type or
/// it is empty.
pub fn parse_message_type(msg_contents: Vec<String>) -> (res: Result<(String, Vec<String>), String>)
    ensures
        msg_contents@.len() == 0 ==> (res matches Err(e) && e@
            == "missing message type and params"@),
        msg_contents@.len() > 0 && msg_contents@[0]@.len() == 0 ==> (res matches Err(e) && e@
            == "msg_type is empty"@),
        msg_contents@.len() > 0 && msg_contents@[0]@.len() > 0 ==> (res matches Ok((f, r)) && f@
            == msg_contents@[0]@ && views(r@) == views(msg_contents@).drop_first()),
{
    let mut msg_contents = msg_contents;
    if msg_contents.len() == 0 {
        return Err(string_from("missing message type and params"));
    }
    let ghost all = views(msg_contents@);
    let f = msg_contents.remove(0);
    assert(views(msg_contents@) =~= all.drop_first());
    if f.as_str().is_empty() {
        Err(string_from("msg_type is empty"))
    } else {
        Ok((f, msg_contents))
    }
}

/// Reads the action of a message type and its parameters: `addItemToInventory`
/// takes exactly one parameter, the item code.
pub fn parse_message_action(msg: (String, Vec<String>)) -> (res: Result<Action, String>)
    ensures
        ({
            let (msg_type, msg_params) = msg;
            if msg_type@ == "addItemToInventory"@ {
                if msg_params@.len() != 1 {
                    res matches Err(e) && e@
                        == "parse_message failure: addItemToInventory: no item code"@
                } else {
                    match parse_i32(msg_params@[0]@) {
                        None => res matches Err(e) && e@
                            == "parse_message failure: addItemToInventory: invalid i32 item code"@,
                        Some(code) => if 0 <= code <= 2 {
                            res matches Ok(Action::addItemToInventory(item)) && item.fresh_of_kind(code as int)
                        } else {
                            res matches Err(e) && e@ == unrecognized_item_message(code)
                        },
                    }
                }
            } else {
                res matches Err(e) && e@ == "parse_message failure: unrecognized message type"@
            }
        }),
{
    let (msg_type, msg_params) = msg;
    let type_chars = chars_of(msg_type.as_str());
    let add_item = chars_of("addItemToInventory");
    if chars_eq(type_chars.as_slice(), add_item.as_slice()) {
        if msg_params.len() != 1 {
            Err(string_from("parse_message failure: addItemToInventory: no item code"))
        } else {
            let param = chars_of(msg_params[0].as_str());
            match parse_i32_chars(param.as_slice()) {
                Some(item_num) => match Item::parse(item_num) {
                    Ok(item) => Ok(Action::addItemToInventory(item)),
                    Err(e) => Err(e),
                },
                None => Err(
                    string_from(
                        "parse_message failure: addItemToInventory: invalid i32 item code",
                    ),
                ),
            }
        }
    } else {
        Err(string_from("parse_message failure: unrecognized message type"))
    }
}

} // verus!

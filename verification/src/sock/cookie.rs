//! Cookies: reading the `Cookie` request header and writing `Set-Cookie`.
use vstd::prelude::*;
use vstd::utf8::{valid_utf8, decode_utf8, encode_utf8};
use vstd::string::StringExecFns;
use crate::text::{
    split_on, trim, chars_of, string_from, split_chars, trim_chars, string_of, decode_utf8_bytes, utf8_bytes,
    lemma_split_no_sep, lemma_split_sep_append,
};

verus! {

/// The name and value of one `;`-separated piece of a cookie header: the
/// trimmed texts before the first `=` and between the first and a second `=`.
/// A piece without `=` holds no cookie.
pub open spec fn cookie_entry(seg: Seq<char>) -> Option<(Seq<char>, Seq<char>)> {
    let p = split_on(seg, '=');
    if p.len() >= 2 {
        Some((trim(p[0]), trim(p[1])))
    } else {
        None
    }
}

/// The cookies of the pieces of a header, in order.
pub open spec fn cookie_pairs(segs: Seq<Seq<char>>) -> Seq<(Seq<char>, Seq<char>)>
    decreases segs.len(),
{
    if segs.len() == 0 {
        Seq::empty()
    } else {
        match cookie_entry(segs.last()) {
            Some(p) => cookie_pairs(segs.drop_last()).push(p),
            None => cookie_pairs(segs.drop_last()),
        }
    }
}

/// The value of the first cookie called `name`.
pub open spec fn first_value(pairs: Seq<(Seq<char>, Seq<char>)>, name: Seq<char>) -> Option<
    Seq<char>,
>
    decreases pairs.len(),
{
    if pairs.len() == 0 {
        None
    } else {
        match first_value(pairs.drop_last(), name) {
            Some(v) => Some(v),
            None => if pairs.last().0 == name {
                Some(pairs.last().1)
            } else {
                None
            },
        }
    }
}

/// The map from names to values that pairs hold, the first value of a name winning.
pub open spec fn pairs_map(pairs: Seq<(Seq<char>, Seq<char>)>) -> Map<Seq<char>, Seq<char>> {
    Map::new(|n: Seq<char>| first_value(pairs, n) is Some, |n: Seq<char>| first_value(pairs, n)->0)
}

/// The cookies of a header text: the pieces between `;`, each split at `=`;
/// where a name occurs twice the first piece wins.
pub open spec fn cookie_map(text: Seq<char>) -> Map<Seq<char>, Seq<char>> {
    pairs_map(cookie_pairs(split_on(text, ';')))
}

/// The text of a header's bytes: empty where there is no header or its bytes
/// are not valid UTF-8.
pub open spec fn header_text(header: Option<Seq<u8>>) -> Seq<char> {
    match header {
        Some(b) => if valid_utf8(b) {
            decode_utf8(b)
        } else {
            Seq::empty()
        },
        None => Seq::empty(),
    }
}

/// A header setting cookie `name` to `value` reads back as that cookie alone,
/// where neither holds `;` or `=` and neither begins or ends with whitespace.
pub proof fn lemma_cookie_roundtrip(name: Seq<char>, value: Seq<char>)
    requires
        forall|i: int| 0 <= i < name.len() ==> name[i] != ';' && name[i] != '=',
        forall|i: int| 0 <= i < value.len() ==> value[i] != ';' && value[i] != '=',
        trim(name) == name,
        trim(value) == value,
    ensures
        cookie_map(name + "="@ + value) == map![name => value],
{
    reveal_strlit("=");
    let s = name + "="@ + value;
    assert(s =~= name.push('=') + value);
    assert forall|i: int| 0 <= i < s.len() implies s[i] != ';' by {
        if i < name.len() {
            assert(s[i] == name[i]);
        } else if i > name.len() {
            assert(s[i] == value[i - name.len() - 1]);
        }
    }
    lemma_split_no_sep(s, ';');
    lemma_split_no_sep(name, '=');
    lemma_split_sep_append(name, '=', value);
    assert(split_on(s, '=') =~= seq![name, value]);
    let segs = seq![s];
    assert(segs.drop_last() =~= Seq::<Seq<char>>::empty());
    assert(cookie_pairs(Seq::<Seq<char>>::empty()) == Seq::<(Seq<char>, Seq<char>)>::empty());
    assert(cookie_entry(s) == Some((name, value)));
    assert(cookie_pairs(segs) =~= seq![(name, value)]);
    let pairs = seq![(name, value)];
    let none = Seq::<(Seq<char>, Seq<char>)>::empty();
    assert(pairs.drop_last() =~= none);
    assert forall|k: Seq<char>| #[trigger] first_value(pairs, k) == (if k == name {
        Some(value)
    } else {
        None::<Seq<char>>
    }) by {
        assert(first_value(none, k) is None);
    }
    assert(pairs_map(pairs) =~= map![name => value]);
}

/// Every `;`-separated piece of a header counts, however many come before it:
/// appending a piece `name=value` (neither holding `;` or `=`) to a header adds
/// the cookie of the trimmed name and value, unless the header already holds a
/// cookie of that name, whose first value stays.
pub proof fn lemma_cookie_appended(a: Seq<char>, name: Seq<char>, value: Seq<char>)
    requires
        forall|i: int| 0 <= i < name.len() ==> name[i] != ';' && name[i] != '=',
        forall|i: int| 0 <= i < value.len() ==> value[i] != ';' && value[i] != '=',
    ensures
        cookie_map(a + ";"@ + name + "="@ + value) == (if cookie_map(a).contains_key(trim(name)) {
            cookie_map(a)
        } else {
            cookie_map(a).insert(trim(name), trim(value))
        }),
{
    reveal_strlit("=");
    reveal_strlit(";");
    let s = name + "="@ + value;
    let whole = a + ";"@ + name + "="@ + value;
    assert(whole =~= a.push(';') + s);
    assert(s =~= name.push('=') + value);
    assert forall|i: int| 0 <= i < s.len() implies s[i] != ';' by {
        if i < name.len() {
            assert(s[i] == name[i]);
        } else if i > name.len() {
            assert(s[i] == value[i - name.len() - 1]);
        }
    }
    lemma_split_sep_append(a, ';', s);
    let segs = split_on(a, ';');
    assert(split_on(whole, ';') == segs.push(s));
    lemma_split_no_sep(name, '=');
    lemma_split_sep_append(name, '=', value);
    assert(split_on(s, '=') =~= seq![name, value]);
    let p = (trim(name), trim(value));
    assert(cookie_entry(s) == Some(p));
    assert(segs.push(s).drop_last() =~= segs);
    assert(segs.push(s).last() == s);
    let pairs = cookie_pairs(segs);
    assert(cookie_pairs(segs.push(s)) == pairs.push(p));
    assert(pairs.push(p).drop_last() =~= pairs);
    assert forall|k: Seq<char>| #[trigger] first_value(pairs.push(p), k) == (match first_value(
        pairs,
        k,
    ) {
        Some(v) => Some(v),
        None => if p.0 == k {
            Some(p.1)
        } else {
            None
        },
    }) by {}
    let m = cookie_map(a);
    if m.contains_key(trim(name)) {
        assert(pairs_map(pairs.push(p)) =~= m);
    } else {
        assert(pairs_map(pairs.push(p)) =~= m.insert(trim(name), trim(value)));
    }
}

/// A `;`-separated piece without `=` holds no cookie: appending one to a
/// header leaves its cookies as they were.
pub proof fn lemma_cookie_appended_plain(a: Seq<char>, piece: Seq<char>)
    requires
        forall|i: int| 0 <= i < piece.len() ==> piece[i] != ';' && piece[i] != '=',
    ensures
        cookie_map(a + ";"@ + piece) == cookie_map(a),
{
    reveal_strlit(";");
    let whole = a + ";"@ + piece;
    assert(whole =~= a.push(';') + piece);
    lemma_split_sep_append(a, ';', piece);
    let segs = split_on(a, ';');
    lemma_split_no_sep(piece, '=');
    assert(cookie_entry(piece) is None);
    assert(segs.push(piece).drop_last() =~= segs);
    assert(cookie_pairs(segs.push(piece)) == cookie_pairs(segs));
    assert(pairs_map(cookie_pairs(segs)) =~= cookie_map(a));
}

/// The views of name-value pairs.
pub open spec fn pair_views(v: Seq<(String, String)>) -> Seq<(Seq<char>, Seq<char>)> {
    v.map_values(|p: (String, String)| (p.0@, p.1@))
}

/// The cookies of a request, by name.
#[derive(Debug)]
pub struct Cookies {
    entries: Vec<(String, String)>,
}

impl View for Cookies {
    type V = Map<Seq<char>, Seq<char>>;

    closed spec fn view(&self) -> Map<Seq<char>, Seq<char>> {
        pairs_map(pair_views(self.entries@))
    }
}

/// A first value found in a prefix stays the first value.
proof fn lemma_first_value_prefix(p: Seq<(Seq<char>, Seq<char>)>, k: int, name: Seq<char>)
    requires
        0 <= k <= p.len(),
        first_value(p.take(k), name) is Some,
    ensures
        first_value(p, name) == first_value(p.take(k), name),
    decreases p.len() - k,
{
    if k < p.len() {
        assert(p.take(k + 1).drop_last() =~= p.take(k));
        lemma_first_value_prefix(p, k + 1, name);
    } else {
        assert(p.take(k) =~= p);
    }
}

impl Cookies {
    /// The value of the cookie called `name`.
    pub fn get(&self, name: &str) -> (r: Option<&String>)
        ensures
            r is Some <==> self@.contains_key(name@),
            r matches Some(v) ==> v@ == self@[name@],
    {
        let ghost p = pair_views(self.entries@);
        let key = string_from(name);
        let mut i: usize = 0;
        while i < self.entries.len()
            invariant
                i <= self.entries@.len(),
                p == pair_views(self.entries@),
                key@ == name@,
                first_value(p.take(i as int), name@) is None,
            decreases self.entries@.len() - i,
        {
            proof {
                assert(p.take(i + 1).drop_last() =~= p.take(i as int));
                assert(p.take(i + 1).last() == p[i as int]);
            }
            assert(p[i as int] == (self.entries@[i as int].0@, self.entries@[i as int].1@));
            if self.entries[i].0 == key {
                proof {
                    lemma_first_value_prefix(p, i + 1, name@);
                }
                return Some(&self.entries[i].1);
            }
            i += 1;
        }
        assert(p.take(p.len() as int) =~= p);
        None
    }
}

/// The cookies in the text of a `Cookie` header.
pub fn parse_cookie_text(text: &str) -> (r: Cookies)
    ensures
        r@ == cookie_map(text@),
{
    let chars = chars_of(text);
    let segs = split_chars(chars.as_slice(), ';');
    let ghost sv = split_on(text@, ';');
    let mut entries: Vec<(String, String)> = Vec::new();
    let mut i: usize = 0;
    while i < segs.len()
        invariant
            i <= segs@.len(),
            segs@.len() == sv.len(),
            sv == split_on(text@, ';'),
            forall|k: int| 0 <= k < segs@.len() ==> #[trigger] segs@[k]@ == sv[k],
            pair_views(entries@) == cookie_pairs(sv.take(i as int)),
        decreases segs@.len() - i,
    {
        proof {
            assert(sv.take(i + 1).drop_last() =~= sv.take(i as int));
            assert(sv.take(i + 1).last() == sv[i as int]);
        }
        let seg = &segs[i];
        let parts = split_chars(seg.as_slice(), '=');
        if parts.len() >= 2 {
            let name = trim_chars(parts[0].as_slice());
            let value = trim_chars(parts[1].as_slice());
            let ghost before = entries@;
            entries.push((string_of(name.as_slice()), string_of(value.as_slice())));
            assert(pair_views(entries@) =~= pair_views(before).push((name@, value@)));
        }
        i += 1;
    }
    assert(sv.take(sv.len() as int) =~= sv);
    let r = Cookies { entries };
    assert(r@ =~= cookie_map(text@));
    r
}

/// The cookies of a request whose `Cookie` header, if it has one, holds `header`.
/// Bytes that are not valid UTF-8 count as an empty header.
pub fn parse_cookies(header: Option<&[u8]>) -> (r: Cookies)
    ensures
        r@ == cookie_map(
            header_text(
                match header {
                    Some(b) => Some(b@),
                    None => None,
                },
            ),
        ),
{
    let text = match header {
        Some(bytes) => match decode_utf8_bytes(bytes) {
            Some(s) => s,
            None => String::new(),
        },
        None => String::new(),
    };
    parse_cookie_text(text.as_str())
}

/// The value of a `Set-Cookie` header that sets cookie `name` to `value`.
pub open spec fn set_cookie_value(name: Seq<char>, value: Seq<char>) -> Seq<u8> {
    encode_utf8(name + "="@ + value)
}

/// Adds to response headers one that sets cookie `name` to `value`.
pub fn put_cookie(name: String, value: String, headers: &mut Vec<(String, Vec<u8>)>)
    ensures
        final(headers)@.len() == old(headers)@.len() + 1,
        final(headers)@.drop_last() == old(headers)@,
        final(headers)@.last().0@ == "Set-Cookie"@,
        final(headers)@.last().1@ == set_cookie_value(name@, value@),
{
    let mut text = name;
    text.append("=");
    text.append(value.as_str());
    let cookie_bytes = utf8_bytes(text.as_str());
    headers.push((String::from_str("Set-Cookie"), cookie_bytes));
}

} // verus!

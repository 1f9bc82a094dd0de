//! Character-level text handling shared by the cookie and message parsers:
//! splitting, searching, trimming, and decimal numbers.
use vstd::prelude::*;
use vstd::string::StringExecFns;

verus! {

// ---------------------------------------------------------------------------
// Specifications
// ---------------------------------------------------------------------------

/// The views of a sequence of strings.
pub open spec fn views(v: Seq<String>) -> Seq<Seq<char>> {
    v.map_values(|s: String| s@)
}

/// The view of an optional string.
pub open spec fn opt_view(o: Option<String>) -> Option<Seq<char>> {
    match o {
        Some(s) => Some(s@),
        None => None,
    }
}

/// `i` is the position of the first `c` in `s`.
pub open spec fn is_first_index(s: Seq<char>, c: char, i: int) -> bool {
    &&& 0 <= i < s.len()
    &&& s[i] == c
    &&& forall|j: int| 0 <= j < i ==> s[j] != c
}

/// The position of the first `c` in `s` (`str::find` with a one-character pattern).
pub open spec fn first_index(s: Seq<char>, c: char) -> Option<int> {
    if exists|i: int| is_first_index(s, c, i) {
        Some(choose|i: int| is_first_index(s, c, i))
    } else {
        None
    }
}

/// The pieces of `s` between occurrences of `sep` (`str::split` with a
/// one-character pattern): there is always at least one piece.
pub open spec fn split_on(s: Seq<char>, sep: char) -> Seq<Seq<char>>
    decreases s.len(),
{
    if s.len() == 0 {
        seq![Seq::<char>::empty()]
    } else {
        let p = split_on(s.drop_last(), sep);
        if s.last() == sep {
            p.push(Seq::<char>::empty())
        } else {
            p.update(p.len() - 1, p.last().push(s.last()))
        }
    }
}

/// Unicode `White_Space`, which `char::is_whitespace` and `str::trim` use.
pub open spec fn is_whitespace(c: char) -> bool {
    let u = c as u32;
    ||| 0x09 <= u <= 0x0d
    ||| u == 0x20
    ||| u == 0x85
    ||| u == 0xa0
    ||| u == 0x1680
    ||| 0x2000 <= u <= 0x200a
    ||| u == 0x2028
    ||| u == 0x2029
    ||| u == 0x202f
    ||| u == 0x205f
    ||| u == 0x3000
}

/// `s` without its leading whitespace.
pub open spec fn trim_start(s: Seq<char>) -> Seq<char>
    decreases s.len(),
{
    if s.len() > 0 && is_whitespace(s[0]) {
        trim_start(s.drop_first())
    } else {
        s
    }
}

/// `s` without its trailing whitespace.
pub open spec fn trim_end(s: Seq<char>) -> Seq<char>
    decreases s.len(),
{
    if s.len() > 0 && is_whitespace(s.last()) {
        trim_end(s.drop_last())
    } else {
        s
    }
}

/// `s` without leading and trailing whitespace (`str::trim`).
pub open spec fn trim(s: Seq<char>) -> Seq<char> {
    trim_end(trim_start(s))
}

/// `c` is an ASCII decimal digit.
pub open spec fn is_digit(c: char) -> bool {
    '0' <= c <= '9'
}

/// The character of a decimal digit `d` (0 to 9).
pub open spec fn digit_char(d: int) -> char {
    (d + 48) as char
}

/// The value of a string of decimal digits, most significant first.
pub open spec fn digits_value(s: Seq<char>) -> int
    decreases s.len(),
{
    if s.len() == 0 {
        0
    } else {
        digits_value(s.drop_last()) * 10 + (s.last() as int - 48)
    }
}

/// The decimal digits of a natural number, with no leading zero.
pub open spec fn decimal(n: nat) -> Seq<char>
    decreases n,
{
    if n < 10 {
        seq![digit_char(n as int)]
    } else {
        decimal(n / 10).push(digit_char((n % 10) as int))
    }
}

/// How an `i32` is written by `Display`: a `-` before negative numbers.
pub open spec fn i32_text(n: i32) -> Seq<char> {
    if n < 0 {
        seq!['-'] + decimal((-n) as nat)
    } else {
        decimal(n as nat)
    }
}

/// All characters of `ds` are decimal digits.
pub open spec fn all_digits(ds: Seq<char>) -> bool {
    forall|i: int| 0 <= i < ds.len() ==> is_digit(#[trigger] ds[i])
}

/// `s` without a leading `+` or `-`.
pub open spec fn unsigned_part(s: Seq<char>) -> Seq<char> {
    if s.len() > 0 && (s[0] == '-' || s[0] == '+') {
        s.drop_first()
    } else {
        s
    }
}

/// What `str::parse::<i32>` accepts and returns: an optional `+` or `-`, then
/// one or more decimal digits, with a value in the range of `i32`.
pub open spec fn parse_i32(s: Seq<char>) -> Option<i32> {
    let ds = unsigned_part(s);
    let v = if s.len() > 0 && s[0] == '-' {
        -digits_value(ds)
    } else {
        digits_value(ds)
    };
    if ds.len() > 0 && all_digits(ds) && i32::MIN <= v <= i32::MAX {
        Some(v as i32)
    } else {
        None
    }
}

// ---------------------------------------------------------------------------
// Lemmas
// ---------------------------------------------------------------------------

/// Splitting always yields at least one piece.
pub proof fn lemma_split_nonempty(s: Seq<char>, sep: char)
    ensures
        split_on(s, sep).len() >= 1,
    decreases s.len(),
{
    if s.len() > 0 {
        lemma_split_nonempty(s.drop_last(), sep);
    }
}

/// A text without `sep` is one piece.
pub proof fn lemma_split_no_sep(s: Seq<char>, sep: char)
    requires
        forall|i: int| 0 <= i < s.len() ==> s[i] != sep,
    ensures
        split_on(s, sep) == seq![s],
    decreases s.len(),
{
    if s.len() > 0 {
        lemma_split_no_sep(s.drop_last(), sep);
        assert(s.drop_last().push(s.last()) =~= s);
    } else {
        assert(s =~= Seq::<char>::empty());
    }
}

/// A separator ends the pieces before it; a text after it without separators
/// is the last piece.
pub proof fn lemma_split_sep_append(a: Seq<char>, sep: char, b: Seq<char>)
    requires
        forall|i: int| 0 <= i < b.len() ==> b[i] != sep,
    ensures
        split_on(a.push(sep) + b, sep) == split_on(a, sep).push(b),
    decreases b.len(),
{
    let s = a.push(sep) + b;
    if b.len() == 0 {
        assert(s =~= a.push(sep));
        assert(s.drop_last() =~= a);
        assert(b =~= Seq::<char>::empty());
    } else {
        lemma_split_sep_append(a, sep, b.drop_last());
        assert(s.drop_last() =~= a.push(sep) + b.drop_last());
        assert(s.last() == b.last());
        assert(b[b.len() - 1] != sep);
        let p = split_on(s.drop_last(), sep);
        assert(p == split_on(a, sep).push(b.drop_last()));
        assert(split_on(s, sep) == p.update(p.len() - 1, p.last().push(s.last())));
        assert(b.drop_last().push(b.last()) =~= b);
        assert(p.update(p.len() - 1, p.last().push(s.last())) =~= split_on(a, sep).push(b));
    }
}

/// The first index is unique.
pub proof fn lemma_first_index(s: Seq<char>, c: char, i: int)
    requires
        is_first_index(s, c, i),
    ensures
        first_index(s, c) == Some(i),
{
    let k = choose|k: int| is_first_index(s, c, k);
    assert(is_first_index(s, c, k));
    if k < i {
        assert(s[k] != c);
    } else if i < k {
        assert(s[i] != c);
    }
}

/// No occurrence: no first index.
pub proof fn lemma_first_index_none(s: Seq<char>, c: char)
    requires
        forall|j: int| 0 <= j < s.len() ==> s[j] != c,
    ensures
        first_index(s, c) is None,
{
    if exists|i: int| is_first_index(s, c, i) {
        let k = choose|k: int| is_first_index(s, c, k);
        assert(s[k] == c);
    }
}

/// Digit strings have a non-negative value.
pub proof fn lemma_digits_value_nonneg(s: Seq<char>)
    requires
        forall|i: int| 0 <= i < s.len() ==> is_digit(#[trigger] s[i]),
    ensures
        digits_value(s) >= 0,
    decreases s.len(),
{
    if s.len() > 0 {
        assert forall|i: int| 0 <= i < s.drop_last().len() implies is_digit(
            #[trigger] s.drop_last()[i],
        ) by {
            assert(s.drop_last()[i] == s[i]);
        }
        lemma_digits_value_nonneg(s.drop_last());
    }
}

/// Whitespace-free text is its own trim.
pub proof fn lemma_trim_plain(s: Seq<char>)
    requires
        s.len() == 0 || (!is_whitespace(s[0]) && !is_whitespace(s.last())),
    ensures
        trim(s) == s,
{
}

// ---------------------------------------------------------------------------
// Executable functions
// ---------------------------------------------------------------------------

/// The characters of `s`, in order.
pub fn chars_of(s: &str) -> (r: Vec<char>)
    ensures
        r@ == s@,
{
    let mut r: Vec<char> = Vec::new();
    for c in it: s.chars()
        invariant
            r@ == it.seq().take(it.index() as int),
            it.seq() == s@,
    {
        r.push(c);
    }
    r
}

/// Appends one character to a string (`String::push`).
#[verifier::external_body]
fn push_char(s: &mut String, c: char)
    ensures
        final(s)@ == old(s)@.push(c),
{
    s.push(c);
}

/// Appends characters to a string.
pub fn push_chars(s: &mut String, cs: &[char])
    ensures
        final(s)@ == old(s)@ + cs@,
{
    let mut i: usize = 0;
    while i < cs.len()
        invariant
            i <= cs@.len(),
            s@ == old(s)@ + cs@.take(i as int),
        decreases cs@.len() - i,
    {
        push_char(s, cs[i]);
        i += 1;
        assert(cs@.take(i as int) =~= cs@.take(i - 1).push(cs@[i - 1]));
    }
    assert(cs@.take(cs@.len() as int) =~= cs@);
}

/// The string made of the characters of `cs`.
pub fn string_of(cs: &[char]) -> (r: String)
    ensures
        r@ == cs@,
{
    let mut r = String::new();
    push_chars(&mut r, cs);
    r
}

/// The string holding `lit`, then the characters of `cs`.
pub fn concat_str(lit: &str, cs: &[char]) -> (r: String)
    ensures
        r@ == lit@ + cs@,
{
    let mut r = String::from_str(lit);
    push_chars(&mut r, cs);
    r
}

/// The string holding `a`, then `b`.
pub fn concat_strs(a: &str, b: &str) -> (r: String)
    ensures
        r@ == a@ + b@,
{
    let mut r = String::from_str(a);
    r.append(b);
    r
}

/// The string holding `lit`.
pub fn string_from(lit: &str) -> (r: String)
    ensures
        r@ == lit@,
{
    String::from_str(lit)
}

/// The characters `s[from..to]`.
pub fn sub_chars(s: &[char], from: usize, to: usize) -> (r: Vec<char>)
    requires
        from <= to <= s@.len(),
    ensures
        r@ == s@.subrange(from as int, to as int),
{
    let mut r: Vec<char> = Vec::new();
    let mut i = from;
    while i < to
        invariant
            from <= i <= to <= s@.len(),
            r@ == s@.subrange(from as int, i as int),
        decreases to - i,
    {
        r.push(s[i]);
        i += 1;
        assert(r@ =~= s@.subrange(from as int, i as int));
    }
    r
}

/// Whether two character sequences are equal.
pub fn chars_eq(a: &[char], b: &[char]) -> (r: bool)
    ensures
        r == (a@ == b@),
{
    if a.len() != b.len() {
        return false;
    }
    let mut i: usize = 0;
    while i < a.len()
        invariant
            a@.len() == b@.len(),
            i <= a@.len(),
            forall|j: int| 0 <= j < i ==> a@[j] == b@[j],
        decreases a@.len() - i,
    {
        if a[i] != b[i] {
            return false;
        }
        i += 1;
    }
    assert(a@ =~= b@);
    true
}

/// The last non-empty piece.
pub open spec fn last_nonempty(p: Seq<Seq<char>>) -> Option<Seq<char>>
    decreases p.len(),
{
    if p.len() == 0 {
        None
    } else if p.last().len() > 0 {
        Some(p.last())
    } else {
        last_nonempty(p.drop_last())
    }
}

/// The last non-empty piece of `pieces`.
pub fn last_nonempty_piece(pieces: &Vec<Vec<char>>) -> (r: Option<&Vec<char>>)
    ensures
        match r {
            Some(v) => last_nonempty(pieces@.map_values(|x: Vec<char>| x@)) == Some(v@),
            None => last_nonempty(pieces@.map_values(|x: Vec<char>| x@)) is None,
        },
{
    let ghost pv = pieces@.map_values(|x: Vec<char>| x@);
    let mut i: usize = pieces.len();
    assert(pv.take(i as int) =~= pv);
    while i > 0
        invariant
            i <= pieces@.len(),
            pv == pieces@.map_values(|x: Vec<char>| x@),
            last_nonempty(pv) == last_nonempty(pv.take(i as int)),
        decreases i,
    {
        assert(pv.take(i as int).drop_last() =~= pv.take(i - 1));
        assert(pv.take(i as int).last() == pieces@[i - 1]@);
        if pieces[i - 1].len() > 0 {
            return Some(&pieces[i - 1]);
        }
        i -= 1;
    }
    None
}

/// The position of the first `c` in `s`.
pub fn find_char(s: &[char], c: char) -> (r: Option<usize>)
    ensures
        match r {
            Some(i) => first_index(s@, c) == Some(i as int) && is_first_index(s@, c, i as int),
            None => first_index(s@, c) is None,
        },
{
    let mut i: usize = 0;
    while i < s.len()
        invariant
            i <= s@.len(),
            forall|j: int| 0 <= j < i ==> s@[j] != c,
        decreases s@.len() - i,
    {
        if s[i] == c {
            proof {
                lemma_first_index(s@, c, i as int);
            }
            return Some(i);
        }
        i += 1;
    }
    proof {
        lemma_first_index_none(s@, c);
    }
    None
}

/// The pieces of `s` between occurrences of `sep`.
pub fn split_chars(s: &[char], sep: char) -> (r: Vec<Vec<char>>)
    ensures
        r@.len() == split_on(s@, sep).len(),
        forall|k: int| 0 <= k < r@.len() ==> #[trigger] r@[k]@ == split_on(s@, sep)[k],
{
    let mut parts: Vec<Vec<char>> = Vec::new();
    let mut cur: Vec<char> = Vec::new();
    let mut i: usize = 0;
    while i < s.len()
        invariant
            i <= s@.len(),
            parts@.len() + 1 == split_on(s@.take(i as int), sep).len(),
            forall|k: int|
                0 <= k < parts@.len() ==> #[trigger] parts@[k]@ == split_on(
                    s@.take(i as int),
                    sep,
                )[k],
            cur@ == split_on(s@.take(i as int), sep).last(),
        decreases s@.len() - i,
    {
        proof {
            let t = s@.take(i as int + 1);
            assert(t.drop_last() =~= s@.take(i as int));
            assert(t.last() == s@[i as int]);
            lemma_split_nonempty(s@.take(i as int), sep);
        }
        if s[i] == sep {
            parts.push(cur);
            cur = Vec::new();
        } else {
            cur.push(s[i]);
        }
        i += 1;
    }
    assert(s@.take(s@.len() as int) =~= s@);
    parts.push(cur);
    parts
}

/// `c` is whitespace (`char::is_whitespace`).
pub fn is_ws(c: char) -> (r: bool)
    ensures
        r == is_whitespace(c),
{
    let u = c as u32;
    (0x09 <= u && u <= 0x0d) || u == 0x20 || u == 0x85 || u == 0xa0 || u == 0x1680 || (0x2000
        <= u && u <= 0x200a) || u == 0x2028 || u == 0x2029 || u == 0x202f || u == 0x205f || u
        == 0x3000
}

/// `s` without leading and trailing whitespace.
pub fn trim_chars(s: &[char]) -> (r: Vec<char>)
    ensures
        r@ == trim(s@),
{
    let mut i: usize = 0;
    assert(s@.skip(0) =~= s@);
    while i < s.len() && is_ws(s[i])
        invariant
            i <= s@.len(),
            trim_start(s@) == trim_start(s@.skip(i as int)),
        decreases s@.len() - i,
    {
        assert(s@.skip(i as int).drop_first() =~= s@.skip(i + 1));
        i += 1;
    }
    assert(trim_start(s@.skip(i as int)) == s@.skip(i as int));
    assert(s@.skip(i as int) =~= s@.subrange(i as int, s@.len() as int));
    let mut j: usize = s.len();
    while j > i && is_ws(s[j - 1])
        invariant
            i <= j <= s@.len(),
            trim(s@) == trim_end(s@.subrange(i as int, j as int)),
        decreases j,
    {
        assert(s@.subrange(i as int, j as int).drop_last() =~= s@.subrange(
            i as int,
            j - 1,
        ));
        j -= 1;
    }
    sub_chars(s, i, j)
}

/// Writes the decimal digits of `n` after `out`.
fn push_decimal(n: u64, out: &mut Vec<char>)
    ensures
        final(out)@ == old(out)@ + decimal(n as nat),
    decreases n,
{
    if n >= 10 {
        push_decimal(n / 10, out);
    }
    let d = (n % 10) as u8;
    let ch = (d + 48) as char;
    out.push(ch);
}

/// How `n` is written by `Display`.
pub fn i32_chars(n: i32) -> (r: Vec<char>)
    ensures
        r@ == i32_text(n),
{
    let mut out: Vec<char> = Vec::new();
    if n < 0 {
        out.push('-');
        let m: i64 = -(n as i64);
        push_decimal(m as u64, &mut out);
    } else {
        push_decimal(n as u64, &mut out);
    }
    out
}

/// `str::parse::<i32>` on the characters `s`.
pub fn parse_i32_chars(s: &[char]) -> (r: Option<i32>)
    ensures
        r == parse_i32(s@),
{
    let neg = s.len() > 0 && s[0] == '-';
    let start: usize = if s.len() > 0 && (s[0] == '-' || s[0] == '+') {
        1
    } else {
        0
    };
    let ghost ds = unsigned_part(s@);
    assert(ds =~= s@.skip(start as int));
    if start == s.len() {
        assert(ds.len() == 0);
        return None;
    }
    // `acc` holds the value read so far while it is at most 2^31; `big` records that
    // it went past that bound.
    let mut acc: u64 = 0;
    let mut big = false;
    let mut i: usize = start;
    while i < s.len()
        invariant
            start <= i <= s@.len(),
            ds == s@.skip(start as int),
            ds == unsigned_part(s@),
            neg == (s@.len() > 0 && s@[0] == '-'),
            forall|k: int| 0 <= k < i - start ==> is_digit(#[trigger] ds[k]),
            !big ==> acc == digits_value(ds.take(i - start)),
            !big ==> acc <= 0x8000_0000,
            big ==> digits_value(ds.take(i - start)) > 0x8000_0000,
        decreases s@.len() - i,
    {
        let c = s[i];
        if !('0' <= c && c <= '9') {
            assert(!is_digit(ds[i - start]));
            assert(!all_digits(ds));
            return None;
        }
        proof {
            let t = ds.take(i - start + 1);
            assert(t.drop_last() =~= ds.take(i - start));
            assert(t.last() == c);
            lemma_digits_value_nonneg(ds.take(i - start));
        }
        if !big {
            let d = (c as u32 - 48) as u64;
            acc = acc * 10 + d;
            if acc > 0x8000_0000 {
                big = true;
            }
        }
        i += 1;
    }
    assert(ds.take(ds.len() as int) =~= ds);
    if big {
        return None;
    }
    if neg {
        let v: i64 = -(acc as i64);
        Some(v as i32)
    } else if acc <= 0x7fff_ffff {
        Some(acc as i32)
    } else {
        None
    }
}

/// Decodes UTF-8 bytes (`String::from_utf8`): `None` where they are not valid UTF-8.
#[verifier::external_body]
pub(crate) fn decode_utf8_bytes(bytes: &[u8]) -> (r: Option<String>)
    ensures
        r is Some <==> vstd::utf8::valid_utf8(bytes@),
        r matches Some(s) ==> s@ == vstd::utf8::decode_utf8(bytes@),
{
    String::from_utf8(bytes.to_vec()).ok()
}

/// The UTF-8 bytes of `s` (`str::as_bytes`, copied).
pub fn utf8_bytes(s: &str) -> (r: Vec<u8>)
    ensures
        r@ == vstd::utf8::encode_utf8(s@),
{
    vstd::slice::slice_to_vec(s.as_bytes())
}

} // verus!

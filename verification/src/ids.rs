//! Universally unique identifiers: tickets and item ids. The `uuid` crate
//! parses, prints and draws them; this module holds their 128-bit values.
use vstd::prelude::*;
use vstd::arithmetic::power::pow;
use vstd::utf8::encode_utf8;

verus! {

/// A UUID, held as its 128-bit value (`uuid::Uuid::as_u128`).
#[derive(Clone, Copy, PartialEq, Eq, Structural, Debug, Hash)]
pub struct Uuid {
    pub value: u128,
}

/// What `uuid::Uuid::parse_str` gives for a text: the value of the UUID it reads,
/// or `None` where it refuses the text.
pub uninterp spec fn uuid_parsed(s: Seq<char>) -> Option<u128>;

/// The lengths, in bytes, of the texts `uuid::Uuid::parse_str` can accept.
pub open spec fn uuid_text_length(n: nat) -> bool {
    n == 32 || n == 36 || n == 38 || n == 45
}

/// `v` is a random (version 4, RFC 4122 variant) UUID: bits 76 to 79 hold 4 and
/// bits 62 and 63 hold `10`.
pub open spec fn is_random_v4(v: u128) -> bool {
    &&& (v >> 76u128) & 0xfu128 == 4
    &&& (v >> 62u128) & 0x3u128 == 2
}

/// `v` was drawn by `Uuid::new_v4`: it has the bits of a random version 4 UUID.
/// The definition is closed, so that outside this module nothing but a draw
/// establishes it: a value written out by hand cannot pass for a drawn one.
pub closed spec fn drawn_v4(v: u128) -> bool {
    is_random_v4(v)
}

/// The lowercase hexadecimal digit of `d` (0 to 15).
pub open spec fn hex_char(d: int) -> char {
    if d < 10 {
        (d + 48) as char
    } else {
        (d + 87) as char
    }
}

/// The `k`-th hexadecimal digit of `v`, the most significant first (`k` from 0 to 31).
pub open spec fn nibble(v: u128, k: int) -> int {
    (v as int / pow(16, (31 - k) as nat)) % 16
}

/// The number of hyphens before position `i` of the hyphenated form.
pub open spec fn hyphens_before(i: int) -> int {
    if i < 9 {
        0
    } else if i < 14 {
        1
    } else if i < 19 {
        2
    } else if i < 24 {
        3
    } else {
        4
    }
}

/// The hyphenated lowercase form of a UUID (`xxxxxxxx-xxxx-xxxx-xxxx-xxxxxxxxxxxx`),
/// which `Display` for `uuid::Uuid` writes.
pub open spec fn hyphenated(v: u128) -> Seq<char> {
    Seq::new(
        36,
        |i: int|
            if i == 8 || i == 13 || i == 18 || i == 23 {
                '-'
            } else {
                hex_char(nibble(v, i - hyphens_before(i)))
            },
    )
}

/// Every character of the hyphenated form is a hyphen, a digit or a letter from `a` to `f`.
pub proof fn lemma_hyphenated_chars(v: u128)
    ensures
        hyphenated(v).len() == 36,
        forall|i: int|
            0 <= i < 36 ==> {
                let c = #[trigger] hyphenated(v)[i];
                c == '-' || ('0' <= c <= '9') || ('a' <= c <= 'f')
            },
{
    assert forall|i: int| 0 <= i < 36 implies {
        let c = #[trigger] hyphenated(v)[i];
        c == '-' || ('0' <= c <= '9') || ('a' <= c <= 'f')
    } by {
        if !(i == 8 || i == 13 || i == 18 || i == 23) {
            let k = i - hyphens_before(i);
            let e = (31 - k) as nat;
            vstd::arithmetic::power::lemma_pow_positive(16, e);
            let d = nibble(v, k);
            assert(0 <= d < 16);
        }
    }
}

impl Uuid {
    /// Reads a UUID from text (`uuid::Uuid::parse_str`). The contract names the
    /// result: which texts the crate accepts (the simple, hyphenated, braced and
    /// URN forms) is left to the crate, but for one fact: it refuses every text
    /// whose UTF-8 length is not 32 (simple), 36 (hyphenated), 38 (braced) or 45
    /// (URN).
    #[verifier::external_body]
    pub(crate) fn parse_str(s: &str) -> (r: Option<Uuid>)
        ensures
            r is Some <==> uuid_parsed(s@) is Some,
            r matches Some(u) ==> uuid_parsed(s@) == Some(u.value),
            r is Some ==> uuid_text_length(encode_utf8(s@).len()),
    {
        match uuid::Uuid::parse_str(s) {
            Ok(u) => Some(Uuid { value: u.as_u128() }),
            Err(_) => None,
        }
    }

    /// Draws a fresh random UUID (`uuid::Uuid::new_v4`): its version bits say
    /// version 4 and its variant bits say RFC 4122, as the crate sets them, and
    /// the value counts as drawn (`drawn_v4`, which states no more than those
    /// bits). The other 122 bits come from the random number generator, and
    /// nothing more is stated of them: not even that two draws differ, which
    /// they do but for a chance of about 2^-122.
    #[verifier::external_body]
    pub(crate) fn new_v4() -> (r: Uuid)
        ensures
            is_random_v4(r.value),
            drawn_v4(r.value),
    {
        Uuid { value: uuid::Uuid::new_v4().as_u128() }
    }

    /// The hyphenated lowercase text of the UUID (`ToString` on `uuid::Uuid`),
    /// which `uuid::Uuid::parse_str` reads back as the same UUID.
    #[verifier::external_body]
    pub(crate) fn to_text(&self) -> (r: String)
        ensures
            r@ == hyphenated(self.value),
            uuid_parsed(r@) == Some(self.value),
    {
        uuid::Uuid::from_u128(self.value).to_string()
    }
}

} // verus!

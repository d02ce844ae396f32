//! Identifiers of threads and rollout segments, and the UUID text they are
//! written in.
use vstd::arithmetic::power::*;
use vstd::prelude::*;

verus! {

/// Whether a character is a hexadecimal digit of either case.
pub open spec fn is_hex(c: char) -> bool {
    let code = c as u32;
    ||| 48 <= code <= 57
    ||| 65 <= code <= 70
    ||| 97 <= code <= 102
}

/// Whether `i` is one of the places of a hyphen in a hyphenated UUID.
pub open spec fn is_hyphen_place(i: int) -> bool {
    i == 8 || i == 13 || i == 18 || i == 23
}

/// Hexadecimal digits in groups of 8, 4, 4, 4 and 12, joined by hyphens.
pub open spec fn is_hyphenated(s: Seq<char>) -> bool {
    &&& s.len() == 36
    &&& forall|i: int|
        0 <= i < 36 ==> if is_hyphen_place(i) {
            #[trigger] s[i] == '-'
        } else {
            is_hex(s[i])
        }
}

/// `c` with an ASCII capital turned into its small letter.
pub open spec fn ascii_lower(c: char) -> char {
    if 65 <= c as u32 <= 90 {
        ((c as u32) + 32) as char
    } else {
        c
    }
}

/// The four ways to write a UUID: 32 hexadecimal digits, hyphenated,
/// hyphenated in braces, and hyphenated after `urn:uuid:` in any case.
pub open spec fn is_uuid_text(s: Seq<char>) -> bool {
    ||| s.len() == 32 && forall|i: int| 0 <= i < 32 ==> is_hex(#[trigger] s[i])
    ||| is_hyphenated(s)
    ||| s.len() == 38 && s[0] == '{' && s[37] == '}' && is_hyphenated(s.subrange(1, 37))
    ||| s.len() == 45 && s.take(9).map_values(|c: char| ascii_lower(c)) == seq![
        'u',
        'r',
        'n',
        ':',
        'u',
        'u',
        'i',
        'd',
        ':',
    ] && is_hyphenated(s.skip(9))
}

/// The small hexadecimal digit for a value below 16.
pub open spec fn hex_char(d: int) -> char {
    if d < 10 {
        (48 + d) as char
    } else {
        (87 + d) as char
    }
}

/// The `i`-th of the 32 hexadecimal digits of a 128-bit value, the most
/// significant first.
pub open spec fn nibble(value: u128, i: int) -> int {
    (value as int / pow(16, (31 - i) as nat)) % 16
}

/// How many hyphens stand before place `i` of a hyphenated UUID.
pub open spec fn hyphens_before(i: int) -> int {
    if i <= 8 {
        0
    } else if i <= 13 {
        1
    } else if i <= 18 {
        2
    } else if i <= 23 {
        3
    } else {
        4
    }
}

/// The hyphenated text of a 128-bit value, in small letters.
pub open spec fn hyphenated(value: u128) -> Seq<char> {
    Seq::new(
        36,
        |i: int|
            if is_hyphen_place(i) {
                '-'
            } else {
                hex_char(nibble(value, i - hyphens_before(i)))
            },
    )
}

/// Calls `uuid::Uuid::parse_str` and asks whether it succeeded.
///
/// It accepts the four formats that the `uuid` crate writes and nothing else;
/// the digits may be of either case.
#[verifier::external_body]
fn uuid_parse_is_ok(s: &str) -> (ok: bool)
    ensures
        ok == is_uuid_text(s@),
{
    uuid::Uuid::parse_str(s).is_ok()
}

/// Calls `uuid::Uuid::from_u128` and writes the UUID with its `Display`.
///
/// The value's bytes are taken in big-endian order, and written as small
/// hexadecimal digits in the hyphenated format.
#[verifier::external_body]
fn uuid_display(value: u128) -> (res: String)
    ensures
        res@ == hyphenated(value),
{
    uuid::Uuid::from_u128(value).to_string()
}

/// Calls `uuid::Uuid::new_v4`, which draws a random UUID.
///
/// Every outcome has 4 as its version digit and `10` as its two variant bits;
/// the other bits are random. The call panics only where the system has no
/// random bits to give.
#[verifier::external_body]
fn uuid_new_v4() -> (value: u128)
    ensures
        (value / 0x1000_0000_0000_0000_0000u128) % 16 == 4,
        (value / 0x4000_0000_0000_0000u128) % 4 == 2,
{
    uuid::Uuid::new_v4().as_u128()
}

/// Calls `uuid::Uuid::now_v7`, which draws a UUID from the clock and from
/// random bits.
///
/// Every outcome has 7 as its version digit and `10` as its two variant bits.
/// The call panics only where the system has no random bits to give or its clock
/// stands before 1970.
#[verifier::external_body]
fn uuid_now_v7() -> (value: u128)
    ensures
        (value / 0x1000_0000_0000_0000_0000u128) % 16 == 7,
        (value / 0x4000_0000_0000_0000u128) % 4 == 2,
{
    uuid::Uuid::now_v7().as_u128()
}

/// Whether a text is a UUID.
pub fn is_uuid(s: &str) -> (res: bool)
    ensures
        res == is_uuid_text(s@),
{
    uuid_parse_is_ok(s)
}

/// The identifier of a conversation thread.
#[derive(Clone, Copy, Debug, PartialEq, Eq, Hash, Structural)]
pub struct ThreadId {
    pub value: u128,
}

/// The identifier of one segment of a thread's rollout.
#[derive(Clone, Copy, Debug, PartialEq, Eq, Hash, Structural)]
pub struct SegmentId {
    pub value: u128,
}

impl ThreadId {
    /// The hyphenated text of the identifier.
    pub fn text(&self) -> (res: String)
        ensures
            res@ == hyphenated(self.value),
    {
        uuid_display(self.value)
    }
}

impl SegmentId {
    /// Whether the identifier is one that was drawn from the clock and from
    /// random bits.
    pub closed spec fn is_drawn(&self) -> bool {
        call_ensures(uuid_now_v7, (), self.value)
    }

    /// A new identifier, drawn from the clock and from random bits.
    pub fn new() -> (id: SegmentId)
        ensures
            id.is_drawn(),
            (id.value / 0x1000_0000_0000_0000_0000u128) % 16 == 7,
            (id.value / 0x4000_0000_0000_0000u128) % 4 == 2,
    {
        SegmentId { value: uuid_now_v7() }
    }

    /// The hyphenated text of the identifier.
    pub fn text(&self) -> (res: String)
        ensures
            res@ == hyphenated(self.value),
    {
        uuid_display(self.value)
    }
}

/// Whether an identifier for a directory of attachments is one that was drawn at
/// random.
pub closed spec fn is_drawn(value: u128) -> bool {
    call_ensures(uuid_new_v4, (), value)
}

/// A new random identifier for a directory of attachments.
pub fn new_attachment_id() -> (value: u128)
    ensures
        is_drawn(value),
        (value / 0x1000_0000_0000_0000_0000u128) % 16 == 4,
        (value / 0x4000_0000_0000_0000u128) % 4 == 2,
{
    uuid_new_v4()
}

/// The hyphenated text of an attachment identifier.
pub fn attachment_text(value: u128) -> (res: String)
    ensures
        res@ == hyphenated(value),
{
    uuid_display(value)
}

/// The text of every identifier is a UUID.
pub proof fn law_hyphenated_is_uuid(value: u128)
    ensures
        is_hyphenated(hyphenated(value)),
        is_uuid_text(hyphenated(value)),
{
    let s = hyphenated(value);
    assert forall|i: int| 0 <= i < 36 implies if is_hyphen_place(i) {
        #[trigger] s[i] == '-'
    } else {
        is_hex(s[i])
    } by {
        let d = nibble(value, i - hyphens_before(i));
        assert(0 <= d < 16);
    }
}

proof fn lemma_hex_char_injective(a: int, b: int)
    requires
        0 <= a < 16,
        0 <= b < 16,
        hex_char(a) == hex_char(b),
    ensures
        a == b,
{
}

proof fn lemma_same_quotients(a: u128, b: u128, k: nat)
    requires
        k <= 32,
        forall|i: int| 0 <= i < 32 ==> #[trigger] nibble(a, i) == nibble(b, i),
    ensures
        a as int / pow(16, k) == b as int / pow(16, k),
    decreases 32 - k,
{
    if k == 32 {
        assert(pow(16, 32) == 0x1_0000_0000_0000_0000_0000_0000_0000_0000int) by {
            lemma_pow_32();
        }
    } else {
        lemma_same_quotients(a, b, (k + 1) as nat);
        let p = pow(16, k);
        lemma_pow_positive(16, k);
        assert(pow(16, (k + 1) as nat) == 16 * p) by {
            reveal(pow);
        }
        let i = 31 - k;
        assert(nibble(a, i) == nibble(b, i));
        assert(a as int / (16 * p) == (a as int / p) / 16) by {
            vstd::arithmetic::div_mod::lemma_div_denominator(a as int, p, 16);
            assert(p * 16 == 16 * p) by (nonlinear_arith);
        }
        assert(b as int / (16 * p) == (b as int / p) / 16) by {
            vstd::arithmetic::div_mod::lemma_div_denominator(b as int, p, 16);
            assert(p * 16 == 16 * p) by (nonlinear_arith);
        }
        let qa = a as int / p;
        let qb = b as int / p;
        assert(qa % 16 == qb % 16);
        assert(qa == 16 * (qa / 16) + qa % 16);
        assert(qb == 16 * (qb / 16) + qb % 16);
    }
}

proof fn lemma_pow_32()
    ensures
        pow(16, 32) == 0x1_0000_0000_0000_0000_0000_0000_0000_0000int,
{
    reveal(pow);
    reveal_with_fuel(pow, 33);
}

/// Different identifiers have different texts.
pub proof fn law_hyphenated_injective(a: u128, b: u128)
    requires
        hyphenated(a) == hyphenated(b),
    ensures
        a == b,
{
    assert forall|j: int| 0 <= j < 32 implies #[trigger] nibble(a, j) == nibble(b, j) by {
        let i = if j < 8 {
            j
        } else if j < 12 {
            j + 1
        } else if j < 16 {
            j + 2
        } else if j < 20 {
            j + 3
        } else {
            j + 4
        };
        assert(i - hyphens_before(i) == j);
        assert(!is_hyphen_place(i));
        assert(hyphenated(a)[i] == hex_char(nibble(a, j)));
        assert(hyphenated(b)[i] == hex_char(nibble(b, j)));
        lemma_hex_char_injective(nibble(a, j), nibble(b, j));
    }
    lemma_same_quotients(a, b, 0);
    assert(pow(16, 0) == 1) by {
        reveal(pow);
    }
}

} // verus!

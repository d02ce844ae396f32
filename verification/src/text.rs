//! Text measured in characters and in UTF-8 bytes, and the small string
//! operations the rest of the crate is built from.
use vstd::prelude::*;
use vstd::utf8::*;

verus! {

/// How many bytes the UTF-8 encoding of `c` takes.
pub open spec fn char_width(c: char) -> nat {
    if (c as u32) < 0x80 {
        1
    } else if (c as u32) < 0x800 {
        2
    } else if (c as u32) < 0x10000 {
        3
    } else {
        4
    }
}

/// The measure that gives each character its UTF-8 width.
pub open spec fn width_measure() -> spec_fn(char) -> nat {
    |c: char| char_width(c)
}

/// The sum of a measure over the characters of `s`.
pub open spec fn total(s: Seq<char>, measure: spec_fn(char) -> nat) -> nat
    decreases s.len(),
{
    if s.len() == 0 {
        0
    } else {
        total(s.drop_last(), measure) + measure(s.last())
    }
}

/// The number of bytes in the UTF-8 encoding of `s`.
pub open spec fn utf8_len(s: Seq<char>) -> nat {
    total(s, width_measure())
}

/// The sum of a measure splits over a concatenation.
pub proof fn lemma_total_add(a: Seq<char>, b: Seq<char>, measure: spec_fn(char) -> nat)
    ensures
        total(a + b, measure) == total(a, measure) + total(b, measure),
    decreases b.len(),
{
    if b.len() == 0 {
        assert(a + b =~= a);
    } else {
        lemma_total_add(a, b.drop_last(), measure);
        assert((a + b).drop_last() =~= a + b.drop_last());
    }
}

/// Prefixes of a text grow with their length.
pub proof fn lemma_total_monotone(s: Seq<char>, measure: spec_fn(char) -> nat, i: int, j: int)
    requires
        0 <= i <= j <= s.len(),
    ensures
        total(s.take(i), measure) <= total(s.take(j), measure),
{
    assert(s.take(j) =~= s.take(i) + s.subrange(i, j));
    lemma_total_add(s.take(i), s.subrange(i, j), measure);
}

/// One more character adds its measure.
pub proof fn lemma_total_step(s: Seq<char>, measure: spec_fn(char) -> nat, i: int)
    requires
        0 <= i < s.len(),
    ensures
        total(s.take(i + 1), measure) == total(s.take(i), measure) + measure(s[i]),
{
    assert(s.take(i + 1).drop_last() =~= s.take(i));
}

/// `utf8_len` is the length of the encoding.
pub proof fn lemma_utf8_len(s: Seq<char>)
    ensures
        encode_utf8(s).len() == utf8_len(s),
    decreases s.len(),
{
    if s.len() > 0 {
        let first = s.take(1);
        let rest = s.drop_first();
        assert(s =~= first + rest);
        lemma_total_add(first, rest, width_measure());
        assert(first.drop_last() =~= Seq::<char>::empty());
        assert(total(first, width_measure()) == char_width(s[0])) by {
            reveal_with_fuel(total, 2);
        }
        char_is_scalar(s[0]);
        lemma_utf8_len(rest);
    }
}

/// The characters of a string, in order.
pub fn chars_of(s: &str) -> (chars: Vec<char>)
    ensures
        chars@ == s@,
{
    let mut chars: Vec<char> = Vec::new();
    for c in it: s.chars()
        invariant
            it.seq() == s@,
            chars@ == s@.take(it.index()),
    {
        chars.push(c);
    }
    assert(s@.take(s@.len() as int) =~= s@);
    chars
}

/// The number of UTF-8 bytes of a string.
pub fn byte_len(s: &str) -> (len: usize)
    ensures
        len == utf8_len(s@),
{
    proof {
        lemma_utf8_len(s@);
    }
    s.as_bytes().len()
}

/// The number of UTF-8 bytes of one character.
pub fn char_byte_len(c: char) -> (len: usize)
    ensures
        len == char_width(c),
        1 <= len <= 4,
{
    let code: u32 = c as u32;
    if code < 0x80 {
        1
    } else if code < 0x800 {
        2
    } else if code < 0x10000 {
        3
    } else {
        4
    }
}

/// Whether two strings hold the same characters.
pub fn same_text(a: &str, b: &str) -> (same: bool)
    ensures
        same == (a@ == b@),
{
    let left = a.as_bytes();
    let right = b.as_bytes();
    proof {
        encode_utf8_decode_utf8(a@);
        encode_utf8_decode_utf8(b@);
    }
    if left.len() != right.len() {
        return false;
    }
    let mut i: usize = 0;
    while i < left.len()
        invariant
            left@ == encode_utf8(a@),
            right@ == encode_utf8(b@),
            left@.len() == right@.len(),
            i <= left@.len(),
            forall|j: int| 0 <= j < i ==> left@[j] == right@[j],
        decreases left@.len() - i,
    {
        if left[i] != right[i] {
            return false;
        }
        i = i + 1;
    }
    assert(left@ =~= right@);
    true
}

/// Whether `byte` is where the character with index `k` of `s` starts (or, for
/// `k == s.len()`, where `s` ends).
pub open spec fn starts_at(s: Seq<char>, byte: int, k: int) -> bool {
    &&& 0 <= k <= s.len()
    &&& utf8_len(s.take(k)) == byte
}

/// Whether a byte offset falls on a character boundary of `s`.
pub open spec fn is_boundary(s: Seq<char>, byte: int) -> bool {
    exists|k: int| #[trigger] starts_at(s, byte, k)
}

/// The character index at a byte offset that falls on a boundary.
pub open spec fn char_index(s: Seq<char>, byte: int) -> int {
    choose|k: int| #[trigger] starts_at(s, byte, k)
}

/// A byte offset is the start of at most one character.
pub proof fn lemma_char_index_unique(s: Seq<char>, byte: int, i: int, j: int)
    requires
        starts_at(s, byte, i),
        starts_at(s, byte, j),
    ensures
        i == j,
{
    if i < j {
        lemma_total_step(s, width_measure(), i);
        lemma_total_monotone(s, width_measure(), i + 1, j);
    } else if j < i {
        lemma_total_step(s, width_measure(), j);
        lemma_total_monotone(s, width_measure(), j + 1, i);
    }
}

/// The index of the character that starts at a byte offset, if one does.
pub fn char_index_at(chars: &Vec<char>, byte: usize) -> (index: Option<usize>)
    ensures
        index is Some <==> is_boundary(chars@, byte as int),
        index matches Some(k) ==> starts_at(chars@, byte as int, k as int) && k == char_index(
            chars@,
            byte as int,
        ),
{
    let mut k: usize = 0;
    let mut at: usize = 0;
    assert(chars@.take(0) =~= Seq::<char>::empty());
    while k < chars.len() && at < byte
        invariant
            k <= chars@.len(),
            at == utf8_len(chars@.take(k as int)),
            at <= byte,
            forall|j: int| 0 <= j < k ==> utf8_len(#[trigger] chars@.take(j)) < byte,
        decreases chars@.len() - k,
    {
        let width = char_byte_len(chars[k]);
        proof {
            lemma_total_step(chars@, width_measure(), k as int);
        }
        if width > byte - at {
            assert forall|j: int| !starts_at(chars@, byte as int, j) by {
                if 0 <= j <= chars@.len() && j > k {
                    lemma_total_monotone(chars@, width_measure(), k + 1, j);
                }
            }
            return None;
        }
        at = at + width;
        k = k + 1;
    }
    if at == byte {
        assert(starts_at(chars@, byte as int, k as int));
        proof {
            lemma_char_index_unique(
                chars@,
                byte as int,
                k as int,
                char_index(chars@, byte as int),
            );
        }
        Some(k)
    } else {
        assert forall|j: int| !starts_at(chars@, byte as int, j) by {
            if 0 <= j <= chars@.len() {
                lemma_total_monotone(chars@, width_measure(), j, k as int);
            }
        }
        None
    }
}

/// Whether the first `k` characters of `s` are the most that stay within
/// `budget` under a measure.
pub open spec fn fits_most(
    s: Seq<char>,
    measure: spec_fn(char) -> nat,
    budget: int,
    k: int,
) -> bool {
    &&& 0 <= k <= s.len()
    &&& total(s.take(k), measure) <= budget
    &&& k < s.len() ==> total(s.take(k + 1), measure) > budget
}

/// How many characters of `s` fit into `budget`.
pub open spec fn fitting(s: Seq<char>, measure: spec_fn(char) -> nat, budget: int) -> int {
    choose|k: int| #[trigger] fits_most(s, measure, budget, k)
}

/// There is only one longest prefix within a budget.
pub proof fn lemma_fitting_unique(
    s: Seq<char>,
    measure: spec_fn(char) -> nat,
    budget: int,
    k: int,
)
    requires
        fits_most(s, measure, budget, k),
    ensures
        k == fitting(s, measure, budget),
{
    let j = fitting(s, measure, budget);
    if j < k {
        lemma_total_monotone(s, measure, j + 1, k);
    } else if k < j {
        lemma_total_monotone(s, measure, k + 1, j);
    }
}

proof fn lemma_fit_from(
    s: Seq<char>,
    measure: spec_fn(char) -> nat,
    budget: int,
    i: int,
) -> (k: int)
    requires
        0 <= i <= s.len(),
        total(s.take(i), measure) <= budget,
    ensures
        fits_most(s, measure, budget, k),
    decreases s.len() - i,
{
    if i < s.len() && total(s.take(i + 1), measure) <= budget {
        lemma_fit_from(s, measure, budget, i + 1)
    } else {
        i
    }
}

/// Some prefix always fits, if only the empty one.
pub proof fn lemma_fitting_exists(s: Seq<char>, measure: spec_fn(char) -> nat, budget: int)
    requires
        0 <= budget,
    ensures
        fits_most(s, measure, budget, fitting(s, measure, budget)),
{
    assert(s.take(0) =~= Seq::<char>::empty());
    let k = lemma_fit_from(s, measure, budget, 0);
}

/// The longest prefix of `value` of at most `max_bytes` UTF-8 bytes, and
/// whether anything was cut off.
pub fn truncate_utf8_to_bytes(value: &str, max_bytes: usize) -> (res: (String, bool))
    ensures
        res.0@ == value@.take(fitting(value@, width_measure(), max_bytes as int)),
        fits_most(
            value@,
            width_measure(),
            max_bytes as int,
            fitting(value@, width_measure(), max_bytes as int),
        ),
        res.1 == (utf8_len(value@) > max_bytes),
{
    let chars = chars_of(value);
    let mut k: usize = 0;
    let mut at: usize = 0;
    assert(chars@.take(0) =~= Seq::<char>::empty());
    while k < chars.len() && char_byte_len(chars[k]) <= max_bytes - at
        invariant
            chars@ == value@,
            k <= chars@.len(),
            at == utf8_len(chars@.take(k as int)),
            at <= max_bytes,
        decreases chars@.len() - k,
    {
        proof {
            lemma_total_step(chars@, width_measure(), k as int);
        }
        at = at + char_byte_len(chars[k]);
        k = k + 1;
    }
    proof {
        if k < chars@.len() {
            lemma_total_step(chars@, width_measure(), k as int);
            lemma_total_monotone(chars@, width_measure(), k + 1, chars@.len() as int);
        }
        assert(chars@.take(chars@.len() as int) =~= chars@);
        lemma_fitting_unique(value@, width_measure(), max_bytes as int, k as int);
    }
    let kept = value.substring_char(0, k);
    (kept.to_owned(), k < chars.len())
}

/// The Unicode `White_Space` characters.
pub open spec fn is_white(c: char) -> bool {
    let code = c as u32;
    ||| 0x09 <= code <= 0x0d
    ||| code == 0x20
    ||| code == 0x85
    ||| code == 0xa0
    ||| code == 0x1680
    ||| 0x2000 <= code <= 0x200a
    ||| code == 0x2028
    ||| code == 0x2029
    ||| code == 0x202f
    ||| code == 0x205f
    ||| code == 0x3000
}

/// Whether a character is Unicode white space.
pub fn is_white_space(c: char) -> (white: bool)
    ensures
        white == is_white(c),
{
    let code: u32 = c as u32;
    (0x09 <= code && code <= 0x0d) || code == 0x20 || code == 0x85 || code == 0xa0 || code == 0x1680
        || (0x2000 <= code && code <= 0x200a) || code == 0x2028 || code == 0x2029 || code == 0x202f
        || code == 0x205f || code == 0x3000
}

/// `s` without its leading white space.
pub open spec fn trimmed_start(s: Seq<char>) -> Seq<char>
    decreases s.len(),
{
    if s.len() > 0 && is_white(s[0]) {
        trimmed_start(s.drop_first())
    } else {
        s
    }
}

/// `s` without its trailing white space.
pub open spec fn trimmed_end(s: Seq<char>) -> Seq<char>
    decreases s.len(),
{
    if s.len() > 0 && is_white(s.last()) {
        trimmed_end(s.drop_last())
    } else {
        s
    }
}

/// `s` without white space at either end.
pub open spec fn trimmed(s: Seq<char>) -> Seq<char> {
    trimmed_end(trimmed_start(s))
}

/// Whether every character of `s` is white space.
pub open spec fn is_blank(s: Seq<char>) -> bool {
    forall|i: int| 0 <= i < s.len() ==> is_white(#[trigger] s[i])
}

/// Trimming leaves nothing exactly when everything is white space.
pub proof fn lemma_trimmed_blank(s: Seq<char>)
    ensures
        trimmed(s).len() == 0 <==> is_blank(s),
{
    lemma_trimmed_start(s);
    let t = trimmed_start(s);
    lemma_trimmed_end(t);
    if is_blank(s) {
        if t.len() > 0 {
            assert(is_white(t[0]));
        }
    } else {
        let i = choose|i: int| 0 <= i < s.len() && !is_white(#[trigger] s[i]);
        let cut = s.len() - t.len();
        if i < cut {
            assert(is_white(s[i]));
        }
        assert(t[i - cut] == s[i]);
    }
}

/// What trimming the start cuts off is white space, and what is left starts
/// with something else.
pub proof fn lemma_trimmed_start(s: Seq<char>)
    ensures
        trimmed_start(s).len() <= s.len(),
        trimmed_start(s) == s.skip(s.len() - trimmed_start(s).len()),
        is_blank(s.take(s.len() - trimmed_start(s).len())),
        trimmed_start(s).len() > 0 ==> !is_white(trimmed_start(s)[0]),
        forall|i: int|
            0 <= i < s.len() - trimmed_start(s).len() ==> is_white(#[trigger] s[i]),
    decreases s.len(),
{
    if s.len() > 0 && is_white(s[0]) {
        let rest = s.drop_first();
        lemma_trimmed_start(rest);
        let t = trimmed_start(s);
        let cut = s.len() - t.len();
        assert(t =~= s.skip(cut));
        assert forall|i: int| 0 <= i < cut implies is_white(#[trigger] s[i]) by {
            if i > 0 {
                assert(s[i] == rest[i - 1]);
            }
        }
    } else {
        assert(s.skip(0) =~= s);
    }
}

/// What trimming the end cuts off is white space, and what is left ends with
/// something else.
pub proof fn lemma_trimmed_end(s: Seq<char>)
    ensures
        trimmed_end(s).len() <= s.len(),
        trimmed_end(s) == s.take(trimmed_end(s).len() as int),
        trimmed_end(s).len() > 0 ==> !is_white(trimmed_end(s).last()),
        forall|i: int|
            trimmed_end(s).len() <= i < s.len() ==> is_white(#[trigger] s[i]),
    decreases s.len(),
{
    if s.len() > 0 && is_white(s.last()) {
        let rest = s.drop_last();
        lemma_trimmed_end(rest);
        assert(trimmed_end(s) =~= s.take(trimmed_end(s).len() as int));
        assert forall|i: int| trimmed_end(s).len() <= i < s.len() implies is_white(
            #[trigger] s[i],
        ) by {
            if i < s.len() - 1 {
                assert(s[i] == rest[i]);
            }
        }
    } else {
        assert(s.take(s.len() as int) =~= s);
    }
}

/// Text that neither starts nor ends with white space is left as it is.
pub proof fn lemma_trimmed_same(s: Seq<char>)
    requires
        s.len() > 0,
        !is_white(s[0]),
        !is_white(s.last()),
    ensures
        trimmed(s) == s,
{
}

/// What is trimmed has nothing more to trim.
pub proof fn lemma_trimmed_twice(s: Seq<char>)
    ensures
        trimmed(trimmed(s)) == trimmed(s),
{
    let from = trimmed_start(s);
    let t = trimmed(s);
    lemma_trimmed_start(s);
    lemma_trimmed_end(from);
    if t.len() > 0 {
        assert(t[0] == from[0]);
        lemma_trimmed_same(t);
    }
}

/// A string without white space at either end.
pub fn trim(s: &str) -> (res: &str)
    ensures
        res@ == trimmed(s@),
{
    let chars = chars_of(s);
    let mut from: usize = 0;
    assert(s@.skip(0) =~= s@);
    while from < chars.len() && is_white_space(chars[from])
        invariant
            chars@ == s@,
            from <= s@.len(),
            trimmed_start(s@) == trimmed_start(s@.skip(from as int)),
        decreases s@.len() - from,
    {
        assert(s@.skip(from as int).drop_first() =~= s@.skip(from + 1));
        from = from + 1;
    }
    let ghost t = s@.skip(from as int);
    assert(trimmed_start(s@) == t);
    let mut to: usize = chars.len();
    assert(t.take(t.len() as int) =~= t);
    while to > from && is_white_space(chars[to - 1])
        invariant
            chars@ == s@,
            t == s@.skip(from as int),
            from <= to <= s@.len(),
            trimmed_end(t) == trimmed_end(t.take(to - from)),
        decreases to,
    {
        assert(t.take(to - from).drop_last() =~= t.take(to - from - 1));
        to = to - 1;
    }
    assert(t.take(to - from) =~= s@.subrange(from as int, to as int));
    s.substring_char(from, to)
}

/// Whether `s` starts with `prefix`.
pub open spec fn has_prefix(s: Seq<char>, prefix: Seq<char>) -> bool {
    s.len() >= prefix.len() && s.take(prefix.len() as int) == prefix
}

/// Whether `s` ends with `suffix`.
pub open spec fn has_suffix(s: Seq<char>, suffix: Seq<char>) -> bool {
    s.len() >= suffix.len() && s.skip(s.len() - suffix.len()) == suffix
}

/// What follows `prefix` in `s`, if `s` starts with it.
pub fn strip_prefix<'a>(s: &'a str, prefix: &str) -> (rest: Option<&'a str>)
    ensures
        rest is Some <==> has_prefix(s@, prefix@),
        rest matches Some(r) ==> r@ == s@.skip(prefix@.len() as int),
{
    let len = s.unicode_len();
    let cut = prefix.unicode_len();
    if len < cut {
        return None;
    }
    let head = s.substring_char(0, cut);
    if same_text(head, prefix) {
        let rest = s.substring_char(cut, len);
        assert(rest@ =~= s@.skip(cut as int));
        Some(rest)
    } else {
        None
    }
}

/// What precedes `suffix` in `s`, if `s` ends with it.
pub fn strip_suffix<'a>(s: &'a str, suffix: &str) -> (rest: Option<&'a str>)
    ensures
        rest is Some <==> has_suffix(s@, suffix@),
        rest matches Some(r) ==> r@ == s@.take(s@.len() - suffix@.len()),
{
    let len = s.unicode_len();
    let cut = suffix.unicode_len();
    if len < cut {
        return None;
    }
    let tail = s.substring_char(len - cut, len);
    assert(tail@ =~= s@.skip(len - cut));
    if same_text(tail, suffix) {
        Some(s.substring_char(0, len - cut))
    } else {
        None
    }
}

/// White space is what Unicode calls so: the five controls from the tabulator to the
/// carriage return, the space, the next line, and the spaces and separators beyond ASCII.
pub proof fn law_white_space(c: char)
    ensures
        is_white(c) <==> seq![
            0x9u32,
            0xau32,
            0xbu32,
            0xcu32,
            0xdu32,
            0x20u32,
            0x85u32,
            0xa0u32,
            0x1680u32,
            0x2000u32,
            0x2001u32,
            0x2002u32,
            0x2003u32,
            0x2004u32,
            0x2005u32,
            0x2006u32,
            0x2007u32,
            0x2008u32,
            0x2009u32,
            0x200au32,
            0x2028u32,
            0x2029u32,
            0x202fu32,
            0x205fu32,
            0x3000u32,
        ].contains(c as u32),
{
    let codes = seq![
        0x9u32,
        0xau32,
        0xbu32,
        0xcu32,
        0xdu32,
        0x20u32,
        0x85u32,
        0xa0u32,
        0x1680u32,
        0x2000u32,
        0x2001u32,
        0x2002u32,
        0x2003u32,
        0x2004u32,
        0x2005u32,
        0x2006u32,
        0x2007u32,
        0x2008u32,
        0x2009u32,
        0x200au32,
        0x2028u32,
        0x2029u32,
        0x202fu32,
        0x205fu32,
        0x3000u32,
    ];
    let code = c as u32;
    if is_white(c) {
        let i: int = if code <= 0xd {
            code - 0x9
        } else if code == 0x20 {
            5
        } else if code == 0x85 {
            6
        } else if code == 0xa0 {
            7
        } else if code == 0x1680 {
            8
        } else if code <= 0x200a {
            code - 0x2000 + 9
        } else if code == 0x2028 {
            20
        } else if code == 0x2029 {
            21
        } else if code == 0x202f {
            22
        } else if code == 0x205f {
            23
        } else {
            24
        };
        assert(codes[i] == code);
    }
}

/// Trimming takes white space off both ends, all of it, and nothing else.
pub proof fn law_trimmed(before: Seq<char>, middle: Seq<char>, after: Seq<char>)
    requires
        forall|i: int| 0 <= i < before.len() ==> is_white(#[trigger] before[i]),
        forall|i: int| 0 <= i < after.len() ==> is_white(#[trigger] after[i]),
        middle.len() > 0 ==> !is_white(middle[0]) && !is_white(middle.last()),
    ensures
        trimmed(before + middle + after) == middle,
{
    let s = before + middle + after;
    if middle.len() == 0 {
        assert(is_blank(s));
        lemma_trimmed_blank(s);
        assert(trimmed(s) =~= middle);
    } else {
        lemma_trimmed_start(s);
        let t = trimmed_start(s);
        let cut = s.len() - t.len();
        if cut < before.len() {
            assert(t[0] == before[cut]);
        } else if cut > before.len() {
            assert(s[before.len() as int] == middle[0]);
            assert(is_white(s[before.len() as int]));
        }
        assert(t =~= middle + after);
        lemma_trimmed_end(t);
        let kept = trimmed_end(t).len();
        if kept < middle.len() {
            assert(t[middle.len() - 1] == middle.last());
            assert(is_white(t[middle.len() - 1]));
        } else if kept > middle.len() {
            assert(trimmed_end(t).last() == t[kept - 1]);
            assert(t[kept - 1] == after[kept - 1 - middle.len()]);
        }
        assert(trimmed_end(t) =~= middle);
    }
}

} // verus!

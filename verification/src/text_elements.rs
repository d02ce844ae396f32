//! Marked ranges of a text, and the pasted text that their placeholders stand
//! for.
use crate::text;
use vstd::prelude::*;
use vstd::utf8::*;

verus! {

/// A range of UTF-8 bytes.
#[derive(Clone, Copy, Debug, PartialEq, Eq, Structural)]
pub struct ByteRange {
    pub start: usize,
    pub end: usize,
}

/// A marked range of a text, with the placeholder shown there.
#[derive(Debug, PartialEq, Eq)]
pub struct TextElement {
    pub byte_range: ByteRange,
    pub placeholder: Option<String>,
}

/// The mathematical value of an element.
pub struct ElementView {
    pub start: nat,
    pub end: nat,
    pub placeholder: Option<Seq<char>>,
}

impl View for TextElement {
    type V = ElementView;

    open spec fn view(&self) -> ElementView {
        ElementView {
            start: self.byte_range.start as nat,
            end: self.byte_range.end as nat,
            placeholder: match self.placeholder {
                Some(p) => Some(p@),
                None => None,
            },
        }
    }
}

impl Clone for TextElement {
    fn clone(&self) -> (res: TextElement)
        ensures
            res@ == self@,
    {
        TextElement {
            byte_range: self.byte_range,
            placeholder: match &self.placeholder {
                Some(p) => Some(p.clone()),
                None => None,
            },
        }
    }
}

/// The values of a sequence of elements.
pub open spec fn element_views(elements: Seq<TextElement>) -> Seq<ElementView> {
    elements.map_values(|e: TextElement| e@)
}

/// A placeholder and the text pasted for it.
pub type Paste = (String, String);

/// The mathematical value of a paste.
pub type PasteView = (Seq<char>, Seq<char>);

/// The values of a sequence of pastes.
pub open spec fn paste_views(pastes: Seq<Paste>) -> Seq<PasteView> {
    pastes.map_values(|p: Paste| (p.0@, p.1@))
}

/// Whether a byte range is a piece of `s`: in order, and on character
/// boundaries at both ends.
pub open spec fn is_piece(s: Seq<char>, start: nat, end: nat) -> bool {
    start <= end && text::is_boundary(s, start as int) && text::is_boundary(s, end as int)
}

/// The characters in a byte range that is a piece of `s`.
pub open spec fn piece(s: Seq<char>, start: nat, end: nat) -> Seq<char> {
    s.subrange(text::char_index(s, start as int), text::char_index(s, end as int))
}

/// The placeholder of an element: the one it carries, else the text in its
/// range, where that is a piece of the text.
pub open spec fn placeholder_of(s: Seq<char>, element: ElementView) -> Option<Seq<char>> {
    match element.placeholder {
        Some(p) => Some(p),
        None => if is_piece(s, element.start, element.end) {
            Some(piece(s, element.start, element.end))
        } else {
            None
        },
    }
}

/// A byte offset cut off at the end of the text.
pub open spec fn clamped(s: Seq<char>, byte: nat) -> nat {
    if byte < text::utf8_len(s) {
        byte
    } else {
        text::utf8_len(s)
    }
}

/// Whether the range of an element, cut off at the end of the text, is a piece
/// of it.
pub open spec fn is_shown(s: Seq<char>, element: ElementView) -> bool {
    is_piece(s, clamped(s, element.start), clamped(s, element.end))
}

/// The order of character indices follows that of byte offsets.
pub proof fn lemma_piece(s: Seq<char>, start: nat, end: nat)
    requires
        is_piece(s, start, end),
    ensures
        0 <= text::char_index(s, start as int) <= text::char_index(s, end as int) <= s.len(),
{
    let i = text::char_index(s, start as int);
    let j = text::char_index(s, end as int);
    if j < i {
        text::lemma_total_step(s, text::width_measure(), j);
        text::lemma_total_monotone(s, text::width_measure(), j + 1, i);
    }
}

/// The piece of `s` in a byte range, if the range is one.
fn piece_at<'a>(s: &'a str, chars: &Vec<char>, start: usize, end: usize) -> (res: Option<&'a str>)
    requires
        chars@ == s@,
    ensures
        res is Some <==> is_piece(s@, start as nat, end as nat),
        res matches Some(p) ==> p@ == piece(s@, start as nat, end as nat),
{
    if start > end {
        return None;
    }
    match (text::char_index_at(chars, start), text::char_index_at(chars, end)) {
        (Some(from), Some(to)) => {
            proof {
                lemma_piece(s@, start as nat, end as nat);
            }
            Some(s.substring_char(from, to))
        },
        _ => None,
    }
}

impl TextElement {
    pub fn new(byte_range: ByteRange, placeholder: Option<String>) -> (element: TextElement)
        ensures
            element.byte_range == byte_range,
            element.placeholder == placeholder,
    {
        TextElement { byte_range, placeholder }
    }

    /// The placeholder that the element shows in `s`.
    pub fn placeholder<'a>(&'a self, s: &'a str) -> (res: Option<&'a str>)
        ensures
            res is Some <==> placeholder_of(s@, self@) is Some,
            res matches Some(p) ==> placeholder_of(s@, self@) == Some(p@),
    {
        match &self.placeholder {
            Some(p) => Some(p.as_str()),
            None => {
                let chars = text::chars_of(s);
                piece_at(s, &chars, self.byte_range.start, self.byte_range.end)
            },
        }
    }
}

/// `sorted` with an element put behind all that start no later than it.
pub open spec fn inserted(sorted: Seq<ElementView>, element: ElementView) -> Seq<ElementView>
    decreases sorted.len(),
{
    if sorted.len() == 0 || sorted.last().start <= element.start {
        sorted.push(element)
    } else {
        inserted(sorted.drop_last(), element).push(sorted.last())
    }
}

/// The elements in the order of their starts; those with the same start keep
/// their order.
pub open spec fn by_start(elements: Seq<ElementView>) -> Seq<ElementView>
    decreases elements.len(),
{
    if elements.len() == 0 {
        elements
    } else {
        inserted(by_start(elements.drop_last()), elements.last())
    }
}

/// Whether the starts never decrease.
pub open spec fn is_by_start(elements: Seq<ElementView>) -> bool {
    forall|i: int, j: int|
        0 <= i <= j < elements.len() ==> (#[trigger] elements[i]).start <= (
        #[trigger] elements[j]).start
}

proof fn lemma_inserted(sorted: Seq<ElementView>, element: ElementView)
    requires
        is_by_start(sorted),
    ensures
        is_by_start(inserted(sorted, element)),
        inserted(sorted, element).len() == sorted.len() + 1,
        inserted(sorted, element).to_multiset() =~= sorted.to_multiset().insert(element),
        inserted(sorted, element).last().start == if sorted.len() > 0 && sorted.last().start
            > element.start {
            sorted.last().start
        } else {
            element.start
        },
    decreases sorted.len(),
{
    broadcast use vstd::seq_lib::group_to_multiset_ensures;

    if sorted.len() == 0 || sorted.last().start <= element.start {
    } else {
        let rest = sorted.drop_last();
        lemma_inserted(rest, element);
        assert(sorted =~= rest.push(sorted.last()));
        let all = inserted(sorted, element);
        let front = inserted(rest, element);
        assert forall|i: int, j: int| 0 <= i <= j < all.len() implies (#[trigger] all[i]).start <= (
        #[trigger] all[j]).start by {
            if j == all.len() - 1 && i < j {
                assert(front[i].start <= front[front.len() - 1].start);
            }
        }
    }
}

/// Ordering by start gives the same elements in the order of their starts.
pub proof fn law_by_start(elements: Seq<ElementView>)
    ensures
        is_by_start(by_start(elements)),
        by_start(elements).len() == elements.len(),
        by_start(elements).to_multiset() =~= elements.to_multiset(),
    decreases elements.len(),
{
    broadcast use vstd::seq_lib::group_to_multiset_ensures;

    if elements.len() > 0 {
        law_by_start(elements.drop_last());
        lemma_inserted(by_start(elements.drop_last()), elements.last());
        assert(elements =~= elements.drop_last().push(elements.last()));
    }
}

/// Puts an element behind all that start no later than it.
fn insert_by_start(sorted: &mut Vec<TextElement>, element: TextElement)
    ensures
        element_views(final(sorted)@) == inserted(element_views(old(sorted)@), element@),
{
    let ghost before = element_views(sorted@);
    let ghost value = element@;
    let mut at: usize = sorted.len();
    assert(before.take(at as int) =~= before);
    assert(before.skip(at as int) =~= Seq::<ElementView>::empty());
    assert(inserted(before.take(at as int), value) + before.skip(at as int) =~= inserted(
        before,
        value,
    ));
    while at > 0 && sorted[at - 1].byte_range.start > element.byte_range.start
        invariant
            before == element_views(sorted@),
            value == element@,
            at <= sorted@.len(),
            inserted(before.take(at as int), value) + before.skip(at as int) == inserted(
                before,
                value,
            ),
        decreases at,
    {
        proof {
            let now = before.take(at as int);
            assert(now.last() == sorted@[at - 1]@);
            assert(now.drop_last() =~= before.take(at - 1));
            assert(inserted(before.take(at - 1), value) + before.skip(at - 1) =~= inserted(
                now,
                value,
            ) + before.skip(at as int));
        }
        at = at - 1;
    }
    proof {
        if at > 0 {
            assert(before.take(at as int).last() == sorted@[at - 1]@);
        }
    }
    sorted.insert(at, element);
    assert(element_views(sorted@) =~= before.take(at as int).push(value) + before.skip(at as int));
}

fn sort_by_start(elements: Vec<TextElement>) -> (sorted: Vec<TextElement>)
    ensures
        element_views(sorted@) == by_start(element_views(elements@)),
{
    let ghost all = element_views(elements@);
    let mut sorted: Vec<TextElement> = Vec::new();
    assert(all.take(0) =~= Seq::<ElementView>::empty());
    assert(element_views(sorted@) =~= by_start(all.take(0)));
    for element in it: elements
        invariant
            it.seq() == elements@,
            all == element_views(elements@),
            element_views(sorted@) == by_start(all.take(it.index())),
    {
        let ghost i = it.index();
        assert(all.take(i + 1).drop_last() =~= all.take(i));
        assert(all.take(i + 1).last() == element@);
        insert_by_start(&mut sorted, element);
    }
    assert(all.take(elements@.len() as int) =~= all);
    sorted
}

/// The text of the `n`-th paste for a placeholder, counted from zero.
pub open spec fn nth_paste(
    pastes: Seq<PasteView>,
    placeholder: Seq<char>,
    n: nat,
) -> Option<Seq<char>>
    decreases pastes.len(),
{
    if pastes.len() == 0 {
        None
    } else if pastes[0].0 != placeholder {
        nth_paste(pastes.drop_first(), placeholder, n)
    } else if n == 0 {
        Some(pastes[0].1)
    } else {
        nth_paste(pastes.drop_first(), placeholder, (n - 1) as nat)
    }
}

/// How many of the first `i` elements are shown with a placeholder.
pub open spec fn uses_before(
    s: Seq<char>,
    elements: Seq<ElementView>,
    placeholder: Seq<char>,
    i: nat,
) -> nat
    decreases i,
{
    if i == 0 {
        0
    } else {
        let before = uses_before(s, elements, placeholder, (i - 1) as nat);
        let element = elements[i - 1];
        if is_shown(s, element) && placeholder_of(s, element) == Some(placeholder) {
            before + 1
        } else {
            before
        }
    }
}

/// The pasted text that stands in for the `i`-th element: each use of a
/// placeholder takes the next paste for it.
pub open spec fn replacement(
    s: Seq<char>,
    elements: Seq<ElementView>,
    pastes: Seq<PasteView>,
    i: nat,
) -> Option<Seq<char>> {
    match placeholder_of(s, elements[i as int]) {
        None => None,
        Some(p) => nth_paste(pastes, p, uses_before(s, elements, p, i)),
    }
}

/// The text rebuilt from the first `k` elements, and the byte offset up to which
/// the text itself is used up.
pub open spec fn rebuilt(
    s: Seq<char>,
    elements: Seq<ElementView>,
    pastes: Seq<PasteView>,
    k: nat,
) -> (Seq<char>, nat)
    decreases k,
{
    if k == 0 {
        (Seq::empty(), 0)
    } else {
        let (out, used) = rebuilt(s, elements, pastes, (k - 1) as nat);
        let element = elements[k - 1];
        if !is_shown(s, element) {
            (out, used)
        } else {
            let start = clamped(s, element.start);
            let end = clamped(s, element.end);
            let gap = if start > used {
                piece(s, used, start)
            } else {
                Seq::empty()
            };
            let shown = match replacement(s, elements, pastes, (k - 1) as nat) {
                Some(pasted) => pasted,
                None => piece(s, start, end),
            };
            (out + gap + shown, end)
        }
    }
}

/// The text with its placeholders replaced by what was pasted.
pub open spec fn expanded(
    s: Seq<char>,
    elements: Seq<ElementView>,
    pastes: Seq<PasteView>,
) -> Seq<char> {
    if pastes.len() == 0 || elements.len() == 0 {
        s
    } else {
        let ordered = by_start(elements);
        let (out, used) = rebuilt(s, ordered, pastes, ordered.len());
        out + piece(s, used, text::utf8_len(s))
    }
}

/// The end of a text is a boundary, and so is its start.
pub proof fn lemma_ends(s: Seq<char>)
    ensures
        text::starts_at(s, 0, 0),
        text::is_boundary(s, 0),
        text::char_index(s, 0) == 0,
        text::starts_at(s, text::utf8_len(s) as int, s.len() as int),
        text::is_boundary(s, text::utf8_len(s) as int),
        text::char_index(s, text::utf8_len(s) as int) == s.len(),
{
    assert(s.take(0) =~= Seq::<char>::empty());
    assert(s.take(s.len() as int) =~= s);
    assert(text::starts_at(s, 0, 0));
    assert(text::starts_at(s, text::utf8_len(s) as int, s.len() as int));
    text::lemma_char_index_unique(s, 0, 0, text::char_index(s, 0));
    text::lemma_char_index_unique(
        s,
        text::utf8_len(s) as int,
        s.len() as int,
        text::char_index(s, text::utf8_len(s) as int),
    );
}

/// A boundary lies within the text.
proof fn lemma_boundary_within(s: Seq<char>, byte: int)
    requires
        text::is_boundary(s, byte),
    ensures
        0 <= byte <= text::utf8_len(s),
{
    let k = text::char_index(s, byte);
    text::lemma_total_monotone(s, text::width_measure(), k, s.len() as int);
    assert(s.take(s.len() as int) =~= s);
}

fn nth_paste_text<'a>(pastes: &'a Vec<Paste>, placeholder: &str, n: usize) -> (res: Option<
    &'a str,
>)
    ensures
        res is Some <==> nth_paste(paste_views(pastes@), placeholder@, n as nat) is Some,
        res matches Some(t) ==> nth_paste(paste_views(pastes@), placeholder@, n as nat) == Some(
            t@,
        ),
{
    let ghost all = paste_views(pastes@);
    let mut left: usize = n;
    let mut i: usize = 0;
    assert(all.skip(0) =~= all);
    while i < pastes.len()
        invariant
            all == paste_views(pastes@),
            i <= pastes@.len(),
            nth_paste(all, placeholder@, n as nat) == nth_paste(
                all.skip(i as int),
                placeholder@,
                left as nat,
            ),
        decreases pastes@.len() - i,
    {
        assert(all.skip(i as int)[0] == all[i as int]);
        assert(all.skip(i as int).drop_first() =~= all.skip(i + 1));
        if text::same_text(pastes[i].0.as_str(), placeholder) {
            if left == 0 {
                return Some(pastes[i].1.as_str());
            }
            left = left - 1;
        }
        i = i + 1;
    }
    None
}

fn clamp(byte: usize, len: usize) -> (res: usize)
    ensures
        res == if byte < len {
            byte
        } else {
            len
        },
{
    if byte < len {
        byte
    } else {
        len
    }
}

fn count_uses(
    s: &str,
    chars: &Vec<char>,
    elements: &Vec<TextElement>,
    placeholder: &str,
    i: usize,
) -> (count: usize)
    requires
        chars@ == s@,
        i <= elements@.len(),
    ensures
        count == uses_before(s@, element_views(elements@), placeholder@, i as nat),
        count <= i,
{
    let len = text::byte_len(s);
    let ghost views = element_views(elements@);
    let mut count: usize = 0;
    let mut j: usize = 0;
    while j < i
        invariant
            chars@ == s@,
            len == text::utf8_len(s@),
            views == element_views(elements@),
            j <= i <= elements@.len(),
            count <= j,
            count == uses_before(s@, views, placeholder@, j as nat),
        decreases i - j,
    {
        let element = &elements[j];
        assert(views[j as int] == element@);
        let shown = piece_at(
            s,
            chars,
            clamp(element.byte_range.start, len),
            clamp(element.byte_range.end, len),
        );
        if shown.is_some() {
            match element.placeholder(s) {
                Some(p) => {
                    if text::same_text(p, placeholder) {
                        count = count + 1;
                    }
                },
                None => {},
            }
        }
        j = j + 1;
    }
    count
}

/// The text with its placeholders replaced by what was pasted.
pub fn expand_pending_pastes(s: &str, elements: Vec<TextElement>, pastes: &Vec<Paste>) -> (res:
    String)
    ensures
        res@ == expanded(s@, element_views(elements@), paste_views(pastes@)),
{
    if pastes.len() == 0 || elements.len() == 0 {
        return s.to_owned();
    }
    let ordered = sort_by_start(elements);
    let chars = text::chars_of(s);
    let len = text::byte_len(s);
    let ghost views = element_views(ordered@);
    let ghost all = paste_views(pastes@);
    proof {
        law_by_start(element_views(elements@));
    }
    let mut out = String::new();
    let mut used: usize = 0;
    let mut k: usize = 0;
    proof {
        lemma_ends(s@);
    }
    while k < ordered.len()
        invariant
            chars@ == s@,
            len == text::utf8_len(s@),
            views == element_views(ordered@),
            all == paste_views(pastes@),
            k <= ordered@.len(),
            (out@, used as nat) == rebuilt(s@, views, all, k as nat),
            text::is_boundary(s@, used as int),
        decreases ordered@.len() - k,
    {
        let element = &ordered[k];
        assert(views[k as int] == element@);
        let start = clamp(element.byte_range.start, len);
        let end = clamp(element.byte_range.end, len);
        let ghost before = out@;
        let ghost before_used = used as nat;
        match piece_at(s, &chars, start, end) {
            None => {},
            Some(shown) => {
                if start > used {
                    match piece_at(s, &chars, used, start) {
                        Some(gap) => out.append(gap),
                        None => {},
                    }
                }
                let ghost with_gap = out@;
                let pasted = match element.placeholder(s) {
                    Some(p) => {
                        let uses = count_uses(s, &chars, &ordered, p, k);
                        nth_paste_text(pastes, p, uses)
                    },
                    None => None,
                };
                match pasted {
                    Some(t) => out.append(t),
                    None => out.append(shown),
                }
                used = end;
                assert(out@ =~= rebuilt(s@, views, all, (k + 1) as nat).0);
            },
        }
        k = k + 1;
    }
    proof {
        lemma_ends(s@);
        lemma_boundary_within(s@, used as int);
    }
    match piece_at(s, &chars, used, len) {
        Some(rest) => out.append(rest),
        None => {},
    }
    out
}

proof fn lemma_nth_paste_source(pastes: Seq<PasteView>, placeholder: Seq<char>, n: nat) -> (i: int)
    requires
        nth_paste(pastes, placeholder, n) is Some,
    ensures
        0 <= i < pastes.len(),
        nth_paste(pastes, placeholder, n) == Some(pastes[i].1),
    decreases pastes.len(),
{
    if pastes[0].0 != placeholder {
        1 + lemma_nth_paste_source(pastes.drop_first(), placeholder, n)
    } else if n == 0 {
        0
    } else {
        1 + lemma_nth_paste_source(pastes.drop_first(), placeholder, (n - 1) as nat)
    }
}

/// Where what was rebuilt so far is blank, so is the part of the text that it is
/// made of.
proof fn lemma_rebuilt_blank(
    s: Seq<char>,
    elements: Seq<ElementView>,
    pastes: Seq<PasteView>,
    k: nat,
)
    requires
        k <= elements.len(),
        forall|i: int| 0 <= i < pastes.len() ==> !text::is_blank((#[trigger] pastes[i]).1),
    ensures
        ({
            let (out, used) = rebuilt(s, elements, pastes, k);
            &&& text::is_boundary(s, used as int)
            &&& text::is_blank(out) ==> text::is_blank(s.take(text::char_index(s, used as int)))
        }),
    decreases k,
{
    lemma_ends(s);
    if k > 0 {
        lemma_rebuilt_blank(s, elements, pastes, (k - 1) as nat);
        let (before, used) = rebuilt(s, elements, pastes, (k - 1) as nat);
        let (out, end) = rebuilt(s, elements, pastes, k);
        let element = elements[k - 1];
        if is_shown(s, element) {
            let start = clamped(s, element.start);
            let gap = if start > used {
                piece(s, used, start)
            } else {
                Seq::empty()
            };
            let shown = match replacement(s, elements, pastes, (k - 1) as nat) {
                Some(pasted) => pasted,
                None => piece(s, start, end),
            };
            assert(out == before + gap + shown);
            lemma_piece(s, start, end);
            let from = text::char_index(s, start as int);
            let to = text::char_index(s, end as int);
            let at = text::char_index(s, used as int);
            if start > used {
                lemma_piece(s, used, start);
            } else {
                lemma_piece(s, start, used);
            }
            if text::is_blank(out) {
                assert forall|i: int| 0 <= i < before.len() implies text::is_white(
                    #[trigger] before[i],
                ) by {
                    assert(out[i] == before[i]);
                }
                assert forall|i: int| 0 <= i < gap.len() implies text::is_white(
                    #[trigger] gap[i],
                ) by {
                    assert(out[before.len() + i] == gap[i]);
                }
                assert forall|i: int| 0 <= i < shown.len() implies text::is_white(
                    #[trigger] shown[i],
                ) by {
                    assert(out[before.len() + gap.len() + i] == shown[i]);
                }
                assert(text::is_blank(shown));
                if replacement(s, elements, pastes, (k - 1) as nat) is Some {
                    let p = placeholder_of(s, element).unwrap();
                    let i = lemma_nth_paste_source(
                        pastes,
                        p,
                        uses_before(s, elements, p, (k - 1) as nat),
                    );
                    assert(!text::is_blank(pastes[i].1));
                }
                assert forall|i: int| 0 <= i < to implies text::is_white(
                    #[trigger] s.take(to)[i],
                ) by {
                    if i < at {
                        assert(text::is_white(s.take(at)[i]));
                    } else if i < from {
                        assert(text::is_white(gap[i - at]));
                    } else {
                        assert(text::is_white(shown[i - from]));
                    }
                }
            }
        }
    }
}

/// A text that says something still does when its placeholders are replaced by
/// texts that say something.
pub proof fn law_expansion_is_not_blank(
    s: Seq<char>,
    elements: Seq<ElementView>,
    pastes: Seq<PasteView>,
)
    requires
        !text::is_blank(s),
        forall|i: int| 0 <= i < pastes.len() ==> !text::is_blank((#[trigger] pastes[i]).1),
    ensures
        !text::is_blank(expanded(s, elements, pastes)),
{
    if pastes.len() > 0 && elements.len() > 0 {
        let ordered = by_start(elements);
        let (out, used) = rebuilt(s, ordered, pastes, ordered.len());
        lemma_rebuilt_blank(s, ordered, pastes, ordered.len());
        lemma_ends(s);
        lemma_boundary_within(s, used as int);
        lemma_piece(s, used, text::utf8_len(s));
        let rest = piece(s, used, text::utf8_len(s));
        let at = text::char_index(s, used as int);
        let whole = expanded(s, elements, pastes);
        assert(whole == out + rest);
        if text::is_blank(whole) {
            assert forall|i: int| 0 <= i < out.len() implies text::is_white(#[trigger] out[i]) by {
                assert(whole[i] == out[i]);
            }
            assert forall|i: int| 0 <= i < s.len() implies text::is_white(#[trigger] s[i]) by {
                if i < at {
                    assert(text::is_white(s.take(at)[i]));
                } else {
                    assert(whole[out.len() + (i - at)] == s[i]);
                }
            }
        }
    }
}

/// The first `k` parts between the first `k + 1` gaps.
pub open spec fn woven(gaps: Seq<Seq<char>>, parts: Seq<Seq<char>>, k: nat) -> Seq<char>
    decreases k,
{
    if k == 0 {
        gaps[0]
    } else {
        woven(gaps, parts, (k - 1) as nat) + parts[k - 1] + gaps[k as int]
    }
}

/// What is woven first stays first.
proof fn lemma_woven_prefix(gaps: Seq<Seq<char>>, parts: Seq<Seq<char>>, i: nat, k: nat)
    requires
        i <= k,
    ensures
        woven(gaps, parts, k).len() >= woven(gaps, parts, i).len(),
        woven(gaps, parts, k).take(woven(gaps, parts, i).len() as int) == woven(gaps, parts, i),
        i < k ==> woven(gaps, parts, k).len() >= (woven(gaps, parts, i) + parts[i as int]).len(),
        i < k ==> woven(gaps, parts, k).take(
            (woven(gaps, parts, i) + parts[i as int]).len() as int,
        ) == woven(gaps, parts, i) + parts[i as int],
    decreases k,
{
    let whole = woven(gaps, parts, k);
    let first = woven(gaps, parts, i);
    if i == k {
        assert(whole.take(first.len() as int) =~= first);
    } else {
        lemma_woven_prefix(gaps, parts, i, (k - 1) as nat);
        let before = woven(gaps, parts, (k - 1) as nat);
        assert(whole.take(first.len() as int) =~= before.take(first.len() as int));
        let more = first + parts[i as int];
        if i == k - 1 {
            assert(whole.take(more.len() as int) =~= more);
        } else {
            assert(whole.take(more.len() as int) =~= before.take(more.len() as int));
        }
    }
}

/// Elements that come in the order of their starts are in that order already.
proof fn lemma_by_start_same(elements: Seq<ElementView>)
    requires
        is_by_start(elements),
    ensures
        by_start(elements) == elements,
    decreases elements.len(),
{
    if elements.len() > 0 {
        let rest = elements.drop_last();
        assert(is_by_start(rest)) by {
            assert forall|i: int, j: int| 0 <= i <= j < rest.len() implies (
            #[trigger] rest[i]).start <= (#[trigger] rest[j]).start by {
                assert(elements[i].start <= elements[j].start);
            }
        }
        lemma_by_start_same(rest);
        if rest.len() > 0 {
            assert(elements[elements.len() - 2].start <= elements[elements.len() - 1].start);
        }
        assert(rest.push(elements.last()) =~= elements);
    }
}

/// The pastes for a placeholder are taken in their order.
proof fn lemma_nth_paste(pastes: Seq<PasteView>, placeholder: Seq<char>, n: nat)
    ensures
        ({
            let texts = pastes.filter(|paste: PasteView| paste.0 == placeholder);
            nth_paste(pastes, placeholder, n) == if n < texts.len() {
                Some(texts[n as int].1)
            } else {
                None
            }
        }),
    decreases pastes.len(),
{
    let is_for = |paste: PasteView| paste.0 == placeholder;
    let texts = pastes.filter(is_for);
    if pastes.len() == 0 {
        reveal(Seq::filter);
    } else {
        let first = seq![pastes[0]];
        let rest = pastes.drop_first();
        assert(pastes =~= first + rest);
        Seq::filter_distributes_over_add(first, rest, is_for);
        assert(first.filter(is_for) =~= if pastes[0].0 == placeholder {
            first
        } else {
            Seq::empty()
        }) by {
            reveal(Seq::filter);
            assert(first.drop_last() =~= Seq::<PasteView>::empty());
            assert(Seq::<PasteView>::empty().filter(is_for) =~= Seq::<PasteView>::empty());
            assert(Seq::<PasteView>::empty().push(pastes[0]) =~= first);
        }
        if pastes[0].0 != placeholder {
            lemma_nth_paste(rest, placeholder, n);
            assert(texts =~= rest.filter(is_for));
        } else if n > 0 {
            lemma_nth_paste(rest, placeholder, (n - 1) as nat);
            assert(texts =~= first + rest.filter(is_for));
        } else {
            assert(texts =~= first + rest.filter(is_for));
            assert(texts[0] == pastes[0]);
        }
    }
}

/// The text that stands for the `i`-th of several marked texts, each with its
/// placeholder: the paste for the placeholder that comes after as many as earlier marks
/// with it have taken; where none is left, the marked text itself.
pub open spec fn stands_for(
    marks: Seq<Seq<char>>,
    placeholders: Seq<Seq<char>>,
    pastes: Seq<PasteView>,
    i: int,
) -> Seq<char> {
    let texts = pastes.filter(|paste: PasteView| paste.0 == placeholders[i]);
    let taken = placeholders.take(i).filter(|p: Seq<char>| p == placeholders[i]).len();
    if taken < texts.len() {
        texts[taken as int].1
    } else {
        marks[i]
    }
}

/// Whether elements mark `marks` in the text that is woven of `gaps` and `marks`, and
/// show `placeholders` there.
pub open spec fn mark_out(
    elements: Seq<ElementView>,
    gaps: Seq<Seq<char>>,
    marks: Seq<Seq<char>>,
    placeholders: Seq<Seq<char>>,
) -> bool {
    &&& gaps.len() == marks.len() + 1
    &&& elements.len() == marks.len()
    &&& placeholders.len() == marks.len()
    &&& forall|i: int|
        0 <= i < marks.len() ==> {
            let before = woven(gaps, marks, i as nat);
            &&& (#[trigger] elements[i]).start == encode_utf8(before).len()
            &&& elements[i].end == encode_utf8(before + marks[i]).len()
            &&& placeholders[i] == match elements[i].placeholder {
                Some(p) => p,
                None => marks[i],
            }
        }
}

/// Where the ends of an element fall.
proof fn lemma_marked(
    elements: Seq<ElementView>,
    gaps: Seq<Seq<char>>,
    marks: Seq<Seq<char>>,
    placeholders: Seq<Seq<char>>,
    i: int,
)
    requires
        mark_out(elements, gaps, marks, placeholders),
        0 <= i < marks.len(),
    ensures
        ({
            let s = woven(gaps, marks, marks.len());
            let before = woven(gaps, marks, i as nat);
            let element = elements[i];
            &&& text::starts_at(s, element.start as int, before.len() as int)
            &&& text::char_index(s, element.start as int) == before.len()
            &&& text::starts_at(s, element.end as int, (before + marks[i]).len() as int)
            &&& text::char_index(s, element.end as int) == (before + marks[i]).len()
            &&& element.start <= element.end <= text::utf8_len(s)
            &&& is_shown(s, element)
            &&& clamped(s, element.start) == element.start
            &&& clamped(s, element.end) == element.end
            &&& piece(s, element.start, element.end) == marks[i]
            &&& placeholder_of(s, element) == Some(placeholders[i])
        }),
{
    let s = woven(gaps, marks, marks.len());
    let before = woven(gaps, marks, i as nat);
    let after = before + marks[i];
    let element = elements[i];
    lemma_woven_prefix(gaps, marks, i as nat, marks.len());
    text::lemma_utf8_len(before);
    text::lemma_utf8_len(after);
    text::lemma_total_add(before, marks[i], text::width_measure());
    assert(text::starts_at(s, element.start as int, before.len() as int));
    assert(text::starts_at(s, element.end as int, after.len() as int));
    text::lemma_char_index_unique(
        s,
        element.start as int,
        before.len() as int,
        text::char_index(s, element.start as int),
    );
    text::lemma_char_index_unique(
        s,
        element.end as int,
        after.len() as int,
        text::char_index(s, element.end as int),
    );
    lemma_boundary_within(s, element.start as int);
    lemma_boundary_within(s, element.end as int);
    assert(piece(s, element.start, element.end) =~= marks[i]) by {
        assert(s.take(after.len() as int) == after);
        assert forall|j: int| 0 <= j < marks[i].len() implies s[before.len() + j]
            == #[trigger] marks[i][j] by {
            assert(s.take(after.len() as int)[before.len() + j] == after[before.len() + j]);
        }
    }
}

/// How often a placeholder was used is how often it stands before.
proof fn lemma_uses(
    elements: Seq<ElementView>,
    gaps: Seq<Seq<char>>,
    marks: Seq<Seq<char>>,
    placeholders: Seq<Seq<char>>,
    p: Seq<char>,
    i: nat,
)
    requires
        mark_out(elements, gaps, marks, placeholders),
        i <= marks.len(),
    ensures
        uses_before(woven(gaps, marks, marks.len()), elements, p, i) == placeholders.take(
            i as int,
        ).filter(|q: Seq<char>| q == p).len(),
    decreases i,
{
    let is_p = |q: Seq<char>| q == p;
    reveal(Seq::filter);
    if i > 0 {
        lemma_uses(elements, gaps, marks, placeholders, p, (i - 1) as nat);
        lemma_marked(elements, gaps, marks, placeholders, i - 1);
        assert(placeholders.take(i as int).drop_last() =~= placeholders.take(i - 1));
        assert(placeholders.take(i as int).last() == placeholders[i - 1]);
    }
}

/// After `k` elements the text is rebuilt up to the end of the `k`-th.
proof fn lemma_rebuilt_woven(
    elements: Seq<ElementView>,
    gaps: Seq<Seq<char>>,
    marks: Seq<Seq<char>>,
    placeholders: Seq<Seq<char>>,
    pastes: Seq<PasteView>,
    k: nat,
)
    requires
        mark_out(elements, gaps, marks, placeholders),
        k <= marks.len(),
    ensures
        ({
            let s = woven(gaps, marks, marks.len());
            let parts = Seq::new(
                marks.len(),
                |i: int| stands_for(marks, placeholders, pastes, i),
            );
            rebuilt(s, elements, pastes, k) == if k == 0 {
                (Seq::empty(), 0)
            } else {
                (woven(gaps, parts, (k - 1) as nat) + parts[k - 1], elements[k - 1].end)
            }
        }),
    decreases k,
{
    let s = woven(gaps, marks, marks.len());
    let parts = Seq::new(marks.len(), |i: int| stands_for(marks, placeholders, pastes, i));
    if k > 0 {
        let i = (k - 1) as nat;
        let element = elements[i as int];
        let p = placeholders[i as int];
        lemma_rebuilt_woven(elements, gaps, marks, placeholders, pastes, i);
        lemma_marked(elements, gaps, marks, placeholders, i as int);
        lemma_uses(elements, gaps, marks, placeholders, p, i);
        lemma_nth_paste(pastes, p, uses_before(s, elements, p, i));
        let (out, used) = rebuilt(s, elements, pastes, i);
        let gap = if element.start > used {
            piece(s, used, element.start)
        } else {
            Seq::empty()
        };
        let before = woven(gaps, marks, i);
        let shown = match replacement(s, elements, pastes, i) {
            Some(pasted) => pasted,
            None => piece(s, element.start, element.end),
        };
        assert(shown == parts[i as int]) by {
            assert((|paste: PasteView| paste.0 == placeholders[i as int]) =~= |paste: PasteView|
                paste.0 == p);
            assert((|q: Seq<char>| q == placeholders[i as int]) =~= |q: Seq<char>| q == p);
            assert(parts[i as int] == stands_for(marks, placeholders, pastes, i as int));
        }
        let at = text::char_index(s, used as int);
        lemma_ends(s);
        if i > 0 {
            lemma_marked(elements, gaps, marks, placeholders, i - 1);
            assert(at + gaps[i as int].len() == before.len());
        }
        lemma_woven_prefix(gaps, marks, i, marks.len());
        assert(gap =~= gaps[i as int]) by {
            assert forall|j: int| 0 <= j < gaps[i as int].len() implies s[at + j]
                == #[trigger] gaps[i as int][j] by {
                assert(s.take(before.len() as int)[at + j] == before[at + j]);
            }
            if element.start <= used {
                if at < before.len() {
                    text::lemma_total_step(s, text::width_measure(), at);
                    text::lemma_total_monotone(
                        s,
                        text::width_measure(),
                        at + 1,
                        before.len() as int,
                    );
                }
            }
        }
        assert(out + gap + shown =~= woven(gaps, parts, i) + parts[i as int]);
    }
}

/// Expanding a text replaces each marked range by its paste, or keeps it, and leaves
/// everything outside the ranges as it is.
///
/// The text is woven of gaps and marks, and the elements mark out the latter, in order.
/// The expansion is woven of the same gaps and of what stands for each mark. The first
/// element with a placeholder takes the first paste for it, the second the second, and
/// so on; an element without one keeps its text.
pub proof fn law_expansion_replaces_marks(
    elements: Seq<ElementView>,
    gaps: Seq<Seq<char>>,
    marks: Seq<Seq<char>>,
    placeholders: Seq<Seq<char>>,
    pastes: Seq<PasteView>,
)
    requires
        mark_out(elements, gaps, marks, placeholders),
    ensures
        expanded(woven(gaps, marks, marks.len()), elements, pastes) == woven(
            gaps,
            Seq::new(marks.len(), |i: int| stands_for(marks, placeholders, pastes, i)),
            marks.len(),
        ),
{
    let s = woven(gaps, marks, marks.len());
    let n = marks.len();
    let parts = Seq::new(n, |i: int| stands_for(marks, placeholders, pastes, i));
    if n > 0 && pastes.len() > 0 {
        assert forall|i: int, j: int| 0 <= i <= j < elements.len() implies (
        #[trigger] elements[i]).start <= (#[trigger] elements[j]).start by {
            lemma_marked(elements, gaps, marks, placeholders, i);
            lemma_marked(elements, gaps, marks, placeholders, j);
            lemma_woven_prefix(gaps, marks, i as nat, j as nat);
            text::lemma_total_monotone(
                s,
                text::width_measure(),
                woven(gaps, marks, i as nat).len() as int,
                woven(gaps, marks, j as nat).len() as int,
            );
        }
        lemma_by_start_same(elements);
        lemma_rebuilt_woven(elements, gaps, marks, placeholders, pastes, n);
        lemma_marked(elements, gaps, marks, placeholders, n - 1);
        lemma_ends(s);
        let used = elements[n - 1].end;
        assert(piece(s, used, text::utf8_len(s)) =~= gaps[n as int]);
    } else if pastes.len() == 0 {
        assert(parts =~= marks) by {
            assert forall|i: int| 0 <= i < n implies #[trigger] parts[i] == marks[i] by {
                pastes.lemma_filter_len(|paste: PasteView| paste.0 == placeholders[i]);
            }
        }
    }
}

/// One element over the middle of a text: what is before it and what is behind it stay
/// as they are, and the middle is replaced by the first paste for its placeholder, if
/// there is one. An element that ends past the end of the text counts up to the end, and
/// needs a placeholder of its own.
pub proof fn law_expansion_of_one_element(
    a: Seq<char>,
    middle: Seq<char>,
    b: Seq<char>,
    element: ElementView,
    pastes: Seq<PasteView>,
)
    requires
        ({
            let len = encode_utf8(a + middle + b).len();
            &&& element.start == encode_utf8(a).len() || element.start > len && middle.len() == 0
                && b.len() == 0
            &&& element.end == encode_utf8(a + middle).len() || element.end > len && b.len() == 0
        }),
    ensures
        ({
            let len = encode_utf8(a + middle + b).len();
            let texts = pastes.filter(
                |paste: PasteView|
                    match element.placeholder {
                        Some(p) => paste.0 == p,
                        None => element.start <= element.end <= len && paste.0 == middle,
                    },
            );
            expanded(a + middle + b, seq![element], pastes) == if texts.len() > 0 {
                a + texts[0].1 + b
            } else {
                a + middle + b
            }
        }),
{
    let s = a + middle + b;
    let len = encode_utf8(s).len();
    let is_for = |paste: PasteView|
        match element.placeholder {
            Some(p) => paste.0 == p,
            None => element.start <= element.end <= len && paste.0 == middle,
        };
    let texts = pastes.filter(is_for);
    let elements = seq![element];
    text::lemma_utf8_len(a);
    text::lemma_utf8_len(a + middle);
    text::lemma_utf8_len(s);
    text::lemma_total_add(a, middle, text::width_measure());
    text::lemma_total_add(a + middle, b, text::width_measure());
    let from = clamped(s, element.start);
    let to = clamped(s, element.end);
    assert(s.take(a.len() as int) =~= a);
    assert(s.take((a + middle).len() as int) =~= a + middle);
    if b.len() == 0 {
        assert(s =~= a + middle);
        if middle.len() == 0 {
            assert(s =~= a);
        }
    }
    assert(text::starts_at(s, from as int, a.len() as int));
    assert(text::starts_at(s, to as int, (a + middle).len() as int));
    text::lemma_char_index_unique(s, from as int, a.len() as int, text::char_index(s, from as int));
    text::lemma_char_index_unique(
        s,
        to as int,
        (a + middle).len() as int,
        text::char_index(s, to as int),
    );
    assert(piece(s, from, to) =~= middle);
    lemma_ends(s);
    if pastes.len() > 0 {
        assert(is_by_start(elements));
        lemma_by_start_same(elements);
        reveal_with_fuel(rebuilt, 2);
        reveal_with_fuel(uses_before, 2);
        let gap = if from > 0 {
            piece(s, 0, from)
        } else {
            Seq::empty()
        };
        assert(gap =~= a) by {
            if from == 0 && a.len() > 0 {
                text::lemma_total_step(s, text::width_measure(), 0);
                text::lemma_total_monotone(s, text::width_measure(), 1, a.len() as int);
            }
        }
        assert(piece(s, to, text::utf8_len(s)) =~= b);
        match placeholder_of(s, element) {
            Some(p) => {
                if element.placeholder is None {
                    lemma_boundary_within(s, element.start as int);
                    lemma_boundary_within(s, element.end as int);
                    assert(p == middle);
                }
                lemma_nth_paste(pastes, p, 0);
                assert(is_for =~= |paste: PasteView| paste.0 == p);
            },
            None => {
                lemma_nothing_kept(pastes, is_for);
            },
        }
        let shown = match replacement(s, elements, pastes, 0) {
            Some(pasted) => pasted,
            None => piece(s, from, to),
        };
        assert(rebuilt(s, elements, pastes, 1) == (Seq::<char>::empty() + gap + shown, to));
        assert(Seq::<char>::empty() + gap + shown + b =~= a + shown + b);
    } else {
        pastes.lemma_filter_len(is_for);
    }
}

proof fn lemma_nothing_kept(pastes: Seq<PasteView>, keeps: spec_fn(PasteView) -> bool)
    requires
        forall|paste: PasteView| !#[trigger] keeps(paste),
    ensures
        pastes.filter(keeps).len() == 0,
    decreases pastes.len(),
{
    reveal(Seq::filter);
    if pastes.len() > 0 {
        lemma_nothing_kept(pastes.drop_last(), keeps);
    }
}

/// An element that starts or ends within a character, or ends before it starts, leaves
/// the text as it is.
pub proof fn law_expansion_off_boundary(
    s: Seq<char>,
    element: ElementView,
    pastes: Seq<PasteView>,
)
    requires
        ({
            let len = encode_utf8(s).len();
            ||| element.start > element.end && element.end < len
            ||| element.start < len && forall|k: int|
                0 <= k <= s.len() ==> #[trigger] encode_utf8(s.take(k)).len() != element.start
            ||| element.end < len && forall|k: int|
                0 <= k <= s.len() ==> #[trigger] encode_utf8(s.take(k)).len() != element.end
        }),
    ensures
        expanded(s, seq![element], pastes) == s,
{
    let elements = seq![element];
    text::lemma_utf8_len(s);
    let from = clamped(s, element.start);
    let to = clamped(s, element.end);
    if is_shown(s, element) {
        let i = text::char_index(s, from as int);
        let j = text::char_index(s, to as int);
        text::lemma_utf8_len(s.take(i));
        text::lemma_utf8_len(s.take(j));
        assert(encode_utf8(s.take(i)).len() == from);
        assert(encode_utf8(s.take(j)).len() == to);
    }
    if pastes.len() > 0 {
        lemma_by_start_same(elements);
        reveal_with_fuel(rebuilt, 2);
        lemma_ends(s);
        assert(piece(s, 0, text::utf8_len(s)) =~= s);
        assert(Seq::<char>::empty() + s =~= s);
    }
}

/// In which order elements with different starts are given makes no difference.
pub proof fn law_order_of_elements(
    s: Seq<char>,
    elements: Seq<ElementView>,
    ordered: Seq<ElementView>,
    pastes: Seq<PasteView>,
)
    requires
        elements.to_multiset() == ordered.to_multiset(),
        forall|i: int, j: int|
            0 <= i < j < ordered.len() ==> (#[trigger] ordered[i]).start < (
            #[trigger] ordered[j]).start,
    ensures
        expanded(s, elements, pastes) == expanded(s, ordered, pastes),
{
    broadcast use vstd::seq_lib::group_to_multiset_ensures;

    law_by_start(elements);
    lemma_by_start_same(ordered);
    lemma_same_order(by_start(elements), ordered);
    assert(elements.len() == elements.to_multiset().len());
    assert(ordered.len() == ordered.to_multiset().len());
}

proof fn lemma_same_order(a: Seq<ElementView>, b: Seq<ElementView>)
    requires
        a.to_multiset() == b.to_multiset(),
        is_by_start(a),
        forall|i: int, j: int|
            0 <= i < j < b.len() ==> (#[trigger] b[i]).start < (#[trigger] b[j]).start,
    ensures
        a == b,
    decreases a.len(),
{
    broadcast use vstd::seq_lib::group_to_multiset_ensures;

    assert(a.len() == a.to_multiset().len());
    assert(b.len() == b.to_multiset().len());
    if a.len() > 0 {
        let n = a.len() - 1;
        assert(b.to_multiset().contains(a[n])) by {
            assert(a.contains(a[n]));
        }
        assert(b.contains(a[n]));
        assert(a.contains(b[n])) by {
            assert(b.contains(b[n]));
            assert(a.to_multiset().contains(b[n]));
        }
        let i = choose|i: int| 0 <= i < b.len() && b[i] == a[n];
        let j = choose|j: int| 0 <= j < a.len() && a[j] == b[n];
        assert(a[j].start <= a[n].start);
        if i < n {
            assert(b[i].start < b[n].start);
        }
        let ra = a.drop_last();
        let rb = b.drop_last();
        assert(a =~= ra.push(a[n]));
        assert(b =~= rb.push(b[n]));
        assert(ra.to_multiset() =~= a.to_multiset().remove(a[n])) by {
            assert(a.to_multiset() =~= ra.to_multiset().insert(a[n]));
        }
        assert(rb.to_multiset() =~= b.to_multiset().remove(b[n])) by {
            assert(b.to_multiset() =~= rb.to_multiset().insert(b[n]));
        }
        assert(is_by_start(ra)) by {
            assert forall|x: int, y: int| 0 <= x <= y < ra.len() implies (#[trigger] ra[x]).start
                <= (#[trigger] ra[y]).start by {
                assert(a[x].start <= a[y].start);
            }
        }
        assert forall|x: int, y: int| 0 <= x < y < rb.len() implies (#[trigger] rb[x]).start < (
        #[trigger] rb[y]).start by {
            assert(b[x].start < b[y].start);
        }
        lemma_same_order(ra, rb);
    } else {
        assert(a =~= b);
    }
}

/// An element shows the placeholder that it carries. One that carries none shows the
/// text that it marks, where it starts and ends between characters.
pub proof fn law_placeholder_shown(
    a: Seq<char>,
    middle: Seq<char>,
    b: Seq<char>,
    element: ElementView,
)
    ensures
        element.placeholder is Some ==> placeholder_of(a + middle + b, element)
            == element.placeholder,
        element.placeholder is None && element.start == encode_utf8(a).len() && element.end
            == encode_utf8(a + middle).len() ==> placeholder_of(a + middle + b, element) == Some(
            middle,
        ),
        element.placeholder is None && element.start > element.end ==> placeholder_of(
            a + middle + b,
            element,
        ) is None,
        element.placeholder is None && element.end > encode_utf8(a + middle + b).len()
            ==> placeholder_of(a + middle + b, element) is None,
{
    let s = a + middle + b;
    text::lemma_utf8_len(a);
    text::lemma_utf8_len(a + middle);
    text::lemma_utf8_len(s);
    text::lemma_total_add(a, middle, text::width_measure());
    assert(s.take(a.len() as int) =~= a);
    assert(s.take((a + middle).len() as int) =~= a + middle);
    let from = encode_utf8(a).len() as int;
    let to = encode_utf8(a + middle).len() as int;
    assert(text::starts_at(s, from, a.len() as int));
    assert(text::starts_at(s, to, (a + middle).len() as int));
    text::lemma_char_index_unique(s, from, a.len() as int, text::char_index(s, from));
    text::lemma_char_index_unique(s, to, (a + middle).len() as int, text::char_index(s, to));
    assert(piece(s, from as nat, to as nat) =~= middle);
    if text::is_boundary(s, element.end as int) {
        lemma_boundary_within(s, element.end as int);
    }
}

/// Whatever the elements are, the text behind the last of them that is shown is kept at
/// the end of the expansion.
pub proof fn law_rest_is_kept(
    s: Seq<char>,
    elements: Seq<ElementView>,
    element: ElementView,
    pastes: Seq<PasteView>,
    k: int,
)
    requires
        0 <= k <= s.len(),
        element.end == encode_utf8(s.take(k)).len(),
        is_shown(s, element),
        forall|i: int| 0 <= i < elements.len() ==> (#[trigger] elements[i]).start
            <= element.start,
    ensures
        expanded(s, elements.push(element), pastes).len() >= s.len() - k,
        expanded(s, elements.push(element), pastes).skip(
            expanded(s, elements.push(element), pastes).len() - (s.len() - k),
        ) == s.skip(k),
{
    let all = elements.push(element);
    if pastes.len() > 0 {
        law_by_start(elements);
        lemma_inserted(by_start(elements), element);
        let ordered = by_start(all);
        assert(all.drop_last() =~= elements);
        let sorted = by_start(elements);
        if sorted.len() > 0 {
            assert(elements.to_multiset().contains(sorted.last())) by {
                broadcast use vstd::seq_lib::group_to_multiset_ensures;

                assert(sorted.contains(sorted[sorted.len() - 1]));
                assert(sorted.to_multiset().contains(sorted.last()));
            }
            assert(elements.contains(sorted.last())) by {
                broadcast use vstd::seq_lib::group_to_multiset_ensures;

            }
        }
        assert(ordered == sorted.push(element));
        text::lemma_utf8_len(s.take(k));
        assert(text::starts_at(s, element.end as int, k));
        lemma_boundary_within(s, element.end as int);
        text::lemma_char_index_unique(
            s,
            element.end as int,
            k,
            text::char_index(s, element.end as int),
        );
        lemma_ends(s);
        let (out, used) = rebuilt(s, ordered, pastes, ordered.len());
        assert(used == element.end);
        let rest = piece(s, used, text::utf8_len(s));
        assert(rest =~= s.skip(k));
        assert((out + rest).skip(out.len() as int) =~= rest);
    } else {
        assert(s.skip(s.len() - (s.len() - k)) == s.skip(k));
    }
}

/// The value of an element or of a paste holds what it does, each in its place.
pub proof fn law_values_of_parts(element: TextElement, pastes: Seq<Paste>, i: int)
    requires
        0 <= i < pastes.len(),
    ensures
        element@.start == element.byte_range.start,
        element@.end == element.byte_range.end,
        element@.placeholder is Some <==> element.placeholder is Some,
        element.placeholder matches Some(p) ==> element@.placeholder == Some(p@),
        paste_views(pastes).len() == pastes.len(),
        paste_views(pastes)[i].0 == pastes[i].0@,
        paste_views(pastes)[i].1 == pastes[i].1@,
{
}

/// An element that is not shown uses up no paste, so that those behind it are expanded as
/// without it.
pub proof fn law_hidden_element_uses_no_paste(
    s: Seq<char>,
    hidden: ElementView,
    elements: Seq<ElementView>,
    pastes: Seq<PasteView>,
)
    requires
        !is_shown(s, hidden),
        forall|i: int|
            0 <= i < elements.len() ==> hidden.start <= (#[trigger] elements[i]).start,
        is_by_start(elements),
    ensures
        expanded(s, seq![hidden] + elements, pastes) == expanded(s, elements, pastes),
{
    let all = seq![hidden] + elements;
    assert(is_by_start(all)) by {
        assert forall|i: int, j: int| 0 <= i <= j < all.len() implies (#[trigger] all[i]).start <= (
        #[trigger] all[j]).start by {
            if i > 0 {
                assert(elements[i - 1].start <= elements[j - 1].start);
            } else if j > 0 {
                assert(hidden.start <= elements[j - 1].start);
            }
        }
    }
    lemma_by_start_same(all);
    lemma_by_start_same(elements);
    lemma_rebuilt_without(s, hidden, elements, pastes, elements.len());
    if elements.len() == 0 && pastes.len() > 0 {
        lemma_ends(s);
        assert(piece(s, 0, text::utf8_len(s)) =~= s);
        assert(Seq::<char>::empty() + s =~= s);
    }
}

proof fn lemma_uses_without(
    s: Seq<char>,
    hidden: ElementView,
    elements: Seq<ElementView>,
    p: Seq<char>,
    k: nat,
)
    requires
        !is_shown(s, hidden),
        k <= elements.len(),
    ensures
        uses_before(s, seq![hidden] + elements, p, k + 1) == uses_before(s, elements, p, k),
    decreases k,
{
    let all = seq![hidden] + elements;
    if k > 0 {
        lemma_uses_without(s, hidden, elements, p, (k - 1) as nat);
        assert(all[k as int] == elements[k - 1]);
    } else {
        assert(all[0] == hidden);
        assert(uses_before(s, all, p, 0) == 0);
    }
}

proof fn lemma_rebuilt_without(
    s: Seq<char>,
    hidden: ElementView,
    elements: Seq<ElementView>,
    pastes: Seq<PasteView>,
    k: nat,
)
    requires
        !is_shown(s, hidden),
        k <= elements.len(),
    ensures
        rebuilt(s, seq![hidden] + elements, pastes, k + 1) == rebuilt(s, elements, pastes, k),
    decreases k,
{
    let all = seq![hidden] + elements;
    if k > 0 {
        lemma_rebuilt_without(s, hidden, elements, pastes, (k - 1) as nat);
        assert(all[k as int] == elements[k - 1]);
        match placeholder_of(s, elements[k - 1]) {
            Some(p) => lemma_uses_without(s, hidden, elements, p, (k - 1) as nat),
            None => {},
        }
        assert(replacement(s, all, pastes, k) == replacement(s, elements, pastes, (k - 1) as nat));
    } else {
        assert(all[0] == hidden);
        assert(rebuilt(s, all, pastes, 0) == (Seq::<char>::empty(), 0nat));
    }
}

} // verus!

//! Which pasted texts are still in use in a goal's objective.
use crate::text_elements;
use crate::text_elements::{ElementView, Paste, PasteView, TextElement};
use vstd::hash_map::StringHashMap;
use vstd::prelude::*;

verus! {

/// How many of the first `i` elements show a placeholder in the objective.
pub open spec fn shown_upto(
    objective: Seq<char>,
    elements: Seq<ElementView>,
    placeholder: Seq<char>,
    i: nat,
) -> nat
    decreases i,
{
    if i == 0 {
        0
    } else {
        let before = shown_upto(objective, elements, placeholder, (i - 1) as nat);
        if text_elements::placeholder_of(objective, elements[i - 1]) == Some(placeholder) {
            before + 1
        } else {
            before
        }
    }
}

/// How many elements show a placeholder in the objective.
pub open spec fn shown_count(
    objective: Seq<char>,
    elements: Seq<ElementView>,
    placeholder: Seq<char>,
) -> nat {
    shown_upto(objective, elements, placeholder, elements.len())
}

/// How many of the first `i` pastes are for a placeholder.
pub open spec fn pastes_before(pastes: Seq<PasteView>, placeholder: Seq<char>, i: nat) -> nat
    decreases i,
{
    if i == 0 {
        0
    } else {
        let before = pastes_before(pastes, placeholder, (i - 1) as nat);
        if pastes[i - 1].0 == placeholder {
            before + 1
        } else {
            before
        }
    }
}

/// Whether the `i`-th paste is still in use: its placeholder is not empty, and
/// it is shown more often than there are earlier pastes for it.
pub open spec fn is_active(
    objective: Seq<char>,
    elements: Seq<ElementView>,
    pastes: Seq<PasteView>,
    i: int,
) -> bool {
    let placeholder = pastes[i].0;
    &&& placeholder.len() > 0
    &&& pastes_before(pastes, placeholder, i as nat) < shown_count(
        objective,
        elements,
        placeholder,
    )
}

/// Whether a placeholder is one of the pastes'.
pub open spec fn is_pending(pastes: Seq<PasteView>, placeholder: Seq<char>) -> bool {
    placeholder.len() > 0 && exists|i: int|
        0 <= i < pastes.len() && (#[trigger] pastes[i]).0 == placeholder
}

proof fn lemma_shown_bound(
    objective: Seq<char>,
    elements: Seq<ElementView>,
    placeholder: Seq<char>,
    i: nat,
)
    ensures
        shown_upto(objective, elements, placeholder, i) <= i,
    decreases i,
{
    if i > 0 {
        lemma_shown_bound(objective, elements, placeholder, (i - 1) as nat);
    }
}

/// Counts, for each non-empty placeholder of a paste, the elements that show it.
pub fn active_placeholder_counts(
    objective: &str,
    elements: &Vec<TextElement>,
    pastes: &Vec<Paste>,
) -> (counts: StringHashMap<usize>)
    ensures
        forall|p: Seq<char>| #[trigger]
            counts@.contains_key(p) <==> is_pending(text_elements::paste_views(pastes@), p),
        forall|p: Seq<char>| #[trigger]
            counts@.contains_key(p) ==> counts@[p] == shown_count(
                objective@,
                text_elements::element_views(elements@),
                p,
            ),
{
    let ghost all = text_elements::paste_views(pastes@);
    let ghost views = text_elements::element_views(elements@);
    let mut counts: StringHashMap<usize> = StringHashMap::new();
    let mut i: usize = 0;
    while i < pastes.len()
        invariant
            all == text_elements::paste_views(pastes@),
            i <= pastes@.len(),
            forall|p: Seq<char>| #[trigger]
                counts@.contains_key(p) <==> is_pending(all.take(i as int), p),
            forall|p: Seq<char>| #[trigger] counts@.contains_key(p) ==> counts@[p] == 0,
        decreases pastes@.len() - i,
    {
        let ghost now = all.take(i as int);
        let ghost next = all.take(i + 1);
        let ghost before = counts@;
        let placeholder = &pastes[i].0;
        assert(next[i as int].0 == placeholder@);
        if !placeholder.as_str().is_empty() {
            counts.insert(placeholder.clone(), 0);
        }
        assert forall|p: Seq<char>| #[trigger] counts@.contains_key(p) <==> is_pending(next, p) by {
            if is_pending(now, p) {
                let j = choose|j: int| 0 <= j < now.len() && (#[trigger] now[j]).0 == p;
                assert(next[j].0 == p);
            }
            if is_pending(next, p) {
                let j = choose|j: int| 0 <= j < next.len() && (#[trigger] next[j]).0 == p;
                if j < i {
                    assert(now[j].0 == p);
                }
            }
        }
        i = i + 1;
    }
    assert(all.take(i as int) =~= all);
    let mut k: usize = 0;
    while k < elements.len()
        invariant
            all == text_elements::paste_views(pastes@),
            views == text_elements::element_views(elements@),
            k <= elements@.len(),
            forall|p: Seq<char>| #[trigger] counts@.contains_key(p) <==> is_pending(all, p),
            forall|p: Seq<char>| #[trigger]
                counts@.contains_key(p) ==> counts@[p] == shown_upto(
                    objective@,
                    views,
                    p,
                    k as nat,
                ),
        decreases elements@.len() - k,
    {
        assert(views[k as int] == elements@[k as int]@);
        match elements[k].placeholder(objective) {
            Some(placeholder) => {
                let count: usize = match counts.get(placeholder) {
                    Some(count) => *count,
                    None => 0,
                };
                if counts.contains_key(placeholder) {
                    proof {
                        lemma_shown_bound(objective@, views, placeholder@, k as nat);
                    }
                    counts.insert(placeholder.to_owned(), count + 1);
                }
            },
            None => {},
        }
        k = k + 1;
    }
    counts
}

/// Uses up one showing of a placeholder, if one is left.
pub fn take_active_placeholder(counts: &mut StringHashMap<usize>, placeholder: &str) -> (taken:
    bool)
    ensures
        taken <==> old(counts)@.contains_key(placeholder@) && old(counts)@[placeholder@] > 0,
        taken ==> final(counts)@ == old(counts)@.insert(
            placeholder@,
            (old(counts)@[placeholder@] - 1) as usize,
        ),
        !taken ==> final(counts)@ == old(counts)@,
{
    let count: usize = match counts.get(placeholder) {
        Some(count) => *count,
        None => {
            return false;
        },
    };
    if count == 0 {
        return false;
    }
    counts.insert(placeholder.to_owned(), count - 1);
    true
}

/// A paste is in use exactly where its placeholder is not empty and more elements show it
/// than earlier pastes have it.
pub proof fn law_in_use_exactly(
    objective: Seq<char>,
    elements: Seq<ElementView>,
    pastes: Seq<PasteView>,
    i: int,
)
    requires
        0 <= i < pastes.len(),
    ensures
        is_active(objective, elements, pastes, i) <==> {
            let placeholder = pastes[i].0;
            &&& placeholder.len() > 0
            &&& pastes.take(i).filter(|paste: PasteView| paste.0 == placeholder).len()
                < elements.filter(
                |element: ElementView|
                    text_elements::placeholder_of(objective, element) == Some(placeholder),
            ).len()
        },
{
    let placeholder = pastes[i].0;
    lemma_shown_count(objective, elements, placeholder, elements.len());
    assert(elements.take(elements.len() as int) =~= elements);
    lemma_pastes_before(pastes, placeholder, i as nat);
}

proof fn lemma_shown_count(
    objective: Seq<char>,
    elements: Seq<ElementView>,
    placeholder: Seq<char>,
    k: nat,
)
    requires
        k <= elements.len(),
    ensures
        shown_upto(objective, elements, placeholder, k) == elements.take(k as int).filter(
            |element: ElementView|
                text_elements::placeholder_of(objective, element) == Some(placeholder),
        ).len(),
    decreases k,
{
    reveal(Seq::filter);
    if k > 0 {
        lemma_shown_count(objective, elements, placeholder, (k - 1) as nat);
        assert(elements.take(k as int).drop_last() =~= elements.take(k - 1));
        assert(elements.take(k as int).last() == elements[k - 1]);
    }
}

proof fn lemma_pastes_before(pastes: Seq<PasteView>, placeholder: Seq<char>, k: nat)
    requires
        k <= pastes.len(),
    ensures
        pastes_before(pastes, placeholder, k) == pastes.take(k as int).filter(
            |paste: PasteView| paste.0 == placeholder,
        ).len(),
    decreases k,
{
    reveal(Seq::filter);
    if k > 0 {
        lemma_pastes_before(pastes, placeholder, (k - 1) as nat);
        assert(pastes.take(k as int).drop_last() =~= pastes.take(k - 1));
        assert(pastes.take(k as int).last() == pastes[k - 1]);
    }
}

} // verus!

//! Finding the repository references of a markdown document.
//!
//! Only the text of list items counts. Each item gives at most one
//! reference: that of the leftmost match of the reference pattern.

use crate::markdown::{
    collect_item_texts, event_views, item_texts, markdown_events, parse_markdown, scan,
    text_views, EventView, MarkdownEvent, ScanState,
};
use crate::pattern::{
    blank, first_match, is_blank, pattern_compiles, reference_in, references_in, search,
    ExtractError, REFERENCE_PATTERN,
};
use crate::reference_set::{distinct, lemma_insert_all, ReferenceSet};
use crate::repository::{identities, Identity, Repository};
use vstd::prelude::*;

verus! {

/// Whether one of the texts has to be searched: a blank one is not.
pub open spec fn needs_search(texts: Seq<Seq<char>>) -> bool {
    exists|i: int| 0 <= i < texts.len() && !is_blank(#[trigger] texts[i])
}

/// Whether the extraction from these item texts fails: it does where a text
/// has to be searched and the pattern engine refuses the pattern.
pub open spec fn extraction_fails(texts: Seq<Seq<char>>) -> bool {
    needs_search(texts) && !pattern_compiles(REFERENCE_PATTERN@)
}

/// The references in the texts of list items, in the order of the items. A
/// blank text is skipped without a search, and so is one that the pattern
/// does not match.
pub fn references_from_texts(texts: &Vec<String>) -> (found: Result<Vec<Repository>, ExtractError>)
    ensures
        found is Err <==> extraction_fails(text_views(texts@)),
        found is Ok ==> identities(found->Ok_0@) == references_in(text_views(texts@)),
{
    let ghost views = text_views(texts@);
    let mut references: Vec<Repository> = Vec::new();
    let mut position: usize = 0;
    assert(identities(references@) == references_in(views.take(0)));
    while position < texts.len()
        invariant
            position <= texts.len(),
            views == text_views(texts@),
            identities(references@) == references_in(views.take(position as int)),
            forall|i: int|
                0 <= i < position ==> is_blank(#[trigger] views[i]) || pattern_compiles(
                    REFERENCE_PATTERN@,
                ),
        decreases texts.len() - position,
    {
        let text = texts[position].as_str();
        proof {
            assert(views.take(position + 1).drop_last() == views.take(position as int));
            assert(views.take(position + 1).last() == text@);
            assert(views[position as int] == text@);
        }
        if !blank(text) {
            match search(REFERENCE_PATTERN, text) {
                Ok(found) => {
                    if let Some(reference) = Repository::from_match(found) {
                        let ghost before = references@;
                        references.push(reference);
                        assert(identities(references@) == identities(before).push(reference@));
                    }
                },
                Err(_) => {
                    return Err(ExtractError::PatternRefused);
                },
            }
        }
        position += 1;
    }
    assert(views.take(position as int) == views);
    Ok(references)
}

/// The references in the list items that a sequence of markdown events
/// walks through, in the order in which the items close.
pub fn references_from_events(events: &Vec<MarkdownEvent>) -> (found: Result<
    Vec<Repository>,
    ExtractError,
>)
    ensures
        found is Err <==> extraction_fails(item_texts(event_views(events@))),
        found is Ok ==> identities(found->Ok_0@) == references_in(
            item_texts(event_views(events@)),
        ),
{
    let texts = collect_item_texts(events);
    references_from_texts(&texts)
}

/// The references in the list items of a markdown document, in the order of
/// the items; one that occurs in several items occurs as often in the result.
pub fn parse_readme_in_order(content: &str) -> (found: Result<Vec<Repository>, ExtractError>)
    ensures
        found is Err <==> extraction_fails(item_texts(markdown_events(content@))),
        found is Ok ==> identities(found->Ok_0@) == references_in(
            item_texts(markdown_events(content@)),
        ),
{
    let events = parse_markdown(content);
    references_from_events(&events)
}

/// The distinct references in the list items of a markdown document, each
/// at the place of its first occurrence.
pub fn parse_readme(content: &str) -> (found: Result<ReferenceSet, ExtractError>)
    ensures
        found is Err <==> extraction_fails(item_texts(markdown_events(content@))),
        found is Ok ==> found->Ok_0@ == distinct(
            references_in(item_texts(markdown_events(content@))),
        ),
{
    match parse_readme_in_order(content) {
        Ok(references) => Ok(ReferenceSet::from_sequence(references)),
        Err(error) => Err(error),
    }
}

/// Each item gives at most one reference, and the reference of an item is
/// among those of the whole sequence.
pub proof fn lemma_references_in(texts: Seq<Seq<char>>)
    ensures
        references_in(texts).len() <= texts.len(),
        forall|i: int|
            0 <= i < texts.len() && (#[trigger] reference_in(texts[i])) is Some ==> references_in(
                texts,
            ).contains(reference_in(texts[i])->Some_0),
        forall|reference: Identity|
            references_in(texts).contains(reference) ==> exists|i: int|
                0 <= i < texts.len() && #[trigger] reference_in(texts[i]) == Some(reference),
    decreases texts.len(),
{
    if texts.len() > 0 {
        let front = texts.drop_last();
        let before = references_in(front);
        let all = references_in(texts);
        lemma_references_in(front);
        assert forall|i: int|
            0 <= i < texts.len() && (#[trigger] reference_in(texts[i])) is Some implies all.contains(
            reference_in(texts[i])->Some_0,
        ) by {
            let reference = reference_in(texts[i])->Some_0;
            if i < front.len() {
                assert(front[i] == texts[i]);
                let k = choose|k: int| 0 <= k < before.len() && before[k] == reference;
                assert(all[k] == reference);
            } else {
                assert(all[before.len() as int] == reference);
            }
        }
        assert forall|reference: Identity| all.contains(reference) implies exists|i: int|
            0 <= i < texts.len() && #[trigger] reference_in(texts[i]) == Some(reference) by {
            let k = choose|k: int| 0 <= k < all.len() && all[k] == reference;
            if k < before.len() {
                assert(before[k] == reference);
                assert(before.contains(reference));
                let i = choose|i: int|
                    0 <= i < front.len() && #[trigger] reference_in(front[i]) == Some(reference);
                assert(front[i] == texts[i]);
            } else {
                assert(reference_in(texts[texts.len() - 1]) == Some(reference));
            }
        }
    }
}

/// A reference that the items hold, in however many of them, stands exactly
/// once among the distinct references.
pub proof fn lemma_repeated_reference_extracted_once(texts: Seq<Seq<char>>, i: int)
    requires
        0 <= i < texts.len(),
        reference_in(texts[i]) is Some,
    ensures
        exists|k: int|
            {
                &&& 0 <= k < distinct(references_in(texts)).len()
                &&& #[trigger] distinct(references_in(texts))[k] == reference_in(texts[i])->Some_0
                &&& forall|m: int|
                    0 <= m < distinct(references_in(texts)).len() && distinct(
                        references_in(texts),
                    )[m] == reference_in(texts[i])->Some_0 ==> m == k
            },
{
    let reference = reference_in(texts[i])->Some_0;
    let found = distinct(references_in(texts));
    lemma_references_in(texts);
    lemma_insert_all(Seq::empty(), references_in(texts));
    assert(found.contains(reference));
    let k = choose|k: int| 0 <= k < found.len() && found[k] == reference;
    assert(found[k] == reference);
}

/// An item in which the pattern finds nothing adds no reference.
pub proof fn lemma_item_without_match_adds_nothing(texts: Seq<Seq<char>>, text: Seq<char>)
    requires
        first_match(REFERENCE_PATTERN@, text) is None,
    ensures
        references_in(texts.push(text)) == references_in(texts),
{
    assert(texts.push(text).drop_last() == texts);
}

/// Whether two states of a walk agree in all that decides what is gathered.
pub open spec fn gathers_alike(left: ScanState, right: ScanState) -> bool {
    &&& left.in_list == right.in_list
    &&& left.collecting == right.collecting
    &&& left.text == right.text
}

/// Text that comes while no list item is open changes nothing of what is
/// gathered: the item texts are those of the document without it.
pub proof fn lemma_text_outside_items_ignored(
    before: Seq<EventView>,
    text: Seq<char>,
    after: Seq<EventView>,
)
    requires
        !scan(before).collecting,
    ensures
        item_texts(before + seq![EventView::Text(text)] + after) == item_texts(before + after),
        gathers_alike(
            scan(before + seq![EventView::Text(text)] + after),
            scan(before + after),
        ),
    decreases after.len(),
{
    let with_text = before + seq![EventView::Text(text)] + after;
    let without = before + after;
    if after.len() == 0 {
        assert(without == before);
        assert(with_text.drop_last() == before);
        assert(with_text.last() == EventView::Text(text));
    } else {
        let front = after.drop_last();
        lemma_text_outside_items_ignored(before, text, front);
        assert(with_text.drop_last() == before + seq![EventView::Text(text)] + front);
        assert(without.drop_last() == before + front);
        assert(with_text.last() == after.last());
        assert(without.last() == after.last());
    }
}

} // verus!

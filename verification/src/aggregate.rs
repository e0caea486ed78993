//! The tag aggregator: folds the flat rows of the tag table back onto the
//! quotes that own them.

use crate::models::{Quote, QuoteView, QuoteWithTags, QuoteWithTagsView, Tag, TagView};
use vstd::prelude::*;

verus! {

/// The condition that a tag row belongs to the quote with the given id.
pub open spec fn belongs_to(id: Seq<char>) -> spec_fn(TagView) -> bool {
    |row: TagView| row.quote_id == id
}

/// The function that takes a tag row to its label.
pub open spec fn label() -> spec_fn(TagView) -> Seq<char> {
    |row: TagView| row.tag
}

/// The labels that `rows` give to the quote with the given id, in the order
/// of the rows.
pub open spec fn labels_of(rows: Seq<TagView>, id: Seq<char>) -> Seq<Seq<char>> {
    rows.filter(belongs_to(id)).map_values(label())
}

/// Each quote, in the order given, with the labels that `rows` give to it.
pub open spec fn attach(quotes: Seq<QuoteView>, rows: Seq<TagView>) -> Seq<QuoteWithTagsView> {
    quotes.map_values(
        |quote: QuoteView| QuoteWithTagsView { quote, tags: labels_of(rows, quote.id) },
    )
}

/// The labels that `rows` give to the quote with the given id.
pub fn collect_labels(rows: &Vec<Tag>, id: &String) -> (labels: Vec<String>)
    ensures
        labels.deep_view() == labels_of(rows.deep_view(), id@),
{
    let ghost owned = belongs_to(id@);
    let mut labels: Vec<String> = Vec::new();
    let mut i: usize = 0;
    assert(rows.deep_view().take(0).filter(owned) =~= Seq::<TagView>::empty()) by {
        reveal(Seq::filter);
    }
    assert(labels.deep_view() =~= rows.deep_view().take(0).filter(owned).map_values(label()));
    while i < rows.len()
        invariant
            i <= rows.len(),
            owned == belongs_to(id@),
            labels.deep_view() == rows.deep_view().take(i as int).filter(owned).map_values(
                label(),
            ),
        decreases rows.len() - i,
    {
        let ghost seen = rows.deep_view().take(i as int);
        let ghost before = labels.deep_view();
        if rows[i].quote_id == *id {
            labels.push(rows[i].tag.clone());
        }
        proof {
            let row = rows[i as int]@;
            assert(rows.deep_view().take(i as int + 1) =~= seen.push(row));
            seen.lemma_filter_push(row, owned);
            if owned(row) {
                assert(labels.deep_view() =~= before.push(row.tag));
                assert(seen.filter(owned).push(row).map_values(label()) =~= before.push(row.tag));
            }
        }
        i += 1;
    }
    assert(rows.deep_view().take(i as int) =~= rows.deep_view());
    labels
}

/// Attaches to each quote the labels that `rows` give to it. The quotes keep
/// their order, and the labels of a quote the order of the rows.
pub fn attach_tags(quotes: Vec<Quote>, rows: &Vec<Tag>) -> (result: Vec<QuoteWithTags>)
    ensures
        result.deep_view() == attach(quotes.deep_view(), rows.deep_view()),
{
    let mut result: Vec<QuoteWithTags> = Vec::new();
    let ghost all = quotes.deep_view();
    let ghost owned = quotes@;
    for quote in iter: quotes.into_iter()
        invariant
            iter.seq() == owned,
            owned.len() == all.len(),
            forall|j: int| 0 <= j < owned.len() ==> (#[trigger] owned[j])@ == all[j],
            result.deep_view() == attach(all.take(iter.index() as int), rows.deep_view()),
    {
        let ghost before = result.deep_view();
        let tags = collect_labels(rows, &quote.id);
        let entry = QuoteWithTags { quote, tags };
        let ghost added = entry@;
        result.push(entry);
        assert(result.deep_view() =~= before.push(added));
        assert(result.deep_view() =~= attach(
            all.take(iter.index() as int + 1),
            rows.deep_view(),
        ));
    }
    assert(all.take(all.len() as int) =~= all);
    result
}

} // verus!

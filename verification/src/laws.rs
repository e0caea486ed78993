//! What holds of the plans against a store that behaves as the model says.

use crate::aggregate::{attach, belongs_to, label, labels_of};
use crate::error::AppErrorView;
use crate::models::{QuoteInputView, QuoteView, QuoteWithTagsView, TagView};
use crate::pattern::{
    contains_folded, is_literal, lemma_like_contained, lemma_like_wrapped, like,
};
use crate::query::{predicates_of, wrapped, Clause, PredicateView, QuoteQueryView};
use crate::read_path::ids_of;
use crate::seqs::{
    lemma_filter_all, lemma_filter_contains, lemma_filter_none, lemma_filter_rearranged,
    lemma_filter_sorted, lemma_filter_twice, lemma_map_rearranged, lemma_sorted_distinct_unique,
};
use crate::statement::StatementView;
use crate::store::{
    belongs_among, belongs_elsewhere, drive, quote_order, requests_left, row_order, tag_rows,
    transact, End, Ending, Store,
};
use crate::text::{
    contains_text, lemma_sorted_texts_unique, lemma_text_le_antisymmetric,
    lemma_text_le_reflexive, lemma_text_le_total, lemma_text_le_transitive, text_order,
    texts_sorted,
};
use crate::write_path::{
    create_script, delete_script, tag_inserts, update_script, verdict, Stage, Verdict,
};
use vstd::prelude::*;
use vstd::relations::sorted_by;

verus! {

/// A write that has only the insertion of labels left, for a quote that
/// exists, commits with those labels added.
proof fn lemma_inserts_commit(
    base: Store,
    current: Store,
    script: Seq<StatementView>,
    guard: Option<usize>,
    done: usize,
    head: nat,
    id: Seq<char>,
    tags: Seq<Seq<char>>,
)
    requires
        script.len() < usize::MAX,
        script.len() == head + tags.len(),
        head <= done <= script.len(),
        forall|k: int| head <= k < script.len() ==> script[k] == tag_inserts(id, tags)[k - head],
        current.has_quote(id),
        guard matches Some(guarded) ==> guarded < head,
    ensures
        drive(base, current, script, guard, Stage::Run(done)) == (End {
            ending: Ending::Committed,
            store: Store {
                quotes: current.quotes,
                tags: current.tags + tag_rows(id, tags.skip(done - head)),
            },
        }),
    decreases script.len() - done,
{
    if done < script.len() {
        let row = TagView { quote_id: id, tag: tags[done - head] };
        assert(script[done as int] == StatementView::InsertTag(row));
        let next = Store { quotes: current.quotes, tags: current.tags.push(row) };
        lemma_inserts_commit(base, next, script, guard, (done + 1) as usize, head, id, tags);
        assert(next.tags + tag_rows(id, tags.skip(done + 1 - head)) =~= current.tags + tag_rows(
            id,
            tags.skip(done - head),
        ));
    } else {
        assert(current.tags + tag_rows(id, tags.skip(done - head)) =~= current.tags);
    }
}

/// The creation of a quote under an id that the store does not hold yet
/// commits, and leaves the quote and one tag row for each label behind.
pub proof fn lemma_create_commits(store: Store, quote: QuoteView, tags: Seq<Seq<char>>)
    requires
        !store.has_quote(quote.id),
        tags.len() + 1 < usize::MAX,
    ensures
        transact(store, create_script(quote, tags), None) == (End {
            ending: Ending::Committed,
            store: store.created(quote, tags),
        }),
{
    let script = create_script(quote, tags);
    let with_quote = Store {
        quotes: store.quotes.insert(quote.id, quote.input()),
        tags: store.tags,
    };
    assert(script[0] == StatementView::InsertQuote(quote));
    lemma_inserts_commit(store, with_quote, script, None, 1, 1, quote.id, tags);
    assert(tags.skip(0) =~= tags);
    assert(drive(store, store, script, None, Stage::Run(0)) == drive(
        store,
        with_quote,
        script,
        None,
        Stage::Run(1),
    ));
}

/// The creation of a quote under an id that the store already holds is
/// refused, and leaves the store as it was.
pub proof fn lemma_create_collides(store: Store, quote: QuoteView, tags: Seq<Seq<char>>)
    requires
        store.has_quote(quote.id),
        tags.len() + 1 < usize::MAX,
    ensures
        transact(store, create_script(quote, tags), None) == (End {
            ending: Ending::Refused,
            store,
        }),
{
    let script = create_script(quote, tags);
    assert(script[0] == StatementView::InsertQuote(quote));
    assert(drive(store, store, script, None, Stage::Run(0)) == (End {
        ending: Ending::Refused,
        store,
    }));
}

/// The update of a quote that exists commits, and leaves its new fields and
/// exactly its new labels behind. The update of a quote that does not exist
/// fails with Not-Found and leaves the store as it was.
pub proof fn lemma_update_ends(
    store: Store,
    id: Seq<char>,
    input: QuoteInputView,
    tags: Seq<Seq<char>>,
)
    requires
        tags.len() + 2 < usize::MAX,
    ensures
        transact(store, update_script(id, input, tags), Some(0usize)) == if store.has_quote(id) {
            End { ending: Ending::Committed, store: store.updated(id, input, tags) }
        } else {
            End { ending: Ending::NotFound, store }
        },
{
    let script = update_script(id, input, tags);
    let guard = Some(0usize);
    assert(script[0] == StatementView::UpdateQuote { id, input });
    assert(script[1] == StatementView::DeleteTags { quote_id: id });
    if store.has_quote(id) {
        let renewed = Store { quotes: store.quotes.insert(id, input), tags: store.tags };
        let cleared = Store {
            quotes: renewed.quotes,
            tags: store.tags.filter(belongs_elsewhere(id)),
        };
        lemma_inserts_commit(store, cleared, script, guard, 2, 2, id, tags);
        assert(tags.skip(0) =~= tags);
        assert(drive(store, renewed, script, guard, Stage::Run(1)) == drive(
            store,
            cleared,
            script,
            guard,
            Stage::Run(2),
        ));
        assert(drive(store, store, script, guard, Stage::Run(0)) == drive(
            store,
            renewed,
            script,
            guard,
            Stage::Run(1),
        ));
    } else {
        assert(drive(store, store, script, guard, Stage::Run(0)) == (End {
            ending: Ending::NotFound,
            store,
        }));
    }
}

/// The removal of a quote that exists commits, and leaves neither the quote
/// nor any of its tag rows behind. The removal of a quote that does not
/// exist fails with Not-Found and leaves the store as it was.
pub proof fn lemma_delete_ends(store: Store, id: Seq<char>)
    ensures
        transact(store, delete_script(id), Some(1usize)) == if store.has_quote(id) {
            End { ending: Ending::Committed, store: store.deleted(id) }
        } else {
            End { ending: Ending::NotFound, store }
        },
{
    let script = delete_script(id);
    let guard = Some(1usize);
    assert(script[0] == StatementView::DeleteTags { quote_id: id });
    assert(script[1] == StatementView::DeleteQuote { id });
    let cleared = Store { quotes: store.quotes, tags: store.tags.filter(belongs_elsewhere(id)) };
    assert(cleared.rows_of(id) == Seq::<TagView>::empty()) by {
        assert forall|i: int| 0 <= i < cleared.tags.len() implies !belongs_to(id)(
            #[trigger] cleared.tags[i],
        ) by {
            store.tags.lemma_filter_pred(belongs_elsewhere(id), i);
        }
        lemma_filter_none(cleared.tags, belongs_to(id));
    }
    store.tags.lemma_filter_len(belongs_elsewhere(id));
    assert(drive(store, store, script, guard, Stage::Run(0)) == drive(
        store,
        cleared,
        script,
        guard,
        Stage::Run(1),
    ));
    if store.has_quote(id) {
        let removed = store.deleted(id);
        assert(drive(store, cleared, script, guard, Stage::Run(1)) == drive(
            store,
            removed,
            script,
            guard,
            Stage::Run(2),
        ));
    } else {
        assert(drive(store, cleared, script, guard, Stage::Run(1)) == (End {
            ending: Ending::NotFound,
            store,
        }));
    }
}

/// A write comes to its end: every reply that lets it go on brings it closer
/// to the commit, so that a write with a script of `len` statements makes at
/// most `len + 2` requests.
pub proof fn lemma_write_progresses(
    stage: Stage,
    len: nat,
    guard: Option<usize>,
    reply: Result<u64, Seq<char>>,
)
    requires
        len < usize::MAX,
    ensures
        requests_left(stage, len) <= len + 2,
        verdict(stage, len, guard, reply) matches Verdict::Continue(next) ==> requests_left(
            next,
            len,
        ) < requests_left(stage, len),
{
}

/// The empty store has referential integrity. With the two facts below it
/// follows that every store that writes alone have filled has it.
pub proof fn lemma_empty_store_has_integrity()
    ensures
        Store::empty().wf(),
{
}

/// Referential integrity outlasts every statement that the store accepts.
pub proof fn lemma_statement_keeps_integrity(store: Store, statement: StatementView)
    requires
        store.wf(),
    ensures
        store.apply(statement) matches Some(change) ==> change.store.wf(),
{
    match statement {
        StatementView::InsertQuote(quote) => {},
        StatementView::InsertTag(row) => {},
        StatementView::UpdateQuote { id, input } => {},
        StatementView::DeleteTags { quote_id } => {
            let kept = store.tags.filter(belongs_elsewhere(quote_id));
            assert forall|i: int| 0 <= i < kept.len() implies store.has_quote(
                (#[trigger] kept[i]).quote_id,
            ) by {
                lemma_filter_contains(store.tags, belongs_elsewhere(quote_id), kept[i]);
                assert(kept.contains(kept[i]));
                let j = choose|j: int| 0 <= j < store.tags.len() && store.tags[j] == kept[i];
                assert(store.has_quote(store.tags[j].quote_id));
            }
        },
        StatementView::DeleteQuote { id } => {
            if store.rows_of(id).len() == 0 {
                assert forall|i: int| 0 <= i < store.tags.len() implies (
                #[trigger] store.tags[i]).quote_id != id by {
                    lemma_filter_contains(store.tags, belongs_to(id), store.tags[i]);
                    assert(store.tags.contains(store.tags[i]));
                    if store.tags[i].quote_id == id {
                        assert(store.rows_of(id).contains(store.tags[i]));
                    }
                }
            }
        },
    }
}

/// Referential integrity outlasts every write, however it ends.
pub proof fn lemma_write_keeps_integrity(
    base: Store,
    current: Store,
    script: Seq<StatementView>,
    guard: Option<usize>,
    stage: Stage,
)
    requires
        base.wf(),
        current.wf(),
        script.len() < usize::MAX,
    ensures
        drive(base, current, script, guard, stage).store.wf(),
    decreases requests_left(stage, script.len()),
{
    match stage {
        Stage::Begin => {
            lemma_write_keeps_integrity(base, current, script, guard, Stage::Run(0));
        },
        Stage::Run(done) => {
            if done < script.len() {
                lemma_statement_keeps_integrity(current, script[done as int]);
                match current.apply(script[done as int]) {
                    Some(change) => {
                        lemma_write_keeps_integrity(
                            base,
                            change.store,
                            script,
                            guard,
                            Stage::Run((done + 1) as usize),
                        );
                    },
                    None => {},
                }
            }
        },
    }
}

/// A write either commits or leaves the store exactly as it stood when the
/// transaction was opened: nothing of a failed script stays behind.
pub proof fn lemma_write_is_atomic(
    base: Store,
    current: Store,
    script: Seq<StatementView>,
    guard: Option<usize>,
    stage: Stage,
)
    requires
        script.len() < usize::MAX,
    ensures
        drive(base, current, script, guard, stage).ending is Committed || drive(
            base,
            current,
            script,
            guard,
            stage,
        ).store == base,
    decreases requests_left(stage, script.len()),
{
    match stage {
        Stage::Begin => {
            lemma_write_is_atomic(base, current, script, guard, Stage::Run(0));
        },
        Stage::Run(done) => {
            if done < script.len() {
                match current.apply(script[done as int]) {
                    Some(change) => {
                        lemma_write_is_atomic(
                            base,
                            change.store,
                            script,
                            guard,
                            Stage::Run((done + 1) as usize),
                        );
                    },
                    None => {},
                }
            }
        },
    }
}

/// The order of tag rows is a total order.
pub proof fn lemma_row_order_is_total()
    ensures
        vstd::relations::total_ordering(row_order()),
{
    let le = row_order();
    assert forall|a: TagView| #[trigger] le(a, a) by {
        lemma_text_le_reflexive(a.tag);
    }
    assert forall|a: TagView, b: TagView| #[trigger] le(a, b) && #[trigger] le(b, a) implies a
        == b by {
        if a.quote_id == b.quote_id {
            lemma_text_le_antisymmetric(a.tag, b.tag);
        } else {
            lemma_text_le_antisymmetric(a.quote_id, b.quote_id);
        }
    }
    assert forall|a: TagView, b: TagView, c: TagView| #[trigger]
        le(a, b) && #[trigger] le(b, c) implies le(a, c) by {
        if a.quote_id == b.quote_id {
            if b.quote_id == c.quote_id {
                lemma_text_le_transitive(a.tag, b.tag, c.tag);
            }
        } else if b.quote_id == c.quote_id {
        } else if a.quote_id == c.quote_id {
            lemma_text_le_antisymmetric(a.quote_id, b.quote_id);
        } else {
            lemma_text_le_transitive(a.quote_id, b.quote_id, c.quote_id);
        }
    }
    assert forall|a: TagView, b: TagView| #[trigger] le(a, b) || #[trigger] le(b, a) by {
        lemma_text_le_total(a.tag, b.tag);
        lemma_text_le_total(a.quote_id, b.quote_id);
    }
}

/// Every store has an answer to every tag query: the rows asked for, put in
/// order.
pub proof fn lemma_tag_answer_exists(store: Store, ids: Seq<Seq<char>>)
    ensures
        store.answers_tags(ids, store.rows_among(ids).sort_by(row_order())),
{
    lemma_row_order_is_total();
    store.rows_among(ids).lemma_sort_by_ensures(row_order());
}

/// Where no kept row belongs to the quote, the labels of the quote after
/// its new rows were added are exactly the new labels, in their order.
proof fn lemma_labels_after_write(kept: Seq<TagView>, id: Seq<char>, tags: Seq<Seq<char>>)
    requires
        forall|i: int| 0 <= i < kept.len() ==> (#[trigger] kept[i]).quote_id != id,
    ensures
        labels_of(kept + tag_rows(id, tags), id) == tags,
{
    let added = tag_rows(id, tags);
    Seq::filter_distributes_over_add(kept, added, belongs_to(id));
    lemma_filter_none(kept, belongs_to(id));
    lemma_filter_all(added, belongs_to(id));
    assert(kept.filter(belongs_to(id)) + added.filter(belongs_to(id)) =~= added);
    assert(added.map_values(label()) =~= tags);
}

/// The labels that an answer to the tag query gives to one of the quotes
/// asked for are the labels that the quote has in the store, each as often
/// as there, in ascending order.
pub proof fn lemma_answered_labels(
    store: Store,
    ids: Seq<Seq<char>>,
    rows: Seq<TagView>,
    id: Seq<char>,
)
    requires
        store.answers_tags(ids, rows),
        ids.contains(id),
    ensures
        labels_of(rows, id).to_multiset() == labels_of(store.tags, id).to_multiset(),
        texts_sorted(labels_of(rows, id)),
{
    let own = belongs_to(id);
    lemma_filter_rearranged(rows, store.rows_among(ids), own);
    assert forall|row: TagView| #[trigger] own(row) implies belongs_among(ids)(row) by {}
    lemma_filter_twice(store.tags, belongs_among(ids), own);
    lemma_map_rearranged(rows.filter(own), store.tags.filter(own), label());
    lemma_filter_sorted(rows, own, row_order());
    let mine = rows.filter(own);
    let labels = labels_of(rows, id);
    assert forall|i: int, j: int| 0 <= i < j < labels.len() implies #[trigger] text_order()(
        labels[i],
        labels[j],
    ) by {
        rows.lemma_filter_pred(own, i);
        rows.lemma_filter_pred(own, j);
        assert(row_order()(mine[i], mine[j]));
    }
}

/// The rows that answer the query for the quote with an id are the one row
/// of that quote, or none where the store holds no such quote: the first row
/// of the answer, if there is one, is what a lookup goes on with.
pub proof fn lemma_answered_lookup(store: Store, id: Seq<char>, rows: Seq<QuoteView>)
    requires
        store.answers_quotes(QuoteQueryView::ById(id), rows),
    ensures
        store.quote(id) == if rows.len() == 0 {
            None
        } else {
            Some(rows[0])
        },
        rows.len() <= 1,
{
    if rows.len() > 0 {
        assert(rows.contains(rows[0]));
    }
    if rows.len() > 1 {
        assert(rows.contains(rows[1]));
        assert(rows[0] == rows[1]);
    }
    match store.quote(id) {
        Some(quote) => {
            assert(store.selects(QuoteQueryView::ById(id), quote));
            assert(rows.contains(quote));
        },
        None => {},
    }
}

/// The lookup of a quote that the store holds returns the quote with the
/// labels that it has in the store, each as often as there, in ascending
/// order.
pub proof fn law_lookup_shows_the_store(store: Store, id: Seq<char>, rows: Seq<TagView>)
    requires
        store.has_quote(id),
        store.answers_tags(seq![id], rows),
    ensures
        store.lookup(id, rows) matches Ok(found) && Some(found.quote) == store.quote(id)
            && found.tags.to_multiset() == labels_of(store.tags, id).to_multiset() && texts_sorted(
            found.tags,
        ),
{
    assert(seq![id].contains(id)) by {
        assert(seq![id][0] == id);
    }
    lemma_answered_labels(store, seq![id], rows, id);
}

/// Every entry of a listing is a quote of the store with the labels that it
/// has in the store, each as often as there, in ascending order, and the
/// entries stand in the order in which the store returned the quotes.
pub proof fn law_listing_shows_the_store(
    store: Store,
    query: QuoteQueryView,
    quotes: Seq<QuoteView>,
    rows: Seq<TagView>,
    i: int,
)
    requires
        store.answers_quotes(query, quotes),
        store.answers_tags(ids_of(quotes), rows),
        0 <= i < quotes.len(),
    ensures
        attach(quotes, rows).len() == quotes.len(),
        ({
            let entry = attach(quotes, rows)[i];
            &&& entry.quote == quotes[i]
            &&& store.holds_quote(entry.quote)
            &&& entry.tags.to_multiset() == labels_of(store.tags, entry.quote.id).to_multiset()
            &&& texts_sorted(entry.tags)
        }),
{
    assert(quotes.contains(quotes[i]));
    assert(ids_of(quotes)[i] == quotes[i].id);
    lemma_answered_labels(store, ids_of(quotes), rows, quotes[i].id);
}

/// After its creation a quote is read back as it was created: under its id,
/// with its fields, and with its labels in ascending order. Where the labels
/// were given in ascending order, what is read is exactly what was created.
pub proof fn law_create_then_lookup(
    store: Store,
    quote: QuoteView,
    tags: Seq<Seq<char>>,
    rows: Seq<TagView>,
)
    requires
        store.wf(),
        !store.has_quote(quote.id),
        tags.len() + 1 < usize::MAX,
        store.created(quote, tags).answers_tags(seq![quote.id], rows),
    ensures
        transact(store, create_script(quote, tags), None) == (End {
            ending: Ending::Committed,
            store: store.created(quote, tags),
        }),
        store.created(quote, tags).lookup(quote.id, rows) matches Ok(found) && found.quote == quote
            && found.tags.to_multiset() == tags.to_multiset() && texts_sorted(found.tags),
        texts_sorted(tags) ==> store.created(quote, tags).lookup(quote.id, rows) == Ok::<
            QuoteWithTagsView,
            AppErrorView,
        >(QuoteWithTagsView { quote, tags }),
{
    lemma_create_commits(store, quote, tags);
    let after = store.created(quote, tags);
    assert(after.quote(quote.id) == Some(quote));
    assert(seq![quote.id].contains(quote.id)) by {
        assert(seq![quote.id][0] == quote.id);
    }
    lemma_answered_labels(after, seq![quote.id], rows, quote.id);
    lemma_labels_after_write(store.tags, quote.id, tags);
    if texts_sorted(tags) {
        lemma_sorted_texts_unique(labels_of(rows, quote.id), tags);
    }
}

/// After the update of a quote that exists, the quote is read back under the
/// same id with exactly the new fields and exactly the new labels, in
/// ascending order: none of its old labels is left.
pub proof fn law_update_then_lookup(
    store: Store,
    id: Seq<char>,
    input: QuoteInputView,
    tags: Seq<Seq<char>>,
    rows: Seq<TagView>,
)
    requires
        store.has_quote(id),
        tags.len() + 2 < usize::MAX,
        store.updated(id, input, tags).answers_tags(seq![id], rows),
    ensures
        transact(store, update_script(id, input, tags), Some(0usize)) == (End {
            ending: Ending::Committed,
            store: store.updated(id, input, tags),
        }),
        store.updated(id, input, tags).lookup(id, rows) matches Ok(found) && found.quote
            == input.with_id(id) && found.tags.to_multiset() == tags.to_multiset() && texts_sorted(
            found.tags,
        ),
        texts_sorted(tags) ==> store.updated(id, input, tags).lookup(id, rows) == Ok::<
            QuoteWithTagsView,
            AppErrorView,
        >(QuoteWithTagsView { quote: input.with_id(id), tags }),
{
    lemma_update_ends(store, id, input, tags);
    let after = store.updated(id, input, tags);
    assert(after.quote(id) == Some(input.with_id(id)));
    assert(seq![id].contains(id)) by {
        assert(seq![id][0] == id);
    }
    lemma_answered_labels(after, seq![id], rows, id);
    let kept = store.tags.filter(belongs_elsewhere(id));
    assert forall|i: int| 0 <= i < kept.len() implies (#[trigger] kept[i]).quote_id != id by {
        store.tags.lemma_filter_pred(belongs_elsewhere(id), i);
    }
    lemma_labels_after_write(kept, id, tags);
    if texts_sorted(tags) {
        lemma_sorted_texts_unique(labels_of(rows, id), tags);
    }
}

/// Of an id that the store does not hold, the lookup, the update and the
/// removal each fail with Not-Found, and the update and the removal leave
/// the store as it was.
pub proof fn law_missing_is_not_found(
    store: Store,
    id: Seq<char>,
    input: QuoteInputView,
    tags: Seq<Seq<char>>,
    rows: Seq<TagView>,
)
    requires
        !store.has_quote(id),
        tags.len() + 2 < usize::MAX,
    ensures
        store.lookup(id, rows) == Err::<QuoteWithTagsView, AppErrorView>(
            AppErrorView::not_found(id),
        ),
        transact(store, update_script(id, input, tags), Some(0usize)) == (End {
            ending: Ending::NotFound,
            store,
        }),
        transact(store, delete_script(id), Some(1usize)) == (End {
            ending: Ending::NotFound,
            store,
        }),
{
    lemma_update_ends(store, id, input, tags);
    lemma_delete_ends(store, id);
}

/// After the removal of a quote, whether it existed or not, its lookup fails
/// with Not-Found and no tag row refers to its id.
pub proof fn law_delete_then_lookup(store: Store, id: Seq<char>, rows: Seq<TagView>)
    requires
        store.wf(),
    ensures
        ({
            let after = transact(store, delete_script(id), Some(1usize)).store;
            &&& after.lookup(id, rows) == Err::<QuoteWithTagsView, AppErrorView>(
                AppErrorView::not_found(id),
            )
            &&& !after.has_quote(id)
            &&& forall|i: int| 0 <= i < after.tags.len() ==> (#[trigger] after.tags[i]).quote_id != id
            &&& after.wf()
        }),
{
    lemma_delete_ends(store, id);
    lemma_write_keeps_integrity(store, store, delete_script(id), Some(1usize), Stage::Begin);
    let after = transact(store, delete_script(id), Some(1usize)).store;
    assert forall|i: int| 0 <= i < after.tags.len() implies (#[trigger] after.tags[i]).quote_id
        != id by {
        assert(after.has_quote(after.tags[i].quote_id));
    }
}

/// An answer to the tag query gives a quote asked for every label that the
/// quote has in the store, and no other.
pub proof fn lemma_answered_label_set(
    store: Store,
    ids: Seq<Seq<char>>,
    rows: Seq<TagView>,
    id: Seq<char>,
    tag: Seq<char>,
)
    requires
        store.answers_tags(ids, rows),
        ids.contains(id),
    ensures
        labels_of(rows, id).contains(tag) <==> store.has_tag(id, tag),
{
    let row = TagView { quote_id: id, tag };
    let own = belongs_to(id);
    let among = store.rows_among(ids);
    vstd::seq_lib::to_multiset_contains(rows, row);
    vstd::seq_lib::to_multiset_contains(among, row);
    lemma_filter_contains(store.tags, belongs_among(ids), row);
    lemma_filter_contains(rows, own, row);
    let mine = rows.filter(own);
    if labels_of(rows, id).contains(tag) {
        let i = choose|i: int| 0 <= i < labels_of(rows, id).len() && labels_of(rows, id)[i] == tag;
        rows.lemma_filter_pred(own, i);
        assert(mine[i] == row);
        assert(mine.contains(row));
    }
    if store.has_tag(id, tag) {
        assert(mine.contains(row));
        let i = choose|i: int| 0 <= i < mine.len() && mine[i] == row;
        assert(labels_of(rows, id)[i] == tag);
    }
}

/// An update may be tried again: made a second time with the same fields and
/// labels, it commits again and leaves the store as the first left it.
pub proof fn law_update_may_be_repeated(
    store: Store,
    id: Seq<char>,
    input: QuoteInputView,
    tags: Seq<Seq<char>>,
)
    requires
        store.has_quote(id),
        tags.len() + 2 < usize::MAX,
    ensures
        transact(store.updated(id, input, tags), update_script(id, input, tags), Some(0usize)) == (
        End { ending: Ending::Committed, store: store.updated(id, input, tags) }),
{
    let once = store.updated(id, input, tags);
    lemma_update_ends(once, id, input, tags);
    let kept = store.tags.filter(belongs_elsewhere(id));
    let added = tag_rows(id, tags);
    assert forall|i: int| 0 <= i < kept.len() implies belongs_elsewhere(id)(#[trigger] kept[i]) by {
        store.tags.lemma_filter_pred(belongs_elsewhere(id), i);
    }
    lemma_filter_all(kept, belongs_elsewhere(id));
    lemma_filter_none(added, belongs_elsewhere(id));
    Seq::filter_distributes_over_add(kept, added, belongs_elsewhere(id));
    assert(once.tags.filter(belongs_elsewhere(id)) =~= kept);
    assert(once.quotes.insert(id, input) =~= once.quotes);
}

/// A removal may be tried again: made a second time, it fails with
/// Not-Found and leaves the store as the first left it.
pub proof fn law_delete_may_be_repeated(store: Store, id: Seq<char>)
    ensures
        ({
            let once = transact(store, delete_script(id), Some(1usize)).store;
            transact(once, delete_script(id), Some(1usize)) == (End {
                ending: Ending::NotFound,
                store: once,
            })
        }),
{
    lemma_delete_ends(store, id);
    let once = transact(store, delete_script(id), Some(1usize)).store;
    lemma_delete_ends(once, id);
}

/// Whether the free-text filter is found in the quote as it stands, in its
/// text, its author or its source.
pub open spec fn mentions(quote: QuoteView, part: Seq<char>) -> bool {
    contains_text(quote.text, part) || contains_text(quote.author, part) || contains_text(
        quote.source,
        part,
    )
}

/// Whether the free-text filter is found in the quote up to the case of
/// letters, in its text, its author or its source.
pub open spec fn mentions_folded(quote: QuoteView, part: Seq<char>) -> bool {
    contains_folded(quote.text, part) || contains_folded(quote.author, part) || contains_folded(
        quote.source,
        part,
    )
}

/// Whether one of the three fields of the quote matches the pattern that the
/// free-text filter is bound as.
pub open spec fn any_field_like(quote: QuoteView, part: Seq<char>) -> bool {
    like(wrapped(part), quote.text) || like(wrapped(part), quote.author) || like(
        wrapped(part),
        quote.source,
    )
}

/// A search selects a quote exactly where the quote is in the store and
/// meets each filter that is present: filters combine by conjunction, and an
/// absent filter constrains nothing.
pub proof fn lemma_search_is_conjunction(
    store: Store,
    author: Option<Seq<char>>,
    tag: Option<Seq<char>>,
    search: Option<Seq<char>>,
    quote: QuoteView,
)
    ensures
        store.selects(QuoteQueryView::Search(predicates_of(author, tag, search)), quote) <==> {
            &&& store.holds_quote(quote)
            &&& author matches Some(part) ==> like(wrapped(part), quote.author)
            &&& tag matches Some(wanted) ==> store.has_tag(quote.id, wanted)
            &&& search matches Some(part) ==> any_field_like(quote, part)
        },
{
    let predicates = predicates_of(author, tag, search);
    let by_author = match author {
        Some(value) => seq![PredicateView { clause: Clause::AuthorLike, value }],
        None => Seq::empty(),
    };
    let by_tag = match tag {
        Some(value) => seq![PredicateView { clause: Clause::TagEquals, value }],
        None => Seq::empty(),
    };
    let by_search = match search {
        Some(value) => seq![PredicateView { clause: Clause::AnyFieldLike, value }],
        None => Seq::empty(),
    };
    assert(predicates == by_author + by_tag + by_search);
    assert(by_author.len() == if author is Some { 1nat } else { 0nat });
    assert(by_tag.len() == if tag is Some { 1nat } else { 0nat });
    assert(by_search.len() == if search is Some { 1nat } else { 0nat });
    if store.selects(QuoteQueryView::Search(predicates), quote) {
        if author is Some {
            assert(predicates[0] == by_author[0]);
            assert(store.meets(quote, predicates[0]));
        }
        if tag is Some {
            let at = by_author.len() as int;
            assert(predicates[at] == by_tag[0]);
            assert(store.meets(quote, predicates[at]));
        }
        if search is Some {
            let at = (by_author.len() + by_tag.len()) as int;
            assert(predicates[at] == by_search[0]);
            assert(store.meets(quote, predicates[at]));
        }
    }
}

/// A search returns only quotes of the store that meet every filter given.
/// With a tag filter they are quotes that carry the tag among the labels
/// returned with them. With an author filter that holds no wildcard they are
/// quotes whose author contains the filter, up to the case of letters. With
/// such a free-text filter they are quotes whose text, author or source
/// contains it, up to the case of letters.
pub proof fn law_search_returns_only_matches(
    store: Store,
    author: Option<Seq<char>>,
    tag: Option<Seq<char>>,
    search: Option<Seq<char>>,
    quotes: Seq<QuoteView>,
    rows: Seq<TagView>,
    i: int,
)
    requires
        store.answers_quotes(QuoteQueryView::Search(predicates_of(author, tag, search)), quotes),
        store.answers_tags(ids_of(quotes), rows),
        0 <= i < quotes.len(),
    ensures
        ({
            let found = attach(quotes, rows)[i];
            &&& found.quote == quotes[i]
            &&& store.holds_quote(found.quote)
            &&& author matches Some(part) ==> like(wrapped(part), found.quote.author)
            &&& author matches Some(part) ==> (is_literal(part) ==> contains_folded(
                found.quote.author,
                part,
            ))
            &&& tag matches Some(wanted) ==> found.tags.contains(wanted)
            &&& search matches Some(part) ==> any_field_like(found.quote, part)
            &&& search matches Some(part) ==> (is_literal(part) ==> mentions_folded(
                found.quote,
                part,
            ))
        }),
{
    let predicates = predicates_of(author, tag, search);
    let quote = quotes[i];
    assert(quotes.contains(quote));
    assert(store.selects(QuoteQueryView::Search(predicates), quote));
    lemma_search_is_conjunction(store, author, tag, search, quote);
    match tag {
        Some(wanted) => {
            assert(ids_of(quotes)[i] == quote.id);
            assert(ids_of(quotes).contains(quote.id));
            lemma_answered_label_set(store, ids_of(quotes), rows, quote.id, wanted);
        },
        None => {},
    }
    match author {
        Some(part) => {
            if is_literal(part) {
                lemma_like_wrapped(part, quote.author);
            }
        },
        None => {},
    }
    match search {
        Some(part) => {
            if is_literal(part) {
                lemma_like_wrapped(part, quote.text);
                lemma_like_wrapped(part, quote.author);
                lemma_like_wrapped(part, quote.source);
            }
        },
        None => {},
    }
}

/// A search returns every quote of the store that carries the tag asked
/// for, whose author contains the author filter, and whose text, author or
/// source contains the free-text filter, as far as each filter is present.
pub proof fn law_search_returns_all_matches(
    store: Store,
    author: Option<Seq<char>>,
    tag: Option<Seq<char>>,
    search: Option<Seq<char>>,
    quotes: Seq<QuoteView>,
    quote: QuoteView,
)
    requires
        store.answers_quotes(QuoteQueryView::Search(predicates_of(author, tag, search)), quotes),
        store.holds_quote(quote),
        author matches Some(part) ==> contains_text(quote.author, part),
        tag matches Some(wanted) ==> store.has_tag(quote.id, wanted),
        search matches Some(part) ==> mentions(quote, part),
    ensures
        quotes.contains(quote),
{
    lemma_search_is_conjunction(store, author, tag, search, quote);
    match author {
        Some(part) => {
            lemma_like_contained(part, quote.author);
        },
        None => {},
    }
    match search {
        Some(part) => {
            if contains_text(quote.text, part) {
                lemma_like_contained(part, quote.text);
            }
            if contains_text(quote.author, part) {
                lemma_like_contained(part, quote.author);
            }
            if contains_text(quote.source, part) {
                lemma_like_contained(part, quote.source);
            }
        },
        None => {},
    }
}

/// A search by several filters returns exactly the quotes that the searches
/// by each of the filters alone all return: the intersection.
pub proof fn law_filters_intersect(
    store: Store,
    author: Option<Seq<char>>,
    tag: Option<Seq<char>>,
    search: Option<Seq<char>>,
    by_all: Seq<QuoteView>,
    by_author: Seq<QuoteView>,
    by_tag: Seq<QuoteView>,
    by_search: Seq<QuoteView>,
    quote: QuoteView,
)
    requires
        store.answers_quotes(QuoteQueryView::Search(predicates_of(author, tag, search)), by_all),
        store.answers_quotes(QuoteQueryView::Search(predicates_of(author, None, None)), by_author),
        store.answers_quotes(QuoteQueryView::Search(predicates_of(None, tag, None)), by_tag),
        store.answers_quotes(QuoteQueryView::Search(predicates_of(None, None, search)), by_search),
    ensures
        by_all.contains(quote) <==> by_author.contains(quote) && by_tag.contains(quote)
            && by_search.contains(quote),
{
    lemma_search_is_conjunction(store, author, tag, search, quote);
    lemma_search_is_conjunction(store, author, None, None, quote);
    lemma_search_is_conjunction(store, None, tag, None, quote);
    lemma_search_is_conjunction(store, None, None, search, quote);
}

/// The list of all quotes and the search without a filter return the same
/// quotes, each once, both by author and then by text, and each quote with
/// the same labels.
pub proof fn law_list_is_unfiltered_search(
    store: Store,
    listed: Seq<QuoteView>,
    listed_rows: Seq<TagView>,
    found: Seq<QuoteView>,
    found_rows: Seq<TagView>,
)
    requires
        store.answers_quotes(QuoteQueryView::All, listed),
        store.answers_tags(ids_of(listed), listed_rows),
        store.answers_quotes(QuoteQueryView::Search(predicates_of(None, None, None)), found),
        store.answers_tags(ids_of(found), found_rows),
    ensures
        forall|quote: QuoteView| listed.contains(quote) <==> found.contains(quote),
        listed.len() == found.len(),
        sorted_by(listed, quote_order()),
        sorted_by(found, quote_order()),
        forall|entry: QuoteWithTagsView|
            attach(listed, listed_rows).contains(entry) <==> attach(found, found_rows).contains(
                entry,
            ),
{
    assert forall|quote: QuoteView| listed.contains(quote) <==> found.contains(quote) by {
        lemma_search_is_conjunction(store, None, None, None, quote);
    }
    assert(listed.to_set() =~= found.to_set());
    listed.unique_seq_to_set();
    found.unique_seq_to_set();
    assert forall|entry: QuoteWithTagsView|
        attach(listed, listed_rows).contains(entry) <==> attach(found, found_rows).contains(
            entry,
        ) by {
        if attach(listed, listed_rows).contains(entry) {
            let i = choose|i: int|
                0 <= i < attach(listed, listed_rows).len() && attach(listed, listed_rows)[i]
                    == entry;
            lemma_same_entry(store, listed, listed_rows, i, found, found_rows);
        }
        if attach(found, found_rows).contains(entry) {
            let i = choose|i: int|
                0 <= i < attach(found, found_rows).len() && attach(found, found_rows)[i] == entry;
            lemma_same_entry(store, found, found_rows, i, listed, listed_rows);
        }
    }
}

/// Whether no two quotes of the store have both the same author and the
/// same text, so that the order by author and text leaves no choice.
pub open spec fn no_ties(store: Store) -> bool {
    forall|a: QuoteView, b: QuoteView|
        #![trigger store.holds_quote(a), store.holds_quote(b)]
        store.holds_quote(a) && store.holds_quote(b) && a.author == b.author && a.text == b.text
            ==> a == b
}

/// Where no two quotes of the store have both the same author and the same
/// text, the list of all quotes and the search without a filter return the
/// same quotes with the same labels in the same order.
pub proof fn law_list_equals_unfiltered_search(
    store: Store,
    listed: Seq<QuoteView>,
    listed_rows: Seq<TagView>,
    found: Seq<QuoteView>,
    found_rows: Seq<TagView>,
)
    requires
        no_ties(store),
        store.answers_quotes(QuoteQueryView::All, listed),
        store.answers_tags(ids_of(listed), listed_rows),
        store.answers_quotes(QuoteQueryView::Search(predicates_of(None, None, None)), found),
        store.answers_tags(ids_of(found), found_rows),
    ensures
        listed == found,
        attach(listed, listed_rows) == attach(found, found_rows),
{
    assert forall|quote: QuoteView| listed.contains(quote) <==> found.contains(quote) by {
        lemma_search_is_conjunction(store, None, None, None, quote);
    }
    assert forall|a: QuoteView, b: QuoteView|
        listed.contains(a) && listed.contains(b) && #[trigger] quote_order()(a, b)
            && #[trigger] quote_order()(b, a) implies a == b by {
        assert(store.holds_quote(a) && store.holds_quote(b));
        if a.author == b.author {
            lemma_text_le_antisymmetric(a.text, b.text);
        } else {
            lemma_text_le_antisymmetric(a.author, b.author);
        }
    }
    lemma_sorted_distinct_unique(listed, found, quote_order());
    assert forall|i: int| 0 <= i < listed.len() implies attach(listed, listed_rows)[i] == attach(
        found,
        found_rows,
    )[i] by {
        let id = listed[i].id;
        assert(ids_of(listed)[i] == id);
        assert(ids_of(found)[i] == id);
        lemma_answered_labels(store, ids_of(listed), listed_rows, id);
        lemma_answered_labels(store, ids_of(found), found_rows, id);
        lemma_sorted_texts_unique(labels_of(listed_rows, id), labels_of(found_rows, id));
    }
    assert(attach(listed, listed_rows) =~= attach(found, found_rows));
}

/// A quote that two answers both hold gets the same labels from both.
proof fn lemma_same_entry(
    store: Store,
    quotes: Seq<QuoteView>,
    rows: Seq<TagView>,
    i: int,
    others: Seq<QuoteView>,
    other_rows: Seq<TagView>,
)
    requires
        store.answers_tags(ids_of(quotes), rows),
        store.answers_tags(ids_of(others), other_rows),
        0 <= i < quotes.len(),
        others.contains(quotes[i]),
    ensures
        attach(others, other_rows).contains(attach(quotes, rows)[i]),
{
    let quote = quotes[i];
    let j = choose|j: int| 0 <= j < others.len() && others[j] == quote;
    assert(ids_of(quotes)[i] == quote.id);
    assert(ids_of(others)[j] == quote.id);
    lemma_answered_labels(store, ids_of(quotes), rows, quote.id);
    lemma_answered_labels(store, ids_of(others), other_rows, quote.id);
    lemma_sorted_texts_unique(labels_of(rows, quote.id), labels_of(other_rows, quote.id));
    assert(attach(others, other_rows)[j] == attach(quotes, rows)[i]);
}

} // verus!

//! A model of the store: the two tables as mathematical values, what each
//! statement does to them, and which replies answer each query.
//!
//! The model is what the plans assume of the store. It exists in proofs
//! only: nothing here runs.

use crate::aggregate::belongs_to;
use crate::error::AppErrorView;
use crate::read_path::{lookup_after_quote, lookup_after_tags};
use crate::models::{QuoteInputView, QuoteView, QuoteWithTagsView, TagView};
use crate::pattern::like;
use crate::query::{wrapped, Clause, PredicateView, QuoteQueryView};
use crate::statement::StatementView;
use crate::text::text_le;
use crate::write_path::{verdict, Stage, Verdict};
use vstd::prelude::*;
use vstd::relations::sorted_by;

verus! {

/// The state of the two tables.
pub struct Store {
    /// The quote table: the fields of each quote under its id, the primary
    /// key.
    pub quotes: Map<Seq<char>, QuoteInputView>,
    /// The rows of the tag table. Their order in the table is of no meaning
    /// to any query.
    pub tags: Seq<TagView>,
}

/// What a statement did: the store after it, and the number of rows it
/// changed.
pub struct Change {
    pub store: Store,
    pub rows: nat,
}

/// Whether row `a` comes before row `b` or equals it: by quote id, then by
/// tag.
pub open spec fn row_le(a: TagView, b: TagView) -> bool {
    if a.quote_id == b.quote_id {
        text_le(a.tag, b.tag)
    } else {
        text_le(a.quote_id, b.quote_id)
    }
}

/// The order of tag rows, as a relation.
pub open spec fn row_order() -> spec_fn(TagView, TagView) -> bool {
    |a: TagView, b: TagView| row_le(a, b)
}

/// Whether quote `a` may stand before quote `b`: by author, then by text.
/// Two quotes with the same author and text may stand either way.
pub open spec fn quote_le(a: QuoteView, b: QuoteView) -> bool {
    if a.author == b.author {
        text_le(a.text, b.text)
    } else {
        text_le(a.author, b.author)
    }
}

/// The order of quotes, as a relation.
pub open spec fn quote_order() -> spec_fn(QuoteView, QuoteView) -> bool {
    |a: QuoteView, b: QuoteView| quote_le(a, b)
}

/// The condition that a tag row belongs to another quote than the one with
/// the given id.
pub open spec fn belongs_elsewhere(id: Seq<char>) -> spec_fn(TagView) -> bool {
    |row: TagView| row.quote_id != id
}

/// The condition that a tag row belongs to one of the quotes with the given
/// ids.
pub open spec fn belongs_among(ids: Seq<Seq<char>>) -> spec_fn(TagView) -> bool {
    |row: TagView| ids.contains(row.quote_id)
}

/// The rows that give the labels to the quote with the id, in order.
pub open spec fn tag_rows(id: Seq<char>, tags: Seq<Seq<char>>) -> Seq<TagView> {
    tags.map_values(|tag: Seq<char>| TagView { quote_id: id, tag })
}

/// The number of rows as the store reports it.
pub open spec fn reported(rows: nat) -> u64 {
    if rows > u64::MAX {
        u64::MAX
    } else {
        rows as u64
    }
}

impl Store {
    /// The store with no row in either table.
    pub open spec fn empty() -> Store {
        Store { quotes: Map::empty(), tags: Seq::empty() }
    }

    /// Whether a quote with the id exists.
    pub open spec fn has_quote(self, id: Seq<char>) -> bool {
        self.quotes.dom().contains(id)
    }

    /// The quote with the id, if it exists.
    pub open spec fn quote(self, id: Seq<char>) -> Option<QuoteView> {
        if self.has_quote(id) {
            Some(self.quotes[id].with_id(id))
        } else {
            None
        }
    }

    /// Whether the quote is a row of the quote table.
    pub open spec fn holds_quote(self, quote: QuoteView) -> bool {
        self.quote(quote.id) == Some(quote)
    }

    /// The tag rows of the quote with the id, in the order of the table.
    pub open spec fn rows_of(self, id: Seq<char>) -> Seq<TagView> {
        self.tags.filter(belongs_to(id))
    }

    /// Whether the quote with the id carries the label.
    pub open spec fn has_tag(self, id: Seq<char>, tag: Seq<char>) -> bool {
        self.tags.contains(TagView { quote_id: id, tag })
    }

    /// Referential integrity: every tag row belongs to a quote that exists.
    pub open spec fn wf(self) -> bool {
        forall|i: int| 0 <= i < self.tags.len() ==> self.has_quote((#[trigger] self.tags[i]).quote_id)
    }

    /// What the statement does. `None` where the store refuses it: a second
    /// quote under an id, a tag row for a quote that does not exist, the
    /// removal of a quote that still has tag rows.
    pub open spec fn apply(self, statement: StatementView) -> Option<Change> {
        match statement {
            StatementView::InsertQuote(quote) => if self.has_quote(quote.id) {
                None
            } else {
                Some(
                    Change {
                        store: Store {
                            quotes: self.quotes.insert(quote.id, quote.input()),
                            tags: self.tags,
                        },
                        rows: 1,
                    },
                )
            },
            StatementView::InsertTag(row) => if self.has_quote(row.quote_id) {
                Some(
                    Change {
                        store: Store { quotes: self.quotes, tags: self.tags.push(row) },
                        rows: 1,
                    },
                )
            } else {
                None
            },
            StatementView::UpdateQuote { id, input } => if self.has_quote(id) {
                Some(
                    Change {
                        store: Store { quotes: self.quotes.insert(id, input), tags: self.tags },
                        rows: 1,
                    },
                )
            } else {
                Some(Change { store: self, rows: 0 })
            },
            StatementView::DeleteTags { quote_id } => {
                let kept = self.tags.filter(belongs_elsewhere(quote_id));
                Some(
                    Change {
                        store: Store { quotes: self.quotes, tags: kept },
                        rows: (self.tags.len() - kept.len()) as nat,
                    },
                )
            },
            StatementView::DeleteQuote { id } => if self.rows_of(id).len() > 0 {
                None
            } else if self.has_quote(id) {
                Some(
                    Change {
                        store: Store { quotes: self.quotes.remove(id), tags: self.tags },
                        rows: 1,
                    },
                )
            } else {
                Some(Change { store: self, rows: 0 })
            },
        }
    }

    /// The store after a quote was created with the given labels.
    pub open spec fn created(self, quote: QuoteView, tags: Seq<Seq<char>>) -> Store {
        Store {
            quotes: self.quotes.insert(quote.id, quote.input()),
            tags: self.tags + tag_rows(quote.id, tags),
        }
    }

    /// The store after the quote with the id got new fields and new labels
    /// in place of all its old ones.
    pub open spec fn updated(self, id: Seq<char>, input: QuoteInputView, tags: Seq<Seq<char>>)
        -> Store {
        Store {
            quotes: self.quotes.insert(id, input),
            tags: self.tags.filter(belongs_elsewhere(id)) + tag_rows(id, tags),
        }
    }

    /// The store after the quote with the id was removed with all its tag
    /// rows.
    pub open spec fn deleted(self, id: Seq<char>) -> Store {
        Store { quotes: self.quotes.remove(id), tags: self.tags.filter(belongs_elsewhere(id)) }
    }

    /// Whether the quote meets the predicate: whether the condition of its
    /// clause holds of the quote with the predicate's parameters bound.
    pub open spec fn meets(self, quote: QuoteView, predicate: PredicateView) -> bool {
        match predicate.clause {
            Clause::AuthorLike => like(wrapped(predicate.value), quote.author),
            Clause::TagEquals => self.has_tag(quote.id, predicate.value),
            Clause::AnyFieldLike => like(wrapped(predicate.value), quote.text) || like(
                wrapped(predicate.value),
                quote.author,
            ) || like(wrapped(predicate.value), quote.source),
        }
    }

    /// Whether the quote meets every one of the predicates.
    pub open spec fn meets_all(self, quote: QuoteView, predicates: Seq<PredicateView>) -> bool {
        forall|i: int| 0 <= i < predicates.len() ==> self.meets(quote, #[trigger] predicates[i])
    }

    /// Whether the query selects the quote: it is a row of the table, and it
    /// meets what the query asks.
    pub open spec fn selects(self, query: QuoteQueryView, quote: QuoteView) -> bool {
        &&& self.holds_quote(quote)
        &&& match query {
            QuoteQueryView::All => true,
            QuoteQueryView::ById(id) => quote.id == id,
            QuoteQueryView::Search(predicates) => self.meets_all(quote, predicates),
        }
    }

    /// Whether `rows` answers the query for quote rows: exactly the quotes
    /// that the query selects, each once, by author and then by text.
    pub open spec fn answers_quotes(self, query: QuoteQueryView, rows: Seq<QuoteView>) -> bool {
        &&& forall|quote: QuoteView| #[trigger] rows.contains(quote) <==> self.selects(query, quote)
        &&& rows.no_duplicates()
        &&& sorted_by(rows, quote_order())
    }

    /// What the lookup of the id returns from the store, where the store
    /// answers the tag query with `rows`.
    pub open spec fn lookup(self, id: Seq<char>, rows: Seq<TagView>) -> Result<
        QuoteWithTagsView,
        AppErrorView,
    > {
        match lookup_after_quote(id, Ok(self.quote(id))) {
            Ok(quote) => lookup_after_tags(quote, Ok(rows)),
            Err(err) => Err(err),
        }
    }

    /// The rows of the tag table that belong to one of the quotes with the
    /// given ids, in the order of the table.
    pub open spec fn rows_among(self, ids: Seq<Seq<char>>) -> Seq<TagView> {
        self.tags.filter(belongs_among(ids))
    }

    /// Whether `rows` answers the query for the tag rows of the quotes with
    /// the given ids: exactly those rows, each as often as it stands in the
    /// table, by quote id and then by tag.
    pub open spec fn answers_tags(self, ids: Seq<Seq<char>>, rows: Seq<TagView>) -> bool {
        &&& rows.to_multiset() == self.rows_among(ids).to_multiset()
        &&& sorted_by(rows, row_order())
    }
}

/// How a write ended.
pub enum Ending {
    /// The script ran to its end and was committed.
    Committed,
    /// The guarded statement changed no row: the write failed with
    /// Not-Found and was rolled back.
    NotFound,
    /// The store refused a statement: the write failed with the store's
    /// words and was rolled back.
    Refused,
}

/// The end of a write: how it ended, and the store as it then stands.
pub struct End {
    pub ending: Ending,
    pub store: Store,
}

/// The number of requests that a write at `stage` has still to make at most.
pub open spec fn requests_left(stage: Stage, len: nat) -> nat {
    match stage {
        Stage::Begin => len + 2,
        Stage::Run(done) => if done <= len {
            (len + 1 - done) as nat
        } else {
            0
        },
    }
}

/// The end of a write that stands at `stage`, against a store that stood at
/// `base` when the transaction was opened and stands at `current` inside it.
/// The store answers each request as the model says, and the write takes
/// each reply as [`verdict`] says. Defined for a script that a plan can
/// hold, one of fewer than `usize::MAX` statements.
pub open spec fn drive(
    base: Store,
    current: Store,
    script: Seq<StatementView>,
    guard: Option<usize>,
    stage: Stage,
) -> End
    decreases requests_left(stage, script.len()),
    when script.len() < usize::MAX
{
    let change = match stage {
        Stage::Begin => Some(Change { store: current, rows: 0 }),
        Stage::Run(done) => if done < script.len() {
            current.apply(script[done as int])
        } else {
            Some(Change { store: current, rows: 0 })
        },
    };
    match change {
        None => End { ending: Ending::Refused, store: base },
        Some(change) => match verdict(stage, script.len(), guard, Ok(reported(change.rows))) {
            Verdict::Continue(next) => drive(base, change.store, script, guard, next),
            Verdict::NotFound => End { ending: Ending::NotFound, store: base },
            Verdict::StoreFailed(_) => End { ending: Ending::Refused, store: base },
            Verdict::Committed => End { ending: Ending::Committed, store: change.store },
        },
    }
}

/// The end of a whole write against the store: the transaction is opened,
/// the script runs, and the transaction is committed or rolled back.
pub open spec fn transact(store: Store, script: Seq<StatementView>, guard: Option<usize>) -> End {
    drive(store, store, script, guard, Stage::Begin)
}

} // verus!

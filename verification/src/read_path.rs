//! The read path: the plans of the three reads.
//!
//! A read takes two round trips to the store: one for the quote rows, one for
//! the tag rows of the quotes found. A plan names the query of each round
//! trip and takes the store's reply; the caller only carries queries and
//! replies between the plan and the store.

use crate::aggregate::{attach, attach_tags, collect_labels, labels_of};
use crate::error::{AppError, AppErrorView};
use crate::models::{Quote, QuoteView, QuoteWithTags, QuoteWithTagsView, Tag, TagView};
use crate::query::{predicates_of, text_of, QuoteQuery, QuoteQueryView, SearchQuery, TagQuery};
use crate::step::{result_view, Step};
use vstd::prelude::*;
use vstd::string::StringExecFns;

verus! {

/// The ids of the given quotes, in order.
pub open spec fn ids_of(quotes: Seq<QuoteView>) -> Seq<Seq<char>> {
    quotes.map_values(|quote: QuoteView| quote.id)
}

/// The read of one quote by its id.
#[derive(Debug, PartialEq, Eq)]
pub struct Lookup {
    pub id: String,
}

/// The second stage of a [`Lookup`]: the quote was found, its tags are due.
#[derive(Debug, PartialEq, Eq)]
pub struct LookupTags {
    pub quote: Quote,
    pub query: TagQuery,
}

/// The read of a list of quotes: all of them, or those that a search selects.
#[derive(Debug, PartialEq, Eq)]
pub struct Listing {
    pub query: QuoteQuery,
}

/// The second stage of a [`Listing`]: the quotes were found, their tags are
/// due.
#[derive(Debug, PartialEq, Eq)]
pub struct ListingTags {
    pub quotes: Vec<Quote>,
    pub query: TagQuery,
}

/// What a lookup makes of the reply to its first query.
pub open spec fn lookup_after_quote(id: Seq<char>, reply: Result<Option<QuoteView>, Seq<char>>)
    -> Result<QuoteView, AppErrorView> {
    match reply {
        Err(message) => Err(AppErrorView::Database(message)),
        Ok(None) => Err(AppErrorView::not_found(id)),
        Ok(Some(quote)) => Ok(quote),
    }
}

/// What a read makes of the reply to its tag query, for the quotes it found.
pub open spec fn listing_after_tags(
    quotes: Seq<QuoteView>,
    reply: Result<Seq<TagView>, Seq<char>>,
) -> Result<Seq<QuoteWithTagsView>, AppErrorView> {
    match reply {
        Err(message) => Err(AppErrorView::Database(message)),
        Ok(rows) => Ok(attach(quotes, rows)),
    }
}

/// What a lookup makes of the reply to its tag query, for the quote it found.
pub open spec fn lookup_after_tags(quote: QuoteView, reply: Result<Seq<TagView>, Seq<char>>)
    -> Result<QuoteWithTagsView, AppErrorView> {
    match reply {
        Err(message) => Err(AppErrorView::Database(message)),
        Ok(rows) => Ok(QuoteWithTagsView { quote, tags: labels_of(rows, quote.id) }),
    }
}

/// The value of a reply that carries one optional quote.
pub open spec fn quote_reply_view(reply: Result<Option<Quote>, String>) -> Result<
    Option<QuoteView>,
    Seq<char>,
> {
    match reply {
        Err(message) => Err(message@),
        Ok(None) => Ok(None),
        Ok(Some(quote)) => Ok(Some(quote@)),
    }
}

/// The value of a reply that carries tag rows.
pub open spec fn tags_reply_view(reply: Result<Vec<Tag>, String>) -> Result<
    Seq<TagView>,
    Seq<char>,
> {
    match reply {
        Err(message) => Err(message@),
        Ok(rows) => Ok(rows.deep_view()),
    }
}

impl Lookup {
    /// The plan that reads the quote with the given id.
    pub fn get_quote_by_id(id: &str) -> (plan: Lookup)
        ensures
            plan.id@ == id@,
    {
        Lookup { id: String::from_str(id) }
    }

    /// The first query: the quote row with the id.
    pub fn query(&self) -> (query: QuoteQuery)
        ensures
            query@ == QuoteQueryView::ById(self.id@),
    {
        QuoteQuery::ById(self.id.clone())
    }

    /// Takes the reply to the first query: the row found, none, or the
    /// store's failure. A failure of the store ends the read with it, no row
    /// ends it with Not-Found, and a row leads to the query for its tags.
    pub fn on_quote(self, reply: Result<Option<Quote>, String>) -> (step: Step<
        LookupTags,
        QuoteWithTags,
    >)
        ensures
            match lookup_after_quote(self.id@, quote_reply_view(reply)) {
                Ok(quote) => step matches Step::Ask(stage) && stage.quote@ == quote
                    && stage.query@ == seq![quote.id],
                Err(err) => step matches Step::Done(Err(e)) && e@ == err,
            },
    {
        match reply {
            Err(message) => Step::Done(Err(AppError::Database(message))),
            Ok(None) => Step::Done(Err(AppError::not_found(self.id.as_str()))),
            Ok(Some(quote)) => {
                let mut ids: Vec<String> = Vec::new();
                ids.push(quote.id.clone());
                assert(ids.deep_view() =~= seq![quote.id@]);
                Step::Ask(LookupTags { quote, query: TagQuery { ids } })
            },
        }
    }
}

impl LookupTags {
    /// The second query: the tag rows of the quote.
    pub fn query(&self) -> (query: &TagQuery)
        ensures
            query == self.query,
    {
        &self.query
    }

    /// Takes the reply to the tag query and finishes the read: the quote with
    /// the labels of its rows in the order of the reply, or the store's
    /// failure.
    pub fn on_tags(self, reply: Result<Vec<Tag>, String>) -> (result: Result<
        QuoteWithTags,
        AppError,
    >)
        ensures
            result_view(result) == lookup_after_tags(self.quote@, tags_reply_view(reply)),
    {
        match reply {
            Err(message) => Err(AppError::Database(message)),
            Ok(rows) => {
                let tags = collect_labels(&rows, &self.quote.id);
                Ok(QuoteWithTags { quote: self.quote, tags })
            },
        }
    }
}

impl Listing {
    /// The plan that reads every quote.
    pub fn get_all_quotes() -> (plan: Listing)
        ensures
            plan.query@ == QuoteQueryView::All,
    {
        Listing { query: QuoteQuery::All }
    }

    /// The plan that reads the quotes that meet every filter given. An
    /// absent filter constrains nothing.
    pub fn search_quotes(author: Option<&str>, tag: Option<&str>, search: Option<&str>) -> (plan:
        Listing)
        ensures
            plan.query@ == QuoteQueryView::Search(
                predicates_of(text_of(author), text_of(tag), text_of(search)),
            ),
    {
        Listing { query: QuoteQuery::Search(SearchQuery::new(author, tag, search)) }
    }

    /// The first query: the quote rows.
    pub fn query(&self) -> (query: &QuoteQuery)
        ensures
            query == self.query,
    {
        &self.query
    }

    /// Takes the reply to the first query: the rows found, or the store's
    /// failure. A failure ends the read with it. No row ends it with the
    /// empty list, and no tag query is made. Otherwise the rows lead to the
    /// one query for the tags of all of them.
    pub fn on_quotes(self, reply: Result<Vec<Quote>, String>) -> (step: Step<
        ListingTags,
        Vec<QuoteWithTags>,
    >)
        ensures
            match reply {
                Err(message) => step matches Step::Done(Err(e)) && e@ == AppErrorView::Database(
                    message@,
                ),
                Ok(rows) => if rows.len() == 0 {
                    step matches Step::Done(Ok(list)) && list.len() == 0
                } else {
                    step matches Step::Ask(stage) && stage.quotes.deep_view() == rows.deep_view()
                        && stage.query@ == ids_of(rows.deep_view())
                },
            },
    {
        match reply {
            Err(message) => Step::Done(Err(AppError::Database(message))),
            Ok(quotes) => {
                if quotes.len() == 0 {
                    Step::Done(Ok(Vec::new()))
                } else {
                    let mut ids: Vec<String> = Vec::new();
                    let mut i: usize = 0;
                    assert(ids.deep_view() =~= ids_of(quotes.deep_view().take(0)));
                    while i < quotes.len()
                        invariant
                            i <= quotes.len(),
                            ids.deep_view() == ids_of(quotes.deep_view().take(i as int)),
                        decreases quotes.len() - i,
                    {
                        let ghost before = ids.deep_view();
                        ids.push(quotes[i].id.clone());
                        assert(ids.deep_view() =~= before.push(quotes[i as int].id@));
                        assert(ids.deep_view() =~= ids_of(quotes.deep_view().take(i as int + 1)));
                        i += 1;
                    }
                    assert(quotes.deep_view().take(i as int) =~= quotes.deep_view());
                    Step::Ask(ListingTags { quotes, query: TagQuery { ids } })
                }
            },
        }
    }
}

impl ListingTags {
    /// The second query: the tag rows of the quotes found.
    pub fn query(&self) -> (query: &TagQuery)
        ensures
            query == self.query,
    {
        &self.query
    }

    /// Takes the reply to the tag query and finishes the read: the quotes in
    /// the order in which they were found, each with the labels of its rows
    /// in the order of the reply, or the store's failure.
    pub fn on_tags(self, reply: Result<Vec<Tag>, String>) -> (result: Result<
        Vec<QuoteWithTags>,
        AppError,
    >)
        ensures
            result_view(result) == listing_after_tags(
                self.quotes.deep_view(),
                tags_reply_view(reply),
            ),
    {
        match reply {
            Err(message) => Err(AppError::Database(message)),
            Ok(rows) => Ok(attach_tags(self.quotes, &rows)),
        }
    }
}

} // verus!

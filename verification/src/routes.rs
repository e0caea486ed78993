//! The shapes of the requests, and the plan that each request asks for.

use crate::models::{QuoteInput, QuoteWithTags, QuoteWithTagsView};
use crate::query::{predicates_of, QuoteQueryView};
use crate::read_path::Listing;
use crate::write_path::{create_script, update_script, Stage, WritePlan};
use vstd::prelude::*;

verus! {

/// The filters of a search request. Each may be absent.
#[derive(Debug, PartialEq, Eq)]
pub struct SearchParams {
    pub author: Option<String>,
    pub tag: Option<String>,
    pub search: Option<String>,
}

/// The body of a request that creates or updates a quote: the fields of the
/// quote, and its labels where the request names any.
#[derive(Debug, PartialEq, Eq)]
pub struct CreateQuoteRequest {
    pub quote: QuoteInput,
    pub tags: Option<Vec<String>>,
}

/// The value of an optional text.
pub open spec fn filter_view(filter: Option<String>) -> Option<Seq<char>> {
    match filter {
        Some(text) => Some(text@),
        None => None,
    }
}

/// The labels that a request names: none where it names none.
pub open spec fn tags_or_none(tags: Option<Vec<String>>) -> Seq<Seq<char>> {
    match tags {
        Some(tags) => tags.deep_view(),
        None => Seq::empty(),
    }
}

/// The text of an optional filter, borrowed.
fn borrowed(filter: &Option<String>) -> (text: Option<&str>)
    ensures
        crate::query::text_of(text) == filter_view(*filter),
{
    match filter {
        Some(text) => Some(text.as_str()),
        None => None,
    }
}

impl CreateQuoteRequest {
    /// The fields and the labels of the request. Labels that the request
    /// does not name are the empty list.
    pub fn into_parts(self) -> (parts: (QuoteInput, Vec<String>))
        ensures
            parts.0 == self.quote,
            parts.1.deep_view() == tags_or_none(self.tags),
    {
        let tags = match self.tags {
            Some(tags) => tags,
            None => {
                let none: Vec<String> = Vec::new();
                assert(none.deep_view() =~= Seq::<Seq<char>>::empty());
                none
            },
        };
        (self.quote, tags)
    }
}

/// The plan of a search request: the search by the filters that are present.
pub fn search_quotes(params: &SearchParams) -> (plan: Listing)
    ensures
        plan.query@ == QuoteQueryView::Search(
            predicates_of(
                filter_view(params.author),
                filter_view(params.tag),
                filter_view(params.search),
            ),
        ),
{
    Listing::search_quotes(borrowed(&params.author), borrowed(&params.tag), borrowed(&params.search))
}

/// The plan of a create request: the creation of the quote under a fresh
/// id, with the labels that the request names, or with none.
pub fn create_quote(payload: CreateQuoteRequest) -> (plan: WritePlan<QuoteWithTags>)
    ensures
        crate::models::is_quote_id(plan.id@),
        plan.script.deep_view() == create_script(
            payload.quote@.with_id(plan.id@),
            tags_or_none(payload.tags),
        ),
        plan.script.len() == tags_or_none(payload.tags).len() + 1,
        plan.guard is None,
        plan.value@ == (QuoteWithTagsView {
            quote: payload.quote@.with_id(plan.id@),
            tags: tags_or_none(payload.tags),
        }),
        plan.stage == Stage::Begin,
{
    let (input, tags) = payload.into_parts();
    WritePlan::create_quote(input, tags)
}

/// The plan of an update request: the update of the quote with the id, with
/// the labels that the request names, or with none.
pub fn update_quote(id: &str, payload: CreateQuoteRequest) -> (plan: WritePlan<QuoteWithTags>)
    ensures
        plan.id@ == id@,
        plan.script.deep_view() == update_script(id@, payload.quote@, tags_or_none(payload.tags)),
        plan.script.len() == tags_or_none(payload.tags).len() + 2,
        plan.guard == Some(0usize),
        plan.value@ == (QuoteWithTagsView {
            quote: payload.quote@.with_id(id@),
            tags: tags_or_none(payload.tags),
        }),
        plan.stage == Stage::Begin,
{
    let (input, tags) = payload.into_parts();
    WritePlan::update_quote(id, input, tags)
}

} // verus!

//! The composer of filtered searches.
//!
//! A search is a list of typed predicates, each a clause of fixed text with
//! the value it is to be matched against. The text of the composed `SELECT`
//! depends on the clauses alone; the values travel beside it as bound
//! parameters and never enter the text.

use vstd::prelude::*;
use vstd::string::StringExecFns;

verus! {

/// The shape of one filter.
#[derive(Debug, Clone, Copy, PartialEq, Eq, Structural)]
pub enum Clause {
    /// The author contains the value.
    AuthorLike,
    /// One of the quote's tags is the value.
    TagEquals,
    /// The text, the author or the source contains the value.
    AnyFieldLike,
}

impl Clause {
    /// The condition as it stands in the `WHERE` clause.
    pub open spec fn text(self) -> Seq<char> {
        match self {
            Clause::AuthorLike => "q.author LIKE ?"@,
            Clause::TagEquals => "t.tag = ?"@,
            Clause::AnyFieldLike => "(q.text LIKE ? OR q.author LIKE ? OR q.source LIKE ?)"@,
        }
    }

    /// Whether the condition reads the tag table.
    pub open spec fn reads_tags(self) -> bool {
        self == Clause::TagEquals
    }

    /// The condition as it stands in the `WHERE` clause.
    pub fn sql(&self) -> (text: &'static str)
        ensures
            text@ == self.text(),
    {
        match self {
            Clause::AuthorLike => "q.author LIKE ?",
            Clause::TagEquals => "t.tag = ?",
            Clause::AnyFieldLike => "(q.text LIKE ? OR q.author LIKE ? OR q.source LIKE ?)",
        }
    }
}

/// A clause with the value it is matched against.
#[derive(Debug, PartialEq, Eq)]
pub struct Predicate {
    pub clause: Clause,
    pub value: String,
}

/// Mathematical value of a [`Predicate`].
pub struct PredicateView {
    pub clause: Clause,
    pub value: Seq<char>,
}

impl View for Predicate {
    type V = PredicateView;

    open spec fn view(&self) -> PredicateView {
        PredicateView { clause: self.clause, value: self.value@ }
    }
}

impl DeepView for Predicate {
    type V = PredicateView;

    open spec fn deep_view(&self) -> PredicateView {
        self@
    }
}

/// The pattern that matches every text that contains `value`: the value
/// between two `%`.
pub open spec fn wrapped(value: Seq<char>) -> Seq<char> {
    seq!['%'] + value + seq!['%']
}

impl PredicateView {
    /// The parameters that the predicate binds, one for each `?` of its
    /// clause, in order.
    pub open spec fn binds(self) -> Seq<Seq<char>> {
        match self.clause {
            Clause::AuthorLike => seq![wrapped(self.value)],
            Clause::TagEquals => seq![self.value],
            Clause::AnyFieldLike => seq![
                wrapped(self.value),
                wrapped(self.value),
                wrapped(self.value),
            ],
        }
    }
}

/// The clauses of a list of predicates, in order.
pub open spec fn clauses_of(predicates: Seq<PredicateView>) -> Seq<Clause> {
    predicates.map_values(|p: PredicateView| p.clause)
}

/// The predicates that the three optional filters stand for: the author
/// filter first, then the tag filter, then the free-text filter, each only
/// where it is present.
pub open spec fn predicates_of(
    author: Option<Seq<char>>,
    tag: Option<Seq<char>>,
    search: Option<Seq<char>>,
) -> Seq<PredicateView> {
    (match author {
        Some(value) => seq![PredicateView { clause: Clause::AuthorLike, value }],
        None => Seq::empty(),
    }) + (match tag {
        Some(value) => seq![PredicateView { clause: Clause::TagEquals, value }],
        None => Seq::empty(),
    }) + (match search {
        Some(value) => seq![PredicateView { clause: Clause::AnyFieldLike, value }],
        None => Seq::empty(),
    })
}

/// The value of an optional text.
pub open spec fn text_of(text: Option<&str>) -> Option<Seq<char>> {
    match text {
        Some(t) => Some(t@),
        None => None,
    }
}

/// The part of the `SELECT` before any join or condition.
pub open spec fn select_text() -> Seq<char> {
    "SELECT DISTINCT q.id, q.text, q.author, q.source FROM quotes q"@
}

/// The join of the tag table, present only where a clause reads it.
pub open spec fn join_text(clauses: Seq<Clause>) -> Seq<char> {
    if exists|i: int| 0 <= i < clauses.len() && (#[trigger] clauses[i]).reads_tags() {
        " LEFT JOIN tags t ON q.id = t.quote_id"@
    } else {
        Seq::empty()
    }
}

/// The `WHERE` clause: nothing for no clause, else the conditions joined by
/// `AND`.
pub open spec fn where_text(clauses: Seq<Clause>) -> Seq<char>
    decreases clauses.len(),
{
    if clauses.len() == 0 {
        Seq::empty()
    } else if clauses.len() == 1 {
        " WHERE "@ + clauses[0].text()
    } else {
        where_text(clauses.drop_last()) + " AND "@ + clauses.last().text()
    }
}

/// The ordering of the result: by author, then by text.
pub open spec fn order_text() -> Seq<char> {
    " ORDER BY q.author, q.text"@
}

/// The text of the `SELECT` for the given clauses.
pub open spec fn search_text(clauses: Seq<Clause>) -> Seq<char> {
    select_text() + join_text(clauses) + where_text(clauses) + order_text()
}

/// The bound parameters of a list of predicates: those of each predicate, in
/// order.
pub open spec fn binds_of(predicates: Seq<PredicateView>) -> Seq<Seq<char>>
    decreases predicates.len(),
{
    if predicates.len() == 0 {
        Seq::empty()
    } else {
        binds_of(predicates.drop_last()) + predicates.last().binds()
    }
}

/// A search over the quotes: the conjunction of its predicates.
#[derive(Debug, PartialEq, Eq)]
pub struct SearchQuery {
    pub predicates: Vec<Predicate>,
}

impl View for SearchQuery {
    type V = Seq<PredicateView>;

    open spec fn view(&self) -> Seq<PredicateView> {
        self.predicates.deep_view()
    }
}

impl DeepView for SearchQuery {
    type V = Seq<PredicateView>;

    open spec fn deep_view(&self) -> Seq<PredicateView> {
        self@
    }
}

/// The pattern that matches every text that contains `value`.
pub fn wrap(value: &str) -> (pattern: String)
    ensures
        pattern@ == wrapped(value@),
{
    proof {
        reveal_strlit("%");
    }
    let mut pattern = String::from_str("%");
    pattern.append(value);
    pattern.append("%");
    assert(pattern@ =~= wrapped(value@));
    pattern
}

impl Predicate {
    /// Appends the predicate's parameters to `binds`.
    fn bind_into(&self, binds: &mut Vec<String>)
        ensures
            final(binds).deep_view() == old(binds).deep_view() + self@.binds(),
    {
        let ghost before = binds.deep_view();
        match self.clause {
            Clause::AuthorLike => {
                binds.push(wrap(self.value.as_str()));
            },
            Clause::TagEquals => {
                binds.push(self.value.clone());
            },
            Clause::AnyFieldLike => {
                binds.push(wrap(self.value.as_str()));
                binds.push(wrap(self.value.as_str()));
                binds.push(wrap(self.value.as_str()));
            },
        }
        assert(binds.deep_view() =~= before + self@.binds());
    }
}

impl SearchQuery {
    /// The search that the three optional filters ask for. An absent filter
    /// constrains nothing.
    pub fn new(author: Option<&str>, tag: Option<&str>, search: Option<&str>) -> (query:
        SearchQuery)
        ensures
            query@ == predicates_of(text_of(author), text_of(tag), text_of(search)),
    {
        let mut predicates: Vec<Predicate> = Vec::new();
        if let Some(value) = author {
            predicates.push(Predicate { clause: Clause::AuthorLike, value: String::from_str(value) });
        }
        if let Some(value) = tag {
            predicates.push(Predicate { clause: Clause::TagEquals, value: String::from_str(value) });
        }
        if let Some(value) = search {
            predicates.push(
                Predicate { clause: Clause::AnyFieldLike, value: String::from_str(value) },
            );
        }
        assert(predicates.deep_view() =~= predicates_of(
            text_of(author),
            text_of(tag),
            text_of(search),
        ));
        SearchQuery { predicates }
    }

    /// Whether the search reads the tag table, and so has to join it.
    pub fn joins_tags(&self) -> (joins: bool)
        ensures
            joins == exists|i: int|
                0 <= i < self@.len() && (#[trigger] clauses_of(self@)[i]).reads_tags(),
    {
        let ghost clauses = clauses_of(self@);
        let mut i: usize = 0;
        while i < self.predicates.len()
            invariant
                i <= self.predicates.len(),
                clauses == clauses_of(self@),
                forall|j: int| 0 <= j < i ==> !(#[trigger] clauses[j]).reads_tags(),
            decreases self.predicates.len() - i,
        {
            match self.predicates[i].clause {
                Clause::TagEquals => {
                    assert(clauses[i as int].reads_tags());
                    return true;
                },
                _ => {},
            }
            i += 1;
        }
        false
    }

    /// The text of the `SELECT`, with a `?` for every bound parameter.
    pub fn sql(&self) -> (text: String)
        ensures
            text@ == search_text(clauses_of(self@)),
    {
        let ghost clauses = clauses_of(self@);
        let mut text = String::from_str(
            "SELECT DISTINCT q.id, q.text, q.author, q.source FROM quotes q",
        );
        if self.joins_tags() {
            text.append(" LEFT JOIN tags t ON q.id = t.quote_id");
        }
        let mut i: usize = 0;
        while i < self.predicates.len()
            invariant
                i <= self.predicates.len(),
                clauses == clauses_of(self@),
                text@ == select_text() + join_text(clauses) + where_text(clauses.take(i as int)),
            decreases self.predicates.len() - i,
        {
            if i == 0 {
                text.append(" WHERE ");
            } else {
                text.append(" AND ");
            }
            text.append(self.predicates[i].clause.sql());
            proof {
                let done = clauses.take(i as int + 1);
                assert(done.drop_last() =~= clauses.take(i as int));
                assert(done.last() == clauses[i as int]);
                assert(text@ =~= select_text() + join_text(clauses) + where_text(done));
            }
            i += 1;
        }
        assert(clauses.take(i as int) =~= clauses);
        text.append(" ORDER BY q.author, q.text");
        text
    }

    /// The bound parameters, one for every `?` of the text, in order.
    pub fn binds(&self) -> (binds: Vec<String>)
        ensures
            binds.deep_view() == binds_of(self@),
    {
        let mut binds: Vec<String> = Vec::new();
        let mut i: usize = 0;
        assert(binds.deep_view() =~= binds_of(self@.take(0)));
        while i < self.predicates.len()
            invariant
                i <= self.predicates.len(),
                binds.deep_view() == binds_of(self@.take(i as int)),
            decreases self.predicates.len() - i,
        {
            self.predicates[i].bind_into(&mut binds);
            proof {
                let done = self@.take(i as int + 1);
                assert(done.drop_last() =~= self@.take(i as int));
                assert(done.last() == self.predicates[i as int]@);
            }
            i += 1;
        }
        assert(self@.take(i as int) =~= self@);
        binds
    }
}

/// A read of quote rows.
#[derive(Debug, PartialEq, Eq)]
pub enum QuoteQuery {
    /// Every quote, by author and then by text.
    All,
    /// The quote with the given id, if there is one.
    ById(String),
    /// The quotes that meet every predicate of the search, each once, by
    /// author and then by text.
    Search(SearchQuery),
}

/// Mathematical value of a [`QuoteQuery`].
pub enum QuoteQueryView {
    All,
    ById(Seq<char>),
    Search(Seq<PredicateView>),
}

impl View for QuoteQuery {
    type V = QuoteQueryView;

    open spec fn view(&self) -> QuoteQueryView {
        match self {
            QuoteQuery::All => QuoteQueryView::All,
            QuoteQuery::ById(id) => QuoteQueryView::ById(id@),
            QuoteQuery::Search(search) => QuoteQueryView::Search(search@),
        }
    }
}

impl QuoteQueryView {
    /// The text of the `SELECT`, with a `?` for every bound parameter.
    pub open spec fn text(self) -> Seq<char> {
        match self {
            QuoteQueryView::All =>
                "SELECT id, text, author, source FROM quotes ORDER BY author, text"@,
            QuoteQueryView::ById(_) => "SELECT id, text, author, source FROM quotes WHERE id = ?"@,
            QuoteQueryView::Search(predicates) => search_text(clauses_of(predicates)),
        }
    }

    /// The bound parameters, one for every `?` of the text, in order.
    pub open spec fn binds(self) -> Seq<Seq<char>> {
        match self {
            QuoteQueryView::All => Seq::empty(),
            QuoteQueryView::ById(id) => seq![id],
            QuoteQueryView::Search(predicates) => binds_of(predicates),
        }
    }
}

impl QuoteQuery {
    /// The text of the `SELECT`, with a `?` for every bound parameter.
    pub fn sql(&self) -> (text: String)
        ensures
            text@ == self@.text(),
    {
        match self {
            QuoteQuery::All => String::from_str(
                "SELECT id, text, author, source FROM quotes ORDER BY author, text",
            ),
            QuoteQuery::ById(_) => String::from_str(
                "SELECT id, text, author, source FROM quotes WHERE id = ?",
            ),
            QuoteQuery::Search(search) => search.sql(),
        }
    }

    /// The bound parameters, one for every `?` of the text, in order.
    pub fn binds(&self) -> (binds: Vec<String>)
        ensures
            binds.deep_view() == self@.binds(),
    {
        match self {
            QuoteQuery::All => {
                let binds: Vec<String> = Vec::new();
                assert(binds.deep_view() =~= self@.binds());
                binds
            },
            QuoteQuery::ById(id) => {
                let mut binds: Vec<String> = Vec::new();
                binds.push(id.clone());
                assert(binds.deep_view() =~= self@.binds());
                binds
            },
            QuoteQuery::Search(search) => search.binds(),
        }
    }
}

/// `count` placeholders, separated by commas.
pub open spec fn placeholders(count: nat) -> Seq<char>
    decreases count,
{
    if count == 0 {
        Seq::empty()
    } else if count == 1 {
        "?"@
    } else {
        placeholders((count - 1) as nat) + ","@ + "?"@
    }
}

/// The text that reads the tag rows of `count` quotes, by quote id and then
/// by tag.
pub open spec fn tag_query_text(count: nat) -> Seq<char> {
    "SELECT quote_id, tag FROM tags WHERE quote_id IN ("@ + placeholders(count)
        + ") ORDER BY quote_id, tag"@
}

/// The read of the tag rows of a set of quotes, all of them in one query.
#[derive(Debug, PartialEq, Eq)]
pub struct TagQuery {
    /// The ids of the quotes whose tag rows are asked for.
    pub ids: Vec<String>,
}

impl View for TagQuery {
    type V = Seq<Seq<char>>;

    open spec fn view(&self) -> Seq<Seq<char>> {
        self.ids.deep_view()
    }
}

impl TagQuery {
    /// The text of the `SELECT`, with one `?` for every id.
    pub fn sql(&self) -> (text: String)
        ensures
            text@ == tag_query_text(self@.len()),
    {
        let mut text = String::from_str("SELECT quote_id, tag FROM tags WHERE quote_id IN (");
        let ghost head = text@;
        let mut i: usize = 0;
        while i < self.ids.len()
            invariant
                i <= self.ids.len(),
                text@ == head + placeholders(i as nat),
            decreases self.ids.len() - i,
        {
            if i > 0 {
                text.append(",");
            }
            text.append("?");
            assert(text@ =~= head + placeholders((i + 1) as nat));
            i += 1;
        }
        text.append(") ORDER BY quote_id, tag");
        text
    }

    /// The bound parameters: the ids, in order.
    pub fn binds(&self) -> (binds: Vec<String>)
        ensures
            binds.deep_view() == self@,
    {
        crate::models::clone_texts(&self.ids)
    }
}

/// The text of a search depends only on which filters are present: whatever
/// the values are, they stay out of the text.
pub proof fn lemma_values_stay_out_of_text(
    author: Option<Seq<char>>,
    tag: Option<Seq<char>>,
    search: Option<Seq<char>>,
    other_author: Option<Seq<char>>,
    other_tag: Option<Seq<char>>,
    other_search: Option<Seq<char>>,
)
    requires
        author is Some <==> other_author is Some,
        tag is Some <==> other_tag is Some,
        search is Some <==> other_search is Some,
    ensures
        search_text(clauses_of(predicates_of(author, tag, search))) == search_text(
            clauses_of(predicates_of(other_author, other_tag, other_search)),
        ),
{
    assert(clauses_of(predicates_of(author, tag, search)) =~= clauses_of(
        predicates_of(other_author, other_tag, other_search),
    ));
}

} // verus!

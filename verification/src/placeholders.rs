//! Placeholders and parameters: every text that goes to the store has
//! exactly one `?` for each parameter bound beside it.

use crate::query::{
    binds_of, clauses_of, join_text, order_text, placeholders, search_text, select_text,
    tag_query_text, where_text, Clause, PredicateView, QuoteQueryView,
};
use crate::seqs::lemma_filter_none;
use crate::statement::StatementView;
use vstd::prelude::*;

verus! {

/// The condition that a character is the placeholder of a parameter.
pub open spec fn is_mark() -> spec_fn(char) -> bool {
    |c: char| c == '?'
}

/// The number of placeholders in a text.
pub open spec fn marks(text: Seq<char>) -> nat {
    text.filter(is_mark()).len()
}

/// A text without a `?` holds no placeholder.
proof fn lemma_marks_none(text: Seq<char>)
    requires
        forall|i: int| 0 <= i < text.len() ==> #[trigger] text[i] != '?',
    ensures
        marks(text) == 0,
{
    lemma_filter_none(text, is_mark());
}

/// The placeholders of two texts in a row are those of the one and those of
/// the other.
proof fn lemma_marks_add(a: Seq<char>, b: Seq<char>)
    ensures
        marks(a + b) == marks(a) + marks(b),
{
    Seq::filter_distributes_over_add(a, b, is_mark());
}

/// The text `?` is one placeholder.
proof fn lemma_marks_one()
    ensures
        marks("?"@) == 1,
{
    reveal_strlit("?");
    reveal_with_fuel(Seq::filter, 2);
}

/// The condition of a clause has one placeholder for each parameter that a
/// predicate of that clause binds.
pub proof fn lemma_clause_marks(predicate: PredicateView)
    ensures
        marks(predicate.clause.text()) == predicate.binds().len(),
{
    let m = "?"@;
    lemma_marks_one();
    match predicate.clause {
        Clause::AuthorLike => {
            reveal_strlit("q.author LIKE ?");
            reveal_strlit("q.author LIKE ");
            reveal_strlit("?");
            let a = "q.author LIKE "@;
            assert(predicate.clause.text() =~= a + m);
            lemma_marks_none(a);
            lemma_marks_add(a, m);
        },
        Clause::TagEquals => {
            reveal_strlit("t.tag = ?");
            reveal_strlit("t.tag = ");
            reveal_strlit("?");
            let a = "t.tag = "@;
            assert(predicate.clause.text() =~= a + m);
            lemma_marks_none(a);
            lemma_marks_add(a, m);
        },
        Clause::AnyFieldLike => {
            reveal_strlit("(q.text LIKE ? OR q.author LIKE ? OR q.source LIKE ?)");
            reveal_strlit("(q.text LIKE ");
            reveal_strlit("?");
            reveal_strlit(" OR q.author LIKE ");
            reveal_strlit(" OR q.source LIKE ");
            reveal_strlit(")");
            let a = "(q.text LIKE "@;
            let b = " OR q.author LIKE "@;
            let c = " OR q.source LIKE "@;
            let d = ")"@;
            assert(predicate.clause.text() =~= a + m + b + m + c + m + d);
            lemma_marks_none(a);
            lemma_marks_none(b);
            lemma_marks_none(c);
            lemma_marks_none(d);
            lemma_marks_add(a, m);
            lemma_marks_add(a + m, b);
            lemma_marks_add(a + m + b, m);
            lemma_marks_add(a + m + b + m, c);
            lemma_marks_add(a + m + b + m + c, m);
            lemma_marks_add(a + m + b + m + c + m, d);
        },
    }
}

/// The `WHERE` clause has one placeholder for each parameter of the
/// predicates.
proof fn lemma_where_marks(predicates: Seq<PredicateView>)
    ensures
        marks(where_text(clauses_of(predicates))) == binds_of(predicates).len(),
    decreases predicates.len(),
{
    let clauses = clauses_of(predicates);
    if predicates.len() == 0 {
        lemma_marks_none(where_text(clauses));
    } else {
        let last = predicates.last();
        lemma_clause_marks(last);
        assert(clauses.last() == last.clause);
        assert(clauses.drop_last() =~= clauses_of(predicates.drop_last()));
        if predicates.len() == 1 {
            reveal_strlit(" WHERE ");
            lemma_marks_none(" WHERE "@);
            lemma_marks_add(" WHERE "@, last.clause.text());
            assert(binds_of(predicates.drop_last()).len() == 0);
        } else {
            lemma_where_marks(predicates.drop_last());
            reveal_strlit(" AND ");
            lemma_marks_none(" AND "@);
            lemma_marks_add(where_text(clauses.drop_last()), " AND "@);
            lemma_marks_add(where_text(clauses.drop_last()) + " AND "@, last.clause.text());
        }
    }
}

/// The text of a search has exactly one placeholder for each parameter that
/// the search binds.
pub proof fn lemma_search_marks(predicates: Seq<PredicateView>)
    ensures
        marks(search_text(clauses_of(predicates))) == binds_of(predicates).len(),
{
    let clauses = clauses_of(predicates);
    reveal_strlit("SELECT DISTINCT q.id, q.text, q.author, q.source FROM quotes q");
    reveal_strlit(" LEFT JOIN tags t ON q.id = t.quote_id");
    reveal_strlit(" ORDER BY q.author, q.text");
    lemma_marks_none(select_text());
    lemma_marks_none(join_text(clauses));
    lemma_marks_none(order_text());
    lemma_where_marks(predicates);
    lemma_marks_add(select_text(), join_text(clauses));
    lemma_marks_add(select_text() + join_text(clauses), where_text(clauses));
    lemma_marks_add(select_text() + join_text(clauses) + where_text(clauses), order_text());
}

/// The text of every read of quote rows has exactly one placeholder for each
/// parameter that the read binds.
pub proof fn lemma_quote_query_marks(query: QuoteQueryView)
    ensures
        marks(query.text()) == query.binds().len(),
{
    match query {
        QuoteQueryView::All => {
            reveal_strlit("SELECT id, text, author, source FROM quotes ORDER BY author, text");
            lemma_marks_none(query.text());
        },
        QuoteQueryView::ById(_) => {
            reveal_strlit("SELECT id, text, author, source FROM quotes WHERE id = ?");
            reveal_strlit("SELECT id, text, author, source FROM quotes WHERE id = ");
            reveal_strlit("?");
            let a = "SELECT id, text, author, source FROM quotes WHERE id = "@;
            assert(query.text() =~= a + "?"@);
            lemma_marks_none(a);
            lemma_marks_one();
            lemma_marks_add(a, "?"@);
        },
        QuoteQueryView::Search(predicates) => {
            lemma_search_marks(predicates);
        },
    }
}

/// A list of `count` placeholders holds `count` placeholders.
proof fn lemma_placeholders_marks(count: nat)
    ensures
        marks(placeholders(count)) == count,
    decreases count,
{
    lemma_marks_one();
    if count == 0 {
        lemma_marks_none(placeholders(count));
    } else if count > 1 {
        lemma_placeholders_marks((count - 1) as nat);
        reveal_strlit(",");
        lemma_marks_none(","@);
        lemma_marks_add(placeholders((count - 1) as nat), ","@);
        lemma_marks_add(placeholders((count - 1) as nat) + ","@, "?"@);
    }
}

/// The text of the read of the tag rows of `count` quotes has exactly
/// `count` placeholders, one for each id that the read binds.
pub proof fn lemma_tag_query_marks(count: nat)
    ensures
        marks(tag_query_text(count)) == count,
{
    reveal_strlit("SELECT quote_id, tag FROM tags WHERE quote_id IN (");
    reveal_strlit(") ORDER BY quote_id, tag");
    let head = "SELECT quote_id, tag FROM tags WHERE quote_id IN ("@;
    let tail = ") ORDER BY quote_id, tag"@;
    lemma_marks_none(head);
    lemma_marks_none(tail);
    lemma_placeholders_marks(count);
    lemma_marks_add(head, placeholders(count));
    lemma_marks_add(head + placeholders(count), tail);
}

/// The text of every statement has exactly one placeholder for each
/// parameter that the statement binds.
pub proof fn lemma_statement_marks(statement: StatementView)
    ensures
        marks(statement.text()) == statement.binds().len(),
{
    let m = "?"@;
    lemma_marks_one();
    reveal_strlit("?");
    match statement {
        StatementView::InsertQuote(_) => {
            reveal_strlit("INSERT INTO quotes (id, text, author, source) VALUES (?, ?, ?, ?)");
            reveal_strlit("INSERT INTO quotes (id, text, author, source) VALUES (");
            reveal_strlit(", ");
            reveal_strlit(")");
            let a = "INSERT INTO quotes (id, text, author, source) VALUES ("@;
            let c = ", "@;
            let d = ")"@;
            assert(statement.text() =~= a + m + c + m + c + m + c + m + d);
            lemma_marks_none(a);
            lemma_marks_none(c);
            lemma_marks_none(d);
            lemma_marks_add(a, m);
            lemma_marks_add(a + m, c);
            lemma_marks_add(a + m + c, m);
            lemma_marks_add(a + m + c + m, c);
            lemma_marks_add(a + m + c + m + c, m);
            lemma_marks_add(a + m + c + m + c + m, c);
            lemma_marks_add(a + m + c + m + c + m + c, m);
            lemma_marks_add(a + m + c + m + c + m + c + m, d);
        },
        StatementView::InsertTag(_) => {
            reveal_strlit("INSERT INTO tags (quote_id, tag) VALUES (?, ?)");
            reveal_strlit("INSERT INTO tags (quote_id, tag) VALUES (");
            reveal_strlit(", ");
            reveal_strlit(")");
            let a = "INSERT INTO tags (quote_id, tag) VALUES ("@;
            let c = ", "@;
            let d = ")"@;
            assert(statement.text() =~= a + m + c + m + d);
            lemma_marks_none(a);
            lemma_marks_none(c);
            lemma_marks_none(d);
            lemma_marks_add(a, m);
            lemma_marks_add(a + m, c);
            lemma_marks_add(a + m + c, m);
            lemma_marks_add(a + m + c + m, d);
        },
        StatementView::UpdateQuote { .. } => {
            reveal_strlit("UPDATE quotes SET text = ?, author = ?, source = ? WHERE id = ?");
            reveal_strlit("UPDATE quotes SET text = ");
            reveal_strlit(", author = ");
            reveal_strlit(", source = ");
            reveal_strlit(" WHERE id = ");
            let a = "UPDATE quotes SET text = "@;
            let b = ", author = "@;
            let c = ", source = "@;
            let d = " WHERE id = "@;
            assert(statement.text() =~= a + m + b + m + c + m + d + m);
            lemma_marks_none(a);
            lemma_marks_none(b);
            lemma_marks_none(c);
            lemma_marks_none(d);
            lemma_marks_add(a, m);
            lemma_marks_add(a + m, b);
            lemma_marks_add(a + m + b, m);
            lemma_marks_add(a + m + b + m, c);
            lemma_marks_add(a + m + b + m + c, m);
            lemma_marks_add(a + m + b + m + c + m, d);
            lemma_marks_add(a + m + b + m + c + m + d, m);
        },
        StatementView::DeleteTags { .. } => {
            reveal_strlit("DELETE FROM tags WHERE quote_id = ?");
            reveal_strlit("DELETE FROM tags WHERE quote_id = ");
            let a = "DELETE FROM tags WHERE quote_id = "@;
            assert(statement.text() =~= a + m);
            lemma_marks_none(a);
            lemma_marks_add(a, m);
        },
        StatementView::DeleteQuote { .. } => {
            reveal_strlit("DELETE FROM quotes WHERE id = ?");
            reveal_strlit("DELETE FROM quotes WHERE id = ");
            let a = "DELETE FROM quotes WHERE id = "@;
            assert(statement.text() =~= a + m);
            lemma_marks_none(a);
            lemma_marks_add(a, m);
        },
    }
}

} // verus!

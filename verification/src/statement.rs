//! The statements of the write path: what each changes, its text, and the
//! parameters it binds.

use crate::models::{Quote, QuoteInput, QuoteInputView, QuoteView, Tag, TagView};
use vstd::prelude::*;

verus! {

/// A statement that changes one of the two tables. Every value it carries is
/// bound as a parameter.
#[derive(Debug, PartialEq, Eq)]
pub enum Statement {
    /// Adds the row of a quote.
    InsertQuote(Quote),
    /// Adds one row of the tag table.
    InsertTag(Tag),
    /// Replaces the scalar fields of the quote with the given id.
    UpdateQuote { id: String, input: QuoteInput },
    /// Removes every tag row of the quote with the given id.
    DeleteTags { quote_id: String },
    /// Removes the row of the quote with the given id.
    DeleteQuote { id: String },
}

/// Mathematical value of a [`Statement`].
pub enum StatementView {
    InsertQuote(QuoteView),
    InsertTag(TagView),
    UpdateQuote { id: Seq<char>, input: QuoteInputView },
    DeleteTags { quote_id: Seq<char> },
    DeleteQuote { id: Seq<char> },
}

impl View for Statement {
    type V = StatementView;

    open spec fn view(&self) -> StatementView {
        match self {
            Statement::InsertQuote(quote) => StatementView::InsertQuote(quote@),
            Statement::InsertTag(row) => StatementView::InsertTag(row@),
            Statement::UpdateQuote { id, input } => StatementView::UpdateQuote {
                id: id@,
                input: input@,
            },
            Statement::DeleteTags { quote_id } => StatementView::DeleteTags { quote_id: quote_id@ },
            Statement::DeleteQuote { id } => StatementView::DeleteQuote { id: id@ },
        }
    }
}

impl DeepView for Statement {
    type V = StatementView;

    open spec fn deep_view(&self) -> StatementView {
        self@
    }
}

impl StatementView {
    /// The text of the statement, with a `?` for every bound parameter.
    pub open spec fn text(self) -> Seq<char> {
        match self {
            StatementView::InsertQuote(_) =>
                "INSERT INTO quotes (id, text, author, source) VALUES (?, ?, ?, ?)"@,
            StatementView::InsertTag(_) => "INSERT INTO tags (quote_id, tag) VALUES (?, ?)"@,
            StatementView::UpdateQuote { .. } =>
                "UPDATE quotes SET text = ?, author = ?, source = ? WHERE id = ?"@,
            StatementView::DeleteTags { .. } => "DELETE FROM tags WHERE quote_id = ?"@,
            StatementView::DeleteQuote { .. } => "DELETE FROM quotes WHERE id = ?"@,
        }
    }

    /// The bound parameters, one for every `?` of the text, in order.
    pub open spec fn binds(self) -> Seq<Seq<char>> {
        match self {
            StatementView::InsertQuote(quote) => seq![
                quote.id,
                quote.text,
                quote.author,
                quote.source,
            ],
            StatementView::InsertTag(row) => seq![row.quote_id, row.tag],
            StatementView::UpdateQuote { id, input } => seq![
                input.text,
                input.author,
                input.source,
                id,
            ],
            StatementView::DeleteTags { quote_id } => seq![quote_id],
            StatementView::DeleteQuote { id } => seq![id],
        }
    }
}

impl Clone for Statement {
    fn clone(&self) -> (copy: Statement)
        ensures
            copy@ == self@,
    {
        match self {
            Statement::InsertQuote(quote) => Statement::InsertQuote(quote.clone()),
            Statement::InsertTag(row) => Statement::InsertTag(row.clone()),
            Statement::UpdateQuote { id, input } => Statement::UpdateQuote {
                id: id.clone(),
                input: input.clone(),
            },
            Statement::DeleteTags { quote_id } => Statement::DeleteTags {
                quote_id: quote_id.clone(),
            },
            Statement::DeleteQuote { id } => Statement::DeleteQuote { id: id.clone() },
        }
    }
}

impl Statement {
    /// The text of the statement, with a `?` for every bound parameter.
    pub fn sql(&self) -> (text: &'static str)
        ensures
            text@ == self@.text(),
    {
        match self {
            Statement::InsertQuote(_) =>
                "INSERT INTO quotes (id, text, author, source) VALUES (?, ?, ?, ?)",
            Statement::InsertTag(_) => "INSERT INTO tags (quote_id, tag) VALUES (?, ?)",
            Statement::UpdateQuote { .. } =>
                "UPDATE quotes SET text = ?, author = ?, source = ? WHERE id = ?",
            Statement::DeleteTags { .. } => "DELETE FROM tags WHERE quote_id = ?",
            Statement::DeleteQuote { .. } => "DELETE FROM quotes WHERE id = ?",
        }
    }

    /// The bound parameters, one for every `?` of the text, in order.
    pub fn binds(&self) -> (binds: Vec<String>)
        ensures
            binds.deep_view() == self@.binds(),
    {
        let mut binds: Vec<String> = Vec::new();
        match self {
            Statement::InsertQuote(quote) => {
                binds.push(quote.id.clone());
                binds.push(quote.text.clone());
                binds.push(quote.author.clone());
                binds.push(quote.source.clone());
            },
            Statement::InsertTag(row) => {
                binds.push(row.quote_id.clone());
                binds.push(row.tag.clone());
            },
            Statement::UpdateQuote { id, input } => {
                binds.push(input.text.clone());
                binds.push(input.author.clone());
                binds.push(input.source.clone());
                binds.push(id.clone());
            },
            Statement::DeleteTags { quote_id } => {
                binds.push(quote_id.clone());
            },
            Statement::DeleteQuote { id } => {
                binds.push(id.clone());
            },
        }
        assert(binds.deep_view() =~= self@.binds());
        binds
    }
}

} // verus!

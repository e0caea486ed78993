//! The transactional write path: the plans of the three writes.
//!
//! A write is a script of statements that runs inside one transaction. The
//! plan names the next request (open the transaction, run a statement,
//! commit) and takes the store's reply to it. It ends the write with a
//! failure as soon as the store fails or the statement that has to change a
//! row changes none; the caller then gives the transaction up, which rolls it
//! back, so that no part of the script stays behind.

use crate::error::{AppError, AppErrorView};
use crate::models::{
    Quote, QuoteInput, QuoteInputView, QuoteView, QuoteWithTags, QuoteWithTagsView, Tag, TagView,
};
use crate::step::Step;
use crate::statement::{Statement, StatementView};
use vstd::prelude::*;
use vstd::string::StringExecFns;

verus! {

/// How far a write has come.
#[derive(Debug, Clone, Copy, PartialEq, Eq, Structural)]
pub enum Stage {
    /// The transaction is to be opened.
    Begin,
    /// The statements before the given index have run. The statement at the
    /// index is due, or, past the last, the commit.
    Run(usize),
}

/// What a write asks of the store next.
#[derive(Debug, PartialEq, Eq)]
pub enum Request<'a> {
    /// Open a transaction.
    Begin,
    /// Run the statement inside the open transaction.
    Execute(&'a Statement),
    /// Commit the open transaction.
    Commit,
}

/// A write in progress: its script, and how far it has come. `T` is what the
/// write returns once it is committed.
#[derive(Debug, PartialEq, Eq)]
pub struct WritePlan<T> {
    /// The id of the quote that the write is about.
    pub id: String,
    /// The statements, in the order in which they run.
    pub script: Vec<Statement>,
    /// The index of the statement that has to change at least one row, if
    /// there is one: where it changes none, the quote does not exist.
    pub guard: Option<usize>,
    /// What the write returns once it is committed.
    pub value: T,
    /// How far the write has come.
    pub stage: Stage,
}

/// The statements that add the given labels to the quote with the given id,
/// one row for each label, in order.
pub open spec fn tag_inserts(id: Seq<char>, tags: Seq<Seq<char>>) -> Seq<StatementView> {
    tags.map_values(|tag: Seq<char>| StatementView::InsertTag(TagView { quote_id: id, tag }))
}

/// The script that creates a quote with its labels: the row of the quote,
/// then one tag row for each label.
pub open spec fn create_script(quote: QuoteView, tags: Seq<Seq<char>>) -> Seq<StatementView> {
    seq![StatementView::InsertQuote(quote)] + tag_inserts(quote.id, tags)
}

/// The script that replaces the fields and the labels of a quote: the update
/// of its row, the removal of all its tag rows, then one tag row for each new
/// label.
pub open spec fn update_script(id: Seq<char>, input: QuoteInputView, tags: Seq<Seq<char>>) -> Seq<
    StatementView,
> {
    seq![StatementView::UpdateQuote { id, input }, StatementView::DeleteTags { quote_id: id }]
        + tag_inserts(id, tags)
}

/// The script that removes a quote: first its tag rows, then its own row.
pub open spec fn delete_script(id: Seq<char>) -> Seq<StatementView> {
    seq![StatementView::DeleteTags { quote_id: id }, StatementView::DeleteQuote { id }]
}

/// What a write makes of a reply.
pub enum Verdict {
    /// The write goes on at the given stage.
    Continue(Stage),
    /// The statement that had to change a row changed none.
    NotFound,
    /// The store failed, with the given words.
    StoreFailed(Seq<char>),
    /// The transaction is committed.
    Committed,
}

/// What a write at `stage`, with a script of `len` statements and the given
/// guard, makes of the reply to its request: the number of rows changed, or
/// the store's failure.
pub open spec fn verdict(stage: Stage, len: nat, guard: Option<usize>, reply: Result<u64, Seq<char>>)
    -> Verdict {
    match reply {
        Err(message) => Verdict::StoreFailed(message),
        Ok(rows_affected) => match stage {
            Stage::Begin => Verdict::Continue(Stage::Run(0)),
            Stage::Run(done) => if done >= len {
                Verdict::Committed
            } else if guard == Some(done) && rows_affected == 0 {
                Verdict::NotFound
            } else {
                Verdict::Continue(Stage::Run((done + 1) as usize))
            },
        },
    }
}

/// The value of a reply to a request of a write.
pub open spec fn reply_view(reply: Result<u64, String>) -> Result<u64, Seq<char>> {
    match reply {
        Ok(rows_affected) => Ok(rows_affected),
        Err(message) => Err(message@),
    }
}

/// Appends to `script` one insertion for each label.
fn push_tag_inserts(script: &mut Vec<Statement>, id: &String, tags: &Vec<String>)
    ensures
        final(script).deep_view() == old(script).deep_view() + tag_inserts(id@, tags.deep_view()),
{
    let ghost head = script.deep_view();
    let mut i: usize = 0;
    assert(script.deep_view() =~= head + tag_inserts(id@, tags.deep_view().take(0)));
    while i < tags.len()
        invariant
            i <= tags.len(),
            script.deep_view() == head + tag_inserts(id@, tags.deep_view().take(i as int)),
        decreases tags.len() - i,
    {
        let ghost before = script.deep_view();
        let row = Tag { quote_id: id.clone(), tag: tags[i].clone() };
        let ghost added = StatementView::InsertTag(row@);
        script.push(Statement::InsertTag(row));
        assert(script.deep_view() =~= before.push(added));
        assert(script.deep_view() =~= head + tag_inserts(
            id@,
            tags.deep_view().take(i as int + 1),
        ));
        i += 1;
    }
    assert(tags.deep_view().take(i as int) =~= tags.deep_view());
}

impl WritePlan<QuoteWithTags> {
    /// The plan that stores the given quote with the given labels, all in
    /// one transaction, and returns the two together. Nothing has to exist
    /// beforehand.
    pub fn insert_quote(quote: Quote, tags: Vec<String>) -> (plan: WritePlan<QuoteWithTags>)
        ensures
            plan.id@ == quote.id@,
            plan.script.deep_view() == create_script(quote@, tags.deep_view()),
            plan.script.len() == tags.len() + 1,
            plan.guard is None,
            plan.value@ == (QuoteWithTagsView { quote: quote@, tags: tags.deep_view() }),
            plan.stage == Stage::Begin,
    {
        let mut script: Vec<Statement> = Vec::new();
        script.push(Statement::InsertQuote(quote.clone()));
        assert(script.deep_view() =~= seq![StatementView::InsertQuote(quote@)]);
        push_tag_inserts(&mut script, &quote.id, &tags);
        WritePlan {
            id: quote.id.clone(),
            script,
            guard: None,
            value: QuoteWithTags { quote, tags },
            stage: Stage::Begin,
        }
    }

    /// The plan that creates a quote from a writer's input: it draws a fresh
    /// id and stores the quote under it with the given labels.
    pub fn create_quote(input: QuoteInput, tags: Vec<String>) -> (plan: WritePlan<QuoteWithTags>)
        ensures
            crate::models::is_quote_id(plan.id@),
            plan.script.deep_view() == create_script(input@.with_id(plan.id@), tags.deep_view()),
            plan.script.len() == tags.len() + 1,
            plan.guard is None,
            plan.value@ == (QuoteWithTagsView {
                quote: input@.with_id(plan.id@),
                tags: tags.deep_view(),
            }),
            plan.stage == Stage::Begin,
    {
        WritePlan::insert_quote(Quote::from(input), tags)
    }

    /// The plan that replaces the fields and the whole label set of the
    /// quote with the given id, all in one transaction, and returns the quote
    /// as it then stands, under the same id. Where the update of the row
    /// changes none, the write fails with Not-Found before it touches a tag.
    pub fn update_quote(id: &str, input: QuoteInput, tags: Vec<String>) -> (plan: WritePlan<
        QuoteWithTags,
    >)
        ensures
            plan.id@ == id@,
            plan.script.deep_view() == update_script(id@, input@, tags.deep_view()),
            plan.script.len() == tags.len() + 2,
            plan.guard == Some(0usize),
            plan.value@ == (QuoteWithTagsView { quote: input@.with_id(id@), tags: tags.deep_view() }),
            plan.stage == Stage::Begin,
    {
        let id = String::from_str(id);
        let mut script: Vec<Statement> = Vec::new();
        script.push(Statement::UpdateQuote { id: id.clone(), input: input.clone() });
        script.push(Statement::DeleteTags { quote_id: id.clone() });
        assert(script.deep_view() =~= seq![
            StatementView::UpdateQuote { id: id@, input: input@ },
            StatementView::DeleteTags { quote_id: id@ },
        ]);
        push_tag_inserts(&mut script, &id, &tags);
        let quote = Quote {
            id: id.clone(),
            text: input.text,
            author: input.author,
            source: input.source,
        };
        WritePlan {
            id,
            script,
            guard: Some(0),
            value: QuoteWithTags { quote, tags },
            stage: Stage::Begin,
        }
    }
}

impl WritePlan<()> {
    /// The plan that removes the quote with the given id, all in one
    /// transaction: first its tag rows, then its own row. Where the removal
    /// of the row changes none, the write fails with Not-Found, whatever the
    /// removal of the tag rows changed.
    pub fn delete_quote(id: &str) -> (plan: WritePlan<()>)
        ensures
            plan.id@ == id@,
            plan.script.deep_view() == delete_script(id@),
            plan.script.len() == 2,
            plan.guard == Some(1usize),
            plan.stage == Stage::Begin,
    {
        let id = String::from_str(id);
        let mut script: Vec<Statement> = Vec::new();
        script.push(Statement::DeleteTags { quote_id: id.clone() });
        script.push(Statement::DeleteQuote { id: id.clone() });
        assert(script.deep_view() =~= delete_script(id@));
        WritePlan { id, script, guard: Some(1), value: (), stage: Stage::Begin }
    }
}

impl<T> WritePlan<T> {
    /// What the write asks of the store next: to open the transaction, to run
    /// the statement that is due, or, after the last statement, to commit.
    pub fn request(&self) -> (request: Request<'_>)
        ensures
            match self.stage {
                Stage::Begin => request is Begin,
                Stage::Run(done) => if done < self.script.len() {
                    request matches Request::Execute(statement) && *statement
                        == self.script[done as int]
                } else {
                    request is Commit
                },
            },
    {
        match self.stage {
            Stage::Begin => Request::Begin,
            Stage::Run(done) => {
                if done < self.script.len() {
                    Request::Execute(&self.script[done])
                } else {
                    Request::Commit
                }
            },
        }
    }

    /// Takes the store's reply to the request: the number of rows that a
    /// statement changed (of no meaning after the opening of the transaction
    /// and after the commit), or the store's failure.
    ///
    /// The write goes on to its next request, or it ends: with the store's
    /// failure; with Not-Found, where the guarded statement changed no row;
    /// or, after the commit, with its value. Where it ends with a failure
    /// the transaction is to be rolled back.
    pub fn on_reply(self, reply: Result<u64, String>) -> (step: Step<WritePlan<T>, T>)
        ensures
            match verdict(self.stage, self.script.len() as nat, self.guard, reply_view(reply)) {
                Verdict::Continue(stage) => step matches Step::Ask(next) && next.stage == stage
                    && next.id == self.id && next.script == self.script && next.guard
                    == self.guard && next.value == self.value,
                Verdict::NotFound => step matches Step::Done(Err(e)) && e@
                    == AppErrorView::not_found(self.id@),
                Verdict::StoreFailed(message) => step matches Step::Done(Err(e)) && e@
                    == AppErrorView::Database(message),
                Verdict::Committed => step matches Step::Done(Ok(value)) && value == self.value,
            },
    {
        match reply {
            Err(message) => Step::Done(Err(AppError::Database(message))),
            Ok(rows_affected) => match self.stage {
                Stage::Begin => Step::Ask(
                    WritePlan {
                        id: self.id,
                        script: self.script,
                        guard: self.guard,
                        value: self.value,
                        stage: Stage::Run(0),
                    },
                ),
                Stage::Run(done) => {
                    if done >= self.script.len() {
                        Step::Done(Ok(self.value))
                    } else if is_guard(self.guard, done) && rows_affected == 0 {
                        Step::Done(Err(AppError::not_found(self.id.as_str())))
                    } else {
                        Step::Ask(
                            WritePlan {
                                id: self.id,
                                script: self.script,
                                guard: self.guard,
                                value: self.value,
                                stage: Stage::Run(done + 1),
                            },
                        )
                    }
                },
            },
        }
    }
}

/// Whether the statement at `index` is the guarded one.
fn is_guard(guard: Option<usize>, index: usize) -> (yes: bool)
    ensures
        yes == (guard == Some(index)),
{
    match guard {
        Some(guarded) => guarded == index,
        None => false,
    }
}

} // verus!

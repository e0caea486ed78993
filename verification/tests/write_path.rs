use quote_server::error::AppError;
use quote_server::models::{Quote, QuoteInput, QuoteWithTags, Tag};
use quote_server::step::Step;
use quote_server::statement::Statement;
use quote_server::write_path::{Request, Stage, WritePlan};

fn input(text: &str) -> QuoteInput {
    QuoteInput { text: text.to_string(), author: "B".to_string(), source: "C".to_string() }
}

fn texts(values: &[&str]) -> Vec<String> {
    values.iter().map(|v| v.to_string()).collect()
}

fn row(quote_id: &str, tag: &str) -> Tag {
    Tag { quote_id: quote_id.to_string(), tag: tag.to_string() }
}

fn is_id(id: &str) -> bool {
    id.len() == 8 && id.chars().all(|c| c.is_ascii_digit() || ('a'..='f').contains(&c))
}

/// Runs the plan against a store that accepts everything and reports
/// `rows` changed rows for each statement. Returns the requests made, in
/// words, and the end of the write.
fn run<T>(mut plan: WritePlan<T>, rows: u64) -> (Vec<String>, Result<T, AppError>) {
    let mut log = Vec::new();
    loop {
        let reply = match plan.request() {
            Request::Begin => {
                log.push("begin".to_string());
                Ok(0)
            }
            Request::Execute(statement) => {
                log.push(format!("{} {:?}", statement.sql(), statement.binds()));
                Ok(rows)
            }
            Request::Commit => {
                log.push("commit".to_string());
                Ok(0)
            }
        };
        match plan.on_reply(reply) {
            Step::Ask(next) => plan = next,
            Step::Done(end) => return (log, end),
        }
    }
}

#[test]
fn statements_have_their_texts_and_binds() {
    let quote = Quote {
        id: "i".to_string(),
        text: "t".to_string(),
        author: "a".to_string(),
        source: "s".to_string(),
    };
    let insert = Statement::InsertQuote(quote);
    assert_eq!(insert.sql(), "INSERT INTO quotes (id, text, author, source) VALUES (?, ?, ?, ?)");
    assert_eq!(insert.binds(), texts(&["i", "t", "a", "s"]));
    let tag = Statement::InsertTag(row("i", "x"));
    assert_eq!(tag.sql(), "INSERT INTO tags (quote_id, tag) VALUES (?, ?)");
    assert_eq!(tag.binds(), texts(&["i", "x"]));
    let update = Statement::UpdateQuote { id: "i".to_string(), input: input("t2") };
    assert_eq!(update.sql(), "UPDATE quotes SET text = ?, author = ?, source = ? WHERE id = ?");
    assert_eq!(update.binds(), texts(&["t2", "B", "C", "i"]));
    let clear = Statement::DeleteTags { quote_id: "i".to_string() };
    assert_eq!(clear.sql(), "DELETE FROM tags WHERE quote_id = ?");
    assert_eq!(clear.binds(), texts(&["i"]));
    let delete = Statement::DeleteQuote { id: "i".to_string() };
    assert_eq!(delete.sql(), "DELETE FROM quotes WHERE id = ?");
    assert_eq!(delete.binds(), texts(&["i"]));
    assert_eq!(update.clone(), update);
}

#[test]
fn create_inserts_the_quote_and_then_each_tag() {
    let plan = WritePlan::create_quote(input("A"), texts(&["x", "y"]));
    assert!(is_id(&plan.id));
    assert_eq!(plan.stage, Stage::Begin);
    assert_eq!(plan.guard, None);
    let quote = Quote {
        id: plan.id.clone(),
        text: "A".to_string(),
        author: "B".to_string(),
        source: "C".to_string(),
    };
    assert_eq!(
        plan.script,
        vec![
            Statement::InsertQuote(quote.clone()),
            Statement::InsertTag(row(&plan.id, "x")),
            Statement::InsertTag(row(&plan.id, "y")),
        ]
    );
    assert_eq!(plan.value, QuoteWithTags { quote, tags: texts(&["x", "y"]) });
}

#[test]
fn insert_quote_keeps_the_given_id() {
    let quote = Quote::with_number(0x2a, "A".to_string(), "B".to_string(), "C".to_string());
    let plan = WritePlan::insert_quote(quote.clone(), Vec::new());
    assert_eq!(plan.id, "0000002a");
    assert_eq!(plan.script, vec![Statement::InsertQuote(quote.clone())]);
    assert_eq!(plan.value, QuoteWithTags { quote, tags: Vec::new() });
}

#[test]
fn update_replaces_the_row_then_all_tags() {
    let plan = WritePlan::update_quote("0000002a", input("A2"), texts(&["z"]));
    assert_eq!(plan.id, "0000002a");
    assert_eq!(plan.guard, Some(0));
    assert_eq!(
        plan.script,
        vec![
            Statement::UpdateQuote { id: "0000002a".to_string(), input: input("A2") },
            Statement::DeleteTags { quote_id: "0000002a".to_string() },
            Statement::InsertTag(row("0000002a", "z")),
        ]
    );
    assert_eq!(
        plan.value,
        QuoteWithTags {
            quote: Quote {
                id: "0000002a".to_string(),
                text: "A2".to_string(),
                author: "B".to_string(),
                source: "C".to_string(),
            },
            tags: texts(&["z"]),
        }
    );
}

#[test]
fn delete_removes_the_tags_before_the_quote() {
    let plan = WritePlan::delete_quote("0000002a");
    assert_eq!(plan.id, "0000002a");
    assert_eq!(plan.guard, Some(1));
    assert_eq!(
        plan.script,
        vec![
            Statement::DeleteTags { quote_id: "0000002a".to_string() },
            Statement::DeleteQuote { id: "0000002a".to_string() },
        ]
    );
}

#[test]
fn a_write_begins_runs_its_script_and_commits() {
    let plan = WritePlan::update_quote("q", input("A2"), texts(&["z", "w"]));
    let value = plan.value.clone();
    let (log, end) = run(plan, 1);
    assert_eq!(
        log,
        vec![
            "begin".to_string(),
            "UPDATE quotes SET text = ?, author = ?, source = ? WHERE id = ? \
             [\"A2\", \"B\", \"C\", \"q\"]"
                .to_string(),
            "DELETE FROM tags WHERE quote_id = ? [\"q\"]".to_string(),
            "INSERT INTO tags (quote_id, tag) VALUES (?, ?) [\"q\", \"z\"]".to_string(),
            "INSERT INTO tags (quote_id, tag) VALUES (?, ?) [\"q\", \"w\"]".to_string(),
            "commit".to_string(),
        ]
    );
    assert_eq!(end, Ok(value));
}

#[test]
fn update_that_changes_no_row_is_not_found_before_any_tag_is_touched() {
    let plan = WritePlan::update_quote("q", input("A2"), texts(&["z"]));
    let (log, end) = run(plan, 0);
    assert_eq!(log.len(), 2);
    assert_eq!(log[0], "begin");
    assert!(log[1].starts_with("UPDATE quotes"));
    assert_eq!(end, Err(AppError::NotFound("Quote with id q not found".to_string())));
}

#[test]
fn delete_that_changes_no_quote_row_is_not_found() {
    let (log, end) = run(WritePlan::delete_quote("q"), 0);
    assert_eq!(log.len(), 3);
    assert!(log[1].starts_with("DELETE FROM tags"));
    assert!(log[2].starts_with("DELETE FROM quotes"));
    assert_eq!(end, Err(AppError::NotFound("Quote with id q not found".to_string())));
}

#[test]
fn delete_counts_only_the_quote_row() {
    let plan = WritePlan::delete_quote("q");
    let plan = match plan.on_reply(Ok(0)) {
        Step::Ask(next) => next,
        Step::Done(_) => panic!("the script is still due"),
    };
    // the tag rows: three of them go
    let plan = match plan.on_reply(Ok(3)) {
        Step::Ask(next) => next,
        Step::Done(_) => panic!("the quote row is still due"),
    };
    assert_eq!(plan.stage, Stage::Run(1));
    // the quote row: none goes
    assert_eq!(
        plan.on_reply(Ok(0)),
        Step::Done(Err(AppError::NotFound("Quote with id q not found".to_string())))
    );
}

#[test]
fn delete_of_a_quote_without_tags_commits() {
    let plan = WritePlan::delete_quote("q");
    let plan = match plan.on_reply(Ok(0)) {
        Step::Ask(next) => next,
        Step::Done(_) => panic!("the script is still due"),
    };
    let plan = match plan.on_reply(Ok(0)) {
        Step::Ask(next) => next,
        Step::Done(_) => panic!("the quote row is still due"),
    };
    let plan = match plan.on_reply(Ok(1)) {
        Step::Ask(next) => next,
        Step::Done(_) => panic!("the commit is still due"),
    };
    assert_eq!(plan.request(), Request::Commit);
    assert_eq!(plan.on_reply(Ok(0)), Step::Done(Ok(())));
}

#[test]
fn create_needs_no_row_to_exist() {
    let plan = WritePlan::create_quote(input("A"), texts(&["x"]));
    let value = plan.value.clone();
    let (log, end) = run(plan, 1);
    assert_eq!(log.len(), 4);
    assert_eq!(end, Ok(value));
}

#[test]
fn a_failure_of_the_store_ends_the_write_at_once() {
    // at the opening of the transaction
    let plan = WritePlan::create_quote(input("A"), texts(&["x"]));
    assert_eq!(
        plan.on_reply(Err("pool timed out".to_string())),
        Step::Done(Err(AppError::Database("pool timed out".to_string())))
    );
    // at a statement
    let plan = WritePlan::create_quote(input("A"), texts(&["x"]));
    let plan = match plan.on_reply(Ok(0)) {
        Step::Ask(next) => next,
        Step::Done(_) => panic!("the script is still due"),
    };
    assert_eq!(
        plan.on_reply(Err("UNIQUE constraint failed: quotes.id".to_string())),
        Step::Done(Err(AppError::Database("UNIQUE constraint failed: quotes.id".to_string())))
    );
    // at the commit
    let mut plan = WritePlan::delete_quote("q");
    for _ in 0..3 {
        plan = match plan.on_reply(Ok(1)) {
            Step::Ask(next) => next,
            Step::Done(_) => panic!("the commit is still due"),
        };
    }
    assert_eq!(plan.request(), Request::Commit);
    assert_eq!(
        plan.on_reply(Err("disk full".to_string())),
        Step::Done(Err(AppError::Database("disk full".to_string())))
    );
}

#[test]
fn requests_follow_the_stage() {
    let plan = WritePlan::delete_quote("q");
    assert_eq!(plan.request(), Request::Begin);
    let plan = WritePlan { stage: Stage::Run(0), ..plan };
    assert_eq!(
        plan.request(),
        Request::Execute(&Statement::DeleteTags { quote_id: "q".to_string() })
    );
    let plan = WritePlan { stage: Stage::Run(1), ..plan };
    assert_eq!(plan.request(), Request::Execute(&Statement::DeleteQuote { id: "q".to_string() }));
    let plan = WritePlan { stage: Stage::Run(2), ..plan };
    assert_eq!(plan.request(), Request::Commit);
}

#[test]
fn every_statement_has_one_placeholder_for_each_bind() {
    let plans = [
        WritePlan::update_quote("q", input("A"), texts(&["x", "y"])).script,
        WritePlan::create_quote(input("A"), texts(&["x"])).script,
        WritePlan::delete_quote("q").script,
    ];
    for script in &plans {
        for statement in script {
            assert_eq!(statement.sql().matches('?').count(), statement.binds().len());
        }
    }
}

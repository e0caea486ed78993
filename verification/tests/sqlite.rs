//! The plans against a real store: SQLite in memory, reached through sqlx.

use quote_server::error::AppError;
use quote_server::models::{Quote, QuoteInput, QuoteWithTags, Tag};
use quote_server::query::{QuoteQuery, TagQuery};
use quote_server::read_path::{Listing, Lookup};
use quote_server::step::Step;
use quote_server::write_path::{Request, WritePlan};
use sqlx::sqlite::SqlitePoolOptions;
use sqlx::{Row, SqlitePool};

fn block_on<F: std::future::Future>(future: F) -> F::Output {
    tokio::runtime::Builder::new_current_thread().enable_all().build().unwrap().block_on(future)
}

async fn open() -> SqlitePool {
    let pool = SqlitePoolOptions::new().max_connections(1).connect("sqlite::memory:").await.unwrap();
    sqlx::query(
        "CREATE TABLE quotes (id TEXT PRIMARY KEY NOT NULL, text TEXT NOT NULL, \
         author TEXT NOT NULL, source TEXT NOT NULL)",
    )
    .execute(&pool)
    .await
    .unwrap();
    sqlx::query("CREATE TABLE tags (quote_id TEXT NOT NULL REFERENCES quotes(id), tag TEXT NOT NULL)")
        .execute(&pool)
        .await
        .unwrap();
    pool
}

async fn fetch_quotes(pool: &SqlitePool, query: &QuoteQuery) -> Result<Vec<Quote>, String> {
    let sql = query.sql();
    let mut statement = sqlx::query(&sql);
    for bind in query.binds() {
        statement = statement.bind(bind);
    }
    let rows = statement.fetch_all(pool).await.map_err(|e| e.to_string())?;
    Ok(rows
        .iter()
        .map(|row| Quote {
            id: row.get("id"),
            text: row.get("text"),
            author: row.get("author"),
            source: row.get("source"),
        })
        .collect())
}

async fn fetch_tags(pool: &SqlitePool, query: &TagQuery) -> Result<Vec<Tag>, String> {
    let sql = query.sql();
    let mut statement = sqlx::query(&sql);
    for bind in query.binds() {
        statement = statement.bind(bind);
    }
    let rows = statement.fetch_all(pool).await.map_err(|e| e.to_string())?;
    Ok(rows.iter().map(|row| Tag { quote_id: row.get("quote_id"), tag: row.get("tag") }).collect())
}

async fn lookup(pool: &SqlitePool, id: &str) -> Result<QuoteWithTags, AppError> {
    let plan = Lookup::get_quote_by_id(id);
    let reply = fetch_quotes(pool, &plan.query()).await.map(|rows| rows.into_iter().next());
    match plan.on_quote(reply) {
        Step::Done(end) => end,
        Step::Ask(stage) => {
            let reply = fetch_tags(pool, stage.query()).await;
            stage.on_tags(reply)
        }
    }
}

async fn list(pool: &SqlitePool, plan: Listing) -> Result<Vec<QuoteWithTags>, AppError> {
    let reply = fetch_quotes(pool, plan.query()).await;
    match plan.on_quotes(reply) {
        Step::Done(end) => end,
        Step::Ask(stage) => {
            let reply = fetch_tags(pool, stage.query()).await;
            stage.on_tags(reply)
        }
    }
}

async fn write<T>(pool: &SqlitePool, mut plan: WritePlan<T>) -> Result<T, AppError> {
    let mut open = None;
    loop {
        let reply = match plan.request() {
            Request::Begin => match pool.begin().await {
                Ok(transaction) => {
                    open = Some(transaction);
                    Ok(0)
                }
                Err(e) => Err(e.to_string()),
            },
            Request::Execute(statement) => {
                let mut query = sqlx::query(statement.sql());
                for bind in statement.binds() {
                    query = query.bind(bind);
                }
                match open.as_mut() {
                    Some(transaction) => query
                        .execute(&mut **transaction)
                        .await
                        .map(|done| done.rows_affected())
                        .map_err(|e| e.to_string()),
                    None => Err("no transaction is open".to_string()),
                }
            }
            Request::Commit => match open.take() {
                Some(transaction) => transaction.commit().await.map(|_| 0).map_err(|e| e.to_string()),
                None => Err("no transaction is open".to_string()),
            },
        };
        match plan.on_reply(reply) {
            Step::Ask(next) => plan = next,
            Step::Done(end) => {
                if let Some(transaction) = open.take() {
                    transaction.rollback().await.unwrap();
                }
                return end;
            }
        }
    }
}

async fn all_tag_rows(pool: &SqlitePool) -> Vec<(String, String)> {
    sqlx::query("SELECT quote_id, tag FROM tags ORDER BY quote_id, tag")
        .fetch_all(pool)
        .await
        .unwrap()
        .iter()
        .map(|row| (row.get(0), row.get(1)))
        .collect()
}

fn input(text: &str, author: &str, source: &str) -> QuoteInput {
    QuoteInput { text: text.to_string(), author: author.to_string(), source: source.to_string() }
}

fn texts(values: &[&str]) -> Vec<String> {
    values.iter().map(|v| v.to_string()).collect()
}

fn not_found(id: &str) -> AppError {
    AppError::NotFound(format!("Quote with id {} not found", id))
}

async fn sample(pool: &SqlitePool) -> Vec<QuoteWithTags> {
    let mut made = Vec::new();
    for (text, author, source, tags) in [
        ("The only thing we have to fear is fear itself", "Franklin D. Roosevelt", "Inaugural", vec!["courage", "x"]),
        ("Well done is better than well said", "Benjamin Franklin", "Almanack", vec!["x"]),
        ("An investment in knowledge pays the best interest", "Benjamin Franklin", "", vec![]),
        ("I think, therefore I am", "Descartes", "Discourse", vec!["mind"]),
    ] {
        made.push(
            write(pool, WritePlan::create_quote(input(text, author, source), texts(&tags)))
                .await
                .unwrap(),
        );
    }
    made
}

#[test]
fn created_quote_is_read_back_as_created() {
    block_on(async {
        let pool = open().await;
        let created =
            write(&pool, WritePlan::create_quote(input("A", "B", "C"), texts(&["x", "y"])))
                .await
                .unwrap();
        assert_eq!(lookup(&pool, &created.quote.id).await, Ok(created));
    });
}

#[test]
fn labels_are_read_back_in_ascending_order() {
    block_on(async {
        let pool = open().await;
        let created =
            write(&pool, WritePlan::create_quote(input("A", "B", "C"), texts(&["y", "x", "z", "x"])))
                .await
                .unwrap();
        assert_eq!(created.tags, texts(&["y", "x", "z", "x"]));
        let read = lookup(&pool, &created.quote.id).await.unwrap();
        assert_eq!(read.quote, created.quote);
        assert_eq!(read.tags, texts(&["x", "x", "y", "z"]));
    });
}

#[test]
fn missing_id_is_not_found_and_nothing_changes() {
    block_on(async {
        let pool = open().await;
        let made = sample(&pool).await;
        let before = list(&pool, Listing::get_all_quotes()).await.unwrap();
        let rows_before = all_tag_rows(&pool).await;
        assert_eq!(before.len(), made.len());
        assert_eq!(lookup(&pool, "nobody00").await, Err(not_found("nobody00")));
        assert_eq!(
            write(&pool, WritePlan::update_quote("nobody00", input("t", "a", "s"), texts(&["q"])))
                .await,
            Err(not_found("nobody00"))
        );
        assert_eq!(write(&pool, WritePlan::delete_quote("nobody00")).await, Err(not_found("nobody00")));
        assert_eq!(list(&pool, Listing::get_all_quotes()).await.unwrap(), before);
        assert_eq!(all_tag_rows(&pool).await, rows_before);
    });
}

#[test]
fn update_replaces_fields_and_the_whole_label_set() {
    block_on(async {
        let pool = open().await;
        let created =
            write(&pool, WritePlan::create_quote(input("A", "B", "C"), texts(&["a", "b"])))
                .await
                .unwrap();
        let id = created.quote.id.clone();
        let updated =
            write(&pool, WritePlan::update_quote(&id, input("A2", "B2", "C2"), texts(&["c"])))
                .await
                .unwrap();
        let expected = QuoteWithTags {
            quote: Quote {
                id: id.clone(),
                text: "A2".to_string(),
                author: "B2".to_string(),
                source: "C2".to_string(),
            },
            tags: texts(&["c"]),
        };
        assert_eq!(updated, expected);
        assert_eq!(lookup(&pool, &id).await, Ok(expected));
        assert_eq!(all_tag_rows(&pool).await, vec![(id, "c".to_string())]);
    });
}

#[test]
fn repeated_update_changes_nothing_more() {
    block_on(async {
        let pool = open().await;
        let made = sample(&pool).await;
        let id = made[1].quote.id.clone();
        let first = write(&pool, WritePlan::update_quote(&id, input("t", "a", "s"), texts(&["p", "q"])))
            .await
            .unwrap();
        let listed = list(&pool, Listing::get_all_quotes()).await.unwrap();
        let rows = all_tag_rows(&pool).await;
        let second = write(&pool, WritePlan::update_quote(&id, input("t", "a", "s"), texts(&["p", "q"])))
            .await
            .unwrap();
        assert_eq!(second, first);
        assert_eq!(list(&pool, Listing::get_all_quotes()).await.unwrap(), listed);
        assert_eq!(all_tag_rows(&pool).await, rows);
    });
}

#[test]
fn update_leaves_other_quotes_alone() {
    block_on(async {
        let pool = open().await;
        let made = sample(&pool).await;
        write(&pool, WritePlan::update_quote(&made[0].quote.id, input("t", "a", "s"), Vec::new()))
            .await
            .unwrap();
        for other in &made[1..] {
            let mut expected = other.clone();
            expected.tags.sort();
            assert_eq!(lookup(&pool, &other.quote.id).await, Ok(expected));
        }
    });
}

#[test]
fn deleted_quote_is_gone_with_its_tag_rows() {
    block_on(async {
        let pool = open().await;
        let made = sample(&pool).await;
        let id = made[0].quote.id.clone();
        assert_eq!(write(&pool, WritePlan::delete_quote(&id)).await, Ok(()));
        assert_eq!(lookup(&pool, &id).await, Err(not_found(&id)));
        assert!(all_tag_rows(&pool).await.iter().all(|(quote_id, _)| *quote_id != id));
        assert_eq!(list(&pool, Listing::get_all_quotes()).await.unwrap().len(), made.len() - 1);
        assert_eq!(write(&pool, WritePlan::delete_quote(&id)).await, Err(not_found(&id)));
    });
}

#[test]
fn search_by_tag_returns_only_quotes_with_the_tag() {
    block_on(async {
        let pool = open().await;
        sample(&pool).await;
        let found = list(&pool, Listing::search_quotes(None, Some("x"), None)).await.unwrap();
        assert_eq!(found.len(), 2);
        assert!(found.iter().all(|entry| entry.tags.contains(&"x".to_string())));
        assert_eq!(found[0].quote.author, "Benjamin Franklin");
        assert_eq!(found[1].quote.author, "Franklin D. Roosevelt");
        assert_eq!(found[1].tags, texts(&["courage", "x"]));
        let none = list(&pool, Listing::search_quotes(None, Some("cour"), None)).await.unwrap();
        assert_eq!(none, Vec::new());
    });
}

#[test]
fn search_by_author_returns_only_quotes_whose_author_contains_the_text() {
    block_on(async {
        let pool = open().await;
        sample(&pool).await;
        let found = list(&pool, Listing::search_quotes(Some("Fra"), None, None)).await.unwrap();
        assert_eq!(found.len(), 3);
        assert!(found.iter().all(|entry| entry.quote.author.contains("Fra")));
        assert!(found.iter().any(|entry| entry.quote.author == "Franklin D. Roosevelt"));
        let found = list(&pool, Listing::search_quotes(Some("Roosevelt"), None, None)).await.unwrap();
        assert_eq!(found.len(), 1);
    });
}

#[test]
fn search_by_free_text_looks_into_text_author_and_source() {
    block_on(async {
        let pool = open().await;
        sample(&pool).await;
        let by_text = list(&pool, Listing::search_quotes(None, None, Some("fear"))).await.unwrap();
        assert_eq!(by_text.len(), 1);
        let by_author = list(&pool, Listing::search_quotes(None, None, Some("Descartes"))).await.unwrap();
        assert_eq!(by_author.len(), 1);
        let by_source = list(&pool, Listing::search_quotes(None, None, Some("Almanack"))).await.unwrap();
        assert_eq!(by_source.len(), 1);
        assert_eq!(by_source[0].quote.author, "Benjamin Franklin");
    });
}

#[test]
fn pattern_match_ignores_the_case_of_letters_and_reads_wildcards() {
    block_on(async {
        let pool = open().await;
        sample(&pool).await;
        let exact = list(&pool, Listing::search_quotes(Some("Fra"), None, None)).await.unwrap();
        let lower = list(&pool, Listing::search_quotes(Some("fra"), None, None)).await.unwrap();
        let upper = list(&pool, Listing::search_quotes(Some("FRA"), None, None)).await.unwrap();
        assert_eq!(exact.len(), 3);
        assert_eq!(lower, exact);
        assert_eq!(upper, exact);
        let one = list(&pool, Listing::search_quotes(Some("F_ank"), None, None)).await.unwrap();
        assert_eq!(one, exact);
        let run = list(&pool, Listing::search_quotes(Some("B%n"), None, None)).await.unwrap();
        assert_eq!(run.len(), 2);
        assert!(run.iter().all(|entry| entry.quote.author == "Benjamin Franklin"));
        let tag = list(&pool, Listing::search_quotes(None, Some("X"), None)).await.unwrap();
        assert_eq!(tag, Vec::new());
    });
}

#[test]
fn empty_filter_matches_every_quote() {
    block_on(async {
        let pool = open().await;
        let made = sample(&pool).await;
        let found = list(&pool, Listing::search_quotes(Some(""), None, Some(""))).await.unwrap();
        assert_eq!(found.len(), made.len());
    });
}

#[test]
fn filters_together_return_the_intersection() {
    block_on(async {
        let pool = open().await;
        sample(&pool).await;
        let by_author = list(&pool, Listing::search_quotes(Some("Benjamin"), None, None)).await.unwrap();
        let by_tag = list(&pool, Listing::search_quotes(None, Some("x"), None)).await.unwrap();
        let both = list(&pool, Listing::search_quotes(Some("Benjamin"), Some("x"), None)).await.unwrap();
        let expected: Vec<QuoteWithTags> =
            by_author.iter().filter(|entry| by_tag.contains(entry)).cloned().collect();
        assert_eq!(both, expected);
        assert_eq!(both.len(), 1);
        assert_eq!(both[0].quote.text, "Well done is better than well said");
        let all_three = list(&pool, Listing::search_quotes(Some("Fra"), Some("x"), Some("fear")))
            .await
            .unwrap();
        assert_eq!(all_three.len(), 1);
        assert_eq!(all_three[0].quote.author, "Franklin D. Roosevelt");
    });
}

#[test]
fn list_and_unfiltered_search_agree_and_are_ordered() {
    block_on(async {
        let pool = open().await;
        let made = sample(&pool).await;
        let listed = list(&pool, Listing::get_all_quotes()).await.unwrap();
        let found = list(&pool, Listing::search_quotes(None, None, None)).await.unwrap();
        assert_eq!(listed, found);
        assert_eq!(listed.len(), made.len());
        let keys: Vec<(&str, &str)> = listed
            .iter()
            .map(|entry| (entry.quote.author.as_str(), entry.quote.text.as_str()))
            .collect();
        let mut sorted = keys.clone();
        sorted.sort();
        assert_eq!(keys, sorted);
        assert_eq!(keys[0], ("Benjamin Franklin", "An investment in knowledge pays the best interest"));
        assert_eq!(keys[3].0, "Franklin D. Roosevelt");
    });
}

#[test]
fn quote_matched_by_a_tag_search_is_returned_once_with_all_its_labels() {
    block_on(async {
        let pool = open().await;
        let created =
            write(&pool, WritePlan::create_quote(input("A", "B", "C"), texts(&["x", "x", "y"])))
                .await
                .unwrap();
        let found = list(&pool, Listing::search_quotes(None, Some("x"), None)).await.unwrap();
        assert_eq!(found.len(), 1);
        assert_eq!(found[0].quote, created.quote);
        assert_eq!(found[0].tags, texts(&["x", "x", "y"]));
    });
}

#[test]
fn empty_store_lists_nothing() {
    block_on(async {
        let pool = open().await;
        assert_eq!(list(&pool, Listing::get_all_quotes()).await, Ok(Vec::new()));
        assert_eq!(list(&pool, Listing::search_quotes(Some("a"), Some("b"), Some("c"))).await, Ok(Vec::new()));
    });
}

#[test]
fn colliding_id_fails_and_leaves_nothing_behind() {
    block_on(async {
        let pool = open().await;
        let first = Quote::with_number(7, "A".to_string(), "B".to_string(), "C".to_string());
        write(&pool, WritePlan::insert_quote(first.clone(), texts(&["x"]))).await.unwrap();
        let second = Quote::with_number(7, "other".to_string(), "B".to_string(), "C".to_string());
        let end = write(&pool, WritePlan::insert_quote(second, texts(&["y"]))).await;
        assert!(matches!(end, Err(AppError::Database(_))));
        assert_eq!(
            lookup(&pool, "00000007").await,
            Ok(QuoteWithTags { quote: first, tags: texts(&["x"]) })
        );
        assert_eq!(all_tag_rows(&pool).await.len(), 1);
    });
}

#[test]
fn failed_update_is_rolled_back() {
    block_on(async {
        let pool = open().await;
        let created =
            write(&pool, WritePlan::create_quote(input("A", "B", "C"), texts(&["a", "b"])))
                .await
                .unwrap();
        // a script whose last statement the store refuses: a tag row for a quote that is not there
        let mut plan =
            WritePlan::update_quote(&created.quote.id, input("A2", "B2", "C2"), texts(&["c"]));
        plan.script.push(quote_server::statement::Statement::InsertTag(Tag {
            quote_id: "nobody00".to_string(),
            tag: "d".to_string(),
        }));
        let end = write(&pool, plan).await;
        assert!(matches!(end, Err(AppError::Database(_))));
        assert_eq!(lookup(&pool, &created.quote.id).await, Ok(created));
    });
}

#[test]
fn failure_of_the_store_is_passed_on() {
    block_on(async {
        let pool = SqlitePoolOptions::new().max_connections(1).connect("sqlite::memory:").await.unwrap();
        // no tables
        let listed = list(&pool, Listing::get_all_quotes()).await;
        assert!(matches!(listed, Err(AppError::Database(ref words)) if words.contains("no such table")));
        let looked = lookup(&pool, "00000001").await;
        assert!(matches!(looked, Err(AppError::Database(_))));
        let written = write(&pool, WritePlan::delete_quote("00000001")).await;
        assert!(matches!(written, Err(AppError::Database(_))));
    });
}

#[test]
fn create_update_delete_scenario() {
    block_on(async {
        let pool = open().await;
        let created =
            write(&pool, WritePlan::create_quote(input("A", "B", "C"), texts(&["x", "y"])))
                .await
                .unwrap();
        let id = created.quote.id.clone();
        assert_eq!(id.len(), 8);
        assert!(id.chars().all(|c| c.is_ascii_digit() || ('a'..='f').contains(&c)));
        assert_eq!(
            created,
            QuoteWithTags {
                quote: Quote {
                    id: id.clone(),
                    text: "A".to_string(),
                    author: "B".to_string(),
                    source: "C".to_string(),
                },
                tags: texts(&["x", "y"]),
            }
        );
        let updated = write(&pool, WritePlan::update_quote(&id, input("A2", "B", "C"), texts(&["z"])))
            .await
            .unwrap();
        assert_eq!(
            updated,
            QuoteWithTags {
                quote: Quote {
                    id: id.clone(),
                    text: "A2".to_string(),
                    author: "B".to_string(),
                    source: "C".to_string(),
                },
                tags: texts(&["z"]),
            }
        );
        assert_eq!(lookup(&pool, &id).await, Ok(updated));
        assert_eq!(write(&pool, WritePlan::delete_quote(&id)).await, Ok(()));
        assert_eq!(lookup(&pool, &id).await, Err(not_found(&id)));
    });
}

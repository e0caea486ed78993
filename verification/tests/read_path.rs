use quote_server::error::AppError;
use quote_server::models::{Quote, QuoteWithTags, Tag};
use quote_server::query::{QuoteQuery, SearchQuery, TagQuery};
use quote_server::read_path::{Listing, Lookup};
use quote_server::step::Step;

fn quote(id: &str, author: &str, text: &str) -> Quote {
    Quote {
        id: id.to_string(),
        text: text.to_string(),
        author: author.to_string(),
        source: "src".to_string(),
    }
}

fn row(quote_id: &str, tag: &str) -> Tag {
    Tag { quote_id: quote_id.to_string(), tag: tag.to_string() }
}

fn texts(values: &[&str]) -> Vec<String> {
    values.iter().map(|v| v.to_string()).collect()
}

#[test]
fn lookup_asks_for_the_quote_by_its_id() {
    let plan = Lookup::get_quote_by_id("0000002a");
    assert_eq!(plan.id, "0000002a");
    assert_eq!(plan.query(), QuoteQuery::ById("0000002a".to_string()));
}

#[test]
fn lookup_of_a_missing_quote_is_not_found() {
    let plan = Lookup::get_quote_by_id("0000002a");
    assert_eq!(
        plan.on_quote(Ok(None)),
        Step::Done(Err(AppError::NotFound("Quote with id 0000002a not found".to_string())))
    );
}

#[test]
fn lookup_passes_on_the_failure_of_the_store() {
    let plan = Lookup::get_quote_by_id("0000002a");
    assert_eq!(
        plan.on_quote(Err("disk full".to_string())),
        Step::Done(Err(AppError::Database("disk full".to_string())))
    );
    let plan = Lookup::get_quote_by_id("0000002a");
    match plan.on_quote(Ok(Some(quote("0000002a", "A", "T")))) {
        Step::Ask(stage) => assert_eq!(
            stage.on_tags(Err("locked".to_string())),
            Err(AppError::Database("locked".to_string()))
        ),
        Step::Done(_) => panic!("the tags are still due"),
    }
}

#[test]
fn lookup_of_a_quote_asks_for_its_tags_and_returns_both() {
    let found = quote("0000002a", "A", "T");
    let plan = Lookup::get_quote_by_id("0000002a");
    match plan.on_quote(Ok(Some(found.clone()))) {
        Step::Ask(stage) => {
            assert_eq!(stage.query(), &TagQuery { ids: texts(&["0000002a"]) });
            let rows = vec![row("0000002a", "x"), row("0000002a", "y")];
            assert_eq!(
                stage.on_tags(Ok(rows)),
                Ok(QuoteWithTags { quote: found, tags: texts(&["x", "y"]) })
            );
        }
        Step::Done(_) => panic!("the tags are still due"),
    }
}

#[test]
fn lookup_of_a_quote_without_tags_returns_no_labels() {
    let found = quote("0000002a", "A", "T");
    match Lookup::get_quote_by_id("0000002a").on_quote(Ok(Some(found.clone()))) {
        Step::Ask(stage) => {
            assert_eq!(stage.on_tags(Ok(Vec::new())), Ok(QuoteWithTags { quote: found, tags: Vec::new() }))
        }
        Step::Done(_) => panic!("the tags are still due"),
    }
}

#[test]
fn listing_of_all_quotes_asks_for_every_quote() {
    let plan = Listing::get_all_quotes();
    assert_eq!(plan.query(), &QuoteQuery::All);
}

#[test]
fn listing_of_a_search_asks_for_the_composed_search() {
    let plan = Listing::search_quotes(Some("Fra"), Some("x"), None);
    assert_eq!(plan.query(), &QuoteQuery::Search(SearchQuery::new(Some("Fra"), Some("x"), None)));
}

#[test]
fn listing_without_rows_ends_without_a_tag_query() {
    assert_eq!(Listing::get_all_quotes().on_quotes(Ok(Vec::new())), Step::Done(Ok(Vec::new())));
    assert_eq!(
        Listing::search_quotes(None, Some("x"), None).on_quotes(Ok(Vec::new())),
        Step::Done(Ok(Vec::new()))
    );
}

#[test]
fn listing_passes_on_the_failure_of_the_store() {
    assert_eq!(
        Listing::get_all_quotes().on_quotes(Err("no such table: quotes".to_string())),
        Step::Done(Err(AppError::Database("no such table: quotes".to_string())))
    );
    match Listing::get_all_quotes().on_quotes(Ok(vec![quote("1", "A", "T")])) {
        Step::Ask(stage) => assert_eq!(
            stage.on_tags(Err("locked".to_string())),
            Err(AppError::Database("locked".to_string()))
        ),
        Step::Done(_) => panic!("the tags are still due"),
    }
}

#[test]
fn listing_asks_once_for_the_tags_of_all_quotes_and_keeps_their_order() {
    let quotes = vec![quote("7", "Adams", "b"), quote("3", "Baker", "a"), quote("5", "Baker", "c")];
    match Listing::get_all_quotes().on_quotes(Ok(quotes.clone())) {
        Step::Ask(stage) => {
            assert_eq!(stage.query(), &TagQuery { ids: texts(&["7", "3", "5"]) });
            let rows = vec![row("3", "x"), row("3", "y"), row("7", "z")];
            assert_eq!(
                stage.on_tags(Ok(rows)),
                Ok(vec![
                    QuoteWithTags { quote: quotes[0].clone(), tags: texts(&["z"]) },
                    QuoteWithTags { quote: quotes[1].clone(), tags: texts(&["x", "y"]) },
                    QuoteWithTags { quote: quotes[2].clone(), tags: Vec::new() },
                ])
            );
        }
        Step::Done(_) => panic!("the tags are still due"),
    }
}

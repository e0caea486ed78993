use quote_server::models::{QuoteInput, Tag};
use quote_server::query::{QuoteQuery, SearchQuery};
use quote_server::routes::{create_quote, search_quotes, update_quote, CreateQuoteRequest, SearchParams};
use quote_server::statement::Statement;

fn input() -> QuoteInput {
    QuoteInput { text: "A".to_string(), author: "B".to_string(), source: "C".to_string() }
}

#[test]
fn absent_tags_default_to_none() {
    let request = CreateQuoteRequest { quote: input(), tags: None };
    assert_eq!(request.into_parts(), (input(), Vec::new()));
    let request = CreateQuoteRequest { quote: input(), tags: Some(vec!["x".to_string()]) };
    assert_eq!(request.into_parts(), (input(), vec!["x".to_string()]));
}

#[test]
fn search_request_uses_the_filters_that_are_present() {
    let params = SearchParams { author: Some("Fra".to_string()), tag: None, search: None };
    assert_eq!(
        search_quotes(&params).query,
        QuoteQuery::Search(SearchQuery::new(Some("Fra"), None, None))
    );
    let params = SearchParams {
        author: None,
        tag: Some("x".to_string()),
        search: Some("fear".to_string()),
    };
    assert_eq!(
        search_quotes(&params).query,
        QuoteQuery::Search(SearchQuery::new(None, Some("x"), Some("fear")))
    );
    let params = SearchParams { author: None, tag: None, search: None };
    assert_eq!(search_quotes(&params).query, QuoteQuery::Search(SearchQuery::new(None, None, None)));
}

#[test]
fn create_request_without_tags_inserts_the_quote_alone() {
    let plan = create_quote(CreateQuoteRequest { quote: input(), tags: None });
    assert_eq!(plan.script.len(), 1);
    assert_eq!(plan.value.tags, Vec::<String>::new());
    assert_eq!(plan.value.quote.text, "A");
}

#[test]
fn update_request_replaces_fields_and_tags() {
    let plan = update_quote(
        "0000002a",
        CreateQuoteRequest { quote: input(), tags: Some(vec!["z".to_string()]) },
    );
    assert_eq!(
        plan.script,
        vec![
            Statement::UpdateQuote { id: "0000002a".to_string(), input: input() },
            Statement::DeleteTags { quote_id: "0000002a".to_string() },
            Statement::InsertTag(Tag { quote_id: "0000002a".to_string(), tag: "z".to_string() }),
        ]
    );
    let plan = update_quote("0000002a", CreateQuoteRequest { quote: input(), tags: None });
    assert_eq!(plan.script.len(), 2);
}

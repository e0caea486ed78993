use quote_server::query::{wrap, Clause, Predicate, QuoteQuery, SearchQuery, TagQuery};

const SELECT: &str = "SELECT DISTINCT q.id, q.text, q.author, q.source FROM quotes q";
const JOIN: &str = " LEFT JOIN tags t ON q.id = t.quote_id";
const ORDER: &str = " ORDER BY q.author, q.text";

fn texts(values: &[&str]) -> Vec<String> {
    values.iter().map(|v| v.to_string()).collect()
}

#[test]
fn search_without_filters_has_no_join_and_no_condition() {
    let query = SearchQuery::new(None, None, None);
    assert!(query.predicates.is_empty());
    assert!(!query.joins_tags());
    assert_eq!(query.sql(), format!("{}{}", SELECT, ORDER));
    assert_eq!(query.binds(), Vec::<String>::new());
}

#[test]
fn author_filter_is_a_wrapped_pattern() {
    let query = SearchQuery::new(Some("Fra"), None, None);
    assert_eq!(
        query.predicates,
        vec![Predicate { clause: Clause::AuthorLike, value: "Fra".to_string() }]
    );
    assert!(!query.joins_tags());
    assert_eq!(query.sql(), format!("{} WHERE q.author LIKE ?{}", SELECT, ORDER));
    assert_eq!(query.binds(), texts(&["%Fra%"]));
}

#[test]
fn tag_filter_joins_the_tag_table_and_binds_the_exact_value() {
    let query = SearchQuery::new(None, Some("x"), None);
    assert!(query.joins_tags());
    assert_eq!(query.sql(), format!("{}{} WHERE t.tag = ?{}", SELECT, JOIN, ORDER));
    assert_eq!(query.binds(), texts(&["x"]));
}

#[test]
fn free_text_filter_binds_its_pattern_three_times() {
    let query = SearchQuery::new(None, None, Some("fear"));
    assert!(!query.joins_tags());
    assert_eq!(
        query.sql(),
        format!(
            "{} WHERE (q.text LIKE ? OR q.author LIKE ? OR q.source LIKE ?){}",
            SELECT, ORDER
        )
    );
    assert_eq!(query.binds(), texts(&["%fear%", "%fear%", "%fear%"]));
}

#[test]
fn all_filters_combine_with_and_in_a_fixed_order() {
    let query = SearchQuery::new(Some("a"), Some("t"), Some("s"));
    assert_eq!(
        query.sql(),
        format!(
            "{}{} WHERE q.author LIKE ? AND t.tag = ? AND \
             (q.text LIKE ? OR q.author LIKE ? OR q.source LIKE ?){}",
            SELECT, JOIN, ORDER
        )
    );
    assert_eq!(query.binds(), texts(&["%a%", "t", "%s%", "%s%", "%s%"]));
}

#[test]
fn two_filters_combine_with_one_and() {
    let query = SearchQuery::new(Some("a"), None, Some("s"));
    assert_eq!(
        query.sql(),
        format!(
            "{} WHERE q.author LIKE ? AND (q.text LIKE ? OR q.author LIKE ? OR q.source LIKE ?){}",
            SELECT, ORDER
        )
    );
    assert_eq!(query.binds(), texts(&["%a%", "%s%", "%s%", "%s%"]));
    let query = SearchQuery::new(None, Some("t"), Some("s"));
    assert_eq!(
        query.sql(),
        format!(
            "{}{} WHERE t.tag = ? AND (q.text LIKE ? OR q.author LIKE ? OR q.source LIKE ?){}",
            SELECT, JOIN, ORDER
        )
    );
    assert_eq!(query.binds(), texts(&["t", "%s%", "%s%", "%s%"]));
}

#[test]
fn filter_values_never_enter_the_text() {
    let hostile = "x'; DROP TABLE quotes; --";
    let plain = SearchQuery::new(Some("a"), Some("b"), Some("c"));
    let query = SearchQuery::new(Some(hostile), Some(hostile), Some(hostile));
    assert_eq!(query.sql(), plain.sql());
    assert!(!query.sql().contains("DROP"));
    assert_eq!(query.binds().len(), 5);
    assert_eq!(query.binds()[1], hostile);
    assert_eq!(query.binds()[0], format!("%{}%", hostile));
}

#[test]
fn text_has_one_placeholder_for_each_bind() {
    for author in [None, Some("a")] {
        for tag in [None, Some("t")] {
            for search in [None, Some("s")] {
                let query = SearchQuery::new(author, tag, search);
                let marks = query.sql().matches('?').count();
                assert_eq!(marks, query.binds().len());
            }
        }
    }
}

#[test]
fn clause_texts() {
    assert_eq!(Clause::AuthorLike.sql(), "q.author LIKE ?");
    assert_eq!(Clause::TagEquals.sql(), "t.tag = ?");
    assert_eq!(
        Clause::AnyFieldLike.sql(),
        "(q.text LIKE ? OR q.author LIKE ? OR q.source LIKE ?)"
    );
}

#[test]
fn wrap_puts_the_value_between_wildcards() {
    assert_eq!(wrap("Fra"), "%Fra%");
    assert_eq!(wrap(""), "%%");
    assert_eq!(wrap("50%"), "%50%%");
}

#[test]
fn quote_queries_have_their_texts_and_binds() {
    assert_eq!(
        QuoteQuery::All.sql(),
        "SELECT id, text, author, source FROM quotes ORDER BY author, text"
    );
    assert_eq!(QuoteQuery::All.binds(), Vec::<String>::new());
    let by_id = QuoteQuery::ById("0000002a".to_string());
    assert_eq!(by_id.sql(), "SELECT id, text, author, source FROM quotes WHERE id = ?");
    assert_eq!(by_id.binds(), texts(&["0000002a"]));
    let search = QuoteQuery::Search(SearchQuery::new(Some("a"), None, None));
    assert_eq!(search.sql(), format!("{} WHERE q.author LIKE ?{}", SELECT, ORDER));
    assert_eq!(search.binds(), texts(&["%a%"]));
}

#[test]
fn tag_query_has_one_placeholder_for_each_id() {
    let one = TagQuery { ids: texts(&["a"]) };
    assert_eq!(
        one.sql(),
        "SELECT quote_id, tag FROM tags WHERE quote_id IN (?) ORDER BY quote_id, tag"
    );
    assert_eq!(one.binds(), texts(&["a"]));
    let three = TagQuery { ids: texts(&["a", "b", "c"]) };
    assert_eq!(
        three.sql(),
        "SELECT quote_id, tag FROM tags WHERE quote_id IN (?,?,?) ORDER BY quote_id, tag"
    );
    assert_eq!(three.binds(), texts(&["a", "b", "c"]));
    let none = TagQuery { ids: Vec::new() };
    assert_eq!(
        none.sql(),
        "SELECT quote_id, tag FROM tags WHERE quote_id IN () ORDER BY quote_id, tag"
    );
    assert_eq!(none.binds(), Vec::<String>::new());
}

#[test]
fn every_read_has_one_placeholder_for_each_bind() {
    let reads = [
        QuoteQuery::All,
        QuoteQuery::ById("0000002a".to_string()),
        QuoteQuery::Search(SearchQuery::new(Some("a"), Some("t"), Some("s"))),
    ];
    for read in &reads {
        assert_eq!(read.sql().matches('?').count(), read.binds().len());
    }
    for count in 0..5 {
        let query = TagQuery { ids: (0..count).map(|i| i.to_string()).collect() };
        assert_eq!(query.sql().matches('?').count(), count);
        assert_eq!(query.binds().len(), count);
    }
}

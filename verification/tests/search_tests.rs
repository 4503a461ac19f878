use luts::search_hits::{create_snippet, matching_conversations, text_search_hits, try_create_snippet, TermHit};
use luts::search::{
    count_in_range, count_query_terms, extract_query_terms, generate_suggestions, index_message_terms,
    matches_date_range, matches_tag_filter, result_page, DateRangeFilter, RangeFilter, RelativeDateRange,
    SearchSortOptions, SortDirection, SortField, SuggestionType, TagFilter,
};

fn strings(v: &[&str]) -> Vec<String> {
    v.iter().map(|s| s.to_string()).collect()
}

#[test]
fn tag_filters() {
    let tags = strings(&["rust", "ai"]);
    let f = TagFilter { required: Some(strings(&["rust"])), any_of: None, excluded: None };
    assert!(matches_tag_filter(&tags, &f));
    let f = TagFilter { required: Some(strings(&["rust", "go"])), any_of: None, excluded: None };
    assert!(!matches_tag_filter(&tags, &f));
    let f = TagFilter { required: None, any_of: Some(strings(&["go", "ai"])), excluded: None };
    assert!(matches_tag_filter(&tags, &f));
    let f = TagFilter { required: None, any_of: Some(strings(&["go"])), excluded: None };
    assert!(!matches_tag_filter(&tags, &f));
    let f = TagFilter { required: None, any_of: Some(vec![]), excluded: None };
    assert!(!matches_tag_filter(&tags, &f));
    let f = TagFilter { required: None, any_of: None, excluded: Some(strings(&["ai"])) };
    assert!(!matches_tag_filter(&tags, &f));
    let f = TagFilter { required: Some(vec![]), any_of: None, excluded: Some(vec![]) };
    assert!(matches_tag_filter(&tags, &f));
}

#[test]
fn message_count_ranges() {
    assert!(count_in_range(&RangeFilter { min: Some(2), max: Some(5) }, 2));
    assert!(count_in_range(&RangeFilter { min: Some(2), max: Some(5) }, 5));
    assert!(!count_in_range(&RangeFilter { min: Some(2), max: Some(5) }, 6));
    assert!(!count_in_range(&RangeFilter { min: Some(2), max: None }, 1));
    assert!(count_in_range(&RangeFilter { min: None, max: None }, 1000));
}

#[test]
fn date_filters() {
    let day = 86_400_000i64;
    let now = 100 * day;
    let f = DateRangeFilter { start: Some(10), end: Some(20), relative: None };
    assert!(matches_date_range(10, &f, now));
    assert!(!matches_date_range(21, &f, now));
    let f = DateRangeFilter { start: None, end: None, relative: Some(RelativeDateRange::LastWeek) };
    assert!(matches_date_range(now - 7 * day, &f, now));
    assert!(!matches_date_range(now - 7 * day - 1, &f, now));
    let f = DateRangeFilter { start: None, end: None, relative: Some(RelativeDateRange::Custom(5)) };
    assert!(matches_date_range(now - 5, &f, now));
    assert!(!matches_date_range(now - 6, &f, now));
    let f = DateRangeFilter { start: None, end: None, relative: Some(RelativeDateRange::Custom(i64::MIN)) };
    assert!(!matches_date_range(i64::MAX, &f, i64::MAX));
}

#[test]
fn query_terms_and_suggestions() {
    assert_eq!(extract_query_terms(Some("  rust  borrow "), Some("lifetimes")), strings(&["rust", "borrow", "lifetimes"]));
    assert!(extract_query_terms(None, None).is_empty());
    let s = generate_suggestions(1, true);
    assert_eq!(s.len(), 1);
    assert_eq!(s[0].0, SuggestionType::QueryExpansion);
    assert_eq!(s[0].1, "Try broader search terms or remove some filters");
    assert!(generate_suggestions(1, false).is_empty());
    let s = generate_suggestions(51, true);
    assert_eq!(s, vec![(SuggestionType::FilterSuggestion, "Try adding date or user filters to narrow results".to_string())]);
    assert!(generate_suggestions(10, true).is_empty());
}

#[test]
fn pages() {
    assert_eq!(result_page(10, None, None), (0, 10));
    assert_eq!(result_page(10, Some(3), Some(4)), (3, 7));
    assert_eq!(result_page(10, Some(8), Some(4)), (8, 10));
    assert_eq!(result_page(10, Some(10), Some(4)), (10, 10));
    assert_eq!(result_page(10, Some(50), None), (10, 10));
}

#[test]
fn indexed_terms() {
    let terms = index_message_terms("Hello, World! A rust-lang it's OK...");
    assert_eq!(
        terms,
        vec![("hello".to_string(), 0), ("world".to_string(), 1), ("rust-lang".to_string(), 3), ("it's".to_string(), 4)]
    );
}

#[test]
fn popular_terms_are_counted() {
    let mut popular = vec![("rust".to_string(), 2)];
    count_query_terms(&mut popular, "rust go rust");
    assert_eq!(popular, vec![("rust".to_string(), 4), ("go".to_string(), 1)]);
}

#[test]
fn default_sort_options() {
    let o = SearchSortOptions::default();
    assert!(matches!(o.primary, SortField::Relevance));
    assert!(matches!(o.secondary, Some(SortField::LastMessageTime)));
    assert_eq!(o.direction, SortDirection::Descending);
}

fn conversation(user: &str, started: i64, count: usize, tags: &[&str]) -> luts::conversation_export::ConversationMetadata {
    luts::conversation_export::ConversationMetadata {
        id: "c".to_string(),
        title: "t".to_string(),
        description: None,
        user_id: user.to_string(),
        session_id: "s".to_string(),
        started_at: started,
        last_message_at: started,
        message_count: count,
        tags: strings(tags),
        properties: std::collections::HashMap::new(),
        language: None,
        status: luts::conversation_export::ConversationStatus::Active,
        participants: vec![],
    }
}

#[test]
fn results_are_filtered_by_user_count_date_and_tags() {
    let cs = vec![
        conversation("ann", 100, 5, &["rust"]),
        conversation("bob", 200, 50, &["go"]),
        conversation("ann", 300, 20, &["rust", "ai"]),
    ];
    let none = luts::search::ResultFilters { user_ids: None, date_range: None, message_count_range: None, tags: None };
    assert_eq!(luts::search::apply_filters(&cs, &none, 1000), vec![0, 1, 2]);
    let by_user = luts::search::ResultFilters { user_ids: Some(strings(&["ann"])), ..none };
    assert_eq!(luts::search::apply_filters(&cs, &by_user, 1000), vec![0, 2]);
    let by_count = luts::search::ResultFilters {
        user_ids: None,
        date_range: None,
        message_count_range: Some(RangeFilter { min: Some(10), max: Some(40) }),
        tags: None,
    };
    assert_eq!(luts::search::apply_filters(&cs, &by_count, 1000), vec![2]);
    let by_tags = luts::search::ResultFilters {
        user_ids: None,
        date_range: None,
        message_count_range: None,
        tags: Some(TagFilter { required: Some(strings(&["rust"])), any_of: None, excluded: Some(strings(&["ai"])) }),
    };
    assert_eq!(luts::search::apply_filters(&cs, &by_tags, 1000), vec![0]);
}

fn hit(term_index: usize, message_index: usize, position: usize) -> TermHit {
    TermHit { term_index, message_index, position }
}

#[test]
fn text_search_finds_query_words_in_message_order() {
    let messages = vec![
        "Hello world, the Rust language".to_string(),
        "rust is fast".to_string(),
        "no match here".to_string(),
    ];
    let hits = text_search_hits(&messages, "Rust fast");
    assert_eq!(hits, vec![hit(0, 0, 3), hit(0, 1, 0), hit(1, 1, 2)]);
    assert!(text_search_hits(&messages, "is").is_empty());
    assert!(text_search_hits(&messages, "").is_empty());
}

#[test]
fn only_conversations_with_hits_match() {
    let conversations = vec![
        vec!["nothing relevant".to_string()],
        vec!["Rust ownership".to_string(), "more rust".to_string()],
        vec![],
        vec!["RUST!".to_string()],
    ];
    let matched = matching_conversations(&conversations, "rust");
    assert_eq!(matched.len(), 2);
    assert_eq!(matched[0].0, 1);
    assert_eq!(matched[0].1, vec![hit(0, 0, 0), hit(0, 1, 1)]);
    assert_eq!(matched[1].0, 3);
    assert_eq!(matched[1].1, vec![hit(0, 0, 0)]);
}

#[test]
fn snippet_around_first_match() {
    assert_eq!(create_snippet("The quick brown fox jumps", "FOX", 10), "...rown fox jump...");
    assert_eq!(create_snippet("Short", "short", 100), "Short");
    assert_eq!(create_snippet("abcdef", "zz", 3), "abc");
    assert_eq!(create_snippet("héllo wörld", "w", 4), "...o wö...");
}

#[test]
fn snippet_refused_inside_a_character() {
    assert_eq!(try_create_snippet("héllo wörld", "w", 4), Some("...o wö...".to_string()));
    assert_eq!(try_create_snippet("héllo wörld", "w", 2), None);
    assert_eq!(try_create_snippet("abcdef", "zz", 3), Some("abc".to_string()));
}

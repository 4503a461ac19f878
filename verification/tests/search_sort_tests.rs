use luts::search::{SearchSortOptions, SortDirection, SortField};
use luts::search_sort::{compare_by_field, compare_search_results, sort_results, SortValues};

fn values(rank: u64, started: i64, last: i64, count: usize, title: &str, user: &str) -> SortValues {
    SortValues {
        relevance_rank: rank,
        started_at: started,
        last_message_at: last,
        message_count: count,
        title: title.to_string(),
        user_id: user.to_string(),
    }
}

#[test]
fn fields_compare_three_ways() {
    let a = values(5, 100, 300, 2, "alpha", "u1");
    let b = values(7, 100, 200, 9, "beta", "u1");
    assert_eq!(compare_by_field(&a, &b, &SortField::Relevance), -1);
    assert_eq!(compare_by_field(&a, &b, &SortField::CreatedAt), 0);
    assert_eq!(compare_by_field(&a, &b, &SortField::LastMessageTime), 1);
    assert_eq!(compare_by_field(&a, &b, &SortField::MessageCount), -1);
    assert_eq!(compare_by_field(&a, &b, &SortField::Title), -1);
    assert_eq!(compare_by_field(&b, &a, &SortField::Title), 1);
    assert_eq!(compare_by_field(&a, &b, &SortField::UserId), 0);
    assert_eq!(compare_by_field(&a, &b, &SortField::TokenCount), 0);
    assert_eq!(compare_by_field(&a, &b, &SortField::Property("x".to_string())), 0);
}

#[test]
fn titles_compare_as_strings_do() {
    let a = values(0, 0, 0, 0, "ab", "");
    let b = values(0, 0, 0, 0, "abc", "");
    let c = values(0, 0, 0, 0, "B", "");
    assert_eq!(compare_by_field(&a, &b, &SortField::Title), -1);
    assert_eq!(compare_by_field(&c, &a, &SortField::Title), -1);
}

#[test]
fn default_order_is_relevance_then_recency_descending() {
    let v = vec![
        values(3, 0, 10, 0, "a", "u"),
        values(9, 0, 5, 0, "b", "u"),
        values(3, 0, 20, 0, "c", "u"),
        values(1, 0, 30, 0, "d", "u"),
    ];
    let o = SearchSortOptions::default();
    assert_eq!(sort_results(&v, &o), vec![1, 2, 0, 3]);
    assert_eq!(compare_search_results(&v[1], &v[0], &o), -1);
}

#[test]
fn ties_keep_their_original_order() {
    let v = vec![
        values(0, 5, 0, 1, "x", "u"),
        values(0, 3, 0, 1, "y", "u"),
        values(0, 5, 0, 1, "z", "u"),
        values(0, 3, 0, 1, "w", "u"),
    ];
    let o = SearchSortOptions { primary: SortField::CreatedAt, secondary: None, direction: SortDirection::Ascending };
    assert_eq!(sort_results(&v, &o), vec![1, 3, 0, 2]);
    let by_tokens = SearchSortOptions { primary: SortField::TokenCount, secondary: None, direction: SortDirection::Descending };
    assert_eq!(sort_results(&v, &by_tokens), vec![0, 1, 2, 3]);
}

use luts::summary_index::{
    most_productive_hour, search_summaries, summaries_by_topic, summary_totals, topic_frequency, SummaryRecord,
};

const HOUR: i64 = 3_600_000;

fn strings(v: &[&str]) -> Vec<String> {
    v.iter().map(|s| s.to_string()).collect()
}

fn summary(text: &str, topics: &[&str], facts: &[&str], at: i64, messages: usize, tokens: Option<u32>) -> SummaryRecord {
    SummaryRecord {
        summary_text: text.to_string(),
        topics: strings(topics),
        key_facts: strings(facts),
        created_at: at,
        original_message_count: messages,
        tokens_used: tokens,
    }
}

fn records() -> Vec<SummaryRecord> {
    vec![
        summary("Planned the Rust rewrite", &["programming", "planning"], &["Deadline is Friday"], 13 * HOUR, 12, Some(300)),
        summary("Talked about dinner", &["food"], &[], 13 * HOUR + 5, 4, None),
        summary("Fixed the parser", &["programming"], &["The PARSER had a bug"], 24 * HOUR + 2 * HOUR, 8, Some(100)),
    ]
}

#[test]
fn summaries_are_found_by_topic() {
    let r = records();
    assert_eq!(summaries_by_topic(&r, "program"), vec![0, 2]);
    assert_eq!(summaries_by_topic(&r, "food"), vec![1]);
    assert_eq!(summaries_by_topic(&r, "Food"), Vec::<usize>::new());
}

#[test]
fn summaries_are_searched_ignoring_case() {
    let r = records();
    assert_eq!(search_summaries(&r, "RUST"), vec![0]);
    assert_eq!(search_summaries(&r, "parser"), vec![2]);
    assert_eq!(search_summaries(&r, "deadline"), vec![0]);
    assert_eq!(search_summaries(&r, "FOOD"), vec![1]);
    assert_eq!(search_summaries(&r, "weather"), Vec::<usize>::new());
}

#[test]
fn topics_are_counted() {
    assert_eq!(
        topic_frequency(&records()),
        vec![("programming".to_string(), 2), ("planning".to_string(), 1), ("food".to_string(), 1)]
    );
}

#[test]
fn totals_add_up() {
    assert_eq!(summary_totals(&records()), (3, 24, 400));
    assert_eq!(summary_totals(&[]), (0, 0, 0));
}

#[test]
fn most_productive_hour_is_the_busiest() {
    assert_eq!(most_productive_hour(&records()), Some(13));
    assert_eq!(most_productive_hour(&[]), None);
    let before_epoch = vec![summary("x", &[], &[], -1, 1, None)];
    assert_eq!(most_productive_hour(&before_epoch), Some(23));
}

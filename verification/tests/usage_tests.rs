use luts::tally::sum_by_key;
use luts::usage::{
    hourly_trend, sessions_since, token_breakdown, token_limit_exceeded, token_limit_message, total_tokens_since,
    usage_history, BudgetPeriod, TokenUsage, UsageFilter,
};

const HOUR: i64 = 3_600_000;

fn usage(total: u32, at: i64, provider: &str, op: &str, session: &str) -> TokenUsage {
    TokenUsage {
        input_tokens: total / 2,
        output_tokens: total - total / 2,
        total_tokens: total,
        timestamp: at,
        provider: provider.to_string(),
        model: "m".to_string(),
        operation_type: op.to_string(),
        session_id: session.to_string(),
        user_id: "u".to_string(),
    }
}

fn history() -> Vec<TokenUsage> {
    vec![
        usage(100, 10 * HOUR, "openai", "chat", "s1"),
        usage(50, 30 * HOUR, "google", "tool", "s2"),
        usage(25, 47 * HOUR + 5, "openai", "chat", "s1"),
        usage(10, 48 * HOUR, "openai", "summary", "s3"),
    ]
}

#[test]
fn filters_keep_matching_records() {
    let h = history();
    assert_eq!(usage_history(&h, None), vec![0, 1, 2, 3]);
    let mut f = UsageFilter::default();
    assert_eq!(usage_history(&h, Some(&f)), vec![0, 1, 2, 3]);
    f.provider = Some("openai".to_string());
    assert_eq!(usage_history(&h, Some(&f)), vec![0, 2, 3]);
    f.min_tokens = Some(20);
    assert_eq!(usage_history(&h, Some(&f)), vec![0, 2]);
    f.date_range = Some((20 * HOUR, 47 * HOUR + 5));
    assert_eq!(usage_history(&h, Some(&f)), vec![2]);
    f.max_tokens = Some(24);
    assert_eq!(usage_history(&h, Some(&f)), Vec::<usize>::new());
    assert!(UsageFilter::default().matches(&h[1]));
}

#[test]
fn totals_count_records_since_a_time() {
    let h = history();
    assert_eq!(total_tokens_since(&h, 0), 185);
    assert_eq!(total_tokens_since(&h, 30 * HOUR), 85);
    assert_eq!(total_tokens_since(&h, 49 * HOUR), 0);
}

#[test]
fn hourly_trend_covers_the_last_day() {
    let h = history();
    let trend = hourly_trend(&h, 48 * HOUR);
    assert_eq!(trend.len(), 24);
    assert_eq!(trend[0], (24 * HOUR, 0));
    assert_eq!(trend[6], (30 * HOUR, 50));
    assert_eq!(trend[23], (47 * HOUR, 25));
    assert_eq!(trend.iter().map(|(_, t)| *t).sum::<u32>(), 75);
}

#[test]
fn breakdowns_total_per_key() {
    let h = history();
    assert_eq!(
        token_breakdown(&h, 0, true),
        vec![("openai".to_string(), 135), ("google".to_string(), 50)]
    );
    assert_eq!(
        token_breakdown(&h, 30 * HOUR, false),
        vec![("tool".to_string(), 50), ("chat".to_string(), 25), ("summary".to_string(), 10)]
    );
    assert_eq!(sum_by_key(&["a".to_string(), "b".to_string(), "a".to_string()], &[1, 2, 3]), vec![
        ("a".to_string(), 4),
        ("b".to_string(), 2),
    ]);
}

#[test]
fn sessions_are_listed_once() {
    let h = history();
    assert_eq!(sessions_since(&h, 0), vec!["s1".to_string(), "s2".to_string(), "s3".to_string()]);
    assert_eq!(sessions_since(&h, 40 * HOUR), vec!["s1".to_string(), "s3".to_string()]);
}

#[test]
fn token_limits_are_checked_like_their_ratio() {
    assert!(token_limit_exceeded(100, 100));
    assert!(!token_limit_exceeded(99, 100));
    assert!(token_limit_exceeded(1, 0));
    assert!(!token_limit_exceeded(0, 0));
    assert_eq!(
        token_limit_message(BudgetPeriod::Daily, 120000, 100000),
        "Daily token limit exceeded: 120000 / 100000"
    );
    assert_eq!(
        token_limit_message(BudgetPeriod::Monthly, 5, 2),
        "Monthly token limit exceeded: 5 / 2"
    );
}

#[test]
fn usage_from_reported_counts() {
    let u = TokenUsage::from_genai_usage(
        Some(10),
        None,
        Some(-1),
        "gemini".to_string(),
        "flash".to_string(),
        "chat".to_string(),
        "s".to_string(),
        "u".to_string(),
    );
    assert_eq!(u.input_tokens, 10);
    assert_eq!(u.output_tokens, 0);
    assert_eq!(u.total_tokens, u32::MAX);
    assert_eq!(u.provider, "gemini");
    assert_eq!(u.operation_type, "chat");
}

use luts::select::{select_within_budget, stable_order};
use luts::window::{
    conversation_tokens, dynamic_token_allowance, estimate_tokens, token_breakdown, tracking_entries_to_keep,
    SelectionStrategy,
};

#[test]
fn token_estimates() {
    assert_eq!(estimate_tokens(""), 0);
    assert_eq!(estimate_tokens("abc"), 1);
    assert_eq!(estimate_tokens("abcd"), 1);
    assert_eq!(estimate_tokens("abcde"), 2);
    // two bytes per character here
    assert_eq!(estimate_tokens("éé"), 1);
    let long = "a".repeat(4001);
    assert_eq!(estimate_tokens(&long), 1001);
    // matches the float computation
    for n in [0usize, 1, 7, 16_777_217, 16_777_219] {
        let s = "x".repeat(n);
        assert_eq!(estimate_tokens(&s), (n as f32 / 4.0).ceil() as u32);
    }
}

#[test]
fn allowance_and_breakdown() {
    // within the reserved budgets: the whole dynamic budget
    assert_eq!(dynamic_token_allowance(2000, 3000, 3000, 1000, 2500), 2000);
    // 500 over the reserved budgets
    assert_eq!(dynamic_token_allowance(2000, 3000, 3000, 3500, 3000), 1500);
    assert_eq!(dynamic_token_allowance(2000, 3000, 3000, 9000, 3000), 0);
    let t = token_breakdown(10, 20, 30);
    assert_eq!((t.core_blocks, t.conversation, t.dynamic_memory, t.total), (10, 20, 30, 60));
    assert_eq!(conversation_tokens(&["abcd".to_string(), "abcde".to_string()]), 3);
    assert_eq!(SelectionStrategy::default(), SelectionStrategy::Balanced);
}

#[test]
fn stable_ordering() {
    assert_eq!(stable_order(&[5, 1, 5, 3], true), vec![0, 2, 3, 1]);
    assert_eq!(stable_order(&[5, 1, 5, 3], false), vec![1, 3, 0, 2]);
    assert!(stable_order(&[], true).is_empty());
}

#[test]
fn budgeted_selection() {
    let costs = [300, 500, 100, 400];
    let order = [1, 0, 3, 2];
    // 500 fits, 300 fits (800), 400 does not (1200 > 1000), 100 fits (900)
    assert_eq!(select_within_budget(&costs, &order, 1000, 10), vec![1, 0, 2]);
    assert_eq!(select_within_budget(&costs, &order, 1000, 2), vec![1, 0]);
    assert_eq!(select_within_budget(&costs, &order, 50, 10), Vec::<usize>::new());
}

#[test]
fn tracking_pruning() {
    let small: Vec<u64> = (0..1000).collect();
    assert_eq!(tracking_entries_to_keep(&small).len(), 1000);
    let big: Vec<u64> = (0..1200).map(|i| (i * 7919) % 1200).collect();
    let kept = tracking_entries_to_keep(&big);
    assert_eq!(kept.len(), 800);
    let min_kept = kept.iter().map(|&i| big[i]).min().unwrap();
    assert_eq!(min_kept, 400);
}

#[test]
fn candidates_are_ordered_by_recency_or_frequency() {
    let updated = [5u64, 9, 5, 1];
    let counts = [2u64, 2, 7, 0];
    assert_eq!(
        luts::window::candidate_order(luts::window::SelectionStrategy::ByRecency, &updated, &counts),
        Some(vec![1, 0, 2, 3])
    );
    assert_eq!(
        luts::window::candidate_order(luts::window::SelectionStrategy::ByFrequency, &updated, &counts),
        Some(vec![2, 0, 1, 3])
    );
    assert_eq!(
        luts::window::candidate_order(luts::window::SelectionStrategy::Balanced, &updated, &counts),
        None
    );
}

#[test]
fn context_text_lists_core_memories_and_recent_messages() {
    let memories = vec![
        ("0.90".to_string(), Some("likes tea".to_string())),
        ("0.50".to_string(), None),
        ("0.40".to_string(), Some("lives in Oslo".to_string())),
    ];
    let history: Vec<String> = (1..=7).map(|i| format!("m{}", i)).collect();
    let text = luts::window::format_context("CORE", &memories, &history);
    assert_eq!(
        text,
        "# Core Context\n\nCORE\n# Relevant Memories\n\n## Memory 1 (Relevance: 0.90)\n\nlikes tea\n\n## Memory 3 (Relevance: 0.40)\n\nlives in Oslo\n\n# Recent Conversation\n\nm7\n\nm6\n\nm5\n\nm4\n\nm3\n\n"
    );
    assert_eq!(luts::window::format_context("C", &[], &[]), "# Core Context\n\nC\n");
}

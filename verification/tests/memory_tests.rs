use luts::memory_search::{memory_result, present_search_results, search_response};
use luts::memory::scan_blocks;
use luts::memory::{
    block_matches, order_by_creation, text_search_sql, BlockId, BlockType, MemoryBlock, MemoryBlockMetadata,
    MemoryContent, MemoryQuery, QuerySort, TimeRange,
};
use std::time::{SystemTime, UNIX_EPOCH};

#[test]
fn test_block_id_generation() {
    let id1 = BlockId::generate();
    let id2 = BlockId::generate();

    // IDs should be different
    assert_ne!(id1.as_str(), id2.as_str());

    // IDs should start with "block_"
    assert!(id1.as_str().starts_with("block_"));
    assert!(id2.as_str().starts_with("block_"));
}

#[test]
fn test_time_range() {
    let range = TimeRange::last_days(1);

    // End time should be now (approximately)
    let now = SystemTime::now().duration_since(UNIX_EPOCH).unwrap().as_millis() as u64;

    if let Some(end) = range.end {
        // Allow small difference due to execution time
        assert!((now - end) < 1000);
    } else {
        panic!("End time should be set");
    }

    // Start time should be 24 hours earlier
    if let (Some(start), Some(end)) = (range.start, range.end) {
        let diff = end - start;
        let day_ms = 24 * 60 * 60 * 1000;

        // Allow small difference due to execution time
        assert!((diff as i64 - day_ms as i64).abs() < 1000);
    } else {
        panic!("Start and end times should be set");
    }
}

#[test]
fn range_ending_before_the_epoch_starts_at_zero() {
    let r = TimeRange::ending_at(100, 300);
    assert_eq!(r.start, Some(0));
    assert_eq!(r.end, Some(100));
    let r = TimeRange::ending_at(1000, 300);
    assert_eq!(r.start, Some(700));
}

#[test]
fn block_ids_and_names() {
    let id = BlockId::new("abc");
    assert_eq!(id.as_str(), "abc");
    assert_eq!(BlockType::Custom(12).debug_name(), "Custom(12)");
    assert_eq!(BlockType::PersonalInfo.debug_name(), "PersonalInfo");
    let b = MemoryBlock::new(BlockType::Fact, "u", MemoryContent::Text("t".to_string()));
    assert!(b.id().as_str().starts_with("block_"));
    assert_eq!(b.metadata.created_at, b.metadata.updated_at);
    assert_eq!(b.content.as_text(), Some("t"));
}

#[test]
fn block_types_read_back_from_their_names() {
    assert_eq!(BlockType::from_debug_name("Fact"), Ok(BlockType::Fact));
    assert_eq!(BlockType::from_debug_name("Custom(7)"), Ok(BlockType::Custom(7)));
    assert_eq!(BlockType::from_debug_name("Custom(+5)"), Ok(BlockType::Custom(5)));
    assert_eq!(BlockType::from_debug_name("Custom(Custom(9))"), Ok(BlockType::Custom(9)));
    assert_eq!(
        BlockType::from_debug_name("Custom(300)"),
        Err("Failed to parse custom block type: number too large to fit in target type".to_string())
    );
    assert_eq!(
        BlockType::from_debug_name("Custom()"),
        Err("Failed to parse custom block type: cannot parse integer from empty string".to_string())
    );
    assert_eq!(
        BlockType::from_debug_name("Custom(-5)"),
        Err("Failed to parse custom block type: invalid digit found in string".to_string())
    );
    assert_eq!(BlockType::from_debug_name("Bogus"), Err("Unknown block type: Bogus".to_string()));
    for n in [0u8, 9, 10, 99, 255] {
        let t = BlockType::Custom(n);
        assert_eq!(BlockType::from_debug_name(&t.debug_name()), Ok(t));
    }
}

#[test]
fn query_defaults() {
    let q = MemoryQuery::default();
    assert_eq!(q.limit, Some(100));
    assert_eq!(q.sort, Some(QuerySort::NewestFirst));
    assert!(q.block_types.is_empty());
    assert_eq!(QuerySort::default(), QuerySort::NewestFirst);
}

#[test]
fn plain_search_sql_and_bindings() {
    let q = MemoryQuery {
        user_id: Some("u1".to_string()),
        session_id: None,
        block_types: vec![BlockType::Fact, BlockType::Custom(3)],
        content_contains: Some("tea".to_string()),
        created_after: None,
        created_before: None,
        limit: Some(5),
        sort: None,
    };
    let (sql, bindings) = text_search_sql(&q);
    assert_eq!(
        sql,
        "SELECT * FROM memory_blocks WHERE true AND user_id = $user_id AND block_type IN $block_types AND string::contains(string::lowercase(content), string::lowercase($content)) ORDER BY created_at DESC LIMIT 5"
    );
    assert_eq!(
        bindings,
        vec![
            ("user_id".to_string(), "u1".to_string()),
            ("block_types".to_string(), "[\"Fact\",\"Custom(3)\"]".to_string()),
            ("content".to_string(), "tea".to_string()),
        ]
    );
    let (sql, bindings) = text_search_sql(&MemoryQuery {
        user_id: None,
        session_id: Some("s".to_string()),
        block_types: vec![],
        content_contains: None,
        created_after: None,
        created_before: None,
        limit: None,
        sort: None,
    });
    assert_eq!(sql, "SELECT * FROM memory_blocks WHERE true AND session_id = $session_id ORDER BY created_at DESC");
    assert_eq!(bindings, vec![("session_id".to_string(), "s".to_string())]);
}

fn meta(user: &str, session: Option<&str>, t: BlockType, created: u64) -> MemoryBlockMetadata {
    MemoryBlockMetadata {
        id: BlockId::new("x"),
        block_type: t,
        user_id: user.to_string(),
        session_id: session.map(|s| s.to_string()),
        created_at: created,
        updated_at: created,
    }
}

#[test]
fn scan_filters() {
    let m = meta("alice", Some("s1"), BlockType::Fact, 500);
    assert!(block_matches(&m, None, None, None, None));
    assert!(block_matches(&m, Some("alice"), Some("s1"), Some(&[BlockType::Goal, BlockType::Fact]), None));
    assert!(!block_matches(&m, Some("bob"), None, None, None));
    assert!(!block_matches(&m, None, Some("s2"), None, None));
    assert!(!block_matches(&meta("alice", None, BlockType::Fact, 500), None, Some("s1"), None, None));
    assert!(!block_matches(&m, None, None, Some(&[BlockType::Goal]), None));
    let inside = TimeRange::new(Some(500), Some(500));
    assert!(block_matches(&m, None, None, None, Some(inside)));
    assert!(!block_matches(&m, None, None, None, Some(TimeRange::new(Some(501), None))));
    assert!(!block_matches(&m, None, None, None, Some(TimeRange::new(None, Some(499)))));
}

#[test]
fn ordering_by_creation_is_stable() {
    let ms = vec![
        meta("a", None, BlockType::Fact, 20),
        meta("a", None, BlockType::Fact, 10),
        meta("a", None, BlockType::Fact, 20),
        meta("a", None, BlockType::Fact, 30),
    ];
    assert_eq!(order_by_creation(&ms, QuerySort::NewestFirst), vec![3, 0, 2, 1]);
    assert_eq!(order_by_creation(&ms, QuerySort::OldestFirst), vec![1, 0, 2, 3]);
    assert_eq!(order_by_creation(&ms, QuerySort::Relevance), vec![0, 1, 2, 3]);
}

#[test]
fn memory_search_response_is_assembled() {
    let block = MemoryBlock {
        metadata: meta("u", Some("s1"), BlockType::Fact, 42),
        content: MemoryContent::Text("The user likes tea".to_string()),
    };
    let r = memory_result(&block, &[]);
    assert_eq!(r.created, "1970-01-01 00:00:00 UTC");
    assert_eq!(r.id, "x");
    assert_eq!(r.content, "The user likes tea");
    assert_eq!(r.session, Some("s1".to_string()));
    assert_eq!(r.insights, vec!["fact".to_string()]);
    assert_eq!(r.created_at, 42);
    let tagged = memory_result(&block, &["drinks".to_string()]);
    assert_eq!(tagged.insights, vec!["drinks".to_string()]);

    let response = search_response("tea".to_string(), None, None, 5, vec![r, tagged]);
    assert_eq!(response.total_results, 2);
    assert_eq!(response.relevant_memories, 2);
    assert_eq!(response.mode, "semantic");
    assert_eq!(response.memory_types, vec!["All".to_string()]);
    assert_eq!(response.summary, "Found 2 fact memories related to 'tea'");

    let empty = search_response("x".to_string(), Some(vec!["Goal".to_string()]), Some("keyword".to_string()), 3, vec![]);
    assert_eq!(empty.total_results, 0);
    assert_eq!(empty.mode, "keyword");
    assert_eq!(empty.summary, "No memories found matching 'x'");
}

#[test]
fn scanning_stored_blocks() {
    let metas = vec![
        meta("u", None, BlockType::Fact, 5),
        meta("v", None, BlockType::Fact, 9),
        meta("u", None, BlockType::Goal, 7),
        meta("u", None, BlockType::Fact, 7),
        meta("u", None, BlockType::Fact, 1),
    ];
    assert_eq!(scan_blocks(&metas, Some("u"), None, None, None, None, &[], None), vec![0, 2, 3, 4]);
    assert_eq!(scan_blocks(&metas, Some("u"), None, None, None, None, &[], Some(2)), vec![0, 2]);
    assert_eq!(scan_blocks(&metas, Some("u"), None, None, None, Some(QuerySort::NewestFirst), &[], Some(3)), vec![2, 3, 0]);
    assert_eq!(scan_blocks(&metas, Some("u"), None, None, None, Some(QuerySort::OldestFirst), &[], None), vec![4, 0, 2, 3]);
    assert_eq!(
        scan_blocks(&metas, None, None, Some(&[BlockType::Fact]), None, Some(QuerySort::Relevance), &[3, 9, 100, 9, 1], Some(3)),
        vec![1, 3, 0]
    );
}

#[test]
fn memory_search_presents_every_block_found() {
    let found = vec![
        (
            MemoryBlock { metadata: meta("u", None, BlockType::Goal, 86_400_000), content: MemoryContent::Text("ship".to_string()) },
            vec![],
        ),
        (
            MemoryBlock { metadata: meta("u", None, BlockType::Fact, 0), content: MemoryContent::Json("{}".to_string()) },
            vec!["tagged".to_string()],
        ),
    ];
    let r = present_search_results(&found, "plans".to_string(), None, None, 5);
    assert_eq!(r.memories.len(), 2);
    assert_eq!(r.total_results, 2);
    assert_eq!(r.memories[0].content, "ship");
    assert_eq!(r.memories[0].created, "1970-01-02 00:00:00 UTC");
    assert_eq!(r.memories[1].insights, vec!["tagged".to_string()]);
    assert_eq!(r.summary, "Found 2 memories across 2 different types related to 'plans'");
    assert_eq!(r.mode, "semantic");
}

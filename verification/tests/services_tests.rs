use luts::snapshot_store::SnapshotStore;
use luts::budget::budget_status;
use luts::embeddings::{
    embedding_input, EmbeddingConfig, EmbeddingProvider, EmbeddingServiceFactory, LocalEmbeddingService,
    MockEmbeddingService, VectorSimilarity,
};
use luts::memory::{BlockType, MemoryContent, QuerySort};
use luts::memory_search::{
    parse_memory_types, result_content, result_insights, search_limit, search_query, search_summary,
};
use luts::saving::{
    convert_snapshot_to_markdown, matches_query, popular_tags, snapshot_counts, snapshot_order, snapshots_to_evict,
    storage_by_user, tag_counts, ContextSaveConfig, SnapshotInfo, SnapshotQuery, SnapshotSortBy,
};
use luts::stores::{agent_memory_config, check_connection_mode, RedisContextProvider, RelationType, SurrealConfig};
use luts::tools::{
    render_mode, search_result_count, search_url, select_search_hits, DDGSearchTool, MathTool, RenderMode, SearchHit,
    WebsiteTool,
};
use luts::utils::{merge_metadata, metadata_get};
use luts::llm::InternalChatMessage;

fn strings(v: &[&str]) -> Vec<String> {
    v.iter().map(|s| s.to_string()).collect()
}

fn pair(k: &str, v: &str) -> (String, String) {
    (k.to_string(), v.to_string())
}

#[test]
fn test_merge_metadata() {
    let base = vec![pair("key1", "value1"), pair("key2", "value2")];
    let overlay = vec![pair("key2", "new_value2"), pair("key3", "value3")];

    let result = merge_metadata(base, overlay);

    assert_eq!(metadata_get(&result, "key1"), Some("value1".to_string()));
    assert_eq!(metadata_get(&result, "key2"), Some("new_value2".to_string())); // overridden
    assert_eq!(metadata_get(&result, "key3"), Some("value3".to_string()));
}

#[test]
fn merge_keeps_every_key_once() {
    let result = merge_metadata(vec![pair("a", "1")], vec![pair("a", "2"), pair("b", "3")]);
    assert_eq!(result.len(), 2);
    assert_eq!(metadata_get(&result, "missing"), None);
}

#[test]
fn memory_search_decisions() {
    let types = parse_memory_types(Some(&strings(&["Fact", "Bogus", "Goal"])));
    assert_eq!(types, vec![BlockType::Fact, BlockType::Goal]);
    assert!(parse_memory_types(None).is_empty());
    assert_eq!(search_limit(None), 5);
    assert_eq!(search_limit(Some(0)), 1);
    assert_eq!(search_limit(Some(50)), 10);
    let q = search_query("u", None, vec![BlockType::Fact], "tea", 5);
    assert_eq!(q.user_id, Some("u".to_string()));
    assert_eq!(q.content_contains, Some("tea".to_string()));
    assert_eq!(q.limit, Some(5));
    assert_eq!(q.sort, Some(QuerySort::NewestFirst));
    let long = "x".repeat(301);
    assert_eq!(result_content(&MemoryContent::Text(long.clone())), format!("{}...", "x".repeat(300)));
    assert_eq!(result_content(&MemoryContent::Text("short".to_string())), "short");
    assert_eq!(
        result_content(&MemoryContent::Binary { mime_type: "a".to_string(), data: "b".to_string() }),
        "[Binary content - not searchable]"
    );
    assert_eq!(result_insights(&[], BlockType::PersonalInfo, "short"), strings(&["personalinfo"]));
    assert_eq!(result_insights(&[], BlockType::Fact, &"y".repeat(101)), strings(&["fact", "detailed"]));
    assert_eq!(result_insights(&strings(&["t1"]), BlockType::Fact, "s"), strings(&["t1"]));
    assert_eq!(search_summary(&[], "tea"), "No memories found matching 'tea'");
    assert_eq!(search_summary(&[BlockType::Fact], "tea"), "Found 1 relevant memory about 'tea'");
    assert_eq!(search_summary(&[BlockType::Goal, BlockType::Goal], "tea"), "Found 2 goal memories related to 'tea'");
    assert_eq!(
        search_summary(&[BlockType::Goal, BlockType::Fact, BlockType::Goal], "tea"),
        "Found 3 memories across 2 different types related to 'tea'"
    );
}

fn info(name: &str, created: i64, accessed: i64, size: usize) -> SnapshotInfo {
    SnapshotInfo {
        id: name.to_string(),
        name: name.to_string(),
        description: None,
        created_at: created,
        last_accessed: accessed,
        user_id: "u".to_string(),
        session_id: "s".to_string(),
        tags: strings(&["work"]),
        size_bytes: size,
        message_count: 1,
        is_favorite: false,
        is_archived: false,
    }
}

#[test]
fn snapshots() {
    let c = ContextSaveConfig::default();
    assert_eq!(c.max_snapshots, 100);
    assert_eq!(SnapshotSortBy::default(), SnapshotSortBy::LastAccessed);
    let mut q = SnapshotQuery::default();
    let s = info("Project Plan", 100, 100, 10);
    assert!(matches_query(&s, &q));
    q.search_text = Some("PROJECT".to_string());
    assert!(matches_query(&s, &q));
    q.search_text = Some("zzz".to_string());
    assert!(!matches_query(&s, &q));
    q.search_text = None;
    q.tags = strings(&["home", "work"]);
    assert!(matches_query(&s, &q));
    q.tags = strings(&["home"]);
    assert!(!matches_query(&s, &q));
    q.tags = vec![];
    q.date_range = Some((0, 99));
    assert!(!matches_query(&s, &q));
    let mut archived = info("old", 1, 1, 1);
    archived.is_archived = true;
    assert!(!matches_query(&archived, &SnapshotQuery::default()));

    let all = vec![info("a", 10, -5, 3), info("b", 30, 7, 1), info("c", 20, 7, 2)];
    assert_eq!(snapshot_order(&all, SnapshotSortBy::CreatedAt), vec![1, 2, 0]);
    assert_eq!(snapshot_order(&all, SnapshotSortBy::LastAccessed), vec![1, 2, 0]);
    assert_eq!(snapshot_order(&all, SnapshotSortBy::SizeBytes), vec![0, 2, 1]);
    let named = vec![info("beta", 0, 0, 1), info("Alpha", 0, 0, 1), info("alpha", 0, 0, 1), info("beta", 0, 0, 1)];
    assert_eq!(snapshot_order(&named, SnapshotSortBy::Name), vec![1, 2, 0, 3]);
    assert_eq!(snapshots_to_evict(&[5, -3, 9, 1], 2), vec![1, 3]);
    assert!(snapshots_to_evict(&[5, -3], 2).is_empty());
    let counts = snapshot_counts(&all);
    assert_eq!(counts.total_snapshots, 3);
    assert_eq!(counts.total_storage_bytes, 6);
    assert_eq!(counts.average_snapshot_size, 2);
    assert_eq!(counts.oldest_snapshot, Some(10));
    assert_eq!(counts.newest_snapshot, Some(30));
    let md = convert_snapshot_to_markdown(
        &info("Plan", 0, 0, 0),
        &[InternalChatMessage::Tool { tool_name: "calc".to_string(), content: "4".to_string(), call_id: None }],
        0,
        1,
    );
    assert_eq!(
        md,
        "# Context Snapshot: Plan\n\n**Created:** 1970-01-01 00:00:00 UTC\n**User:** u\n**Session:** s\n**Tags:** work\n\n## Conversation Messages\n\n### Message 1 (Tool: calc)\n4\n\n## Conversation Summaries (1)\n\n"
    );
}

#[test]
fn embedding_services() {
    let c = EmbeddingConfig::default();
    assert_eq!(c.dimensions, 1536);
    assert_eq!(EmbeddingServiceFactory::service_provider(&c), Err("OpenAI API key is required".to_string()));
    let mut o = EmbeddingConfig::default();
    o.provider = EmbeddingProvider::Ollama;
    assert_eq!(EmbeddingServiceFactory::service_provider(&o), Ok(EmbeddingProvider::Mock));
    let l = LocalEmbeddingService::new(EmbeddingConfig::default());
    assert_eq!(l.dimensions(), 1536);
    assert_eq!(MockEmbeddingService::new(EmbeddingConfig::default()).max_text_length(), 8192);
    assert_eq!(VectorSimilarity::check_dimensions(3, 4), Err("Vector dimensions don't match: 3 vs 4".to_string()));
    assert!(VectorSimilarity::check_dimensions(4, 4).is_ok());
    // longer than 4 bytes: the first 4 characters
    assert_eq!(embedding_input("ééééé", 4), "éééé");
    assert_eq!(embedding_input("abc", 4), "abc");
}

#[test]
fn storage_settings() {
    match SurrealConfig::default() {
        SurrealConfig::File { path, namespace, database } => {
            assert_eq!(path, "./data/memory.db");
            assert_eq!(namespace, "luts");
            assert_eq!(database, "memory");
        },
        _ => panic!(),
    }
    match agent_memory_config("./data", "a1") {
        SurrealConfig::File { path, .. } => assert_eq!(path, "./data/agents/a1/memory.db"),
        _ => panic!(),
    }
    assert!(check_connection_mode(&SurrealConfig::default()).is_ok());
    assert_eq!(RelationType::FollowsFrom.as_str(), "follows_from");
    let r = RedisContextProvider::with_namespace("redis://x", "ns").unwrap();
    assert_eq!(r.get_full_key("id"), "ns:id");
    assert_eq!(r.store("id", "{}"), Err("Redis provider not yet implemented for key: ns:id".to_string()));
    assert_eq!(RedisContextProvider::new("redis://x").unwrap().namespace, "context");
    assert_eq!(r.name(), "redis");
}

#[test]
fn tool_decisions() {
    assert_eq!(MathTool.name(), "calculator");
    assert_eq!(DDGSearchTool.name(), "search");
    assert!(DDGSearchTool.description().starts_with("Searches the web using DuckDuckGo."));
    assert_eq!(WebsiteTool.name(), "website");
    assert_eq!(search_result_count(None), 3);
    assert_eq!(search_result_count(Some(0)), 1);
    assert_eq!(search_result_count(Some(11)), 10);
    assert_eq!(search_url("rust lang"), "https://html.duckduckgo.com/html/?q=rust lang");
    let hits = vec![
        SearchHit { title: "".to_string(), link: "l".to_string(), snippet: "".to_string() },
        SearchHit { title: "A".to_string(), link: "a".to_string(), snippet: "s".to_string() },
        SearchHit { title: "B".to_string(), link: "".to_string(), snippet: "".to_string() },
        SearchHit { title: "C".to_string(), link: "c".to_string(), snippet: "".to_string() },
        SearchHit { title: "D".to_string(), link: "d".to_string(), snippet: "".to_string() },
    ];
    let kept = select_search_hits(&hits, 2);
    assert_eq!(kept.iter().map(|h| h.title.as_str()).collect::<Vec<_>>(), vec!["A", "C"]);
    assert_eq!(render_mode(None), Ok(RenderMode::Markdown));
    assert_eq!(render_mode(Some("html")), Ok(RenderMode::Html));
    assert_eq!(render_mode(Some("pdf")), Err("Invalid 'render' parameter, must be 'html' or 'md'".to_string()));
}

#[test]
fn budget() {
    let s = budget_status(vec![], vec!["Daily token limit exceeded: 5 / 4".to_string()], true);
    assert!(!s.within_limits);
    assert!(s.should_auto_summarize);
    let s = budget_status(vec!["w".to_string()], vec![], true);
    assert!(s.within_limits && !s.should_auto_summarize);
}

#[test]
fn index_definitions_use_the_dimensions() {
    let s = luts::stores::index_definitions(384);
    assert!(s.ends_with("DEFINE INDEX embedding_vector ON memory_blocks FIELDS embedding MTREE DIMENSION 384;\n"));
    assert_eq!(s.lines().count(), 4);
}

#[test]
fn summary_requests_keep_recent_messages_out() {
    let config = luts::summarization::SummarizationConfig::default();
    let ms: Vec<InternalChatMessage> =
        (0..7).map(|i| InternalChatMessage::User { content: format!("m{}", i) }).collect();
    let (count, req) = luts::summarization::summary_request(&ms, &config);
    assert_eq!(count, 2);
    assert_eq!(req.len(), 2);
    match &req[1] {
        InternalChatMessage::User { content } => assert_eq!(
            content,
            "Please provide a comprehensive summary of the following conversation. Focus on key topics, important decisions, and factual information. Aim for approximately 500 tokens in your summary.\n\nConversation:\nUser: m0\n\nUser: m1"
        ),
        _ => panic!(),
    }
    let (count, _) = luts::summarization::summary_request(&ms[..3], &config);
    assert_eq!(count, 3);
}

#[test]
fn snapshot_ids_are_prefixed_and_timestamped() {
    let id = luts::saving::new_snapshot_id();
    assert!(id.starts_with("snapshot_"));
    let parts: Vec<&str> = id.split('_').collect();
    assert_eq!(parts.len(), 3);
    assert!(parts[1].parse::<i64>().unwrap() > 0);
    assert_eq!(parts[2].len(), 8);
    assert_ne!(id, luts::saving::new_snapshot_id());
}

fn tagged(user: &str, tags: &[&str], size: usize) -> SnapshotInfo {
    let mut s = info("t", 0, 0, size);
    s.user_id = user.to_string();
    s.tags = strings(tags);
    s
}

#[test]
fn tags_are_counted_per_tag() {
    let infos = vec![tagged("a", &["x", "y"], 1), tagged("b", &["y", "z", "y"], 1), tagged("c", &[], 1)];
    assert_eq!(
        tag_counts(&infos),
        vec![("x".to_string(), 1), ("y".to_string(), 3), ("z".to_string(), 1)]
    );
}

#[test]
fn popular_tags_are_the_ten_most_used() {
    let infos = vec![tagged("a", &["x", "y"], 1), tagged("b", &["y", "z", "y"], 1)];
    assert_eq!(
        popular_tags(&infos),
        vec![("y".to_string(), 3), ("x".to_string(), 1), ("z".to_string(), 1)]
    );
    let many: Vec<String> = (0..12).map(|i| format!("t{}", i)).collect();
    let mut all: Vec<&str> = many.iter().map(|s| s.as_str()).collect();
    all.push("t11");
    all.push("t11");
    all.push("t5");
    let infos = vec![tagged("a", &all, 1)];
    let top = popular_tags(&infos);
    assert_eq!(top.len(), 10);
    assert_eq!(top[0], ("t11".to_string(), 3));
    assert_eq!(top[1], ("t5".to_string(), 2));
    assert!(top[2..].iter().all(|(_, c)| *c == 1));
}

#[test]
fn storage_is_summed_per_user() {
    let infos = vec![tagged("ann", &[], 10), tagged("bob", &[], 5), tagged("ann", &[], 7)];
    assert_eq!(storage_by_user(&infos), vec![("ann".to_string(), 17), ("bob".to_string(), 5)]);
    assert_eq!(storage_by_user(&[]), vec![]);
}

#[test]
fn snapshot_store_keeps_one_snapshot_per_id() {
    let mut store = SnapshotStore::new();
    store.insert(info("a", 1, 10, 5));
    store.insert(info("b", 2, 20, 5));
    store.insert(info("a", 3, 30, 7));
    assert_eq!(store.get("a").unwrap().size_bytes, 7);
    assert_eq!(store.get("b").unwrap().created_at, 2);
    assert!(store.get("c").is_none());
    store.set_favorite("b", true);
    store.set_archived("a", true);
    store.set_favorite("zzz", true);
    assert!(store.get("b").unwrap().is_favorite);
    assert!(store.get("a").unwrap().is_archived);
    store.delete("a");
    store.delete("a");
    assert!(store.get("a").is_none());
    assert!(store.get("b").is_some());
}

#[test]
fn snapshot_store_evicts_least_recently_accessed() {
    let mut store = SnapshotStore::new();
    store.insert(info("a", 1, 30, 1));
    store.insert(info("b", 2, 10, 1));
    store.insert(info("c", 3, 20, 1));
    store.insert(info("d", 4, 40, 1));
    assert_eq!(store.cleanup_old_snapshots(4), 0);
    assert_eq!(store.cleanup_old_snapshots(2), 2);
    assert!(store.get("b").is_none());
    assert!(store.get("c").is_none());
    assert!(store.get("a").is_some());
    assert!(store.get("d").is_some());
    let id = store.save_snapshot(info("ignored", 5, 50, 1), 2);
    assert!(id.starts_with("snapshot_"));
    assert_eq!(store.get(&id).unwrap().name, "ignored");
    assert!(store.get("a").is_none());
    assert!(store.get("d").is_some());
}

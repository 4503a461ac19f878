use luts::conversation_export::{
    assign_message_ids, check_importable, convert_messages_to_exportable, convert_to_csv, convert_to_html,
    convert_to_markdown, convert_to_text, convert_to_xml, imported_conversation_id, jsonl_import_metadata,
    jsonl_records, render_export, reset_timestamps, validate_conversation_data, ConversationMetadata,
    ConversationStatus, ExportFormat, ExportSettings, ExportableMessage, ImportMergeMode, ImportSettings,
    DuplicateHandling, MessageImportance, MessageMetadata, MessageType,
};
use luts::llm::InternalChatMessage;
use std::collections::HashMap;

fn msg(id: &str, t: MessageType, content: &str, ts: i64, author: &str) -> ExportableMessage {
    ExportableMessage {
        id: id.to_string(),
        message_type: t,
        content: content.to_string(),
        timestamp: ts,
        author: author.to_string(),
        metadata: MessageMetadata {
            token_count: None,
            processing_time_ms: None,
            model: None,
            importance: MessageImportance::Normal,
            is_bookmarked: false,
            custom: HashMap::new(),
        },
        references: vec![],
        attachments: vec![],
    }
}

fn meta(count: usize) -> ConversationMetadata {
    ConversationMetadata {
        id: "c1".to_string(),
        title: "Chat".to_string(),
        description: None,
        user_id: "u".to_string(),
        session_id: "s".to_string(),
        started_at: 0,
        last_message_at: 0,
        message_count: count,
        tags: vec![],
        properties: HashMap::new(),
        language: None,
        status: ConversationStatus::Active,
        participants: vec![],
    }
}

fn chat() -> Vec<InternalChatMessage> {
    vec![
        InternalChatMessage::System { content: "sys".to_string() },
        InternalChatMessage::User { content: "hi".to_string() },
        InternalChatMessage::Assistant { content: "hello".to_string(), tool_responses: None },
        InternalChatMessage::Tool { tool_name: "calc".to_string(), content: "4".to_string(), call_id: None },
    ]
}

#[test]
fn settings_defaults() {
    let s = ImportSettings::default();
    assert_eq!(s.merge_mode, ImportMergeMode::CreateNew);
    assert_eq!(s.duplicate_handling, DuplicateHandling::Skip);
    assert!(s.preserve_timestamps && !s.preserve_ids && s.auto_assign_ids);
    let e = ExportSettings::default();
    assert_eq!(e.max_inline_attachment_size, 1024 * 1024);
    assert!(e.include_system_messages && e.pretty_print);
    assert_eq!(MessageImportance::default(), MessageImportance::Normal);
}

#[test]
fn messages_are_converted_and_filtered() {
    let all = convert_messages_to_exportable(&chat(), &ExportSettings::default(), 42);
    assert_eq!(all.len(), 4);
    assert_eq!(all[0].id, "msg_0");
    assert_eq!(all[3].author, "Tool(calc)");
    assert_eq!(all[3].message_type, MessageType::Tool);
    assert!(all.iter().all(|m| m.timestamp == 42));
    let mut no_system = ExportSettings::default();
    no_system.include_system_messages = false;
    let r = convert_messages_to_exportable(&chat(), &no_system, 0);
    assert_eq!(r.iter().map(|m| m.id.as_str()).collect::<Vec<_>>(), vec!["msg_1", "msg_2", "msg_3"]);
    let mut only_user = ExportSettings::default();
    only_user.message_type_filter = Some(vec![MessageType::User]);
    let r = convert_messages_to_exportable(&chat(), &only_user, 0);
    assert_eq!(r.len(), 1);
    assert_eq!(r[0].id, "msg_1");
    assert_eq!(r[0].author, "User");
}

#[test]
fn validation_warnings() {
    let ms = vec![msg("a", MessageType::User, "x", 5, "User"), msg("a", MessageType::User, "y", 50, "User")];
    let w = validate_conversation_data(3, &ms, 10);
    assert_eq!(
        w,
        vec![
            "Duplicate message ID found: a".to_string(),
            "Message a has future timestamp".to_string(),
            "Metadata message count (3) doesn't match actual count (2)".to_string(),
        ]
    );
    assert_eq!(validate_conversation_data(0, &[], 0), vec!["Conversation contains no messages".to_string()]);
    assert!(validate_conversation_data(1, &ms[..1], 10).is_empty());
}

#[test]
fn import_ids_and_times() {
    let mut ms = vec![msg("x", MessageType::User, "a", 5, "User"), msg("y", MessageType::Assistant, "b", 6, "Assistant")];
    assign_message_ids("conv", &mut ms);
    assert_eq!(ms[0].id, "msg_conv_0");
    assert_eq!(ms[1].id, "msg_conv_1");
    assert_eq!(ms[1].content, "b");
    let mut m = meta(2);
    reset_timestamps(&mut m, &mut ms, 99);
    assert_eq!(m.started_at, 99);
    assert!(ms.iter().all(|x| x.timestamp == 99));
    let id = imported_conversation_id();
    assert!(id.starts_with("imported_"));
    let suffix = id.rsplit('_').next().unwrap();
    assert_eq!(suffix.len(), 8);
}

#[test]
fn text_formats() {
    let mut m = msg("m1", MessageType::User, "say \"hi\"\nnow", 3_661_000, "User");
    m.metadata.token_count = Some(7);
    let csv = convert_to_csv(&[m]);
    assert_eq!(
        csv,
        "timestamp,author,type,content,token_count,importance\n1970-01-01 01:01:01 UTC,User,User,\"say \"\"hi\"\" now\",7,Normal\n"
    );
    let ms = vec![msg("m1", MessageType::User, "a\nb", 0, "User")];
    let md = convert_to_markdown(&meta(1), &ms, 2, 0);
    assert!(md.starts_with("# Chat\n\n**Started:** 1970-01-01 00:00:00 UTC\n**User:** u\n**Session:** s\n**Messages:** 1\n\n## Conversation\n\n"));
    assert!(md.contains("### 👤 User (00:00:00)\n\na\nb\n\n"));
    assert!(md.ends_with("## Memory Blocks (2)\n\n"));
    let html = convert_to_html(&meta(1), &ms);
    assert!(html.contains("<div class=\"message user\">\n<strong>User</strong> <small>(00:00:00)</small>\n<p>a<br>b</p>\n</div>\n"));
    assert!(html.ends_with("</body>\n</html>"));
    let txt = convert_to_text(&meta(1), &ms);
    assert_eq!(txt, format!("Chat\nStarted: 1970-01-01 00:00:00 UTC\nMessages: 1\n\n{}\n[00:00:00] User: a\nb\n\n", "=".repeat(80)));
    let xml = convert_to_xml(&meta(1), &ms);
    assert!(xml.contains("  <started_at>1970-01-01T00:00:00+00:00</started_at>\n"));
    assert!(xml.contains("      <type>User</type>\n"));
    assert!(render_export(ExportFormat::Json, &meta(1), &ms, 0, 0).is_none());
    assert_eq!(render_export(ExportFormat::Txt, &meta(1), &ms, 0, 0), Some(txt));
}

#[test]
fn jsonl_import() {
    let recs = jsonl_records("{\"a\":1}\r\n\n   \n{\"b\":2}");
    assert_eq!(recs, vec!["{\"a\":1}".to_string(), "{\"b\":2}".to_string()]);
    let m = jsonl_import_metadata(2, 1700, 1_700_000);
    assert_eq!(m.id, "jsonl_import_1700");
    assert_eq!(m.title, "Imported JSONL Conversation");
    assert_eq!(m.user_id, "imported_user");
    assert_eq!(m.message_count, 2);
    assert_eq!(m.status, ConversationStatus::Active);
    assert!(check_importable(ExportFormat::Jsonl).is_ok());
    assert_eq!(check_importable(ExportFormat::Csv), Err("Import not yet supported for format: Csv".to_string()));
}

use luts::types::TimeRange;
use luts::agent_loop::{
    join_text_parts, AgentAction, AgentStyle, AgentTurn, ModelReply, ToolCallInfo, ToolCallRequest, ToolOutcome,
};
use luts::auto_save::{
    next_save_metadata,
    backups_to_remove, save_filename, saves_to_remove, should_periodic_save, AutoSaveConfig, AutoSaveState,
    AutoSaveType,
};
use luts::communication::{AgentMessage, MessageResponse, MessageType};
use luts::llm::{last_message_content, remove_tool, should_add_system_prompt, InternalChatMessage, ModelRole, ToolResponse};
use luts::openai::{
    agent_not_found_message, agent_reply_chunks, agent_tool_calls_to_openai, completion_usage, error_event_data,
    openai_to_luts_messages, stream_event_chunk, OpenAIChatMessage, OpenAIFunctionCall, OpenAIToolCall, StreamEvent,
};
use luts::summarization::{
    extract_key_facts, extract_message_ids, extract_participants, extract_topics, format_messages_for_summarization,
    should_summarize, SummarizationConfig, SummarizationStrategy,
};
use luts::types::{ExportFormat, Pagination, ProviderType, SortOrder};

fn strings(v: &[&str]) -> Vec<String> {
    v.iter().map(|s| s.to_string()).collect()
}

fn user(c: &str) -> InternalChatMessage {
    InternalChatMessage::User { content: c.to_string() }
}

#[test]
fn tool_loop_answers_after_a_tool_round() {
    let (mut turn, a) = AgentTurn::start(AgentStyle::Base, vec![], "m1".to_string(), "what is 2+2".to_string());
    assert!(matches!(a, AgentAction::CallModel));
    assert_eq!(turn.conversation().len(), 1);
    let a = turn.on_model_reply(ModelReply::ToolCalls(vec![ToolCallRequest {
        name: "calc".to_string(),
        args: "{\"expression\":\"2+2\"}".to_string(),
        call_id: "c1".to_string(),
    }]));
    match a {
        AgentAction::RunTool { name, args } => {
            assert_eq!(name, "calc");
            assert_eq!(args, "{\"expression\":\"2+2\"}");
            assert_eq!(turn.current_tool(), (name, args));
        },
        _ => panic!("expected a tool run"),
    }
    let a = turn.on_tool_result(ToolOutcome::Returned("4".to_string()));
    assert!(matches!(a, AgentAction::CallModel));
    let a = turn.on_model_reply(ModelReply::Text("It is 4.".to_string()));
    match a {
        AgentAction::Reply(r) => {
            assert!(r.success);
            assert_eq!(r.content, "It is 4.");
            assert_eq!(r.tool_calls.len(), 1);
            assert_eq!(r.tool_calls[0].tool_result, "4");
            assert!(r.tool_calls[0].success);
        },
        _ => panic!("expected a reply"),
    }
    let h = turn.into_history();
    // user, "Tool calls requested", tool result, final answer
    assert_eq!(h.len(), 4);
}

#[test]
fn tool_loop_stops_after_ten_model_calls() {
    let (mut turn, _) = AgentTurn::start(AgentStyle::Personality, vec![], "m2".to_string(), "loop".to_string());
    let mut calls = 0;
    loop {
        calls += 1;
        match turn.on_model_reply(ModelReply::ToolCalls(vec![])) {
            AgentAction::CallModel => continue,
            AgentAction::Reply(r) => {
                assert!(!r.success);
                assert_eq!(r.error, Some("Maximum tool execution iterations reached".to_string()));
                break;
            },
            AgentAction::RunTool { .. } => panic!("no tool was requested"),
        }
    }
    assert_eq!(calls, 10);
}

#[test]
fn tool_loop_errors() {
    let (mut turn, _) = AgentTurn::start(AgentStyle::Base, vec![], "m3".to_string(), "x".to_string());
    match turn.on_model_reply(ModelReply::Failed("timeout".to_string())) {
        AgentAction::Reply(r) => assert_eq!(r.error, Some("Failed to generate response: timeout".to_string())),
        _ => panic!(),
    }
    let (mut turn, _) = AgentTurn::start(AgentStyle::Base, vec![], "m3".to_string(), "x".to_string());
    match turn.on_model_reply(ModelReply::Parts(vec![None])) {
        AgentAction::Reply(r) => {
            assert_eq!(r.error, Some("LLM response contained only non-text parts (images, etc.)".to_string()))
        },
        _ => panic!(),
    }
    let (mut turn, _) = AgentTurn::start(AgentStyle::Base, vec![], "m3".to_string(), "x".to_string());
    turn.on_model_reply(ModelReply::ToolCalls(vec![ToolCallRequest {
        name: "nope".to_string(),
        args: "{}".to_string(),
        call_id: "c".to_string(),
    }]));
    turn.on_tool_result(ToolOutcome::NotFound("calc, search".to_string()));
    match turn.on_model_reply(ModelReply::Text("done".to_string())) {
        AgentAction::Reply(r) => {
            assert_eq!(r.tool_calls[0].tool_result, "Tool 'nope' not found. Available tools: calc, search");
            assert!(!r.tool_calls[0].success);
        },
        _ => panic!(),
    }
    assert_eq!(join_text_parts(&vec![Some("a".to_string()), None, Some("b".to_string())]), "a b");
}

#[test]
fn auto_save_decisions() {
    let config = AutoSaveConfig::default();
    let mut state = AutoSaveState::new(0);
    assert!(!should_periodic_save(&config, &state, 1000));
    for k in 1..5 {
        assert!(!state.record_message(k, config.save_on_message_count));
    }
    assert!(state.record_message(5, config.save_on_message_count));
    assert!(!should_periodic_save(&config, &state, 299));
    assert!(should_periodic_save(&config, &state, 300));
    state.record_save_success(10, 123);
    assert_eq!(state.current_sequence, 1);
    assert!(!state.has_unsaved_changes);
    assert_eq!(save_filename("20240101_120000", 7, AutoSaveType::Manual), "autosave_20240101_120000_0007_manual.json");
    assert_eq!(save_filename("t", 12345, AutoSaveType::Periodic), "autosave_t_12345_auto.json");
}

#[test]
fn old_saves_and_backups_are_picked() {
    let names = strings(&["autosave_a.json", "notes.txt", "autosave_b.json", "autosave_c.json", "x.backup"]);
    let created = [30u128, 99, 10, 20, 5];
    // keep the two newest saves (a at 30, c at 20): remove b
    assert_eq!(saves_to_remove(&names, &created, 2), vec![2]);
    assert_eq!(saves_to_remove(&names, &created, 0), vec![0, 2, 3]);
    assert_eq!(backups_to_remove(&names, &created, 6), vec![4]);
    assert!(backups_to_remove(&names, &created, 5).is_empty());
}

#[test]
fn summarization_helpers() {
    let c = SummarizationConfig::default();
    assert_eq!(c.strategy, SummarizationStrategy::Progressive);
    assert!(!should_summarize(9, &c, true));
    assert!(should_summarize(50, &c, false));
    assert!(should_summarize(20, &c, true));
    assert!(!should_summarize(20, &c, false));
    let ms = vec![
        InternalChatMessage::System { content: "s".to_string() },
        user("hi"),
        InternalChatMessage::Tool { tool_name: "calc".to_string(), content: "4".to_string(), call_id: None },
        user("again"),
    ];
    assert_eq!(format_messages_for_summarization(&ms), "System: s\n\nUser: hi\n\nTool (calc): 4\n\nUser: again");
    assert_eq!(extract_message_ids(&ms), strings(&["msg_0_1", "msg_1_2", "msg_2_1", "msg_3_5"]));
    assert_eq!(extract_participants(&ms), strings(&["System", "User", "Tool(calc)"]));
    let facts = extract_key_facts("Short. The user prefers dark mode everywhere. Another long sentence here indeed.");
    assert_eq!(facts, strings(&["The user prefers dark mode everywhere", "Another long sentence here indeed"]));
    assert_eq!(extract_topics("We discussed AI and Programming and finance"), strings(&["AI", "programming", "finance"]));
}

#[test]
fn llm_helpers() {
    let ms = vec![user("a"), InternalChatMessage::Assistant { content: "b".to_string(), tool_responses: None }];
    assert_eq!(last_message_content(&ms), "b");
    assert_eq!(last_message_content(&[]), "");
    assert!(should_add_system_prompt(true, &ms));
    assert!(!should_add_system_prompt(false, &ms));
    let tool = InternalChatMessage::Tool { tool_name: "t".to_string(), content: "r".to_string(), call_id: None };
    let (role, text) = tool.to_model_message();
    assert_eq!(role, ModelRole::Assistant);
    assert_eq!(text, "Tool result: r");
    let mut tools = strings(&["calc", "search"]);
    assert!(remove_tool(&mut tools, "calc").is_ok());
    assert_eq!(tools, strings(&["search"]));
    assert_eq!(remove_tool(&mut tools, "calc"), Err("Tool not found: calc".to_string()));
    let r = ToolResponse::new("t".to_string(), "c".to_string());
    assert!(r.call_id.is_none());
}

#[test]
fn openai_conversion_and_streaming() {
    let msgs = vec![
        OpenAIChatMessage { role: "system".to_string(), content: "s".to_string(), name: None, tool_calls: None, tool_call_id: None },
        OpenAIChatMessage {
            role: "assistant".to_string(),
            content: "".to_string(),
            name: None,
            tool_calls: Some(vec![OpenAIToolCall {
                id: "call1".to_string(),
                function: OpenAIFunctionCall { name: "calc".to_string(), arguments: "{}".to_string() },
            }]),
            tool_call_id: None,
        },
        OpenAIChatMessage { role: "weird".to_string(), content: "w".to_string(), name: None, tool_calls: None, tool_call_id: None },
    ];
    let r = openai_to_luts_messages(&msgs);
    assert!(matches!(&r[0], InternalChatMessage::System { content } if content == "s"));
    match &r[1] {
        InternalChatMessage::Assistant { tool_responses: Some(tr), .. } => {
            assert_eq!(tr[0].tool_name, "calc");
            assert_eq!(tr[0].call_id, Some("call1".to_string()));
        },
        _ => panic!(),
    }
    assert!(matches!(&r[2], InternalChatMessage::User { content } if content == "w"));
    let u = completion_usage(&msgs, "abcdefgh");
    assert_eq!((u.prompt_tokens, u.completion_tokens, u.total_tokens), (0, 2, 2));
    let calls = vec![ToolCallInfo {
        tool_name: "calc".to_string(),
        tool_args: "{}".to_string(),
        tool_result: "oops".to_string(),
        success: false,
        call_id: None,
    }];
    let oc = agent_tool_calls_to_openai(&calls).unwrap();
    assert_eq!(oc[0].id.len(), 36);
    assert!(agent_tool_calls_to_openai(&vec![]).is_none());
    let chunks = agent_reply_chunks("id", 1, "m", &calls, "final".to_string());
    assert_eq!(chunks.len(), 4);
    assert_eq!(chunks[0].choices[0].delta.role, Some("assistant".to_string()));
    assert_eq!(chunks[1].choices[0].delta.content, Some("🔧 Calling calc with args: {}\n✅ Result: ❌ Error: oops".to_string()));
    assert_eq!(chunks[3].choices[0].finish_reason, Some("stop".to_string()));
    let c = stream_event_chunk("id", 1, "m", StreamEvent::Chunk(String::new()));
    assert!(c.choices[0].delta.content.is_none());
    assert_eq!(error_event_data("bad"), "{\"error\":\"bad\"}");
    assert_eq!(agent_not_found_message("zed"), "Agent 'zed' not found");
}

#[test]
fn agent_messages() {
    let m = AgentMessage::new_chat("a".to_string(), "b".to_string(), "hi".to_string());
    assert_eq!(m.message_type, MessageType::Chat);
    assert_eq!(m.message_id.len(), 36);
    let t = AgentMessage::new_task_request("a".to_string(), "b".to_string(), "do".to_string(), None);
    assert!(t.correlation_id.is_some());
    let r = MessageResponse::error("m1".to_string(), "bad".to_string());
    assert!(!r.success);
    assert_eq!(r.error, Some("bad".to_string()));
}

#[test]
fn common_types() {
    assert_eq!(ExportFormat::Json.as_str(), "json");
    assert_eq!(SortOrder::default(), SortOrder::Descending);
    let p = Pagination::page(3, 20);
    assert_eq!(p.get_offset(), 60);
    assert_eq!(Pagination::default().page_size, 50);
    let _ = ProviderType::OpenAI.as_str();
}

#[test]
fn next_save_header_follows_the_state() {
    let mut state = AutoSaveState::new(1_000);
    state.current_sequence = 4;
    let config = AutoSaveConfig::default();
    let m = next_save_metadata(&state, &config, 1_700_000_000_000);
    assert_eq!(m.sequence, 5);
    assert_eq!(m.version, "1.0");
    assert_eq!(m.created_at, 1_700_000_000_000);
    assert_eq!(m.user_id, "default_user");
    assert_eq!(m.session_id, "default_session");
    assert_eq!(m.app_version, "0.1.0");
    assert!(m.is_incremental);
    assert!(m.file_size.is_none() && m.checksum.is_none() && m.previous_save.is_none());
}

fn req(name: &str, args: &str, id: &str) -> ToolCallRequest {
    ToolCallRequest { name: name.to_string(), args: args.to_string(), call_id: id.to_string() }
}

#[test]
fn tool_calls_are_recorded_in_order_with_their_ids() {
    let (mut turn, _) = AgentTurn::start(AgentStyle::Base, vec![], "msg-7".to_string(), "go".to_string());
    match turn.on_model_reply(ModelReply::ToolCalls(vec![req("a", "{1}", "c1"), req("b", "{2}", "c2")])) {
        AgentAction::RunTool { name, .. } => assert_eq!(name, "a"),
        _ => panic!("expected a tool run"),
    }
    match turn.on_tool_result(ToolOutcome::Failed("boom".to_string())) {
        AgentAction::RunTool { name, args } => {
            assert_eq!(name, "b");
            assert_eq!(args, "{2}");
        },
        _ => panic!("expected the second tool"),
    }
    assert!(matches!(turn.on_tool_result(ToolOutcome::Returned("ok".to_string())), AgentAction::CallModel));
    match turn.on_model_reply(ModelReply::Text("done".to_string())) {
        AgentAction::Reply(r) => {
            assert_eq!(r.in_response_to, "msg-7");
            assert_eq!(r.tool_calls.len(), 2);
            assert_eq!(r.tool_calls[0].tool_name, "a");
            assert_eq!(r.tool_calls[0].tool_args, "{1}");
            assert_eq!(r.tool_calls[0].tool_result, "Error executing tool a: boom");
            assert!(!r.tool_calls[0].success);
            assert_eq!(r.tool_calls[0].call_id, Some("c1".to_string()));
            assert_eq!(r.tool_calls[1].tool_result, "ok");
            assert!(r.tool_calls[1].success);
            assert_eq!(r.tool_calls[1].call_id, Some("c2".to_string()));
        },
        _ => panic!("expected a reply"),
    }
}

#[test]
fn tool_round_at_the_last_model_call_ends_the_turn() {
    let (mut turn, _) = AgentTurn::start(AgentStyle::Personality, vec![], "m9".to_string(), "go".to_string());
    for _ in 0..9 {
        assert!(matches!(turn.on_model_reply(ModelReply::ToolCalls(vec![])), AgentAction::CallModel));
    }
    assert!(matches!(turn.on_model_reply(ModelReply::ToolCalls(vec![req("t", "{}", "c")])), AgentAction::RunTool { .. }));
    match turn.on_tool_result(ToolOutcome::Returned("1".to_string())) {
        AgentAction::Reply(r) => {
            assert!(!r.success);
            assert_eq!(r.content, "");
            assert_eq!(r.error, Some("Maximum tool execution iterations reached".to_string()));
            assert_eq!(r.in_response_to, "m9");
        },
        _ => panic!("expected the turn to end"),
    }
}

#[test]
fn time_ranges() {
    let r = TimeRange::ending_at(1_000_000_000, 2, 86_400_000).unwrap();
    assert_eq!(r.start, 1_000_000_000 - 172_800_000);
    assert!(r.contains(r.start));
    assert!(r.contains(r.end));
    assert!(!r.contains(r.end + 1));
    assert!(!r.contains(r.start - 1));
    assert_eq!(TimeRange::ending_at(0, i64::MAX, 86_400_000), None);
    let d = TimeRange::last_days(1).unwrap();
    assert_eq!(d.end - d.start, 86_400_000);
    let h = TimeRange::last_hours(3).unwrap();
    assert_eq!(h.end - h.start, 3 * 3_600_000);
    assert!(h.contains(h.end - 1));
}

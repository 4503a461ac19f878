use luts::core_block_tool::{modify_core_block, ContentOperation, ModifyCoreBlockTool};
use luts::core_blocks::{CoreBlockManager, CoreBlockType};

fn text_of(manager: &mut CoreBlockManager, t: CoreBlockType) -> Option<String> {
    manager.get_block(t).and_then(|b| b.get_text_content().map(|s| s.to_string()))
}

#[test]
fn test_modify_core_block_replace() {
    let mut tool = ModifyCoreBlockTool::new("test_user", None);
    let change = tool.execute(
        "UserPersona",
        "I am a software engineer specializing in Rust and AI systems.",
        Some("replace"),
    )
    .unwrap();
    assert_eq!(change.block_type, CoreBlockType::UserPersona);
    assert_eq!(change.operation, ContentOperation::Replace);
    assert_eq!(change.message, "Successfully replaced UserPersona core block");
    assert_eq!(
        text_of(&mut tool.core_block_manager, CoreBlockType::UserPersona).as_deref(),
        Some("I am a software engineer specializing in Rust and AI systems.")
    );
}

#[test]
fn test_modify_core_block_append() {
    let mut tool = ModifyCoreBlockTool::new("test_user", None);
    tool.execute("KeyFacts", "The user prefers concise explanations.", Some("replace")).unwrap();
    let change = tool.execute("KeyFacts", "The user is working on a TUI application.", Some("append")).unwrap();
    assert_eq!(change.operation, ContentOperation::Append);
    assert_eq!(change.message, "Successfully appended to KeyFacts core block");
    assert_eq!(
        change.content,
        "The user prefers concise explanations.\n\nThe user is working on a TUI application."
    );
}

#[test]
fn prepend_goes_first_and_default_is_replace() {
    let mut manager = CoreBlockManager::new("u", None);
    modify_core_block(&mut manager, "ActiveGoals", "ship it", None).unwrap();
    let change = modify_core_block(&mut manager, "ActiveGoals", "test it", Some("prepend")).unwrap();
    assert_eq!(change.content, "test it\n\nship it");
    assert_eq!(change.message, "Successfully prepended to ActiveGoals core block");
}

#[test]
fn invalid_requests_are_reported() {
    let mut manager = CoreBlockManager::new("u", None);
    assert_eq!(
        modify_core_block(&mut manager, "Nonsense", "x", None).unwrap_err(),
        "Invalid block_type: Nonsense"
    );
    assert_eq!(manager.block_count(), 0);
    assert_eq!(
        modify_core_block(&mut manager, "KeyFacts", "x", Some("merge")).unwrap_err(),
        "Invalid operation: merge. Use 'replace', 'append', or 'prepend'"
    );
    assert!(manager.block_count() > 0);
}

#[test]
fn stats_are_given_when_usage_fits() {
    let mut manager = CoreBlockManager::new("u", None);
    modify_core_block(&mut manager, "WorkingMemory", "abcdefgh", None).unwrap();
    let stats = manager.try_get_stats().unwrap();
    assert_eq!(manager.checked_token_usage(), Some(stats.token_usage));
    assert!(stats.active_blocks >= 1);
}

#[test]
fn test_invalid_block_type() {
    let mut tool = ModifyCoreBlockTool::new("test_user", None);
    let result = tool.execute("InvalidType", "Some content", None);
    assert!(result.is_err());
    assert!(result.unwrap_err().contains("Invalid block_type"));
}

#[test]
fn test_system_prompt_modification() {
    let mut tool = ModifyCoreBlockTool::new("test_user", None);
    let prompt = "You are a helpful AI assistant with expertise in Rust programming. Always provide code examples when explaining concepts.";
    let change = tool.execute("SystemPrompt", prompt, Some("replace")).unwrap();
    assert_eq!(change.block_type, CoreBlockType::SystemPrompt);
    assert_eq!(text_of(&mut tool.core_block_manager, CoreBlockType::SystemPrompt).as_deref(), Some(prompt));
}

#[test]
fn modify_tool_metadata() {
    let tool = ModifyCoreBlockTool::from_manager(CoreBlockManager::new("u", None));
    assert_eq!(tool.name(), "modify_core_block");
    assert!(tool.description().contains("core context blocks"));
    let schema: serde_json::Value = serde_json::from_str(tool.schema()).unwrap();
    assert_eq!(schema["type"].as_str(), Some("object"));
    assert_eq!(schema["properties"]["operation"]["default"].as_str(), Some("replace"));
    assert_eq!(schema["properties"]["block_type"]["enum"].as_array().unwrap().len(), 8);
    assert_eq!(schema["required"].as_array().unwrap().len(), 2);
}

use luts::agents::{
    agent_data_dir, base_tool_kind, personality_config, personality_tool_kind, Personality,
    PersonalityAgentBuilder, ToolKind,
};

#[test]
fn personalities_are_listed_in_order() {
    let list = PersonalityAgentBuilder::list_personalities();
    assert_eq!(list.len(), 5);
    assert_eq!(list[0], ("researcher", "Dr. Research", "Thorough analyst and fact-finder"));
    assert_eq!(list[4], ("pragmatic", "Practical", "Efficient and solution-focused"));
}

#[test]
fn personalities_resolve_ignoring_case() {
    assert_eq!(PersonalityAgentBuilder::personality_of("Researcher"), Ok(Personality::Researcher));
    assert_eq!(PersonalityAgentBuilder::personality_of("PRAGMATIC"), Ok(Personality::Pragmatic));
    assert_eq!(
        PersonalityAgentBuilder::personality_of("wizard"),
        Err("Unknown personality type: wizard. Available: researcher, calculator, creative, coordinator, pragmatic".to_string())
    );
}

#[test]
fn personality_configs() {
    let c = personality_config(Personality::Calculator, "/data", "openai");
    assert_eq!(c.agent_id, "calculator");
    assert_eq!(c.name, "Logic");
    assert_eq!(c.tool_names, vec!["calc".to_string()]);
    assert_eq!(c.provider, "openai");
    assert!(c.system_prompt.unwrap().starts_with("You are Logic, a precise and methodical mathematical mind."));
    let r = personality_config(Personality::Researcher, "/d", "p");
    assert_eq!(r.tool_names.len(), 5);
    assert!(personality_config(Personality::Creative, "/d", "p").tool_names.is_empty());
}

#[test]
fn tool_kinds_and_dirs() {
    assert_eq!(base_tool_kind("calculator"), ToolKind::Calculator);
    assert_eq!(base_tool_kind("calc"), ToolKind::Calculator);
    assert_eq!(base_tool_kind("modify_core_block"), ToolKind::ModifyCoreBlock);
    assert_eq!(base_tool_kind("nope"), ToolKind::Unknown);
    assert_eq!(personality_tool_kind("calculator"), ToolKind::Unknown);
    assert_eq!(personality_tool_kind("delete_block"), ToolKind::DeleteBlock);
    assert_eq!(agent_data_dir("./data", "researcher"), "./data/agents/researcher");
}

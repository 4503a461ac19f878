use luts::agents_api::{
    check_agent_name_available, default_agents_to_seed, get_default_agents, validate_create_request,
    AgentConfig, AgentConfigUpdate, CreateAgentRequest,
};

#[test]
fn test_agent_id_generation() {
    let agent = AgentConfig::new_custom(
        "Test Agent".to_string(),
        "Test Role".to_string(),
        "Test Description".to_string(),
        vec![],
        vec![],
        None,
        "from-blue-500 to-cyan-500".to_string(),
        None,
        None,
    );

    assert!(agent.id.starts_with("test-agent-"));
    assert!(agent.custom);
    assert!(agent.created_at.is_some());
    assert!(agent.updated_at.is_some());
}

#[test]
fn test_default_agents() {
    let agents = get_default_agents();
    assert_eq!(agents.len(), 5);
    assert!(agents.iter().all(|a| !a.custom));
    assert!(agents.iter().any(|a| a.id == "researcher"));
    assert!(agents.iter().any(|a| a.id == "calculator"));
    assert!(agents.iter().any(|a| a.id == "creative"));
    assert!(agents.iter().any(|a| a.id == "coordinator"));
    assert!(agents.iter().any(|a| a.id == "pragmatic"));
}

#[test]
fn generated_id_is_slug_dash_eight_hex_digits() {
    let id = AgentConfig::generate_id("My  Cool_Agent!");
    // lowercase, every other character to a dash, outer dashes trimmed, then a dash and 8 hex digits
    assert!(id.starts_with("my--cool-agent-"));
    let suffix = &id["my--cool-agent-".len()..];
    assert_eq!(suffix.len(), 8);
    assert!(suffix.chars().all(|c| c.is_ascii_hexdigit() && !c.is_ascii_uppercase()));
}

#[test]
fn update_changes_only_given_fields() {
    let agent = AgentConfig::new_custom(
        "Alpha".to_string(),
        "Role".to_string(),
        "Desc".to_string(),
        vec!["a".to_string()],
        vec!["calculator".to_string()],
        None,
        "red".to_string(),
        None,
        None,
    );
    let id = agent.id.clone();
    let updated = agent.update(AgentConfigUpdate {
        name: Some("Beta".to_string()),
        role: None,
        description: None,
        capabilities: None,
        tools: Some(vec![]),
        icon: Some("*".to_string()),
        color: None,
        system_prompt: None,
        provider: Some("openai".to_string()),
    });
    assert_eq!(updated.id, id);
    assert_eq!(updated.name, "Beta");
    assert_eq!(updated.role, "Role");
    assert_eq!(updated.description, "Desc");
    assert_eq!(updated.capabilities, vec!["a".to_string()]);
    assert!(updated.tools.is_empty());
    assert_eq!(updated.icon, Some("*".to_string()));
    assert_eq!(updated.color, "red");
    assert_eq!(updated.provider, Some("openai".to_string()));
    assert!(updated.updated_at.is_some());
}

#[test]
fn default_agents_are_seeded_only_when_missing() {
    let all = default_agents_to_seed(&[]);
    assert_eq!(all.len(), 5);
    let some = default_agents_to_seed(&["researcher".to_string(), "creative".to_string()]);
    assert_eq!(some.len(), 3);
    assert!(some.iter().all(|a| a.id != "researcher" && a.id != "creative"));
}

fn request(name: &str, role: &str, description: &str) -> CreateAgentRequest {
    CreateAgentRequest {
        name: name.to_string(),
        role: role.to_string(),
        description: description.to_string(),
        capabilities: None,
        tools: None,
        icon: None,
        color: None,
        system_prompt: None,
        provider: None,
    }
}

#[test]
fn create_request_validation_errors() {
    assert!(validate_create_request(&request("A", "R", "D")).is_ok());
    let e = validate_create_request(&request("   ", "R", "D")).unwrap_err();
    assert_eq!(e.status, 400);
    let e = validate_create_request(&request("A", "", "D")).unwrap_err();
    assert_eq!(e.status, 400);
    let e = validate_create_request(&request("A", "R", " ")).unwrap_err();
    assert_eq!(e.status, 400);
}

#[test]
fn duplicate_agent_name_is_a_conflict() {
    let names = vec!["Researcher".to_string(), "Other".to_string()];
    assert!(check_agent_name_available("New", &names).is_ok());
    let e = check_agent_name_available("Other", &names).unwrap_err();
    assert_eq!(e.status, 409);
}

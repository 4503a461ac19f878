use luts::llm::InternalChatMessage;
use luts::openai::{route_completion, ChatCompletionRequest, CompletionRoute};
use luts::communication::{AgentMessage, MessageResponse};
use luts::registry::{AgentInfo, AgentRegistry};
use luts::tools::{DDGSearchTool, MathTool, WebsiteTool};
use serde_json::Value;

struct MockAgent {
    name: String,
}

impl MockAgent {
    fn process_message(&self, message: AgentMessage) -> MessageResponse {
        MessageResponse::success(
            message.message_id,
            format!("Echo from {}: {}", self.name, message.content),
            None,
        )
    }
}

fn info(id: &str, name: &str, role: &str) -> AgentInfo {
    AgentInfo { agent_id: id.to_string(), name: name.to_string(), role: role.to_string() }
}

fn mock(name: &str) -> MockAgent {
    MockAgent { name: name.to_string() }
}

#[test]
fn test_agent_registration() {
    let mut registry: AgentRegistry<MockAgent> = AgentRegistry::new();
    registry.register_agent(info("test_agent", "Test Agent", "test"), mock("Test Agent")).unwrap();
    assert!(registry.has_agent("test_agent"));

    let agents = registry.list_agents();
    assert_eq!(agents.len(), 1);
    assert_eq!(agents[0], "test_agent");
}

#[test]
fn test_message_routing() {
    let mut registry: AgentRegistry<MockAgent> = AgentRegistry::new();
    registry.register_agent(info("echo_agent", "Echo Agent", "echo"), mock("Echo Agent")).unwrap();

    let message = AgentMessage::new_chat(
        "user".to_string(),
        "echo_agent".to_string(),
        "Hello, agent!".to_string(),
    );
    let to = message.to_agent_id.clone();
    let target = registry.target_agent(&to).unwrap();
    let response = target.process_message(message);
    assert!(response.success);
    assert!(response.content.contains("Echo from Echo Agent: Hello, agent!"));
}

#[test]
fn test_duplicate_registration_refused() {
    let mut registry: AgentRegistry<MockAgent> = AgentRegistry::new();
    registry.register_agent(info("a", "A", "r"), mock("A")).unwrap();
    let err = registry.register_agent(info("a", "B", "r"), mock("B")).unwrap_err();
    assert_eq!(err, "Agent with ID a already exists");
    assert_eq!(registry.list_agents(), vec!["a".to_string()]);
    assert_eq!(
        registry.get_agent_info("a"),
        Some(("a".to_string(), "A".to_string(), "r".to_string()))
    );
}

#[test]
fn test_unregister_agent() {
    let mut registry: AgentRegistry<MockAgent> = AgentRegistry::new();
    registry.register_agent(info("a", "A", "r1"), mock("A")).unwrap();
    registry.register_agent(info("b", "B", "r2"), mock("B")).unwrap();
    registry.register_agent(info("c", "C", "r3"), mock("C")).unwrap();
    registry.unregister_agent("b").unwrap();
    assert!(!registry.has_agent("b"));
    assert_eq!(registry.list_agents(), vec!["a".to_string(), "c".to_string()]);
    assert_eq!(registry.unregister_agent("b").unwrap_err(), "Agent b not found");
    assert_eq!(registry.get_agent_info("b"), None);
    assert_eq!(
        registry.get_agent_info("c"),
        Some(("c".to_string(), "C".to_string(), "r3".to_string()))
    );
}

#[test]
fn test_unregister_then_register_again() {
    let mut registry: AgentRegistry<MockAgent> = AgentRegistry::new();
    registry.register_agent(info("x", "X", "r"), mock("X")).unwrap();
    registry.unregister_agent("x").unwrap();
    assert!(registry.list_agents().is_empty());
    registry.register_agent(info("x", "Y", "r"), mock("Y")).unwrap();
    assert_eq!(registry.target_agent("x").unwrap().name, "Y");
}

#[test]
fn test_missing_target() {
    let registry: AgentRegistry<MockAgent> = AgentRegistry::new();
    match registry.target_agent("nobody") {
        Err(e) => assert_eq!(e, "Target agent nobody not found"),
        Ok(_) => panic!("an unregistered target was found"),
    }
}

fn parse(text: &str) -> Value {
    serde_json::from_str(text).unwrap()
}

fn required_contains(schema: &Value, name: &str) -> bool {
    schema["required"].as_array().unwrap().contains(&Value::String(name.to_string()))
}

#[test]
fn calc_test_tool_metadata() {
    let tool = MathTool;

    assert_eq!(tool.name(), "calculator");
    assert!(!tool.description().is_empty());

    let schema = parse(tool.schema());
    assert!(schema["type"].as_str() == Some("object"));
    assert!(schema["properties"]["expression"].is_object());
    assert!(required_contains(&schema, "expression"));
}

#[test]
fn search_test_tool_metadata() {
    let tool = DDGSearchTool;

    assert_eq!(tool.name(), "search");
    assert!(!tool.description().is_empty());
    assert!(tool.description().contains("DuckDuckGo"));

    let schema = parse(tool.schema());
    assert!(schema["type"].as_str() == Some("object"));
    assert!(schema["properties"]["query"].is_object());
    assert!(required_contains(&schema, "query"));
}

#[test]
fn website_test_tool_metadata() {
    let tool = WebsiteTool;

    assert_eq!(tool.name(), "website");
    assert!(!tool.description().is_empty());
    assert!(tool.description().contains("website") || tool.description().contains("content"));

    let schema = parse(tool.schema());
    assert!(schema["type"].as_str() == Some("object"));
    assert!(schema["properties"]["website"].is_object());
    assert!(required_contains(&schema, "website"));
}

#[test]
fn test_schema_property_kinds() {
    let schema = parse(DDGSearchTool.schema());
    assert_eq!(schema["properties"]["num_results"]["type"].as_str(), Some("integer"));
    let schema = parse(WebsiteTool.schema());
    assert_eq!(schema["properties"]["render"]["type"].as_str(), Some("string"));
    assert_eq!(schema["required"].as_array().unwrap().len(), 1);
}

const PAGE: &str = r#"<html><body>
<div class="web-result"><a class="result__a">Rust</a><a class="result__url"> rust-lang.org </a><a class="result__snippet">A language</a></div>
<div class="web-result"><a class="result__a"></a><a class="result__url">x.com</a></div>
<div class="web-result"><a class="result__a">Two</a><a class="result__url">two.org</a></div>
</body></html>"#;

#[test]
fn search_results_are_read_from_the_page() {
    let hits = luts::tools::search_results_from_page(PAGE, None);
    assert_eq!(hits.len(), 2);
    assert_eq!(hits[0].title, "Rust");
    assert_eq!(hits[0].link, "rust-lang.org");
    assert_eq!(hits[0].snippet, "A language");
    assert_eq!(hits[1].title, "Two");
    assert_eq!(hits[1].link, "two.org");
    assert_eq!(hits[1].snippet, "");
    assert_eq!(luts::tools::search_results_from_page(PAGE, Some(1)).len(), 1);
    assert!(luts::tools::search_results_from_page("<p>nothing</p>", None).is_empty());
}

#[test]
fn website_content_by_render_mode() {
    let page = "<h1>Title</h1><p>Body text</p>";
    assert_eq!(luts::tools::website_content(page, Some("html")).unwrap(), page);
    let md = luts::tools::website_content(page, None).unwrap();
    assert!(md.contains("Title"));
    assert!(md.contains("Body text"));
    assert!(!md.contains("<h1>"));
    assert_eq!(
        luts::tools::website_content(page, Some("pdf")).unwrap_err(),
        "Invalid 'render' parameter, must be 'html' or 'md'"
    );
}

#[test]
fn completions_to_unknown_agents_are_refused() {
    let mut registry: AgentRegistry<MockAgent> = AgentRegistry::new();
    registry.register_agent(info("researcher", "R", "research"), mock("R")).unwrap();
    let messages = vec![InternalChatMessage::User { content: "hello".to_string() }];
    let request = |agent: Option<&str>| ChatCompletionRequest {
        model: "m".to_string(),
        messages: vec![],
        stream: None,
        agent: agent.map(|a| a.to_string()),
    };
    match route_completion(&request(Some("researcher")), &messages, &registry).unwrap() {
        CompletionRoute::Agent { agent_id, content } => {
            assert_eq!(agent_id, "researcher");
            assert_eq!(content, "hello");
        },
        CompletionRoute::Model => panic!("expected the agent"),
    }
    assert!(matches!(route_completion(&request(None), &messages, &registry).unwrap(), CompletionRoute::Model));
    let err = route_completion(&request(Some("ghost")), &messages, &registry).unwrap_err();
    assert_eq!(err, (400, "Agent 'ghost' not found".to_string()));
}

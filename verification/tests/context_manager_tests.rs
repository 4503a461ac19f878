use luts::context_manager::ContextManager;

#[derive(Debug, PartialEq)]
struct MockProvider {
    name: String,
}

fn mock(name: &str) -> MockProvider {
    MockProvider { name: name.to_string() }
}

#[test]
fn first_added_provider_is_the_default() {
    let mut manager: ContextManager<MockProvider> = ContextManager::new();
    assert_eq!(manager.default_provider(), None);
    manager.add_provider("mock1", mock("mock1"));
    manager.add_provider("mock2", mock("mock2"));
    assert_eq!(manager.default_provider(), Some("mock1".to_string()));

    let providers = manager.list_providers();
    assert_eq!(providers.len(), 2);
    assert!(providers.contains(&"mock1".to_string()));
    assert!(providers.contains(&"mock2".to_string()));
}

#[test]
fn requests_go_to_the_named_or_default_provider() {
    let mut manager: ContextManager<MockProvider> = ContextManager::new();
    assert_eq!(manager.get_provider(None).unwrap_err(), "No default provider set");
    manager.add_provider("mock1", mock("first"));
    manager.add_provider("mock2", mock("second"));
    assert_eq!(manager.get_provider(None).unwrap().name, "first");
    assert_eq!(manager.get_provider(Some("mock2")).unwrap().name, "second");
    assert_eq!(manager.get_provider(Some("mock3")).unwrap_err(), "Provider 'mock3' not found");
}

#[test]
fn adding_a_name_again_replaces_its_provider() {
    let mut manager: ContextManager<MockProvider> = ContextManager::new();
    manager.add_provider("mock1", mock("old"));
    manager.add_provider("mock1", mock("new"));
    assert_eq!(manager.list_providers(), vec!["mock1".to_string()]);
    assert_eq!(manager.get_provider(Some("mock1")).unwrap().name, "new");
}

#[test]
fn setting_the_default_provider() {
    let mut manager: ContextManager<MockProvider> = ContextManager::new();
    manager.add_provider("mock1", mock("mock1"));
    manager.add_provider("mock2", mock("mock2"));
    manager.set_default_provider("mock2").unwrap();
    assert_eq!(manager.default_provider(), Some("mock2".to_string()));
    assert_eq!(manager.set_default_provider("nope").unwrap_err(), "Provider 'nope' not found");
    assert_eq!(manager.default_provider(), Some("mock2".to_string()));
}

#[test]
fn removing_the_default_picks_another() {
    let mut manager: ContextManager<MockProvider> = ContextManager::new();
    manager.add_provider("a", mock("a"));
    manager.add_provider("b", mock("b"));
    manager.add_provider("c", mock("c"));
    manager.remove_provider("a").unwrap();
    assert_eq!(manager.default_provider(), Some("b".to_string()));
    assert_eq!(manager.list_providers(), vec!["b".to_string(), "c".to_string()]);
    manager.remove_provider("c").unwrap();
    assert_eq!(manager.default_provider(), Some("b".to_string()));
    manager.remove_provider("b").unwrap();
    assert_eq!(manager.default_provider(), None);
    assert_eq!(manager.remove_provider("b").unwrap_err(), "Provider 'b' not found");
}

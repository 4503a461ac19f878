use luts::core_blocks::{CoreBlock, CoreBlockConfig, CoreBlockError, CoreBlockManager, CoreBlockType};

#[test]
fn test_core_block_creation() {
    let block = CoreBlock::new(CoreBlockType::SystemPrompt, "user1", None);
    assert_eq!(block.core_type, CoreBlockType::SystemPrompt);
    assert!(block.is_active);
    assert!(block.get_text_content().is_some());
}

#[test]
fn test_core_block_manager() {
    let mut manager = CoreBlockManager::new("user1", None);
    manager.initialize().unwrap();

    // Should have auto-created core blocks
    assert!(manager.block_count() > 0);

    // Test updating a block
    manager
        .update_block(
            CoreBlockType::UserPersona,
            "User is a software developer interested in AI".to_string(),
        )
        .unwrap();

    let context = manager.format_for_context();
    assert!(context.contains("software developer"));
}

#[test]
fn test_core_block_priorities() {
    assert!(CoreBlockType::SystemPrompt.priority() < CoreBlockType::WorkingMemory.priority());
    assert!(CoreBlockType::UserPersona.priority() < CoreBlockType::ActiveGoals.priority());
}

#[test]
fn initialize_creates_exactly_the_auto_created_types() {
    let mut manager = CoreBlockManager::new("u", None);
    manager.initialize().unwrap();
    let expected = CoreBlockType::all_types().iter().filter(|t| t.auto_create()).count();
    assert_eq!(manager.block_count(), expected);
    // initializing twice changes nothing
    manager.initialize().unwrap();
    assert_eq!(manager.block_count(), expected);
}

#[test]
fn update_then_get_returns_the_new_text() {
    let mut manager = CoreBlockManager::new("u", None);
    manager.update_block(CoreBlockType::KeyFacts, "likes tea".to_string()).unwrap();
    let b = manager.get_block(CoreBlockType::KeyFacts).unwrap();
    assert_eq!(b.get_text_content(), Some("likes tea"));
}

#[test]
fn activate_of_missing_block_without_auto_create_fails() {
    let config = CoreBlockConfig {
        total_token_budget: 2000,
        auto_create_missing: false,
        auto_update_enabled: true,
        min_active_blocks: 3,
        max_active_blocks: 8,
    };
    let mut manager = CoreBlockManager::new("u", Some(config));
    manager.initialize().unwrap();
    assert_eq!(manager.block_count(), 0);
    let r = manager.activate_block(CoreBlockType::KeyFacts);
    assert_eq!(r, Err(CoreBlockError::NotFoundAutoCreateDisabled(CoreBlockType::KeyFacts)));
    assert!(manager.get_block(CoreBlockType::KeyFacts).is_none());
    // updating creates the block even without automatic creation
    manager.update_block(CoreBlockType::KeyFacts, "x".to_string()).unwrap();
    assert_eq!(manager.block_count(), 1);
}

#[test]
fn deactivate_of_missing_block_is_not_found() {
    let mut manager = CoreBlockManager::new("u", None);
    assert_eq!(
        manager.deactivate_block(CoreBlockType::ActiveGoals),
        Err(CoreBlockError::NotFound(CoreBlockType::ActiveGoals))
    );
}

#[test]
fn essential_blocks_cannot_be_deactivated() {
    let mut manager = CoreBlockManager::new("u", None);
    manager.initialize().unwrap();
    assert_eq!(
        manager.deactivate_block(CoreBlockType::SystemPrompt),
        Err(CoreBlockError::Essential(CoreBlockType::SystemPrompt))
    );
    assert!(manager.deactivate_block(CoreBlockType::TaskContext).is_ok());
    let active = manager.get_active_blocks();
    assert!(active.iter().all(|b| b.core_type != CoreBlockType::TaskContext));
}

#[test]
fn active_blocks_come_in_priority_order() {
    let mut manager = CoreBlockManager::new("u", None);
    manager.initialize().unwrap();
    let active = manager.get_active_blocks();
    for w in active.windows(2) {
        assert!(w[0].core_type.priority() <= w[1].core_type.priority());
    }
}

#[test]
fn format_for_context_has_a_section_per_active_block() {
    let mut manager = CoreBlockManager::new("u", None);
    manager.update_block(CoreBlockType::UserPersona, "persona text".to_string()).unwrap();
    let ctx = manager.format_for_context();
    assert!(ctx.contains("persona text"));
}

#[test]
fn stats_count_blocks() {
    let mut manager = CoreBlockManager::new("u", None);
    manager.initialize().unwrap();
    let stats = manager.get_stats();
    assert_eq!(stats.total_blocks, manager.block_count());
    assert!(stats.active_blocks <= stats.total_blocks);
    assert_eq!(stats.token_budget, 3000);
}

#[test]
fn activating_a_missing_block_creates_it_active() {
    let mut manager = CoreBlockManager::new("u", None);
    manager.activate_block(CoreBlockType::ConversationSummary).unwrap();
    let b = manager.get_block(CoreBlockType::ConversationSummary).unwrap();
    assert!(b.is_active);
}

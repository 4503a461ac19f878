//! Core context blocks: the persistent blocks (system prompt, user persona,
//! working memory, ...) that are kept in the AI context window, and the
//! manager that creates, updates, activates and budgets them.

use vstd::prelude::*;
use crate::clock::unix_millis;
use crate::memory::{BlockId, BlockType, MemoryBlock, MemoryContent};
use crate::text::push_str;

verus! {

/// Types of core context blocks that persist across conversations.
#[derive(Debug, Clone, Copy, PartialEq, Eq, Structural, Hash)]
pub enum CoreBlockType {
    SystemPrompt,
    UserPersona,
    TaskContext,
    KeyFacts,
    UserPreferences,
    ConversationSummary,
    ActiveGoals,
    WorkingMemory,
}

/// Priority of a core block type (lower is higher priority); it is also the
/// type's position in the priority order.
pub open spec fn priority_of(t: CoreBlockType) -> nat {
    match t {
        CoreBlockType::SystemPrompt => 0,
        CoreBlockType::UserPersona => 1,
        CoreBlockType::TaskContext => 2,
        CoreBlockType::KeyFacts => 3,
        CoreBlockType::UserPreferences => 4,
        CoreBlockType::ConversationSummary => 5,
        CoreBlockType::ActiveGoals => 6,
        CoreBlockType::WorkingMemory => 7,
    }
}

/// The core block type of a given priority.
pub open spec fn type_at(p: nat) -> CoreBlockType {
    if p == 0 {
        CoreBlockType::SystemPrompt
    } else if p == 1 {
        CoreBlockType::UserPersona
    } else if p == 2 {
        CoreBlockType::TaskContext
    } else if p == 3 {
        CoreBlockType::KeyFacts
    } else if p == 4 {
        CoreBlockType::UserPreferences
    } else if p == 5 {
        CoreBlockType::ConversationSummary
    } else if p == 6 {
        CoreBlockType::ActiveGoals
    } else {
        CoreBlockType::WorkingMemory
    }
}

/// Whether blocks of this type are created automatically.
pub open spec fn auto_create_of(t: CoreBlockType) -> bool {
    !(t == CoreBlockType::ConversationSummary || t == CoreBlockType::ActiveGoals)
}

/// Whether blocks of this type are essential (never deactivated).
pub open spec fn essential_type(t: CoreBlockType) -> bool {
    t == CoreBlockType::SystemPrompt || t == CoreBlockType::UserPersona || t
        == CoreBlockType::WorkingMemory
}

/// Token budget of a block of this type.
pub open spec fn max_tokens_of(t: CoreBlockType) -> u32 {
    match t {
        CoreBlockType::SystemPrompt => 500,
        CoreBlockType::UserPersona => 300,
        CoreBlockType::TaskContext => 400,
        CoreBlockType::KeyFacts => 600,
        CoreBlockType::UserPreferences => 200,
        CoreBlockType::ConversationSummary => 800,
        CoreBlockType::ActiveGoals => 300,
        CoreBlockType::WorkingMemory => 400,
    }
}

/// The default content template of this type.
pub open spec fn template_of(t: CoreBlockType) -> Seq<char> {
    match t {
        CoreBlockType::SystemPrompt => "You are a helpful AI assistant. Follow the user's instructions carefully and provide accurate, helpful responses."@,
        CoreBlockType::UserPersona => "User information:\n- Name: [Not provided]\n- Preferences: [Not specified]\n- Context: [New user]"@,
        CoreBlockType::TaskContext => "Current task context:\n- Project: [Not specified]\n- Goal: [Not defined]\n- Status: [New session]"@,
        CoreBlockType::KeyFacts => "Important facts to remember:\n[No key facts recorded yet]"@,
        CoreBlockType::UserPreferences => "User preferences:\n- Communication style: [Not specified]\n- Level of detail: [Not specified]\n- Special requirements: [None]"@,
        CoreBlockType::ConversationSummary => "Conversation summary:\n[New conversation - no summary yet]"@,
        CoreBlockType::ActiveGoals => "Active goals:\n[No active goals defined]"@,
        CoreBlockType::WorkingMemory => "Working memory:\n[Session just started]"@,
    }
}

/// The heading name of this type in formatted context.
pub open spec fn name_of(t: CoreBlockType) -> Seq<char> {
    match t {
        CoreBlockType::SystemPrompt => "SystemPrompt"@,
        CoreBlockType::UserPersona => "UserPersona"@,
        CoreBlockType::TaskContext => "TaskContext"@,
        CoreBlockType::KeyFacts => "KeyFacts"@,
        CoreBlockType::UserPreferences => "UserPreferences"@,
        CoreBlockType::ConversationSummary => "ConversationSummary"@,
        CoreBlockType::ActiveGoals => "ActiveGoals"@,
        CoreBlockType::WorkingMemory => "WorkingMemory"@,
    }
}

impl CoreBlockType {
    /// All core block types in priority order.
    pub fn all_types() -> (v: Vec<CoreBlockType>)
        ensures
            v@.len() == 8,
            forall|i: int| 0 <= i < 8 ==> #[trigger] v@[i] == type_at(i as nat),
    {
        vec![
            CoreBlockType::SystemPrompt,
            CoreBlockType::UserPersona,
            CoreBlockType::TaskContext,
            CoreBlockType::KeyFacts,
            CoreBlockType::UserPreferences,
            CoreBlockType::ConversationSummary,
            CoreBlockType::ActiveGoals,
            CoreBlockType::WorkingMemory,
        ]
    }

    /// The priority of this type (lower = higher priority).
    pub fn priority(&self) -> (p: u8)
        ensures
            p == priority_of(*self),
    {
        match self {
            CoreBlockType::SystemPrompt => 0,
            CoreBlockType::UserPersona => 1,
            CoreBlockType::TaskContext => 2,
            CoreBlockType::KeyFacts => 3,
            CoreBlockType::UserPreferences => 4,
            CoreBlockType::ConversationSummary => 5,
            CoreBlockType::ActiveGoals => 6,
            CoreBlockType::WorkingMemory => 7,
        }
    }

    /// The default content template for this type.
    pub fn default_template(&self) -> (s: &'static str)
        ensures
            s@ == template_of(*self),
    {
        match self {
            CoreBlockType::SystemPrompt => "You are a helpful AI assistant. Follow the user's instructions carefully and provide accurate, helpful responses.",
            CoreBlockType::UserPersona => "User information:\n- Name: [Not provided]\n- Preferences: [Not specified]\n- Context: [New user]",
            CoreBlockType::TaskContext => "Current task context:\n- Project: [Not specified]\n- Goal: [Not defined]\n- Status: [New session]",
            CoreBlockType::KeyFacts => "Important facts to remember:\n[No key facts recorded yet]",
            CoreBlockType::UserPreferences => "User preferences:\n- Communication style: [Not specified]\n- Level of detail: [Not specified]\n- Special requirements: [None]",
            CoreBlockType::ConversationSummary => "Conversation summary:\n[New conversation - no summary yet]",
            CoreBlockType::ActiveGoals => "Active goals:\n[No active goals defined]",
            CoreBlockType::WorkingMemory => "Working memory:\n[Session just started]",
        }
    }

    /// Whether this type is created automatically.
    pub fn auto_create(&self) -> (b: bool)
        ensures
            b == auto_create_of(*self),
    {
        match self {
            CoreBlockType::ConversationSummary => false,
            CoreBlockType::ActiveGoals => false,
            _ => true,
        }
    }

    /// The name of this type as shown in formatted context.
    pub fn debug_name(&self) -> (s: &'static str)
        ensures
            s@ == name_of(*self),
    {
        match self {
            CoreBlockType::SystemPrompt => "SystemPrompt",
            CoreBlockType::UserPersona => "UserPersona",
            CoreBlockType::TaskContext => "TaskContext",
            CoreBlockType::KeyFacts => "KeyFacts",
            CoreBlockType::UserPreferences => "UserPreferences",
            CoreBlockType::ConversationSummary => "ConversationSummary",
            CoreBlockType::ActiveGoals => "ActiveGoals",
            CoreBlockType::WorkingMemory => "WorkingMemory",
        }
    }
}

/// A core context block.
#[derive(Debug)]
pub struct CoreBlock {
    pub memory_block: MemoryBlock,
    pub core_type: CoreBlockType,
    pub is_active: bool,
    pub max_tokens: Option<u32>,
    pub auto_update: bool,
    pub last_accessed: u64,
}

impl CoreBlock {
    /// The settings that a fresh block of type `t` starts with.
    pub open spec fn fresh_settings(self, t: CoreBlockType) -> bool {
        &&& self.core_type == t
        &&& self.is_active == auto_create_of(t)
        &&& self.max_tokens == Some(max_tokens_of(t))
        &&& self.auto_update == (t != CoreBlockType::SystemPrompt)
        &&& self.memory_block.metadata.block_type == BlockType::Custom(priority_of(t) as u8)
    }

    /// Creates a core block of the given type for a user, holding `content`
    /// or, when none is given, the type's default template.
    pub fn new(core_type: CoreBlockType, user_id: &str, content: Option<String>) -> (b: CoreBlock)
        ensures
            b.fresh_settings(core_type),
            b.memory_block.metadata.user_id@ == user_id@,
            b.memory_block.content.text() == Some(
                match content {
                    Some(c) => c@,
                    None => template_of(core_type),
                },
            ),
    {
        let content_text = match content {
            Some(c) => c,
            None => core_type.default_template().to_string(),
        };
        let memory_block = MemoryBlock::new(
            BlockType::Custom(core_type.priority()),
            user_id,
            MemoryContent::Text(content_text),
        );
        let now = unix_millis() as u64;
        CoreBlock {
            memory_block,
            core_type,
            is_active: core_type.auto_create(),
            max_tokens: Some(
                match core_type {
                    CoreBlockType::SystemPrompt => 500,
                    CoreBlockType::UserPersona => 300,
                    CoreBlockType::TaskContext => 400,
                    CoreBlockType::KeyFacts => 600,
                    CoreBlockType::UserPreferences => 200,
                    CoreBlockType::ConversationSummary => 800,
                    CoreBlockType::ActiveGoals => 300,
                    CoreBlockType::WorkingMemory => 400,
                },
            ),
            auto_update: match core_type {
                CoreBlockType::SystemPrompt => false,
                _ => true,
            },
            last_accessed: now,
        }
    }

    /// Replaces the content with `new_content` as text and stamps the update
    /// and access times with the current time.
    pub fn update_content(&mut self, new_content: String) -> (r: Result<(), CoreBlockError>)
        ensures
            r is Ok,
            final(self).memory_block.content.text() == Some(new_content@),
            final(self).memory_block.metadata.updated_at == final(self).last_accessed,
            final(self).core_type == old(self).core_type,
            final(self).is_active == old(self).is_active,
            final(self).max_tokens == old(self).max_tokens,
            final(self).auto_update == old(self).auto_update,
            final(self).memory_block.metadata.id.0@ == old(self).memory_block.metadata.id.0@,
    {
        self.memory_block.content = MemoryContent::Text(new_content);
        let now = unix_millis() as u64;
        self.memory_block.metadata.updated_at = now;
        self.last_accessed = now;
        Ok(())
    }

    /// The text content of this block, if it holds text.
    pub fn get_text_content(&self) -> (t: Option<&str>)
        ensures
            match self.memory_block.content.text() {
                Some(s) => t is Some && t->0@ == s,
                None => t is None,
            },
    {
        self.memory_block.content.as_text()
    }

    /// Marks this block as accessed now; nothing else changes.
    pub fn mark_accessed(&mut self)
        ensures
            final(self).memory_block == old(self).memory_block,
            final(self).core_type == old(self).core_type,
            final(self).is_active == old(self).is_active,
            final(self).max_tokens == old(self).max_tokens,
            final(self).auto_update == old(self).auto_update,
    {
        self.last_accessed = unix_millis() as u64;
    }

    /// The identifier of this block.
    pub fn id(&self) -> (id: &BlockId)
        ensures
            id == &self.memory_block.metadata.id,
    {
        self.memory_block.id()
    }

    /// Whether this block is essential (never deactivated).
    pub fn is_essential(&self) -> (b: bool)
        ensures
            b == essential_type(self.core_type),
    {
        match self.core_type {
            CoreBlockType::SystemPrompt | CoreBlockType::UserPersona | CoreBlockType::WorkingMemory => true,
            _ => false,
        }
    }

    /// A copy of this block.
    pub fn copy_block(&self) -> (b: CoreBlock)
        ensures
            b.same_as(*self),
    {
        CoreBlock {
            memory_block: self.memory_block.copy_block(),
            core_type: self.core_type,
            is_active: self.is_active,
            max_tokens: self.max_tokens,
            auto_update: self.auto_update,
            last_accessed: self.last_accessed,
        }
    }

    /// Two core blocks agree on every field, strings compared by their text.
    pub open spec fn same_as(self, other: CoreBlock) -> bool {
        &&& self.memory_block.same_as(other.memory_block)
        &&& self.core_type == other.core_type
        &&& self.is_active == other.is_active
        &&& self.max_tokens == other.max_tokens
        &&& self.auto_update == other.auto_update
        &&& self.last_accessed == other.last_accessed
    }
}

/// Errors of core block management.
#[derive(Debug, Clone, Copy, PartialEq, Eq, Structural)]
pub enum CoreBlockError {
    /// The block does not exist and automatic creation is disabled.
    NotFoundAutoCreateDisabled(CoreBlockType),
    /// The block is essential and cannot be deactivated.
    Essential(CoreBlockType),
    /// The block does not exist.
    NotFound(CoreBlockType),
}

impl CoreBlockError {
    /// The error message.
    pub fn message(&self) -> (s: String)
        ensures
            s@ == match *self {
                CoreBlockError::NotFoundAutoCreateDisabled(t) => "Core block "@ + name_of(t)
                    + " not found and auto-create is disabled"@,
                CoreBlockError::Essential(t) => "Cannot deactivate essential core block "@
                    + name_of(t),
                CoreBlockError::NotFound(t) => "Core block "@ + name_of(t) + " not found"@,
            },
    {
        let mut out: Vec<char> = Vec::new();
        match self {
            CoreBlockError::NotFoundAutoCreateDisabled(t) => {
                push_str(&mut out, "Core block ");
                push_str(&mut out, t.debug_name());
                push_str(&mut out, " not found and auto-create is disabled");
            },
            CoreBlockError::Essential(t) => {
                push_str(&mut out, "Cannot deactivate essential core block ");
                push_str(&mut out, t.debug_name());
            },
            CoreBlockError::NotFound(t) => {
                push_str(&mut out, "Core block ");
                push_str(&mut out, t.debug_name());
                push_str(&mut out, " not found");
            },
        }
        let s = crate::text::string_from_chars(out.as_slice());
        assert(s@ =~= match *self {
            CoreBlockError::NotFoundAutoCreateDisabled(t) => "Core block "@ + name_of(t)
                + " not found and auto-create is disabled"@,
            CoreBlockError::Essential(t) => "Cannot deactivate essential core block "@ + name_of(t),
            CoreBlockError::NotFound(t) => "Core block "@ + name_of(t) + " not found"@,
        });
        s
    }
}

} // verus!

verus! {

/// Configuration for core block management.
#[derive(Debug, Clone, Copy, PartialEq, Eq, Structural)]
pub struct CoreBlockConfig {
    /// Total token budget for all core blocks.
    pub total_token_budget: u32,
    /// Whether missing core blocks are created automatically.
    pub auto_create_missing: bool,
    /// Whether core blocks are updated automatically from conversation.
    pub auto_update_enabled: bool,
    /// Minimum number of core blocks to keep active.
    pub min_active_blocks: usize,
    /// Maximum number of core blocks to keep active.
    pub max_active_blocks: usize,
}

/// The default configuration.
pub open spec fn default_core_config() -> CoreBlockConfig {
    CoreBlockConfig {
        total_token_budget: 3000,
        auto_create_missing: true,
        auto_update_enabled: true,
        min_active_blocks: 3,
        max_active_blocks: 8,
    }
}

impl Default for CoreBlockConfig {
    fn default() -> (c: CoreBlockConfig)
        ensures
            c == default_core_config(),
    {
        CoreBlockConfig {
            total_token_budget: 3000,
            auto_create_missing: true,
            auto_update_enabled: true,
            min_active_blocks: 3,
            max_active_blocks: 8,
        }
    }
}

/// Statistics about core block usage.
#[derive(Debug, Clone, Copy, PartialEq, Eq, Structural)]
pub struct CoreBlockStats {
    pub total_blocks: usize,
    pub active_blocks: usize,
    pub token_usage: u32,
    pub token_budget: u32,
}

// ---------------------------------------------------------------------------
// The model: one slot per core block type, indexed by the type's priority.
// ---------------------------------------------------------------------------

/// The slot of type `t`.
pub open spec fn slot_of(ss: Seq<Option<CoreBlock>>, t: CoreBlockType) -> Option<CoreBlock> {
    ss[priority_of(t) as int]
}

/// Slots are well formed: eight of them, each holding a block of its own type.
pub open spec fn wf_slots(ss: Seq<Option<CoreBlock>>) -> bool {
    &&& ss.len() == 8
    &&& forall|i: int|
        0 <= i < 8 && (#[trigger] ss[i]) is Some ==> priority_of(ss[i]->0.core_type) == i
}

/// Approximate tokens of a block: a quarter of its text's UTF-8 length
/// (taken as a 32-bit count), when the block is active and holds text.
pub open spec fn block_tokens(b: CoreBlock) -> nat {
    if b.is_active {
        match b.memory_block.content.text() {
            Some(s) => (((crate::text::byte_len(s) as usize) as u32) / 4) as nat,
            None => 0,
        }
    } else {
        0
    }
}

/// Tokens of a slot.
pub open spec fn slot_tokens(o: Option<CoreBlock>) -> nat {
    match o {
        Some(b) => block_tokens(b),
        None => 0,
    }
}

/// Tokens of the first `n` slots.
pub open spec fn usage_prefix(ss: Seq<Option<CoreBlock>>, n: nat) -> nat
    decreases n,
{
    if n == 0 {
        0
    } else {
        usage_prefix(ss, (n - 1) as nat) + slot_tokens(ss[n - 1])
    }
}

/// Total approximate token usage of the active blocks.
pub open spec fn usage(ss: Seq<Option<CoreBlock>>) -> nat {
    usage_prefix(ss, 8)
}

/// A slot holds an active, non-essential block.
pub open spec fn is_candidate(o: Option<CoreBlock>) -> bool {
    o is Some && o->0.is_active && !essential_type(o->0.core_type)
}

/// Ordering key: last access time, ties broken by priority.
pub open spec fn access_key(b: CoreBlock) -> int {
    b.last_accessed as int * 8 + priority_of(b.core_type) as int
}

/// The least-recently accessed candidate among the first `n` slots.
pub open spec fn min_candidate(ss: Seq<Option<CoreBlock>>, n: nat) -> Option<nat>
    decreases n,
{
    if n == 0 {
        None
    } else {
        let r = min_candidate(ss, (n - 1) as nat);
        if is_candidate(ss[n - 1]) && (r is None || access_key(ss[n - 1]->0) < access_key(
            ss[r->0 as int]->0,
        )) {
            Some((n - 1) as nat)
        } else {
            r
        }
    }
}

/// Number of candidates among the first `n` slots.
pub open spec fn candidate_count(ss: Seq<Option<CoreBlock>>, n: nat) -> nat
    decreases n,
{
    if n == 0 {
        0
    } else {
        candidate_count(ss, (n - 1) as nat) + if is_candidate(ss[n - 1]) {
            1nat
        } else {
            0nat
        }
    }
}

/// The slots with the block at `i` deactivated.
pub open spec fn deactivate_at(ss: Seq<Option<CoreBlock>>, i: int) -> Seq<Option<CoreBlock>> {
    ss.update(i, Some(CoreBlock { is_active: false, ..ss[i]->0 }))
}

/// Budget management: while usage exceeds the budget, deactivate the
/// least-recently accessed active non-essential block.
pub open spec fn auto_managed(ss: Seq<Option<CoreBlock>>, budget: nat) -> Seq<Option<CoreBlock>>
    decreases candidate_count(ss, 8),
{
    if ss.len() != 8 || usage(ss) <= budget {
        ss
    } else {
        match min_candidate(ss, 8) {
            None => ss,
            Some(i) => {
                if i < 8 && is_candidate(ss[i as int]) {
                    proof {
                        lemma_deactivate_count(ss, i, 8);
                    }
                    auto_managed(deactivate_at(ss, i as int), budget)
                } else {
                    ss
                }
            },
        }
    }
}

/// Active blocks among the first `n` slots, in priority order.
pub open spec fn active_prefix(ss: Seq<Option<CoreBlock>>, n: nat) -> Seq<CoreBlock>
    decreases n,
{
    if n == 0 {
        seq![]
    } else {
        let rest = active_prefix(ss, (n - 1) as nat);
        if ss[n - 1] is Some && ss[n - 1]->0.is_active {
            rest.push(ss[n - 1]->0)
        } else {
            rest
        }
    }
}

/// Active blocks in priority order.
pub open spec fn active_blocks(ss: Seq<Option<CoreBlock>>) -> Seq<CoreBlock> {
    active_prefix(ss, 8)
}

/// The context text of one block: a heading with the type's name and the
/// block's text, or nothing when the block holds no text.
pub open spec fn block_context(b: CoreBlock) -> Seq<char> {
    match b.memory_block.content.text() {
        Some(s) => "# "@ + name_of(b.core_type) + "\n\n"@ + s + "\n\n"@,
        None => seq![],
    }
}

/// The context text of the first `n` blocks of a sequence.
pub open spec fn context_prefix(bs: Seq<CoreBlock>, n: nat) -> Seq<char>
    decreases n,
{
    if n == 0 || n > bs.len() {
        seq![]
    } else {
        context_prefix(bs, (n - 1) as nat) + block_context(bs[n - 1])
    }
}

/// Counting candidates: deactivating a candidate removes exactly one.
pub proof fn lemma_deactivate_count(ss: Seq<Option<CoreBlock>>, i: nat, n: nat)
    requires
        ss.len() == 8,
        i < 8,
        is_candidate(ss[i as int]),
        n <= 8,
    ensures
        i < n ==> candidate_count(deactivate_at(ss, i as int), n) + 1 == candidate_count(ss, n),
        i >= n ==> candidate_count(deactivate_at(ss, i as int), n) == candidate_count(ss, n),
    decreases n,
{
    if n > 0 {
        lemma_deactivate_count(ss, i, (n - 1) as nat);
    }
}

} // verus!

verus! {

/// Manager of the core context blocks of one user.
pub struct CoreBlockManager {
    /// One slot per core block type, indexed by priority.
    slots: Vec<Option<CoreBlock>>,
    config: CoreBlockConfig,
    user_id: String,
}

/// A fresh block of type `t` for user `user` holding `text`.
pub open spec fn is_fresh_block(b: CoreBlock, t: CoreBlockType, user: Seq<char>, text: Seq<char>) -> bool {
    &&& b.fresh_settings(t)
    &&& b.memory_block.metadata.user_id@ == user
    &&& b.memory_block.content.text() == Some(text)
}

/// `b2` is `b1` with only its access time changed.
pub open spec fn only_accessed(b1: CoreBlock, b2: CoreBlock) -> bool {
    &&& b2.memory_block == b1.memory_block
    &&& b2.core_type == b1.core_type
    &&& b2.is_active == b1.is_active
    &&& b2.max_tokens == b1.max_tokens
    &&& b2.auto_update == b1.auto_update
}

impl CoreBlockManager {
    /// The slots, one per type in priority order.
    pub closed spec fn slots_view(&self) -> Seq<Option<CoreBlock>> {
        self.slots@
    }

    /// The configuration.
    pub closed spec fn config_view(&self) -> CoreBlockConfig {
        self.config
    }

    /// The user this manager belongs to.
    pub closed spec fn user_view(&self) -> Seq<char> {
        self.user_id@
    }

    /// The manager's internal invariant.
    pub closed spec fn wf(&self) -> bool {
        wf_slots(self.slots@)
    }

    /// The block of type `t`, if present.
    pub open spec fn block(&self, t: CoreBlockType) -> Option<CoreBlock> {
        slot_of(self.slots_view(), t)
    }

    /// Creates a manager with no blocks, using `config` or the default
    /// configuration.
    pub fn new(user_id: &str, config: Option<CoreBlockConfig>) -> (m: CoreBlockManager)
        ensures
            m.wf(),
            forall|t: CoreBlockType| #[trigger] m.block(t) is None,
            m.config_view() == match config {
                Some(c) => c,
                None => default_core_config(),
            },
            m.user_view() == user_id@,
    {
        let mut slots: Vec<Option<CoreBlock>> = Vec::new();
        let mut i: usize = 0;
        while i < 8
            invariant
                i <= 8,
                slots@.len() == i,
                forall|j: int| 0 <= j < i ==> (#[trigger] slots@[j]) is None,
            decreases 8 - i,
        {
            slots.push(None);
            i = i + 1;
        }
        let config = match config {
            Some(c) => c,
            None => CoreBlockConfig::default(),
        };
        CoreBlockManager { slots, config, user_id: user_id.to_string() }
    }

    fn type_of_priority(p: usize) -> (t: CoreBlockType)
        requires
            p < 8,
        ensures
            t == type_at(p as nat),
            priority_of(t) == p,
    {
        match p {
            0 => CoreBlockType::SystemPrompt,
            1 => CoreBlockType::UserPersona,
            2 => CoreBlockType::TaskContext,
            3 => CoreBlockType::KeyFacts,
            4 => CoreBlockType::UserPreferences,
            5 => CoreBlockType::ConversationSummary,
            6 => CoreBlockType::ActiveGoals,
            _ => CoreBlockType::WorkingMemory,
        }
    }

    /// Creates the missing blocks of every automatically created type,
    /// holding the type's default template, when the configuration allows
    /// automatic creation. Existing blocks are left as they are.
    pub fn initialize(&mut self) -> (r: Result<(), CoreBlockError>)
        requires
            old(self).wf(),
        ensures
            r is Ok,
            final(self).wf(),
            final(self).config_view() == old(self).config_view(),
            final(self).user_view() == old(self).user_view(),
            initialize_post(*old(self), *final(self)),
    {
        if self.config.auto_create_missing {
            let mut i: usize = 0;
            while i < 8
                invariant
                    i <= 8,
                    wf_slots(self.slots@),
                    self.config == old(self).config,
                    self.user_id@ == old(self).user_id@,
                    self.config.auto_create_missing,
                    forall|j: int|
                        0 <= j < 8 ==> {
                            let t = type_at(j as nat);
                            let creates = auto_create_of(t) && old(self).slots@[j] is None;
                            &&& (j < i && creates) ==> (#[trigger] self.slots@[j]) is Some
                                && is_fresh_block(self.slots@[j]->0, t, self.user_id@, template_of(t))
                            &&& !(j < i && creates) ==> self.slots@[j] == old(self).slots@[j]
                        },
                decreases 8 - i,
            {
                let t = Self::type_of_priority(i);
                if t.auto_create() && self.slots[i].is_none() {
                    let b = CoreBlock::new(t, self.user_id.as_str(), None);
                    self.slots[i] = Some(b);
                }
                i = i + 1;
            }
        }
        proof {
            assert forall|t: CoreBlockType| #[trigger] type_at(priority_of(t)) == t by {}
        }
        Ok(())
    }

    /// Returns a copy of the block of type `t` after marking it accessed, or
    /// `None` when there is no such block.
    pub fn get_block(&mut self, core_type: CoreBlockType) -> (r: Option<CoreBlock>)
        requires
            old(self).wf(),
        ensures
            final(self).wf(),
            final(self).config_view() == old(self).config_view(),
            final(self).user_view() == old(self).user_view(),
            get_post(*old(self), *final(self), core_type, r),
    {
        let i = core_type.priority() as usize;
        let cur = self.slots[i].take();
        match cur {
            Some(mut b) => {
                b.mark_accessed();
                let copy = b.copy_block();
                self.slots[i] = Some(b);
                Some(copy)
            },
            None => {
                self.slots[i] = None;
                None
            },
        }
    }

    /// Replaces the content of the block of type `t`, or creates the block
    /// with that content when it does not exist.
    pub fn update_block(&mut self, core_type: CoreBlockType, content: String) -> (r: Result<(), CoreBlockError>)
        requires
            old(self).wf(),
        ensures
            r is Ok,
            final(self).wf(),
            final(self).config_view() == old(self).config_view(),
            final(self).user_view() == old(self).user_view(),
            update_post(*old(self), *final(self), core_type, content@),
    {
        let i = core_type.priority() as usize;
        let cur = self.slots[i].take();
        match cur {
            Some(mut b) => {
                let _ = b.update_content(content);
                self.slots[i] = Some(b);
            },
            None => {
                let b = CoreBlock::new(core_type, self.user_id.as_str(), Some(content));
                self.slots[i] = Some(b);
            },
        }
        Ok(())
    }

    /// Copies of the active blocks, in priority order.
    pub fn get_active_blocks(&self) -> (v: Vec<CoreBlock>)
        requires
            self.wf(),
        ensures
            v@.len() == active_blocks(self.slots_view()).len(),
            forall|i: int| 0 <= i < v@.len() ==> (#[trigger] v@[i]).same_as(active_blocks(self.slots_view())[i]),
    {
        let mut v: Vec<CoreBlock> = Vec::new();
        let mut i: usize = 0;
        while i < 8
            invariant
                i <= 8,
                self.slots@.len() == 8,
                v@.len() == active_prefix(self.slots@, i as nat).len(),
                forall|j: int| 0 <= j < v@.len() ==> (#[trigger] v@[j]).same_as(active_prefix(self.slots@, i as nat)[j]),
            decreases 8 - i,
        {
            match &self.slots[i] {
                Some(b) => {
                    if b.is_active {
                        v.push(b.copy_block());
                    }
                },
                None => {},
            }
            i = i + 1;
        }
        v
    }

    /// The active blocks formatted for the AI context, in priority order:
    /// for each block holding text, `# <type name>`, a blank line, the text
    /// and a blank line.
    pub fn format_for_context(&self) -> (s: String)
        requires
            self.wf(),
        ensures
            s@ == context_prefix(active_blocks(self.slots_view()), active_blocks(self.slots_view()).len()),
            forall|t: CoreBlockType|
                (#[trigger] active_text(self.block(t))) is Some ==> crate::text::contains_text(
                    s@,
                    "# "@ + name_of(t) + "\n\n"@ + active_text(self.block(t))->0 + "\n\n"@,
                ),
    {
        proof {
            law_context_shows_active_blocks(self.slots@);
        }
        let blocks = self.get_active_blocks();
        let ghost bs = active_blocks(self.slots@);
        let mut out: Vec<char> = Vec::new();
        let mut i: usize = 0;
        while i < blocks.len()
            invariant
                i <= blocks@.len(),
                blocks@.len() == bs.len(),
                forall|j: int| 0 <= j < blocks@.len() ==> (#[trigger] blocks@[j]).same_as(bs[j]),
                out@ == context_prefix(bs, i as nat),
            decreases blocks@.len() - i,
        {
            let b = &blocks[i];
            assert(b.same_as(bs[i as int]));
            match b.get_text_content() {
                Some(content) => {
                    push_str(&mut out, "# ");
                    push_str(&mut out, b.core_type.debug_name());
                    push_str(&mut out, "\n\n");
                    push_str(&mut out, content);
                    push_str(&mut out, "\n\n");
                },
                None => {},
            }
            assert(out@ =~= context_prefix(bs, (i + 1) as nat));
            i = i + 1;
        }
        crate::text::string_from_chars(out.as_slice())
    }

    fn slot_tokens_exec(o: &Option<CoreBlock>) -> (n: u32)
        ensures
            n == slot_tokens(*o),
    {
        match o {
            Some(b) => {
                if b.is_active {
                    match b.get_text_content() {
                        Some(t) => (t.len() as u32) / 4,
                        None => 0,
                    }
                } else {
                    0
                }
            },
            None => 0,
        }
    }

    /// Approximate token usage of the active blocks: the sum over active
    /// blocks holding text of a quarter of the text's UTF-8 length.
    pub fn estimate_token_usage(&self) -> (n: u32)
        requires
            self.wf(),
            usage(self.slots_view()) <= u32::MAX,
        ensures
            n == usage(self.slots_view()),
    {
        let mut total: u64 = 0;
        let mut i: usize = 0;
        while i < 8
            invariant
                i <= 8,
                self.slots@.len() == 8,
                total == usage_prefix(self.slots@, i as nat),
                usage_prefix(self.slots@, 8) <= u32::MAX,
            decreases 8 - i,
        {
            proof {
                lemma_usage_prefix_mono(self.slots@, (i + 1) as nat, 8);
            }
            total = total + Self::slot_tokens_exec(&self.slots[i]) as u64;
            i = i + 1;
        }
        total as u32
    }
}

impl CoreBlockManager {
    /// The token usage of the active blocks when it fits in `u32`; `None`
    /// when it does not.
    pub fn checked_token_usage(&self) -> (n: Option<u32>)
        requires
            self.wf(),
        ensures
            match n {
                Some(v) => v == usage(self.slots_view()),
                None => usage(self.slots_view()) > u32::MAX,
            },
    {
        let mut total: u64 = 0;
        let mut i: usize = 0;
        while i < 8
            invariant
                i <= 8,
                self.slots@.len() == 8,
                total == usage_prefix(self.slots@, i as nat),
                total <= i * 4294967295,
            decreases 8 - i,
        {
            total = total + Self::slot_tokens_exec(&self.slots[i]) as u64;
            i = i + 1;
        }
        if total <= 4294967295 {
            Some(total as u32)
        } else {
            None
        }
    }

    /// The statistics of the blocks when their token usage fits in `u32`;
    /// `None` when it does not.
    pub fn try_get_stats(&self) -> (st: Option<CoreBlockStats>)
        requires
            self.wf(),
        ensures
            match st {
                Some(s) => {
                    &&& usage(self.slots_view()) <= u32::MAX
                    &&& s.total_blocks == block_count(self.slots_view(), 8)
                    &&& s.active_blocks == active_blocks(self.slots_view()).len()
                    &&& s.token_usage == usage(self.slots_view())
                    &&& s.token_budget == self.config_view().total_token_budget
                },
                None => usage(self.slots_view()) > u32::MAX,
            },
    {
        match self.checked_token_usage() {
            Some(_) => Some(self.get_stats()),
            None => None,
        }
    }
}

impl CoreBlockManager {
    /// Activates the block of type `t`. A missing block is created, with its
    /// type's template, and activated when the configuration allows automatic
    /// creation; otherwise the call fails and nothing changes.
    pub fn activate_block(&mut self, core_type: CoreBlockType) -> (r: Result<(), CoreBlockError>)
        requires
            old(self).wf(),
        ensures
            final(self).wf(),
            final(self).config_view() == old(self).config_view(),
            final(self).user_view() == old(self).user_view(),
            forall|t: CoreBlockType| t != core_type ==> #[trigger] final(self).block(t) == old(self).block(t),
            match old(self).block(core_type) {
                Some(b) => r is Ok && final(self).block(core_type) == Some(CoreBlock { is_active: true, ..b }),
                None => if old(self).config_view().auto_create_missing {
                    &&& r is Ok
                    &&& final(self).block(core_type) is Some
                    &&& final(self).block(core_type)->0.is_active
                    &&& is_fresh_block(
                        CoreBlock { is_active: auto_create_of(core_type), ..final(self).block(core_type)->0 },
                        core_type,
                        old(self).user_view(),
                        template_of(core_type),
                    )
                } else {
                    &&& r == Err::<(), CoreBlockError>(CoreBlockError::NotFoundAutoCreateDisabled(core_type))
                    &&& final(self).block(core_type) is None
                },
            },
    {
        let i = core_type.priority() as usize;
        let cur = self.slots[i].take();
        match cur {
            Some(mut b) => {
                b.is_active = true;
                self.slots[i] = Some(b);
                Ok(())
            },
            None => {
                if self.config.auto_create_missing {
                    let mut b = CoreBlock::new(core_type, self.user_id.as_str(), None);
                    b.is_active = true;
                    self.slots[i] = Some(b);
                    Ok(())
                } else {
                    self.slots[i] = None;
                    Err(CoreBlockError::NotFoundAutoCreateDisabled(core_type))
                }
            },
        }
    }

    /// Deactivates the block of type `t`. Fails, changing nothing, when the
    /// block is essential or does not exist.
    pub fn deactivate_block(&mut self, core_type: CoreBlockType) -> (r: Result<(), CoreBlockError>)
        requires
            old(self).wf(),
        ensures
            final(self).wf(),
            final(self).config_view() == old(self).config_view(),
            final(self).user_view() == old(self).user_view(),
            forall|t: CoreBlockType| t != core_type ==> #[trigger] final(self).block(t) == old(self).block(t),
            match old(self).block(core_type) {
                Some(b) => if essential_type(core_type) {
                    r == Err::<(), CoreBlockError>(CoreBlockError::Essential(core_type))
                        && final(self).block(core_type) == Some(b)
                } else {
                    r is Ok && final(self).block(core_type) == Some(CoreBlock { is_active: false, ..b })
                },
                None => r == Err::<(), CoreBlockError>(CoreBlockError::NotFound(core_type))
                    && final(self).block(core_type) is None,
            },
    {
        let i = core_type.priority() as usize;
        let cur = self.slots[i].take();
        match cur {
            Some(mut b) => {
                if b.is_essential() {
                    self.slots[i] = Some(b);
                    return Err(CoreBlockError::Essential(core_type));
                }
                b.is_active = false;
                self.slots[i] = Some(b);
                Ok(())
            },
            None => {
                self.slots[i] = None;
                Err(CoreBlockError::NotFound(core_type))
            },
        }
    }

    /// The least-recently accessed active non-essential block, if any.
    fn find_min_candidate(&self) -> (r: Option<usize>)
        requires
            self.wf(),
        ensures
            match min_candidate(self.slots_view(), 8) {
                Some(i) => r == Some(i as usize),
                None => r is None,
            },
    {
        let mut best: Option<usize> = None;
        let mut best_key: u128 = 0;
        let mut i: usize = 0;
        while i < 8
            invariant
                i <= 8,
                self.slots@.len() == 8,
                match min_candidate(self.slots@, i as nat) {
                    Some(k) => best == Some(k as usize) && k < i && is_candidate(self.slots@[k as int])
                        && best_key == access_key(self.slots@[k as int]->0),
                    None => best is None,
                },
            decreases 8 - i,
        {
            match &self.slots[i] {
                Some(b) => {
                    if b.is_active && !b.is_essential() {
                        let key: u128 = (b.last_accessed as u128) * 8 + (b.core_type.priority() as u128);
                        if best.is_none() || key < best_key {
                            best = Some(i);
                            best_key = key;
                        }
                    }
                },
                None => {},
            }
            i = i + 1;
        }
        best
    }

    /// Keeps the core blocks within the token budget: while the usage
    /// exceeds the budget, the least-recently accessed active non-essential
    /// block is deactivated (ties between equal access times go to the
    /// higher-priority type).
    pub fn auto_manage_blocks(&mut self) -> (r: Result<(), CoreBlockError>)
        requires
            old(self).wf(),
            usage(old(self).slots_view()) <= u32::MAX,
        ensures
            r is Ok,
            final(self).wf(),
            final(self).config_view() == old(self).config_view(),
            final(self).user_view() == old(self).user_view(),
            final(self).slots_view() == auto_managed(
                old(self).slots_view(),
                old(self).config_view().total_token_budget as nat,
            ),
    {
        let budget = self.config.total_token_budget;
        let ghost orig = self.slots@;
        loop
            invariant
                wf_slots(self.slots@),
                self.config == old(self).config,
                self.user_id@ == old(self).user_id@,
                budget == self.config.total_token_budget,
                usage(self.slots@) <= u32::MAX,
                auto_managed(self.slots@, budget as nat) == auto_managed(orig, budget as nat),
            ensures
                wf_slots(self.slots@),
                self.config == old(self).config,
                self.user_id@ == old(self).user_id@,
                self.slots@ == auto_managed(orig, budget as nat),
            decreases candidate_count(self.slots@, 8),
        {
            let current = self.estimate_token_usage();
            if current <= budget {
                break;
            }
            match self.find_min_candidate() {
                None => {
                    break;
                },
                Some(i) => {
                    let ghost before = self.slots@;
                    proof {
                        lemma_min_candidate_is_candidate(before, 8);
                        lemma_deactivate_count(before, i as nat, 8);
                        lemma_deactivate_usage(before, i as nat, 8);
                    }
                    let cur = self.slots[i].take();
                    match cur {
                        Some(mut b) => {
                            b.is_active = false;
                            self.slots[i] = Some(b);
                        },
                        None => {},
                    }
                    assert(self.slots@ =~= deactivate_at(before, i as int));
                },
            }
        }
        Ok(())
    }

    /// Counts of blocks and tokens.
    pub fn get_stats(&self) -> (st: CoreBlockStats)
        requires
            self.wf(),
            usage(self.slots_view()) <= u32::MAX,
        ensures
            st.total_blocks == block_count(self.slots_view(), 8),
            st.active_blocks == active_blocks(self.slots_view()).len(),
            st.token_usage == usage(self.slots_view()),
            st.token_budget == self.config_view().total_token_budget,
    {
        let mut total: usize = 0;
        let mut active: usize = 0;
        let mut i: usize = 0;
        while i < 8
            invariant
                i <= 8,
                self.slots@.len() == 8,
                total == block_count(self.slots@, i as nat),
                active == active_prefix(self.slots@, i as nat).len(),
                total <= i,
                active <= i,
            decreases 8 - i,
        {
            match &self.slots[i] {
                Some(b) => {
                    total = total + 1;
                    if b.is_active {
                        active = active + 1;
                    }
                },
                None => {},
            }
            i = i + 1;
        }
        CoreBlockStats {
            total_blocks: total,
            active_blocks: active,
            token_usage: self.estimate_token_usage(),
            token_budget: self.config.total_token_budget,
        }
    }

    /// Number of blocks present.
    pub fn block_count(&self) -> (n: usize)
        requires
            self.wf(),
        ensures
            n == block_count(self.slots_view(), 8),
    {
        let mut total: usize = 0;
        let mut i: usize = 0;
        while i < 8
            invariant
                i <= 8,
                self.slots@.len() == 8,
                total == block_count(self.slots@, i as nat),
                total <= i,
            decreases 8 - i,
        {
            if self.slots[i].is_some() {
                total = total + 1;
            }
            i = i + 1;
        }
        total
    }
}

/// Number of blocks present among the first `n` slots.
pub open spec fn block_count(ss: Seq<Option<CoreBlock>>, n: nat) -> nat
    decreases n,
{
    if n == 0 {
        0
    } else {
        block_count(ss, (n - 1) as nat) + if ss[n - 1] is Some {
            1nat
        } else {
            0nat
        }
    }
}

/// The minimal candidate, when there is one, is a candidate within range.
pub proof fn lemma_min_candidate_is_candidate(ss: Seq<Option<CoreBlock>>, n: nat)
    ensures
        min_candidate(ss, n) is Some ==> min_candidate(ss, n)->0 < n && is_candidate(
            ss[min_candidate(ss, n)->0 as int],
        ),
    decreases n,
{
    if n > 0 {
        lemma_min_candidate_is_candidate(ss, (n - 1) as nat);
    }
}

/// Deactivating a block never increases usage.
pub proof fn lemma_deactivate_usage(ss: Seq<Option<CoreBlock>>, i: nat, n: nat)
    requires
        ss.len() == 8,
        i < 8,
        ss[i as int] is Some,
        n <= 8,
    ensures
        usage_prefix(deactivate_at(ss, i as int), n) <= usage_prefix(ss, n),
    decreases n,
{
    if n > 0 {
        lemma_deactivate_usage(ss, i, (n - 1) as nat);
    }
}

/// What `initialize` does: missing blocks of automatically created types
/// are created from their templates when the configuration allows it; all
/// other blocks are unchanged.
pub open spec fn initialize_post(m0: CoreBlockManager, m1: CoreBlockManager) -> bool {
    forall|t: CoreBlockType|
        {
            let creates = m0.config_view().auto_create_missing && auto_create_of(t) && m0.block(t) is None;
            &&& creates ==> (#[trigger] m1.block(t)) is Some && is_fresh_block(
                m1.block(t)->0,
                t,
                m0.user_view(),
                template_of(t),
            )
            &&& !creates ==> m1.block(t) == m0.block(t)
        }
}

/// What `update_block(t, content)` does: the block of type `t` holds
/// `content` (created fresh when missing, otherwise keeping its identity and
/// settings); other blocks are unchanged.
pub open spec fn update_post(m0: CoreBlockManager, m1: CoreBlockManager, core_type: CoreBlockType, content: Seq<char>) -> bool {
    &&& forall|t: CoreBlockType| t != core_type ==> #[trigger] m1.block(t) == m0.block(t)
    &&& m1.block(core_type) is Some
    &&& m1.block(core_type)->0.memory_block.content.text() == Some(content)
    &&& match m0.block(core_type) {
        None => m1.block(core_type)->0.fresh_settings(core_type)
            && m1.block(core_type)->0.memory_block.metadata.user_id@ == m0.user_view(),
        Some(b) => {
            let nb = m1.block(core_type)->0;
            &&& nb.core_type == b.core_type
            &&& nb.is_active == b.is_active
            &&& nb.max_tokens == b.max_tokens
            &&& nb.auto_update == b.auto_update
            &&& nb.memory_block.metadata.id.0@ == b.memory_block.metadata.id.0@
        },
    }
}

/// What `get_block(t)` does: the block of type `t`, if any, is marked
/// accessed and a copy of it is returned; other blocks are unchanged.
pub open spec fn get_post(m0: CoreBlockManager, m1: CoreBlockManager, core_type: CoreBlockType, r: Option<CoreBlock>) -> bool {
    &&& forall|t: CoreBlockType| t != core_type ==> #[trigger] m1.block(t) == m0.block(t)
    &&& match m0.block(core_type) {
        None => r is None && m1.block(core_type) is None,
        Some(b) => {
            &&& m1.block(core_type) is Some
            &&& only_accessed(b, m1.block(core_type)->0)
            &&& r is Some && r->0.same_as(m1.block(core_type)->0)
        },
    }
}

/// Read after write: after `update_block(t, c)`, `get_block(t)` returns a
/// block whose text is `c`.
pub proof fn law_update_then_get(
    m0: CoreBlockManager,
    m1: CoreBlockManager,
    m2: CoreBlockManager,
    t: CoreBlockType,
    c: Seq<char>,
    r: Option<CoreBlock>,
)
    requires
        update_post(m0, m1, t, c),
        get_post(m1, m2, t, r),
    ensures
        r is Some,
        r->0.memory_block.content.text() == Some(c),
{
}

/// Initialization is idempotent: a second `initialize` changes no block.
pub proof fn law_initialize_idempotent(m0: CoreBlockManager, m1: CoreBlockManager, m2: CoreBlockManager)
    requires
        initialize_post(m0, m1),
        initialize_post(m1, m2),
        m1.config_view() == m0.config_view(),
    ensures
        forall|t: CoreBlockType| #[trigger] m2.block(t) == m1.block(t),
{
    assert forall|t: CoreBlockType| #[trigger] m2.block(t) == m1.block(t) by {
        if m0.config_view().auto_create_missing && auto_create_of(t) && m0.block(t) is None {
            assert(m1.block(t) is Some);
        }
    }
}

/// After initialization with automatic creation enabled, every
/// automatically created type has a block.
pub proof fn law_initialize_creates_all(m0: CoreBlockManager, m1: CoreBlockManager)
    requires
        initialize_post(m0, m1),
        m0.config_view().auto_create_missing,
    ensures
        forall|t: CoreBlockType| auto_create_of(t) ==> (#[trigger] m1.block(t)) is Some,
{
    assert forall|t: CoreBlockType| auto_create_of(t) implies (#[trigger] m1.block(t)) is Some by {
        if m0.block(t) is Some {
            assert(m1.block(t) == m0.block(t));
        }
    }
}

/// Budget management ends within budget, or with no active non-essential
/// block left.
pub proof fn law_auto_manage_within_budget(ss: Seq<Option<CoreBlock>>, budget: nat)
    requires
        wf_slots(ss),
    ensures
        usage(auto_managed(ss, budget)) <= budget || candidate_count(auto_managed(ss, budget), 8) == 0,
    decreases candidate_count(ss, 8),
{
    if usage(ss) <= budget {
    } else {
        lemma_min_candidate_is_candidate(ss, 8);
        match min_candidate(ss, 8) {
            None => {
                lemma_no_min_no_candidates(ss, 8);
            },
            Some(i) => {
                lemma_deactivate_count(ss, i, 8);
                lemma_deactivate_wf(ss, i);
                law_auto_manage_within_budget(deactivate_at(ss, i as int), budget);
            },
        }
    }
}

/// Budget management never removes or activates a block, never changes a
/// block's content or settings, and leaves every block that is inactive or
/// essential exactly as it was; it only deactivates.
pub proof fn law_auto_manage_only_deactivates(ss: Seq<Option<CoreBlock>>, budget: nat)
    requires
        wf_slots(ss),
    ensures
        wf_slots(auto_managed(ss, budget)),
        forall|i: int|
            0 <= i < 8 ==> {
                let r = #[trigger] auto_managed(ss, budget)[i];
                &&& !is_candidate(ss[i]) ==> r == ss[i]
                &&& is_candidate(ss[i]) ==> (r == ss[i] || r == Some(CoreBlock { is_active: false, ..ss[i]->0 }))
            },
    decreases candidate_count(ss, 8),
{
    if usage(ss) <= budget {
    } else {
        lemma_min_candidate_is_candidate(ss, 8);
        match min_candidate(ss, 8) {
            None => {},
            Some(k) => {
                let d = deactivate_at(ss, k as int);
                lemma_deactivate_count(ss, k, 8);
                lemma_deactivate_wf(ss, k);
                law_auto_manage_only_deactivates(d, budget);
                assert forall|i: int|
                    0 <= i < 8 implies {
                        let r = #[trigger] auto_managed(ss, budget)[i];
                        &&& !is_candidate(ss[i]) ==> r == ss[i]
                        &&& is_candidate(ss[i]) ==> (r == ss[i] || r == Some(CoreBlock { is_active: false, ..ss[i]->0 }))
                    } by {
                    if i == k as int {
                        assert(!is_candidate(d[i]));
                    }
                }
            },
        }
    }
}

/// Essential blocks are never deactivated by budget management.
pub proof fn law_auto_manage_keeps_essential(ss: Seq<Option<CoreBlock>>, budget: nat, t: CoreBlockType)
    requires
        wf_slots(ss),
        essential_type(t),
    ensures
        slot_of(auto_managed(ss, budget), t) == slot_of(ss, t),
{
    law_auto_manage_only_deactivates(ss, budget);
    assert(!is_candidate(ss[priority_of(t) as int]));
}

/// The text of a block when it is present, active and holds text.
pub open spec fn active_text(o: Option<CoreBlock>) -> Option<Seq<char>> {
    match o {
        Some(b) => if b.is_active {
            b.memory_block.content.text()
        } else {
            None
        },
        None => None,
    }
}

proof fn lemma_context_split(bs: Seq<CoreBlock>, k: nat, n: nat)
    requires
        k < n <= bs.len(),
    ensures
        exists|q: Seq<char>| #[trigger] (context_prefix(bs, k) + block_context(bs[k as int]) + q) == context_prefix(bs, n),
    decreases n,
{
    if n == k + 1 {
        assert(context_prefix(bs, k) + block_context(bs[k as int]) + Seq::<char>::empty() =~= context_prefix(bs, n));
    } else {
        lemma_context_split(bs, k, (n - 1) as nat);
        let q = choose|q: Seq<char>|
            #[trigger] (context_prefix(bs, k) + block_context(bs[k as int]) + q) == context_prefix(bs, (n - 1) as nat);
        let q2 = q + block_context(bs[n - 1]);
        assert(context_prefix(bs, k) + block_context(bs[k as int]) + q2 =~= context_prefix(bs, n));
    }
}

proof fn lemma_active_listed(ss: Seq<Option<CoreBlock>>, i: int, n: nat)
    requires
        ss.len() == 8,
        0 <= i < n <= 8,
        ss[i] is Some && ss[i]->0.is_active,
    ensures
        exists|k: int| 0 <= k < active_prefix(ss, n).len() && #[trigger] active_prefix(ss, n)[k] == ss[i]->0,
    decreases n,
{
    if i < n - 1 {
        lemma_active_listed(ss, i, (n - 1) as nat);
        let rest = active_prefix(ss, (n - 1) as nat);
        let k = choose|k: int| 0 <= k < rest.len() && #[trigger] rest[k] == ss[i]->0;
        assert(active_prefix(ss, n)[k] == ss[i]->0);
    } else {
        let rest = active_prefix(ss, (n - 1) as nat);
        assert(active_prefix(ss, n)[rest.len() as int] == ss[i]->0);
    }
}

/// The context text shows every active block that holds text: for each
/// such block, `# <type name>`, a blank line, its text and a blank line
/// occur in the text.
pub proof fn law_context_shows_active_blocks(ss: Seq<Option<CoreBlock>>)
    requires
        wf_slots(ss),
    ensures
        forall|t: CoreBlockType|
            (#[trigger] active_text(slot_of(ss, t))) is Some ==> crate::text::contains_text(
                context_prefix(active_blocks(ss), active_blocks(ss).len()),
                "# "@ + name_of(t) + "\n\n"@ + active_text(slot_of(ss, t))->0 + "\n\n"@,
            ),
{
    assert forall|t: CoreBlockType|
        (#[trigger] active_text(slot_of(ss, t))) is Some implies crate::text::contains_text(
            context_prefix(active_blocks(ss), active_blocks(ss).len()),
            "# "@ + name_of(t) + "\n\n"@ + active_text(slot_of(ss, t))->0 + "\n\n"@,
        ) by {
        let i = priority_of(t) as int;
        let b = ss[i]->0;
        let x = b.memory_block.content.text()->0;
        assert(priority_of(b.core_type) == i);
        assert(b.core_type == t);
        let bs = active_blocks(ss);
        lemma_active_listed(ss, i, 8);
        let k = choose|k: int| 0 <= k < active_prefix(ss, 8).len() && #[trigger] active_prefix(ss, 8)[k] == b;
        lemma_context_split(bs, k as nat, bs.len());
        let q = choose|q: Seq<char>|
            #[trigger] (context_prefix(bs, k as nat) + block_context(bs[k]) + q) == context_prefix(bs, bs.len());
        let needle = "# "@ + name_of(t) + "\n\n"@ + x + "\n\n"@;
        assert(block_context(bs[k]) == needle);
        let hay = context_prefix(bs, bs.len());
        let p = context_prefix(bs, k as nat).len() as int;
        assert(hay.subrange(p, p + needle.len()) =~= needle);
        assert(crate::text::occurs_at(hay, needle, p));
    }
}

/// Active blocks come in strictly increasing priority order.
pub proof fn law_active_blocks_sorted(ss: Seq<Option<CoreBlock>>)
    requires
        wf_slots(ss),
    ensures
        forall|i: int, j: int|
            0 <= i < j < active_blocks(ss).len() ==> priority_of(#[trigger] active_blocks(ss)[i].core_type)
                < priority_of(#[trigger] active_blocks(ss)[j].core_type),
{
    lemma_active_prefix_sorted(ss, 8);
}

proof fn lemma_active_prefix_sorted(ss: Seq<Option<CoreBlock>>, n: nat)
    requires
        wf_slots(ss),
        n <= 8,
    ensures
        forall|i: int|
            0 <= i < active_prefix(ss, n).len() ==> priority_of(#[trigger] active_prefix(ss, n)[i].core_type) < n,
        forall|i: int, j: int|
            0 <= i < j < active_prefix(ss, n).len() ==> priority_of(#[trigger] active_prefix(ss, n)[i].core_type)
                < priority_of(#[trigger] active_prefix(ss, n)[j].core_type),
    decreases n,
{
    if n > 0 {
        lemma_active_prefix_sorted(ss, (n - 1) as nat);
    }
}

proof fn lemma_no_min_no_candidates(ss: Seq<Option<CoreBlock>>, n: nat)
    requires
        min_candidate(ss, n) is None,
    ensures
        candidate_count(ss, n) == 0,
    decreases n,
{
    if n > 0 {
        lemma_no_min_no_candidates(ss, (n - 1) as nat);
    }
}

proof fn lemma_deactivate_wf(ss: Seq<Option<CoreBlock>>, i: nat)
    requires
        wf_slots(ss),
        i < 8,
        ss[i as int] is Some,
    ensures
        wf_slots(deactivate_at(ss, i as int)),
{
}

/// Usage over a prefix never exceeds usage over a longer prefix.
pub proof fn lemma_usage_prefix_mono(ss: Seq<Option<CoreBlock>>, m: nat, n: nat)
    requires
        m <= n,
    ensures
        usage_prefix(ss, m) <= usage_prefix(ss, n),
    decreases n,
{
    if m < n {
        lemma_usage_prefix_mono(ss, m, (n - 1) as nat);
    }
}

} // verus!

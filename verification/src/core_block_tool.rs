//! The tool that lets an agent change its core context blocks: which block
//! and operation a request names, the content that results, and the change
//! made to the block manager.

use vstd::prelude::*;
use crate::core_blocks::{
    default_core_config, get_post, initialize_post, name_of, update_post, CoreBlockConfig, CoreBlockManager,
    CoreBlockType,
};
use crate::text::{push_str, str_eq, string_from_chars};

verus! {

/// How new content is combined with a block's current content.
#[derive(Debug, Clone, Copy, PartialEq, Eq, Structural)]
pub enum ContentOperation {
    Replace,
    Append,
    Prepend,
}

/// The operation a request names; `replace` when it names none.
pub open spec fn content_operation(op: Option<Seq<char>>) -> Option<ContentOperation> {
    match op {
        None => Some(ContentOperation::Replace),
        Some(o) => if o == "replace"@ {
            Some(ContentOperation::Replace)
        } else if o == "append"@ {
            Some(ContentOperation::Append)
        } else if o == "prepend"@ {
            Some(ContentOperation::Prepend)
        } else {
            None
        },
    }
}

/// The core block type with the given name, if any.
pub open spec fn core_type_named(name: Seq<char>) -> Option<CoreBlockType> {
    if name == name_of(CoreBlockType::SystemPrompt) {
        Some(CoreBlockType::SystemPrompt)
    } else if name == name_of(CoreBlockType::UserPersona) {
        Some(CoreBlockType::UserPersona)
    } else if name == name_of(CoreBlockType::TaskContext) {
        Some(CoreBlockType::TaskContext)
    } else if name == name_of(CoreBlockType::KeyFacts) {
        Some(CoreBlockType::KeyFacts)
    } else if name == name_of(CoreBlockType::UserPreferences) {
        Some(CoreBlockType::UserPreferences)
    } else if name == name_of(CoreBlockType::ConversationSummary) {
        Some(CoreBlockType::ConversationSummary)
    } else if name == name_of(CoreBlockType::ActiveGoals) {
        Some(CoreBlockType::ActiveGoals)
    } else if name == name_of(CoreBlockType::WorkingMemory) {
        Some(CoreBlockType::WorkingMemory)
    } else {
        None
    }
}

/// The content that results from an operation, given the block's current
/// text: appending and prepending join with a blank line.
pub open spec fn combined_content(op: ContentOperation, existing: Option<Seq<char>>, new: Seq<char>) -> Seq<char> {
    match (op, existing) {
        (ContentOperation::Append, Some(e)) => e + "\n\n"@ + new,
        (ContentOperation::Prepend, Some(e)) => new + "\n\n"@ + e,
        _ => new,
    }
}

/// How an operation is reported.
pub open spec fn operation_verb(op: ContentOperation) -> Seq<char> {
    match op {
        ContentOperation::Replace => "replaced"@,
        ContentOperation::Append => "appended to"@,
        ContentOperation::Prepend => "prepended to"@,
    }
}

/// A change made to a core block.
#[derive(Debug)]
pub struct CoreBlockChange {
    pub block_type: CoreBlockType,
    pub operation: ContentOperation,
    /// The block's content after the change.
    pub content: String,
    /// `Successfully <verb> <block type> core block`.
    pub message: String,
}

/// The current text of the block of type `t`, if any.
pub open spec fn current_text(m: CoreBlockManager, t: CoreBlockType) -> Option<Seq<char>> {
    match m.block(t) {
        Some(b) => b.memory_block.content.text(),
        None => None,
    }
}

/// What the tool does to the manager once the block type is known: blocks
/// are initialized, then the block's content is replaced by the combined
/// content (reading the block first when combining).
pub open spec fn modified(
    m0: CoreBlockManager,
    m1: CoreBlockManager,
    t: CoreBlockType,
    op: ContentOperation,
    new: Seq<char>,
    result: Seq<char>,
) -> bool {
    exists|mid: CoreBlockManager|
        #![trigger initialize_post(m0, mid)]
        {
            &&& mid.wf()
            &&& mid.config_view() == m0.config_view()
            &&& mid.user_view() == m0.user_view()
            &&& initialize_post(m0, mid)
            &&& result == combined_content(op, current_text(mid, t), new)
            &&& if op == ContentOperation::Replace {
                update_post(mid, m1, t, result)
            } else {
                exists|read: CoreBlockManager, r: Option<crate::core_blocks::CoreBlock>|
                    #![trigger get_post(mid, read, t, r)]
                    get_post(mid, read, t, r) && update_post(read, m1, t, result)
            }
        }
}

fn parse_core_type(name: &str) -> (r: Option<CoreBlockType>)
    ensures
        r == core_type_named(name@),
{
    if str_eq(name, "SystemPrompt") {
        Some(CoreBlockType::SystemPrompt)
    } else if str_eq(name, "UserPersona") {
        Some(CoreBlockType::UserPersona)
    } else if str_eq(name, "TaskContext") {
        Some(CoreBlockType::TaskContext)
    } else if str_eq(name, "KeyFacts") {
        Some(CoreBlockType::KeyFacts)
    } else if str_eq(name, "UserPreferences") {
        Some(CoreBlockType::UserPreferences)
    } else if str_eq(name, "ConversationSummary") {
        Some(CoreBlockType::ConversationSummary)
    } else if str_eq(name, "ActiveGoals") {
        Some(CoreBlockType::ActiveGoals)
    } else if str_eq(name, "WorkingMemory") {
        Some(CoreBlockType::WorkingMemory)
    } else {
        None
    }
}

fn parse_operation(op: Option<&str>) -> (r: Option<ContentOperation>)
    ensures
        r == content_operation(
            match op {
                Some(o) => Some(o@),
                None => None,
            },
        ),
{
    match op {
        None => Some(ContentOperation::Replace),
        Some(o) => if str_eq(o, "replace") {
            Some(ContentOperation::Replace)
        } else if str_eq(o, "append") {
            Some(ContentOperation::Append)
        } else if str_eq(o, "prepend") {
            Some(ContentOperation::Prepend)
        } else {
            None
        },
    }
}

/// What a modify-core-block request does to the block manager and returns:
/// an unknown block type is an error and changes nothing; otherwise the
/// blocks are initialized, an unknown operation is an error after that, and
/// a known one changes the named block.
pub open spec fn modify_core_block_post(
    before: CoreBlockManager,
    after: CoreBlockManager,
    block_type: Seq<char>,
    content: Seq<char>,
    operation: Option<Seq<char>>,
    r: Result<CoreBlockChange, String>,
) -> bool {
    &&& after.config_view() == before.config_view()
    &&& after.user_view() == before.user_view()
    &&& match core_type_named(block_type) {
        None => {
            &&& r is Err && r->Err_0@ == "Invalid block_type: "@ + block_type
            &&& forall|t: CoreBlockType| #[trigger] after.block(t) == before.block(t)
        },
        Some(t) => match content_operation(operation) {
            None => {
                &&& r is Err && r->Err_0@ == "Invalid operation: "@ + operation->0
                    + ". Use 'replace', 'append', or 'prepend'"@
                &&& initialize_post(before, after)
            },
            Some(op) => {
                &&& r is Ok
                &&& r->Ok_0.block_type == t
                &&& r->Ok_0.operation == op
                &&& modified(before, after, t, op, content, r->Ok_0.content@)
                &&& r->Ok_0.message@ == "Successfully "@ + operation_verb(op) + " "@ + block_type + " core block"@
            },
        },
    }
}

/// Changes a core block as the modify-core-block tool does: the block
/// type is named by `block_type`, the operation by `operation` (`replace`
/// when absent). An unknown block type is an error and changes nothing;
/// otherwise the blocks are initialized first, and an unknown operation is
/// an error after that.
pub fn modify_core_block(
    manager: &mut CoreBlockManager,
    block_type: &str,
    content: &str,
    operation: Option<&str>,
) -> (r: Result<CoreBlockChange, String>)
    requires
        old(manager).wf(),
    ensures
        final(manager).wf(),
        modify_core_block_post(
            *old(manager),
            *final(manager),
            block_type@,
            content@,
            match operation {
                Some(o) => Some(o@),
                None => None,
            },
            r,
        ),
{
    let t = match parse_core_type(block_type) {
        Some(t) => t,
        None => {
            let mut out: Vec<char> = Vec::new();
            push_str(&mut out, "Invalid block_type: ");
            push_str(&mut out, block_type);
            return Err(string_from_chars(out.as_slice()));
        },
    };
    let ghost m0 = *manager;
    let _ = manager.initialize();
    let ghost mid = *manager;
    let op = match parse_operation(operation) {
        Some(op) => op,
        None => {
            let mut out: Vec<char> = Vec::new();
            push_str(&mut out, "Invalid operation: ");
            match operation {
                Some(o) => push_str(&mut out, o),
                None => {},
            }
            push_str(&mut out, ". Use 'replace', 'append', or 'prepend'");
            return Err(string_from_chars(out.as_slice()));
        },
    };
    let ghost mut read_state = mid;
    let ghost mut read_block: Option<crate::core_blocks::CoreBlock> = None;
    let result = match op {
        ContentOperation::Replace => content.to_string(),
        _ => {
            let existing = manager.get_block(t);
            let ghost read = *manager;
            proof {
                read_state = read;
                read_block = existing;
            }
            let combined = match &existing {
                Some(b) => match b.get_text_content() {
                    Some(e) => {
                        let mut out: Vec<char> = Vec::new();
                        match op {
                            ContentOperation::Append => {
                                push_str(&mut out, e);
                                push_str(&mut out, "\n\n");
                                push_str(&mut out, content);
                            },
                            _ => {
                                push_str(&mut out, content);
                                push_str(&mut out, "\n\n");
                                push_str(&mut out, e);
                            },
                        }
                        string_from_chars(out.as_slice())
                    },
                    None => content.to_string(),
                },
                None => content.to_string(),
            };
            proof {
                assert(get_post(mid, read, t, existing));
                match mid.block(t) {
                    Some(b0) => {
                        assert(existing->0.same_as(read.block(t)->0));
                        assert(existing->0.memory_block.content.text() == b0.memory_block.content.text());
                    },
                    None => {},
                }
                assert(combined@ == combined_content(op, current_text(mid, t), content@));
            }
            combined
        },
    };
    let ghost before_update = *manager;
    let _ = manager.update_block(t, result.clone());
    proof {
        if op == ContentOperation::Replace {
            assert(before_update == mid);
        } else {
            assert(before_update == read_state);
            assert(get_post(mid, read_state, t, read_block));
        }
        assert(initialize_post(m0, mid));
    }
    let mut msg: Vec<char> = Vec::new();
    push_str(&mut msg, "Successfully ");
    match op {
        ContentOperation::Replace => push_str(&mut msg, "replaced"),
        ContentOperation::Append => push_str(&mut msg, "appended to"),
        ContentOperation::Prepend => push_str(&mut msg, "prepended to"),
    }
    push_str(&mut msg, " ");
    push_str(&mut msg, block_type);
    push_str(&mut msg, " core block");
    Ok(CoreBlockChange { block_type: t, operation: op, content: result, message: string_from_chars(msg.as_slice()) })
}

/// The tool that lets an agent change its core blocks, with the manager of
/// those blocks.
pub struct ModifyCoreBlockTool {
    pub core_block_manager: CoreBlockManager,
}

impl ModifyCoreBlockTool {
    /// A tool over a new manager with no blocks, for the given user and
    /// configuration (the default configuration when none is given).
    pub fn new(user_id: &str, config: Option<CoreBlockConfig>) -> (t: ModifyCoreBlockTool)
        ensures
            t.core_block_manager.wf(),
            forall|b: CoreBlockType| #[trigger] t.core_block_manager.block(b) is None,
            t.core_block_manager.config_view() == match config {
                Some(c) => c,
                None => default_core_config(),
            },
            t.core_block_manager.user_view() == user_id@,
    {
        ModifyCoreBlockTool { core_block_manager: CoreBlockManager::new(user_id, config) }
    }

    /// A tool over an existing manager.
    pub fn from_manager(manager: CoreBlockManager) -> (t: ModifyCoreBlockTool)
        ensures
            t.core_block_manager == manager,
    {
        ModifyCoreBlockTool { core_block_manager: manager }
    }

    /// The tool's name.
    pub fn name(&self) -> (s: &'static str)
        ensures
            s@ == "modify_core_block"@,
    {
        "modify_core_block"
    }

    /// The tool's description.
    pub fn description(&self) -> (s: &'static str)
        ensures
            s@ == "Modifies core context blocks that are always present in the AI's context window. Use this to update your system prompt, user persona, current task context, key facts, preferences, goals, or working memory. Changes persist across conversations."@,
    {
        "Modifies core context blocks that are always present in the AI's context window. Use this to update your system prompt, user persona, current task context, key facts, preferences, goals, or working memory. Changes persist across conversations."
    }

    /// The JSON schema of the tool's parameters, as JSON text.
    pub fn schema(&self) -> (s: &'static str)
        ensures
            s@ == r#"{"type":"object","properties":{"block_type":{"type":"string","enum":["SystemPrompt","UserPersona","TaskContext","KeyFacts","UserPreferences","ConversationSummary","ActiveGoals","WorkingMemory"],"description":"The type of core block to modify:\n• SystemPrompt: AI instructions & behavior rules\n• UserPersona: Information about the user\n• TaskContext: Current project or task details\n• KeyFacts: Important facts to remember\n• UserPreferences: User settings & preferences\n• ConversationSummary: Summary of current session\n• ActiveGoals: Current objectives and goals\n• WorkingMemory: Temporary notes and context"},"content":{"type":"string","description":"The new content for the core block. This will replace the existing content entirely."},"operation":{"type":"string","enum":["replace","append","prepend"],"description":"How to modify the content: 'replace' (default), 'append' to existing, or 'prepend' to existing","default":"replace"}},"required":["block_type","content"]}"#@,
    {
        r#"{"type":"object","properties":{"block_type":{"type":"string","enum":["SystemPrompt","UserPersona","TaskContext","KeyFacts","UserPreferences","ConversationSummary","ActiveGoals","WorkingMemory"],"description":"The type of core block to modify:\n• SystemPrompt: AI instructions & behavior rules\n• UserPersona: Information about the user\n• TaskContext: Current project or task details\n• KeyFacts: Important facts to remember\n• UserPreferences: User settings & preferences\n• ConversationSummary: Summary of current session\n• ActiveGoals: Current objectives and goals\n• WorkingMemory: Temporary notes and context"},"content":{"type":"string","description":"The new content for the core block. This will replace the existing content entirely."},"operation":{"type":"string","enum":["replace","append","prepend"],"description":"How to modify the content: 'replace' (default), 'append' to existing, or 'prepend' to existing","default":"replace"}},"required":["block_type","content"]}"#
    }

    /// Runs the tool on its manager (see `modify_core_block`).
    pub fn execute(&mut self, block_type: &str, content: &str, operation: Option<&str>) -> (r: Result<CoreBlockChange, String>)
        requires
            old(self).core_block_manager.wf(),
        ensures
            final(self).core_block_manager.wf(),
            modify_core_block_post(
                old(self).core_block_manager,
                final(self).core_block_manager,
                block_type@,
                content@,
                match operation {
                    Some(o) => Some(o@),
                    None => None,
                },
                r,
            ),
    {
        modify_core_block(&mut self.core_block_manager, block_type, content, operation)
    }
}

} // verus!

use vstd::prelude::*;
use crate::agents_api::{opt_text, texts};
use crate::text::{push_str, str_eq, string_from_chars, to_lowercase, unicode_lowercase};

verus! {

/// Configuration for creating an agent.
#[derive(Debug)]
pub struct AgentConfig {
    /// Unique agent identifier.
    pub agent_id: String,
    /// Human-readable name.
    pub name: String,
    /// Agent role.
    pub role: String,
    /// System prompt for this agent.
    pub system_prompt: Option<String>,
    /// LLM provider to use.
    pub provider: String,
    /// Tools available to this agent.
    pub tool_names: Vec<String>,
    /// Data directory for this agent's memory.
    pub data_dir: String,
}

/// The built-in agent personalities.
#[derive(Debug, Clone, Copy, PartialEq, Eq, Structural)]
pub enum Personality {
    Researcher,
    Calculator,
    Creative,
    Coordinator,
    Pragmatic,
}

/// The personalities in listing order.
pub open spec fn personality_at(i: int) -> Personality {
    if i == 0 {
        Personality::Researcher
    } else if i == 1 {
        Personality::Calculator
    } else if i == 2 {
        Personality::Creative
    } else if i == 3 {
        Personality::Coordinator
    } else {
        Personality::Pragmatic
    }
}

/// The key of a personality (also its agent identifier and role).
pub open spec fn personality_key(p: Personality) -> Seq<char> {
    match p {
        Personality::Researcher => "researcher"@,
        Personality::Calculator => "calculator"@,
        Personality::Creative => "creative"@,
        Personality::Coordinator => "coordinator"@,
        Personality::Pragmatic => "pragmatic"@,
    }
}

/// The display name of a personality.
pub open spec fn personality_name(p: Personality) -> Seq<char> {
    match p {
        Personality::Researcher => "Dr. Research"@,
        Personality::Calculator => "Logic"@,
        Personality::Creative => "Spark"@,
        Personality::Coordinator => "Maestro"@,
        Personality::Pragmatic => "Practical"@,
    }
}

/// The one-line description of a personality.
pub open spec fn personality_summary(p: Personality) -> Seq<char> {
    match p {
        Personality::Researcher => "Thorough analyst and fact-finder"@,
        Personality::Calculator => "Precise mathematical problem-solver"@,
        Personality::Creative => "Imaginative and artistic thinker"@,
        Personality::Coordinator => "Strategic organizer and delegator"@,
        Personality::Pragmatic => "Efficient and solution-focused"@,
    }
}

/// The tools a personality works with.
pub open spec fn personality_tools(p: Personality) -> Seq<Seq<char>> {
    match p {
        Personality::Researcher => seq![
            "search"@,
            "website"@,
            "block"@,
            "retrieve_context"@,
            "update_block"@,
        ],
        Personality::Calculator => seq!["calc"@],
        Personality::Creative => Seq::empty(),
        Personality::Coordinator => seq![
            "calc"@,
            "search"@,
            "website"@,
            "block"@,
            "retrieve_context"@,
            "update_block"@,
        ],
        Personality::Pragmatic => seq!["calc"@, "search"@],
    }
}

/// The error text for an unknown personality name.
pub open spec fn unknown_personality_message(name: Seq<char>) -> Seq<char> {
    "Unknown personality type: "@ + name
        + ". Available: researcher, calculator, creative, coordinator, pragmatic"@
}

/// The data directory of an agent: `<data_dir>/agents/<agent_id>`.
pub open spec fn agent_dir_text(data_dir: Seq<char>, agent_id: Seq<char>) -> Seq<char> {
    data_dir + "/agents/"@ + agent_id
}

/// Builds the data directory of an agent.
pub fn agent_data_dir(data_dir: &str, agent_id: &str) -> (s: String)
    ensures
        s@ == agent_dir_text(data_dir@, agent_id@),
{
    let mut out: Vec<char> = Vec::new();
    push_str(&mut out, data_dir);
    push_str(&mut out, "/agents/");
    push_str(&mut out, agent_id);
    string_from_chars(out.as_slice())
}

/// The system prompt of a personality.
pub open spec fn personality_prompt(p: Personality) -> Seq<char> {
    match p {
        Personality::Researcher => "You are Dr. Research, a thorough and analytical researcher. You excel at:\
                \n- Finding accurate information through web searches\
                \n- Analyzing websites and extracting key insights\
                \n- Storing important facts and information in memory blocks\
                \n- Retrieving and referencing previously stored knowledge\
                \n- Synthesizing information from multiple sources\
                \n- Providing well-sourced, factual responses\
                \n- Being methodical and comprehensive in your investigations\
                \n\nYou prefer to verify facts before stating them and always cite your sources.\
                \nYou actively use memory blocks to store important discoveries, facts, and research findings for future reference.\
                \n\nIMPORTANT: When you use any tools: Always give a clear final answer or response after using tools"@,
        Personality::Calculator => "You are Logic, a precise and methodical mathematical mind. You excel at:\
                \n- Solving complex mathematical problems step-by-step\
                \n- Breaking down complex calculations into manageable parts\
                \n- Explaining mathematical concepts clearly\
                \n- Verifying calculations and catching errors\
                \n- Finding patterns and relationships in data\
                \n\nYou think systematically, show your work, and double-check important calculations.\
                \n\nIMPORTANT: When you use any tools: Always provide a clear final answer with proper units or formatting"@,
        Personality::Creative => "You are Spark, a creative and imaginative thinker. You excel at:\
                \n- Generating novel ideas and creative solutions\
                \n- Thinking outside the box and making unexpected connections\
                \n- Storytelling and creative writing\
                \n- Brainstorming and ideation\
                \n- Finding artistic and aesthetic approaches to problems\
                \n\nYou approach challenges with curiosity and wonder, often proposing multiple creative alternatives."@,
        Personality::Coordinator => "You are Maestro, a strategic coordinator and organizer. You excel at:\
                \n- Breaking complex tasks into manageable steps\
                \n- Coordinating multiple resources and team members\
                \n- Strategic planning and project management\
                \n- Storing important project information and decisions in memory blocks\
                \n- Tracking progress, goals, and preferences across projects\
                \n- Identifying which specialists to involve for different tasks\
                \n- Synthesizing results from multiple sources\
                \n\nYou think systematically about workflows and can delegate tasks to the right agents.\
                \nYou actively use memory blocks to track project goals, user preferences, and important decisions.\
                \n\nIMPORTANT: When you use any tools: Always provide clear recommendations or next actions based on the tool results"@,
        Personality::Pragmatic => "You are Practical, a pragmatic and efficient problem-solver. You excel at:\
                \n- Finding the most efficient solution to problems\
                \n- Cutting through complexity to focus on what matters\
                \n- Providing actionable, concrete advice\
                \n- Balancing trade-offs and making practical decisions\
                \n- Getting things done with minimal fuss\
                \n\nYou prefer simple, working solutions over complex theoretical approaches.\
                \n\nIMPORTANT: When you use any tools: Always provide a clear, practical final answer or next steps"@,
    }
}

/// The system prompt of a personality.
pub fn prompt_text(p: Personality) -> (s: &'static str)
    ensures
        s@ == personality_prompt(p),
{
    match p {
        Personality::Researcher => "You are Dr. Research, a thorough and analytical researcher. You excel at:\
                \n- Finding accurate information through web searches\
                \n- Analyzing websites and extracting key insights\
                \n- Storing important facts and information in memory blocks\
                \n- Retrieving and referencing previously stored knowledge\
                \n- Synthesizing information from multiple sources\
                \n- Providing well-sourced, factual responses\
                \n- Being methodical and comprehensive in your investigations\
                \n\nYou prefer to verify facts before stating them and always cite your sources.\
                \nYou actively use memory blocks to store important discoveries, facts, and research findings for future reference.\
                \n\nIMPORTANT: When you use any tools: Always give a clear final answer or response after using tools",
        Personality::Calculator => "You are Logic, a precise and methodical mathematical mind. You excel at:\
                \n- Solving complex mathematical problems step-by-step\
                \n- Breaking down complex calculations into manageable parts\
                \n- Explaining mathematical concepts clearly\
                \n- Verifying calculations and catching errors\
                \n- Finding patterns and relationships in data\
                \n\nYou think systematically, show your work, and double-check important calculations.\
                \n\nIMPORTANT: When you use any tools: Always provide a clear final answer with proper units or formatting",
        Personality::Creative => "You are Spark, a creative and imaginative thinker. You excel at:\
                \n- Generating novel ideas and creative solutions\
                \n- Thinking outside the box and making unexpected connections\
                \n- Storytelling and creative writing\
                \n- Brainstorming and ideation\
                \n- Finding artistic and aesthetic approaches to problems\
                \n\nYou approach challenges with curiosity and wonder, often proposing multiple creative alternatives.",
        Personality::Coordinator => "You are Maestro, a strategic coordinator and organizer. You excel at:\
                \n- Breaking complex tasks into manageable steps\
                \n- Coordinating multiple resources and team members\
                \n- Strategic planning and project management\
                \n- Storing important project information and decisions in memory blocks\
                \n- Tracking progress, goals, and preferences across projects\
                \n- Identifying which specialists to involve for different tasks\
                \n- Synthesizing results from multiple sources\
                \n\nYou think systematically about workflows and can delegate tasks to the right agents.\
                \nYou actively use memory blocks to track project goals, user preferences, and important decisions.\
                \n\nIMPORTANT: When you use any tools: Always provide clear recommendations or next actions based on the tool results",
        Personality::Pragmatic => "You are Practical, a pragmatic and efficient problem-solver. You excel at:\
                \n- Finding the most efficient solution to problems\
                \n- Cutting through complexity to focus on what matters\
                \n- Providing actionable, concrete advice\
                \n- Balancing trade-offs and making practical decisions\
                \n- Getting things done with minimal fuss\
                \n\nYou prefer simple, working solutions over complex theoretical approaches.\
                \n\nIMPORTANT: When you use any tools: Always provide a clear, practical final answer or next steps",
    }
}

/// The display name of a personality.
pub(crate) fn name_text(p: Personality) -> (s: &'static str)
    ensures
        s@ == personality_name(p),
{
    match p {
        Personality::Researcher => "Dr. Research",
        Personality::Calculator => "Logic",
        Personality::Creative => "Spark",
        Personality::Coordinator => "Maestro",
        Personality::Pragmatic => "Practical",
    }
}

/// The key of a personality.
pub fn key_text(p: Personality) -> (s: &'static str)
    ensures
        s@ == personality_key(p),
{
    match p {
        Personality::Researcher => "researcher",
        Personality::Calculator => "calculator",
        Personality::Creative => "creative",
        Personality::Coordinator => "coordinator",
        Personality::Pragmatic => "pragmatic",
    }
}

fn tool_list(p: Personality) -> (v: Vec<String>)
    ensures
        texts(v@) == personality_tools(p),
{
    let mut v: Vec<String> = Vec::new();
    match p {
        Personality::Researcher => {
            v.push("search".to_string());
            v.push("website".to_string());
            v.push("block".to_string());
            v.push("retrieve_context".to_string());
            v.push("update_block".to_string());
        },
        Personality::Calculator => {
            v.push("calc".to_string());
        },
        Personality::Creative => {},
        Personality::Coordinator => {
            v.push("calc".to_string());
            v.push("search".to_string());
            v.push("website".to_string());
            v.push("block".to_string());
            v.push("retrieve_context".to_string());
            v.push("update_block".to_string());
        },
        Personality::Pragmatic => {
            v.push("calc".to_string());
            v.push("search".to_string());
        },
    }
    assert(texts(v@) =~= personality_tools(p));
    v
}

/// The configuration of a personality agent: its key as identifier and
/// role, its display name, prompt and tools, with the given provider and
/// data directory.
pub fn personality_config(p: Personality, data_dir: &str, provider: &str) -> (c: AgentConfig)
    ensures
        c.agent_id@ == personality_key(p),
        c.name@ == personality_name(p),
        c.role@ == personality_key(p),
        opt_text(c.system_prompt) == Some(personality_prompt(p)),
        c.provider@ == provider@,
        texts(c.tool_names@) == personality_tools(p),
        c.data_dir@ == data_dir@,
{
    AgentConfig {
        agent_id: key_text(p).to_string(),
        name: name_text(p).to_string(),
        role: key_text(p).to_string(),
        system_prompt: Some(prompt_text(p).to_string()),
        provider: provider.to_string(),
        tool_names: tool_list(p),
        data_dir: data_dir.to_string(),
    }
}

/// The kinds of tools an agent can be given.
#[derive(Debug, Clone, Copy, PartialEq, Eq, Structural)]
pub enum ToolKind {
    Calculator,
    Search,
    Website,
    RetrieveContext,
    Block,
    UpdateBlock,
    DeleteBlock,
    ModifyCoreBlock,
    /// A tool name that is not known: a placeholder tool carries the name.
    Unknown,
}

/// The tool kind a base agent builds for a tool name.
pub open spec fn base_tool_kind_of(name: Seq<char>) -> ToolKind {
    if name == "calculator"@ || name == "calc"@ {
        ToolKind::Calculator
    } else if name == "search"@ {
        ToolKind::Search
    } else if name == "website"@ {
        ToolKind::Website
    } else if name == "retrieve_context"@ {
        ToolKind::RetrieveContext
    } else if name == "block"@ {
        ToolKind::Block
    } else if name == "update_block"@ {
        ToolKind::UpdateBlock
    } else if name == "delete_block"@ {
        ToolKind::DeleteBlock
    } else if name == "modify_core_block"@ {
        ToolKind::ModifyCoreBlock
    } else {
        ToolKind::Unknown
    }
}

/// The tool kind a personality agent builds for a tool name.
pub open spec fn personality_tool_kind_of(name: Seq<char>) -> ToolKind {
    if name == "calc"@ {
        ToolKind::Calculator
    } else if name == "search"@ {
        ToolKind::Search
    } else if name == "website"@ {
        ToolKind::Website
    } else if name == "block"@ {
        ToolKind::Block
    } else if name == "retrieve_context"@ {
        ToolKind::RetrieveContext
    } else if name == "update_block"@ {
        ToolKind::UpdateBlock
    } else if name == "delete_block"@ {
        ToolKind::DeleteBlock
    } else {
        ToolKind::Unknown
    }
}

/// Chooses the tool a base agent builds for a registered tool name.
pub fn base_tool_kind(name: &str) -> (k: ToolKind)
    ensures
        k == base_tool_kind_of(name@),
{
    if str_eq(name, "calculator") || str_eq(name, "calc") {
        ToolKind::Calculator
    } else if str_eq(name, "search") {
        ToolKind::Search
    } else if str_eq(name, "website") {
        ToolKind::Website
    } else if str_eq(name, "retrieve_context") {
        ToolKind::RetrieveContext
    } else if str_eq(name, "block") {
        ToolKind::Block
    } else if str_eq(name, "update_block") {
        ToolKind::UpdateBlock
    } else if str_eq(name, "delete_block") {
        ToolKind::DeleteBlock
    } else if str_eq(name, "modify_core_block") {
        ToolKind::ModifyCoreBlock
    } else {
        ToolKind::Unknown
    }
}

/// Chooses the tool a personality agent builds for a tool's name.
pub fn personality_tool_kind(name: &str) -> (k: ToolKind)
    ensures
        k == personality_tool_kind_of(name@),
{
    if str_eq(name, "calc") {
        ToolKind::Calculator
    } else if str_eq(name, "search") {
        ToolKind::Search
    } else if str_eq(name, "website") {
        ToolKind::Website
    } else if str_eq(name, "block") {
        ToolKind::Block
    } else if str_eq(name, "retrieve_context") {
        ToolKind::RetrieveContext
    } else if str_eq(name, "update_block") {
        ToolKind::UpdateBlock
    } else if str_eq(name, "delete_block") {
        ToolKind::DeleteBlock
    } else {
        ToolKind::Unknown
    }
}

/// Creates personality-based agents with different reasoning styles and tools.
pub struct PersonalityAgentBuilder;

impl PersonalityAgentBuilder {
    /// All personalities as (key, display name, description), in the order
    /// researcher, calculator, creative, coordinator, pragmatic.
    pub fn list_personalities() -> (v: Vec<(&'static str, &'static str, &'static str)>)
        ensures
            v@.len() == 5,
            forall|i: int|
                0 <= i < 5 ==> {
                    &&& (#[trigger] v@[i]).0@ == personality_key(personality_at(i))
                    &&& v@[i].1@ == personality_name(personality_at(i))
                    &&& v@[i].2@ == personality_summary(personality_at(i))
                },
    {
        let mut v: Vec<(&'static str, &'static str, &'static str)> = Vec::new();
        v.push(("researcher", "Dr. Research", "Thorough analyst and fact-finder"));
        v.push(("calculator", "Logic", "Precise mathematical problem-solver"));
        v.push(("creative", "Spark", "Imaginative and artistic thinker"));
        v.push(("coordinator", "Maestro", "Strategic organizer and delegator"));
        v.push(("pragmatic", "Practical", "Efficient and solution-focused"));
        v
    }

    /// Resolves a personality name, ignoring case; an unknown name is an
    /// error naming the available personalities.
    pub fn personality_of(personality: &str) -> (r: Result<Personality, String>)
        ensures
            match r {
                Ok(p) => personality_key(p) == unicode_lowercase(personality@),
                Err(msg) => {
                    &&& forall|p: Personality| personality_key(p) != unicode_lowercase(personality@)
                    &&& msg@ == unknown_personality_message(personality@)
                },
            },
    {
        let lower = to_lowercase(personality);
        let l = lower.as_str();
        if str_eq(l, "researcher") {
            Ok(Personality::Researcher)
        } else if str_eq(l, "calculator") {
            Ok(Personality::Calculator)
        } else if str_eq(l, "creative") {
            Ok(Personality::Creative)
        } else if str_eq(l, "coordinator") {
            Ok(Personality::Coordinator)
        } else if str_eq(l, "pragmatic") {
            Ok(Personality::Pragmatic)
        } else {
            let mut out: Vec<char> = Vec::new();
            push_str(&mut out, "Unknown personality type: ");
            push_str(&mut out, personality);
            push_str(&mut out, ". Available: researcher, calculator, creative, coordinator, pragmatic");
            proof {
                assert forall|p: Personality| personality_key(p) != unicode_lowercase(personality@) by {
                    match p {
                        Personality::Researcher => {},
                        Personality::Calculator => {},
                        Personality::Creative => {},
                        Personality::Coordinator => {},
                        Personality::Pragmatic => {},
                    }
                }
            }
            Err(string_from_chars(out.as_slice()))
        }
    }
}

} // verus!

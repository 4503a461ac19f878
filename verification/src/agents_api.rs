//! Agent configurations served by the agent management API: built-in
//! defaults, custom agents, identifier generation, partial updates and the
//! validation of creation requests.

use vstd::prelude::*;
use crate::clock::{is_hyphenated_uuid, new_uuid_text, unix_seconds};
use crate::text::{decimal, push_digits, push_str, string_from_chars, trim_char, trim_space, unicode_alphanumeric, unicode_lowercase};

verus! {

/// Agent configuration as exposed by the API.
#[derive(Debug)]
pub struct AgentConfig {
    pub id: String,
    pub name: String,
    pub role: String,
    pub description: String,
    pub capabilities: Vec<String>,
    pub tools: Vec<String>,
    pub icon: Option<String>,
    pub color: String,
    pub custom: bool,
    pub system_prompt: Option<String>,
    pub provider: Option<String>,
    pub created_at: Option<String>,
    pub updated_at: Option<String>,
}

/// A partial update of an agent configuration.
#[derive(Debug)]
pub struct AgentConfigUpdate {
    pub name: Option<String>,
    pub role: Option<String>,
    pub description: Option<String>,
    pub capabilities: Option<Vec<String>>,
    pub tools: Option<Vec<String>>,
    pub icon: Option<String>,
    pub color: Option<String>,
    pub system_prompt: Option<String>,
    pub provider: Option<String>,
}

/// A request to create a new agent.
#[derive(Debug)]
pub struct CreateAgentRequest {
    pub name: String,
    pub role: String,
    pub description: String,
    pub capabilities: Option<Vec<String>>,
    pub tools: Option<Vec<String>>,
    pub icon: Option<String>,
    pub color: Option<String>,
    pub system_prompt: Option<String>,
    pub provider: Option<String>,
}

/// An API error: an HTTP status code and a message.
#[derive(Debug)]
pub struct ApiError {
    pub status: u16,
    pub message: String,
}

/// The text of a string list.
pub open spec fn texts(v: Seq<String>) -> Seq<Seq<char>> {
    v.map_values(|s: String| s@)
}

/// The text of an optional string.
pub open spec fn opt_text(o: Option<String>) -> Option<Seq<char>> {
    match o {
        Some(s) => Some(s@),
        None => None,
    }
}

/// The identifier stem of an agent name: the name lower-cased, every
/// non-alphanumeric character replaced by `-`, and `-` trimmed from both
/// ends.
pub open spec fn id_stem(name: Seq<char>) -> Seq<char> {
    let lower = unicode_lowercase(name);
    trim_char(
        Seq::new(lower.len(), |i: int| if unicode_alphanumeric(lower[i]) { lower[i] } else { '-' }),
        '-',
    )
}

/// A generated agent identifier: the stem, `-`, and the first eight
/// characters of a random UUID (lower-case hexadecimal digits).
pub open spec fn is_generated_agent_id(id: Seq<char>, name: Seq<char>) -> bool {
    exists|u: Seq<char>| is_hyphenated_uuid(u) && id == id_stem(name) + "-"@ + u.subrange(0, 8)
}

/// A timestamp string: the decimal seconds since the epoch.
pub open spec fn is_seconds_text(s: Option<Seq<char>>) -> bool {
    exists|t: u64| s == Some(decimal(t as nat))
}

fn seconds_text() -> (s: String)
    ensures
        is_seconds_text(Some(s@)),
{
    let t = unix_seconds();
    let mut out: Vec<char> = Vec::new();
    push_digits(t as u128, 10, &mut out);
    let s = string_from_chars(out.as_slice());
    assert(s@ == decimal(t as nat));
    s
}

impl AgentConfig {
    /// Generates an identifier from an agent name.
    pub fn generate_id(name: &str) -> (id: String)
        ensures
            is_generated_agent_id(id@, name@),
    {
        let lower = crate::text::to_lowercase(name);
        let lv = crate::text::chars_of(lower.as_str());
        let mut mapped: Vec<char> = Vec::new();
        let mut i: usize = 0;
        while i < lv.len()
            invariant
                lv@ == unicode_lowercase(name@),
                i <= lv@.len(),
                mapped@ =~= Seq::new(
                    lv@.len(),
                    |k: int| if unicode_alphanumeric(lv@[k]) { lv@[k] } else { '-' },
                ).subrange(0, i as int),
            decreases lv@.len() - i,
        {
            let c = lv[i];
            if crate::text::is_alphanumeric(c) {
                mapped.push(c);
            } else {
                mapped.push('-');
            }
            i = i + 1;
        }
        assert(mapped@ =~= Seq::new(
            lv@.len(),
            |k: int| if unicode_alphanumeric(lv@[k]) { lv@[k] } else { '-' },
        ));
        let mut out = crate::text::trim_char_chars(mapped.as_slice(), '-');
        proof {
            reveal_strlit("-");
        }
        let uuid = new_uuid_text();
        let uv = crate::text::chars_of(uuid.as_str());
        out.push('-');
        let mut k: usize = 0;
        while k < 8
            invariant
                k <= 8,
                uv@.len() == 36,
                out@ =~= id_stem(name@) + "-"@ + uv@.subrange(0, k as int),
            decreases 8 - k,
        {
            out.push(uv[k]);
            k = k + 1;
        }
        let id = string_from_chars(out.as_slice());
        assert(is_hyphenated_uuid(uv@));
        id
    }

    /// Creates a custom agent configuration with a generated identifier
    /// and creation and update times set to now.
    pub fn new_custom(
        name: String,
        role: String,
        description: String,
        capabilities: Vec<String>,
        tools: Vec<String>,
        icon: Option<String>,
        color: String,
        system_prompt: Option<String>,
        provider: Option<String>,
    ) -> (a: AgentConfig)
        ensures
            is_generated_agent_id(a.id@, name@),
            a.name == name,
            a.role == role,
            a.description == description,
            a.capabilities == capabilities,
            a.tools == tools,
            a.icon == icon,
            a.color == color,
            a.custom,
            a.system_prompt == system_prompt,
            a.provider == provider,
            is_seconds_text(opt_text(a.created_at)),
            opt_text(a.created_at) == opt_text(a.updated_at),
    {
        let id = Self::generate_id(name.as_str());
        let now = seconds_text();
        AgentConfig {
            id,
            name,
            role,
            description,
            capabilities,
            tools,
            icon,
            color,
            custom: true,
            system_prompt,
            provider,
            created_at: Some(now.clone()),
            updated_at: Some(now),
        }
    }

    /// Applies a partial update: each field given in `updates` replaces the
    /// current one; the update time is set to now.
    pub fn update(self, updates: AgentConfigUpdate) -> (a: AgentConfig)
        ensures
            a.id == self.id,
            a.custom == self.custom,
            a.created_at == self.created_at,
            a.name == match updates.name { Some(v) => v, None => self.name },
            a.role == match updates.role { Some(v) => v, None => self.role },
            a.description == match updates.description { Some(v) => v, None => self.description },
            a.capabilities == match updates.capabilities { Some(v) => v, None => self.capabilities },
            a.tools == match updates.tools { Some(v) => v, None => self.tools },
            a.icon == match updates.icon { Some(v) => Some(v), None => self.icon },
            a.color == match updates.color { Some(v) => v, None => self.color },
            a.system_prompt == match updates.system_prompt { Some(v) => Some(v), None => self.system_prompt },
            a.provider == match updates.provider { Some(v) => Some(v), None => self.provider },
            is_seconds_text(opt_text(a.updated_at)),
    {
        let mut a = self;
        if let Some(v) = updates.name {
            a.name = v;
        }
        if let Some(v) = updates.role {
            a.role = v;
        }
        if let Some(v) = updates.description {
            a.description = v;
        }
        if let Some(v) = updates.capabilities {
            a.capabilities = v;
        }
        if let Some(v) = updates.tools {
            a.tools = v;
        }
        if let Some(v) = updates.icon {
            a.icon = Some(v);
        }
        if let Some(v) = updates.color {
            a.color = v;
        }
        if let Some(v) = updates.system_prompt {
            a.system_prompt = Some(v);
        }
        if let Some(v) = updates.provider {
            a.provider = Some(v);
        }
        a.updated_at = Some(seconds_text());
        a
    }
}

} // verus!

verus! {

/// Identifier of the `i`-th built-in agent.
pub open spec fn default_agent_id(i: int) -> Seq<char> {
    if i == 0 {
        "researcher"@
    } else if i == 1 {
        "calculator"@
    } else if i == 2 {
        "creative"@
    } else if i == 3 {
        "coordinator"@
    } else {
        "pragmatic"@
    }
}

/// Name of the `i`-th built-in agent.
pub open spec fn default_agent_name(i: int) -> Seq<char> {
    if i == 0 {
        "Dr. Research"@
    } else if i == 1 {
        "Logic"@
    } else if i == 2 {
        "Spark"@
    } else if i == 3 {
        "Maestro"@
    } else {
        "Practical"@
    }
}

/// Role of the `i`-th built-in agent.
pub open spec fn default_agent_role(i: int) -> Seq<char> {
    if i == 0 {
        "Thorough analyst and fact-finder"@
    } else if i == 1 {
        "Precise mathematical problem-solver"@
    } else if i == 2 {
        "Imaginative and artistic thinker"@
    } else if i == 3 {
        "Strategic organizer and delegator"@
    } else {
        "Efficient and solution-focused"@
    }
}

/// Description of the `i`-th built-in agent.
pub open spec fn default_agent_description(i: int) -> Seq<char> {
    if i == 0 {
        "A methodical researcher who excels at finding accurate information, analyzing sources, and storing knowledge for future reference."@
    } else if i == 1 {
        "A systematic thinker who approaches problems with mathematical precision and methodical step-by-step analysis."@
    } else if i == 2 {
        "A creative mind that generates novel ideas, thinks outside the box, and finds artistic solutions to challenges."@
    } else if i == 3 {
        "A master coordinator who breaks down complex projects, manages resources, and orchestrates team efforts."@
    } else {
        "A pragmatic problem-solver who cuts through complexity to deliver efficient, actionable solutions."@
    }
}

/// Capabilities of the `i`-th built-in agent.
pub open spec fn default_agent_capabilities(i: int) -> Seq<Seq<char>> {
    if i == 0 {
        seq!["Web search and source verification"@, "Website analysis and data extraction"@, "Memory block storage and retrieval"@, "Semantic search across stored knowledge"@, "Multi-source information synthesis"@, "Fact-checking and citation"@]
    } else if i == 1 {
        seq!["Complex mathematical calculations"@, "Step-by-step problem breakdown"@, "Pattern recognition in data"@, "Error checking and verification"@, "Clear explanation of solutions"@, "Unit conversion and formatting"@]
    } else if i == 2 {
        seq!["Creative ideation and brainstorming"@, "Storytelling and creative writing"@, "Unexpected connection making"@, "Multiple alternative proposals"@, "Aesthetic problem solving"@, "Pure reasoning and intuition"@]
    } else if i == 3 {
        seq!["Strategic planning and organization"@, "Complex task decomposition"@, "Resource coordination and delegation"@, "Progress tracking and goal management"@, "Cross-project knowledge synthesis"@, "Workflow optimization"@]
    } else {
        seq!["Efficient problem-solving"@, "Complexity reduction and focus"@, "Actionable advice delivery"@, "Trade-off analysis and decisions"@, "Minimal-fuss implementation"@, "Essential tool utilization"@]
    }
}

/// Tools of the `i`-th built-in agent.
pub open spec fn default_agent_tools(i: int) -> Seq<Seq<char>> {
    if i == 0 {
        seq!["search"@, "website"@, "memory_blocks"@, "semantic_search"@]
    } else if i == 1 {
        seq!["calculator"@]
    } else if i == 2 {
        seq![]
    } else if i == 3 {
        seq!["calculator"@, "search"@, "website"@, "memory_blocks"@, "semantic_search"@]
    } else {
        seq!["calculator"@, "search"@]
    }
}

/// Icon of the `i`-th built-in agent.
pub open spec fn default_agent_icon(i: int) -> Seq<char> {
    if i == 0 {
        "Search"@
    } else if i == 1 {
        "Calculator"@
    } else if i == 2 {
        "Lightbulb"@
    } else if i == 3 {
        "Users"@
    } else {
        "Wrench"@
    }
}

/// Color of the `i`-th built-in agent.
pub open spec fn default_agent_color(i: int) -> Seq<char> {
    if i == 0 {
        "from-blue-500 to-cyan-500"@
    } else if i == 1 {
        "from-green-500 to-emerald-500"@
    } else if i == 2 {
        "from-purple-500 to-pink-500"@
    } else if i == 3 {
        "from-orange-500 to-red-500"@
    } else {
        "from-gray-500 to-slate-500"@
    }
}

/// `a` is the `i`-th built-in agent.
pub open spec fn is_default_agent(a: AgentConfig, i: int) -> bool {
    &&& a.id@ == default_agent_id(i)
    &&& a.name@ == default_agent_name(i)
    &&& a.role@ == default_agent_role(i)
    &&& a.description@ == default_agent_description(i)
    &&& texts(a.capabilities@) == default_agent_capabilities(i)
    &&& texts(a.tools@) == default_agent_tools(i)
    &&& opt_text(a.icon) == Some(default_agent_icon(i))
    &&& a.color@ == default_agent_color(i)
    &&& !a.custom
    &&& a.system_prompt is None
    &&& a.provider is None
    &&& a.created_at is None
    &&& a.updated_at is None
}

fn strings_of(items: &[&str]) -> (v: Vec<String>)
    ensures
        texts(v@) == items@.map_values(|s: &str| s@),
{
    let mut v: Vec<String> = Vec::new();
    let mut i: usize = 0;
    while i < items.len()
        invariant
            i <= items@.len(),
            v@.len() == i,
            forall|j: int| 0 <= j < i ==> (#[trigger] v@[j])@ == items@[j]@,
        decreases items@.len() - i,
    {
        v.push(items[i].to_string());
        i = i + 1;
    }
    assert(texts(v@) =~= items@.map_values(|s: &str| s@));
    v
}

fn default_agent(
    id: &str,
    name: &str,
    role: &str,
    description: &str,
    capabilities: &[&str],
    tools: &[&str],
    icon: &str,
    color: &str,
) -> (a: AgentConfig)
    ensures
        a.id@ == id@,
        a.name@ == name@,
        a.role@ == role@,
        a.description@ == description@,
        texts(a.capabilities@) == capabilities@.map_values(|s: &str| s@),
        texts(a.tools@) == tools@.map_values(|s: &str| s@),
        opt_text(a.icon) == Some(icon@),
        a.color@ == color@,
        !a.custom,
        a.system_prompt is None,
        a.provider is None,
        a.created_at is None,
        a.updated_at is None,
{
    AgentConfig {
        id: id.to_string(),
        name: name.to_string(),
        role: role.to_string(),
        description: description.to_string(),
        capabilities: strings_of(capabilities),
        tools: strings_of(tools),
        icon: Some(icon.to_string()),
        color: color.to_string(),
        custom: false,
        system_prompt: None,
        provider: None,
        created_at: None,
        updated_at: None,
    }
}

/// The `i`-th built-in agent.
fn default_agent_at(i: usize) -> (a: AgentConfig)
    requires
        i < 5,
    ensures
        is_default_agent(a, i as int),
{
    if i == 0 {
        let caps0: [&str; 6] = ["Web search and source verification", "Website analysis and data extraction", "Memory block storage and retrieval", "Semantic search across stored knowledge", "Multi-source information synthesis", "Fact-checking and citation"];
        let tools0: [&str; 4] = ["search", "website", "memory_blocks", "semantic_search"];
        let a0 = default_agent(
            "researcher",
            "Dr. Research",
            "Thorough analyst and fact-finder",
            "A methodical researcher who excels at finding accurate information, analyzing sources, and storing knowledge for future reference.",
            &caps0,
            &tools0,
            "Search",
            "from-blue-500 to-cyan-500",
        );
        assert(caps0@.map_values(|s: &str| s@) =~= default_agent_capabilities(0));
        assert(tools0@.map_values(|s: &str| s@) =~= default_agent_tools(0));
        a0
    } else if i == 1 {
        let caps1: [&str; 6] = ["Complex mathematical calculations", "Step-by-step problem breakdown", "Pattern recognition in data", "Error checking and verification", "Clear explanation of solutions", "Unit conversion and formatting"];
        let tools1: [&str; 1] = ["calculator"];
        let a1 = default_agent(
            "calculator",
            "Logic",
            "Precise mathematical problem-solver",
            "A systematic thinker who approaches problems with mathematical precision and methodical step-by-step analysis.",
            &caps1,
            &tools1,
            "Calculator",
            "from-green-500 to-emerald-500",
        );
        assert(caps1@.map_values(|s: &str| s@) =~= default_agent_capabilities(1));
        assert(tools1@.map_values(|s: &str| s@) =~= default_agent_tools(1));
        a1
    } else if i == 2 {
        let caps2: [&str; 6] = ["Creative ideation and brainstorming", "Storytelling and creative writing", "Unexpected connection making", "Multiple alternative proposals", "Aesthetic problem solving", "Pure reasoning and intuition"];
        let tools2: [&str; 0] = [];
        let a2 = default_agent(
            "creative",
            "Spark",
            "Imaginative and artistic thinker",
            "A creative mind that generates novel ideas, thinks outside the box, and finds artistic solutions to challenges.",
            &caps2,
            &tools2,
            "Lightbulb",
            "from-purple-500 to-pink-500",
        );
        assert(caps2@.map_values(|s: &str| s@) =~= default_agent_capabilities(2));
        assert(tools2@.map_values(|s: &str| s@) =~= default_agent_tools(2));
        a2
    } else if i == 3 {
        let caps3: [&str; 6] = ["Strategic planning and organization", "Complex task decomposition", "Resource coordination and delegation", "Progress tracking and goal management", "Cross-project knowledge synthesis", "Workflow optimization"];
        let tools3: [&str; 5] = ["calculator", "search", "website", "memory_blocks", "semantic_search"];
        let a3 = default_agent(
            "coordinator",
            "Maestro",
            "Strategic organizer and delegator",
            "A master coordinator who breaks down complex projects, manages resources, and orchestrates team efforts.",
            &caps3,
            &tools3,
            "Users",
            "from-orange-500 to-red-500",
        );
        assert(caps3@.map_values(|s: &str| s@) =~= default_agent_capabilities(3));
        assert(tools3@.map_values(|s: &str| s@) =~= default_agent_tools(3));
        a3
    } else {
        let caps4: [&str; 6] = ["Efficient problem-solving", "Complexity reduction and focus", "Actionable advice delivery", "Trade-off analysis and decisions", "Minimal-fuss implementation", "Essential tool utilization"];
        let tools4: [&str; 2] = ["calculator", "search"];
        let a4 = default_agent(
            "pragmatic",
            "Practical",
            "Efficient and solution-focused",
            "A pragmatic problem-solver who cuts through complexity to deliver efficient, actionable solutions.",
            &caps4,
            &tools4,
            "Wrench",
            "from-gray-500 to-slate-500",
        );
        assert(caps4@.map_values(|s: &str| s@) =~= default_agent_capabilities(4));
        assert(tools4@.map_values(|s: &str| s@) =~= default_agent_tools(4));
        a4
    }
}

/// The built-in agents.
pub fn get_default_agents() -> (v: Vec<AgentConfig>)
    ensures
        v@.len() == 5,
        forall|i: int| 0 <= i < 5 ==> is_default_agent(#[trigger] v@[i], i),
{
    let mut v: Vec<AgentConfig> = Vec::new();
    let mut i: usize = 0;
    while i < 5
        invariant
            i <= 5,
            v@.len() == i,
            forall|j: int| 0 <= j < i ==> is_default_agent(#[trigger] v@[j], j),
        decreases 5 - i,
    {
        v.push(default_agent_at(i));
        i = i + 1;
    }
    v
}

} // verus!

verus! {

/// The built-in agents not yet among `existing` identifiers, in their
/// built-in order; none when all of them are present.
pub open spec fn seed_indices(existing: Seq<Seq<char>>, n: nat) -> Seq<int>
    decreases n,
{
    if n == 0 {
        seq![]
    } else {
        let rest = seed_indices(existing, (n - 1) as nat);
        if existing.contains(default_agent_id(n - 1)) {
            rest
        } else {
            rest.push(n - 1)
        }
    }
}

/// All built-in agents are among the `existing` identifiers.
pub open spec fn all_defaults_present(existing: Seq<Seq<char>>) -> bool {
    forall|i: int| 0 <= i < 5 ==> existing.contains(#[trigger] default_agent_id(i))
}

fn contains_text(v: &[String], s: &str) -> (b: bool)
    ensures
        b == texts(v@).contains(s@),
{
    let mut i: usize = 0;
    while i < v.len()
        invariant
            i <= v@.len(),
            forall|j: int| 0 <= j < i ==> (#[trigger] v@[j])@ != s@,
        decreases v@.len() - i,
    {
        let eq = crate::text::str_eq(v[i].as_str(), s);
        if eq {
            assert(texts(v@)[i as int] == s@);
            return true;
        }
        i = i + 1;
    }
    proof {
        if texts(v@).contains(s@) {
            let k = choose|k: int| 0 <= k < texts(v@).len() && texts(v@)[k] == s@;
            assert(v@[k]@ == s@);
        }
    }
    false
}

/// The built-in agents to store given the identifiers of the stored
/// agents: nothing when every built-in agent is stored, otherwise each
/// built-in agent whose identifier is not stored, in built-in order.
pub fn default_agents_to_seed(existing_ids: &[String]) -> (v: Vec<AgentConfig>)
    ensures
        all_defaults_present(texts(existing_ids@)) ==> v@.len() == 0,
        !all_defaults_present(texts(existing_ids@)) ==> {
            let idx = seed_indices(texts(existing_ids@), 5);
            &&& v@.len() == idx.len()
            &&& forall|k: int| 0 <= k < v@.len() ==> is_default_agent(#[trigger] v@[k], idx[k])
        },
{
    let ghost ex = texts(existing_ids@);
    let mut all = true;
    let mut v: Vec<AgentConfig> = Vec::new();
    let mut i: usize = 0;
    while i < 5
        invariant
            i <= 5,
            ex == texts(existing_ids@),
            all == forall|j: int| 0 <= j < i ==> ex.contains(#[trigger] default_agent_id(j)),
            v@.len() == seed_indices(ex, i as nat).len(),
            forall|k: int| 0 <= k < v@.len() ==> is_default_agent(#[trigger] v@[k], seed_indices(ex, i as nat)[k]),
        decreases 5 - i,
    {
        let a = default_agent_at(i);
        let present = contains_text(existing_ids, a.id.as_str());
        assert(present == ex.contains(default_agent_id(i as int)));
        proof {
            let e = !ex.contains(default_agent_id(i as int));
            assert(seed_indices(ex, (i + 1) as nat) == if e { seed_indices(ex, i as nat).push(i as int) } else { seed_indices(ex, i as nat) });
        }
        if !present {
            v.push(a);
        }
        all = all && present;
        i = i + 1;
    }
    if all {
        return Vec::new();
    }
    v
}

/// The error of an invalid creation request, if any: the name, role and
/// description must not be blank.
pub open spec fn create_request_error(name: Seq<char>, role: Seq<char>, description: Seq<char>) -> Option<Seq<char>> {
    if trim_space(name).len() == 0 {
        Some("Agent name is required"@)
    } else if trim_space(role).len() == 0 {
        Some("Agent role is required"@)
    } else if trim_space(description).len() == 0 {
        Some("Agent description is required"@)
    } else {
        None
    }
}

fn is_blank(s: &str) -> (b: bool)
    ensures
        b == (trim_space(s@).len() == 0),
{
    let v = crate::text::chars_of(s);
    let t = crate::text::trim_space_chars(v.as_slice());
    t.len() == 0
}

/// Checks the required fields of a creation request; a blank field is a
/// bad request (status 400).
pub fn validate_create_request(request: &CreateAgentRequest) -> (r: Result<(), ApiError>)
    ensures
        match create_request_error(request.name@, request.role@, request.description@) {
            None => r is Ok,
            Some(msg) => r is Err && r->Err_0.status == 400 && r->Err_0.message@ == msg,
        },
{
    if is_blank(request.name.as_str()) {
        return Err(ApiError { status: 400, message: "Agent name is required".to_string() });
    }
    if is_blank(request.role.as_str()) {
        return Err(ApiError { status: 400, message: "Agent role is required".to_string() });
    }
    if is_blank(request.description.as_str()) {
        return Err(ApiError { status: 400, message: "Agent description is required".to_string() });
    }
    Ok(())
}

/// Checks that no stored agent has the requested name; a taken name is a
/// conflict (status 409).
pub fn check_agent_name_available(name: &str, existing_names: &[String]) -> (r: Result<(), ApiError>)
    ensures
        !texts(existing_names@).contains(name@) ==> r is Ok,
        texts(existing_names@).contains(name@) ==> r is Err && r->Err_0.status == 409
            && r->Err_0.message@ == "Agent name already exists"@,
{
    if contains_text(existing_names, name) {
        Err(ApiError { status: 409, message: "Agent name already exists".to_string() })
    } else {
        Ok(())
    }
}

/// The custom agent built from a creation request: no capabilities or
/// tools when none are given, and the grey color when none is given.
pub fn agent_from_request(request: CreateAgentRequest) -> (a: AgentConfig)
    ensures
        is_generated_agent_id(a.id@, request.name@),
        a.name == request.name,
        a.role == request.role,
        a.description == request.description,
        a.capabilities@ == match request.capabilities { Some(c) => c@, None => Seq::<String>::empty() },
        a.tools@ == match request.tools { Some(t) => t@, None => Seq::<String>::empty() },
        a.icon == request.icon,
        a.color@ == match request.color { Some(c) => c@, None => "from-gray-500 to-slate-500"@ },
        a.custom,
        a.system_prompt == request.system_prompt,
        a.provider == request.provider,
        is_seconds_text(opt_text(a.created_at)),
        opt_text(a.created_at) == opt_text(a.updated_at),
{
    let capabilities = match request.capabilities {
        Some(c) => c,
        None => Vec::new(),
    };
    let tools = match request.tools {
        Some(t) => t,
        None => Vec::new(),
    };
    let color = match request.color {
        Some(c) => c,
        None => "from-gray-500 to-slate-500".to_string(),
    };
    AgentConfig::new_custom(
        request.name,
        request.role,
        request.description,
        capabilities,
        tools,
        request.icon,
        color,
        request.system_prompt,
        request.provider,
    )
}

} // verus!

//! The OpenAI-compatible chat API: wire types, conversion of incoming
//! messages, and the building of completion responses and stream chunks.

use vstd::prelude::*;
use crate::llm::{last_content, last_message_content, InternalChatMessage, ToolResponse};
use crate::registry::AgentRegistry;
use crate::text::{push_str, string_from_chars};

verus! {

/// A chat message in the OpenAI format.
#[derive(Debug)]
pub struct OpenAIChatMessage {
    pub role: String,
    pub content: String,
    pub name: Option<String>,
    pub tool_calls: Option<Vec<OpenAIToolCall>>,
    pub tool_call_id: Option<String>,
}

/// A tool call in the OpenAI format.
#[derive(Debug)]
pub struct OpenAIToolCall {
    pub id: String,
    pub function: OpenAIFunctionCall,
}

/// The function of a tool call.
#[derive(Debug)]
pub struct OpenAIFunctionCall {
    pub name: String,
    pub arguments: String,
}

/// A chat completion request.
#[derive(Debug)]
pub struct ChatCompletionRequest {
    pub model: String,
    pub messages: Vec<OpenAIChatMessage>,
    pub stream: Option<bool>,
    pub agent: Option<String>,
}

/// A chat completion response.
#[derive(Debug)]
pub struct ChatCompletionResponse {
    pub id: String,
    pub object: String,
    pub created: u64,
    pub model: String,
    pub choices: Vec<ChatCompletionChoice>,
    pub usage: Usage,
}

/// A choice of a completion response.
#[derive(Debug)]
pub struct ChatCompletionChoice {
    pub index: u32,
    pub message: OpenAIChatMessage,
    pub finish_reason: String,
}

/// Token usage of a completion.
#[derive(Debug, Clone, Copy, PartialEq, Eq, Structural)]
pub struct Usage {
    pub prompt_tokens: u32,
    pub completion_tokens: u32,
    pub total_tokens: u32,
}

/// A chunk of a streamed completion.
#[derive(Debug)]
pub struct ChatCompletionChunk {
    pub id: String,
    pub object: String,
    pub created: u64,
    pub model: String,
    pub choices: Vec<ChatCompletionChunkChoice>,
}

/// A choice of a stream chunk.
#[derive(Debug)]
pub struct ChatCompletionChunkChoice {
    pub index: u32,
    pub delta: ChatCompletionDelta,
    pub finish_reason: Option<String>,
}

/// The delta carried by a stream chunk.
#[derive(Debug)]
pub struct ChatCompletionDelta {
    pub role: Option<String>,
    pub content: Option<String>,
    pub tool_calls: Option<Vec<OpenAIToolCall>>,
}

/// The text of an optional string.
pub open spec fn opt_text(o: Option<String>) -> Option<Seq<char>> {
    crate::agents_api::opt_text(o)
}

/// `r` is the tool response for the OpenAI tool call `c`: the function name,
/// its arguments as content, and the call's identifier.
pub open spec fn tool_response_of(c: OpenAIToolCall, r: ToolResponse) -> bool {
    &&& r.tool_name@ == c.function.name@
    &&& r.content@ == c.function.arguments@
    &&& opt_text(r.call_id) == Some(c.id@)
}

/// `r` is the conversion of the OpenAI message `m`: by role `system`,
/// `user`, `assistant` (with its tool calls as tool responses) or `tool`;
/// any other role is taken as a user message.
pub open spec fn converted(m: OpenAIChatMessage, r: InternalChatMessage) -> bool {
    if m.role@ == "system"@ {
        r matches InternalChatMessage::System { content } && content@ == m.content@
    } else if m.role@ == "user"@ {
        r matches InternalChatMessage::User { content } && content@ == m.content@
    } else if m.role@ == "assistant"@ {
        &&& r matches InternalChatMessage::Assistant { content, tool_responses } && content@ == m.content@
            && (tool_responses is Some <==> m.tool_calls is Some) && (m.tool_calls is Some ==> {
                let calls = m.tool_calls->0@;
                let resps = tool_responses->0@;
                &&& resps.len() == calls.len()
                &&& forall|k: int| 0 <= k < calls.len() ==> tool_response_of(#[trigger] calls[k], resps[k])
            })
    } else if m.role@ == "tool"@ {
        &&& r matches InternalChatMessage::Tool { tool_name, content, call_id }
        &&& tool_name@ == match m.name {
            Some(n) => n@,
            None => seq![],
        }
        &&& content@ == m.content@
        &&& opt_text(call_id) == opt_text(m.tool_call_id)
    } else {
        r matches InternalChatMessage::User { content } && content@ == m.content@
    }
}

fn copy_opt(o: &Option<String>) -> (r: Option<String>)
    ensures
        opt_text(r) == opt_text(*o),
{
    match o {
        Some(s) => Some(s.clone()),
        None => None,
    }
}

fn convert_tool_calls(calls: &Vec<OpenAIToolCall>) -> (r: Vec<ToolResponse>)
    ensures
        r@.len() == calls@.len(),
        forall|k: int| 0 <= k < calls@.len() ==> tool_response_of(#[trigger] calls@[k], r@[k]),
{
    let mut r: Vec<ToolResponse> = Vec::new();
    let mut i: usize = 0;
    while i < calls.len()
        invariant
            i <= calls@.len(),
            r@.len() == i,
            forall|k: int| 0 <= k < i ==> tool_response_of(#[trigger] calls@[k], r@[k]),
        decreases calls@.len() - i,
    {
        let c = &calls[i];
        r.push(ToolResponse {
            tool_name: c.function.name.clone(),
            content: c.function.arguments.clone(),
            call_id: Some(c.id.clone()),
        });
        i = i + 1;
    }
    r
}

/// A message with role `tool` becomes a tool message with the message's
/// name as the tool's name (empty when it has none), its content, and its
/// `tool_call_id` as the call id; the other roles never become tool
/// messages.
pub proof fn law_tool_messages_convert_to_tool_results(m: OpenAIChatMessage, r: InternalChatMessage)
    requires
        converted(m, r),
    ensures
        m.role@ == "tool"@ ==> (r matches InternalChatMessage::Tool { tool_name, content, call_id } && tool_name@
            == (match m.name {
            Some(n) => n@,
            None => Seq::<char>::empty(),
        }) && content@ == m.content@ && opt_text(call_id) == opt_text(m.tool_call_id)),
        m.role@ != "tool"@ ==> !(r is Tool),
{
    reveal_strlit("system");
    reveal_strlit("user");
    reveal_strlit("assistant");
    reveal_strlit("tool");
    assert("tool"@ != "system"@) by {
        assert("tool"@.len() != "system"@.len());
    }
    assert("tool"@ != "user"@) by {
        assert("tool"@[0] != "user"@[0]);
    }
    assert("tool"@ != "assistant"@) by {
        assert("tool"@.len() != "assistant"@.len());
    }
}

fn convert_message(m: &OpenAIChatMessage) -> (r: InternalChatMessage)
    ensures
        converted(*m, r),
        m.role@ == "tool"@ ==> (r matches InternalChatMessage::Tool { tool_name, content, call_id } && tool_name@
            == (match m.name {
            Some(n) => n@,
            None => Seq::<char>::empty(),
        }) && content@ == m.content@ && opt_text(call_id) == opt_text(m.tool_call_id)),
{
    proof {
        reveal_strlit("system");
        reveal_strlit("user");
        reveal_strlit("assistant");
        reveal_strlit("tool");
    }
    let role = m.role.as_str();
    let r = if crate::text::str_eq(role, "system") {
        InternalChatMessage::System { content: m.content.clone() }
    } else if crate::text::str_eq(role, "user") {
        InternalChatMessage::User { content: m.content.clone() }
    } else if crate::text::str_eq(role, "assistant") {
        let tool_responses = match &m.tool_calls {
            Some(calls) => Some(convert_tool_calls(calls)),
            None => None,
        };
        InternalChatMessage::Assistant { content: m.content.clone(), tool_responses }
    } else if crate::text::str_eq(role, "tool") {
        let tool_name = match &m.name {
            Some(n) => n.clone(),
            None => String::new(),
        };
        InternalChatMessage::Tool { tool_name, content: m.content.clone(), call_id: copy_opt(&m.tool_call_id) }
    } else {
        InternalChatMessage::User { content: m.content.clone() }
    };
    proof {
        law_tool_messages_convert_to_tool_results(*m, r);
    }
    r
}

/// Converts OpenAI chat messages into the internal format, one for one.
pub fn openai_to_luts_messages(messages: &[OpenAIChatMessage]) -> (r: Vec<InternalChatMessage>)
    ensures
        r@.len() == messages@.len(),
        forall|i: int| 0 <= i < messages@.len() ==> converted(#[trigger] messages@[i], r@[i]),
        forall|i: int|
            0 <= i < messages@.len() && (#[trigger] messages@[i]).role@ == "tool"@ ==> (r@[i] matches InternalChatMessage::Tool {
                tool_name,
                content,
                call_id,
            } && tool_name@ == (match messages@[i].name {
                Some(n) => n@,
                None => Seq::<char>::empty(),
            }) && content@ == messages@[i].content@ && opt_text(call_id) == opt_text(messages@[i].tool_call_id)),
{
    let mut r: Vec<InternalChatMessage> = Vec::new();
    let mut i: usize = 0;
    while i < messages.len()
        invariant
            i <= messages@.len(),
            r@.len() == i,
            forall|k: int| 0 <= k < i ==> converted(#[trigger] messages@[k], r@[k]),
        decreases messages@.len() - i,
    {
        let c = convert_message(&messages[i]);
        proof {
            law_tool_messages_convert_to_tool_results(messages@[i as int], c);
        }
        r.push(c);
        i = i + 1;
    }
    proof {
        assert forall|i: int| 0 <= i < messages@.len() && (#[trigger] messages@[i]).role@ == "tool"@ implies (
        r@[i] matches InternalChatMessage::Tool { tool_name, content, call_id } && tool_name@ == (match messages@[i].name {
            Some(n) => n@,
            None => Seq::<char>::empty(),
        }) && content@ == messages@[i].content@ && opt_text(call_id) == opt_text(messages@[i].tool_call_id)) by {
            law_tool_messages_convert_to_tool_results(messages@[i], r@[i]);
        }
    }
    r
}

} // verus!

verus! {

/// Rough token count of a text: a quarter of its UTF-8 length, the length
/// taken as a 32-bit count.
pub open spec fn approx_tokens(s: Seq<char>) -> nat {
    (((crate::text::byte_len(s) as usize) as u32) / 4) as nat
}

/// Rough token count of the first `n` request messages.
pub open spec fn prompt_tokens_of(ms: Seq<OpenAIChatMessage>, n: nat) -> nat
    decreases n,
{
    if n == 0 {
        0
    } else {
        prompt_tokens_of(ms, (n - 1) as nat) + approx_tokens(ms[n - 1].content@)
    }
}

fn approx_tokens_exec(s: &str) -> (n: u32)
    ensures
        n == approx_tokens(s@),
{
    (s.len() as u32) / 4
}

proof fn lemma_prompt_tokens_mono(ms: Seq<OpenAIChatMessage>, m: nat, n: nat)
    requires
        m <= n,
    ensures
        prompt_tokens_of(ms, m) <= prompt_tokens_of(ms, n),
    decreases n,
{
    if m < n {
        lemma_prompt_tokens_mono(ms, m, (n - 1) as nat);
    }
}

/// Rough token usage of a completion: the request messages' contents and
/// the response text, each counted as a quarter of its UTF-8 length.
pub fn completion_usage(messages: &[OpenAIChatMessage], response_text: &str) -> (u: Usage)
    requires
        prompt_tokens_of(messages@, messages@.len()) + approx_tokens(response_text@) <= u32::MAX,
    ensures
        u.prompt_tokens == prompt_tokens_of(messages@, messages@.len()),
        u.completion_tokens == approx_tokens(response_text@),
        u.total_tokens == u.prompt_tokens + u.completion_tokens,
{
    let mut prompt: u32 = 0;
    let mut i: usize = 0;
    while i < messages.len()
        invariant
            i <= messages@.len(),
            prompt == prompt_tokens_of(messages@, i as nat),
            prompt_tokens_of(messages@, messages@.len()) <= u32::MAX,
        decreases messages@.len() - i,
    {
        proof {
            lemma_prompt_tokens_mono(messages@, (i + 1) as nat, messages@.len());
        }
        prompt = prompt + approx_tokens_exec(messages[i].content.as_str());
        i = i + 1;
    }
    let completion = approx_tokens_exec(response_text);
    Usage { prompt_tokens: prompt, completion_tokens: completion, total_tokens: prompt + completion }
}

/// Builds the non-streaming completion response: one assistant choice
/// holding the text and tool calls, finished with `stop`.
pub fn build_completion_response(
    id: String,
    created: u64,
    model: String,
    content: String,
    tool_calls: Option<Vec<OpenAIToolCall>>,
    usage: Usage,
) -> (r: ChatCompletionResponse)
    ensures
        r.id == id,
        r.object@ == "chat.completion"@,
        r.created == created,
        r.model == model,
        r.usage == usage,
        r.choices@.len() == 1,
        r.choices@[0].index == 0,
        r.choices@[0].finish_reason@ == "stop"@,
        r.choices@[0].message.role@ == "assistant"@,
        r.choices@[0].message.content == content,
        r.choices@[0].message.name is None,
        r.choices@[0].message.tool_calls == tool_calls,
        r.choices@[0].message.tool_call_id is None,
{
    let message = OpenAIChatMessage {
        role: "assistant".to_string(),
        content,
        name: None,
        tool_calls,
        tool_call_id: None,
    };
    let mut choices: Vec<ChatCompletionChoice> = Vec::new();
    choices.push(ChatCompletionChoice { index: 0, message, finish_reason: "stop".to_string() });
    ChatCompletionResponse { id, object: "chat.completion".to_string(), created, model, choices, usage }
}

/// The tool calls of an agent reply in the OpenAI format, when there are
/// any: each keeps its call identifier, or gets a fresh random one.
pub fn agent_tool_calls_to_openai(calls: &Vec<crate::agent_loop::ToolCallInfo>) -> (r: Option<Vec<OpenAIToolCall>>)
    ensures
        calls@.len() == 0 ==> r is None,
        calls@.len() > 0 ==> r is Some && r->0@.len() == calls@.len() && forall|k: int|
            0 <= k < calls@.len() ==> {
                let c = #[trigger] calls@[k];
                let o = r->0@[k];
                &&& o.function.name@ == c.tool_name@
                &&& o.function.arguments@ == c.tool_args@
                &&& match c.call_id {
                    Some(id) => o.id@ == id@,
                    None => crate::clock::is_hyphenated_uuid(o.id@),
                }
            },
{
    if calls.len() == 0 {
        return None;
    }
    let mut r: Vec<OpenAIToolCall> = Vec::new();
    let mut i: usize = 0;
    while i < calls.len()
        invariant
            i <= calls@.len(),
            r@.len() == i,
            forall|k: int|
                0 <= k < i ==> {
                    let c = #[trigger] calls@[k];
                    let o = r@[k];
                    &&& o.function.name@ == c.tool_name@
                    &&& o.function.arguments@ == c.tool_args@
                    &&& match c.call_id {
                        Some(id) => o.id@ == id@,
                        None => crate::clock::is_hyphenated_uuid(o.id@),
                    }
                },
        decreases calls@.len() - i,
    {
        let c = &calls[i];
        let id = match &c.call_id {
            Some(id) => id.clone(),
            None => crate::clock::new_uuid_text(),
        };
        r.push(OpenAIToolCall {
            id,
            function: OpenAIFunctionCall { name: c.tool_name.clone(), arguments: c.tool_args.clone() },
        });
        i = i + 1;
    }
    Some(r)
}

/// A stream chunk with one choice (index 0) carrying the given delta.
pub open spec fn is_chunk(
    c: ChatCompletionChunk,
    id: Seq<char>,
    created: u64,
    model: Seq<char>,
    role: Option<Seq<char>>,
    content: Option<Seq<char>>,
    finish: Option<Seq<char>>,
) -> bool {
    &&& c.id@ == id
    &&& c.object@ == "chat.completion.chunk"@
    &&& c.created == created
    &&& c.model@ == model
    &&& c.choices@.len() == 1
    &&& c.choices@[0].index == 0
    &&& opt_text(c.choices@[0].delta.role) == role
    &&& opt_text(c.choices@[0].delta.content) == content
    &&& c.choices@[0].delta.tool_calls is None
    &&& opt_text(c.choices@[0].finish_reason) == finish
}

/// Builds a stream chunk.
pub fn make_chunk(
    id: &str,
    created: u64,
    model: &str,
    role: Option<String>,
    content: Option<String>,
    finish_reason: Option<String>,
) -> (c: ChatCompletionChunk)
    ensures
        is_chunk(c, id@, created, model@, opt_text(role), opt_text(content), opt_text(finish_reason)),
{
    let mut choices: Vec<ChatCompletionChunkChoice> = Vec::new();
    choices.push(ChatCompletionChunkChoice {
        index: 0,
        delta: ChatCompletionDelta { role, content, tool_calls: None },
        finish_reason,
    });
    ChatCompletionChunk {
        id: id.to_string(),
        object: "chat.completion.chunk".to_string(),
        created,
        model: model.to_string(),
        choices,
    }
}

/// The text shown for a tool call in a stream.
pub open spec fn tool_call_text(c: crate::agent_loop::ToolCallInfo) -> Seq<char> {
    "🔧 Calling "@ + c.tool_name@ + " with args: "@ + c.tool_args@ + "\n✅ Result: "@ + if c.success {
        c.tool_result@
    } else {
        "❌ Error: "@ + c.tool_result@
    }
}

/// Streams an agent's reply: a chunk opening the assistant message, one
/// chunk per tool call describing it, a chunk with the reply text and a
/// closing chunk finished with `stop`.
pub fn agent_reply_chunks(
    id: &str,
    created: u64,
    model: &str,
    calls: &Vec<crate::agent_loop::ToolCallInfo>,
    content: String,
) -> (v: Vec<ChatCompletionChunk>)
    ensures
        v@.len() == calls@.len() + 3,
        is_chunk(v@[0], id@, created, model@, Some("assistant"@), None, None),
        forall|k: int|
            0 <= k < calls@.len() ==> is_chunk(
                #[trigger] v@[k + 1],
                id@,
                created,
                model@,
                None,
                Some(tool_call_text(calls@[k])),
                None,
            ),
        is_chunk(v@[calls@.len() as int + 1], id@, created, model@, None, Some(content@), None),
        is_chunk(v@[calls@.len() as int + 2], id@, created, model@, None, None, Some("stop"@)),
{
    let mut v: Vec<ChatCompletionChunk> = Vec::new();
    v.push(make_chunk(id, created, model, Some("assistant".to_string()), None, None));
    let mut i: usize = 0;
    while i < calls.len()
        invariant
            i <= calls@.len(),
            v@.len() == i + 1,
            is_chunk(v@[0], id@, created, model@, Some("assistant"@), None, None),
            forall|k: int|
                0 <= k < i ==> is_chunk(
                    #[trigger] v@[k + 1],
                    id@,
                    created,
                    model@,
                    None,
                    Some(tool_call_text(calls@[k])),
                    None,
                ),
        decreases calls@.len() - i,
    {
        let c = &calls[i];
        let mut out: Vec<char> = Vec::new();
        push_str(&mut out, "🔧 Calling ");
        push_str(&mut out, c.tool_name.as_str());
        push_str(&mut out, " with args: ");
        push_str(&mut out, c.tool_args.as_str());
        push_str(&mut out, "\n✅ Result: ");
        if !c.success {
            push_str(&mut out, "❌ Error: ");
        }
        push_str(&mut out, c.tool_result.as_str());
        let text = string_from_chars(out.as_slice());
        assert(text@ =~= tool_call_text(calls@[i as int]));
        v.push(make_chunk(id, created, model, None, Some(text), None));
        i = i + 1;
    }
    v.push(make_chunk(id, created, model, None, Some(content), None));
    v.push(make_chunk(id, created, model, None, None, Some("stop".to_string())));
    v
}

/// An event of the model's answer stream.
#[derive(Debug)]
pub enum StreamEvent {
    Start,
    Chunk(String),
    ReasoningChunk,
    ToolCallChunk { fn_name: String, arguments: String },
    End,
}

/// Converts a stream event into a chunk: the start opens the assistant
/// message; a text chunk carries its text (none when empty); a tool call
/// chunk describes the call; reasoning carries nothing; the end finishes
/// with `stop`.
pub fn stream_event_chunk(id: &str, created: u64, model: &str, event: StreamEvent) -> (c: ChatCompletionChunk)
    ensures
        match event {
            StreamEvent::Start => is_chunk(c, id@, created, model@, Some("assistant"@), None, None),
            StreamEvent::Chunk(t) => is_chunk(
                c,
                id@,
                created,
                model@,
                None,
                if t@.len() == 0 {
                    None
                } else {
                    Some(t@)
                },
                None,
            ),
            StreamEvent::ReasoningChunk => is_chunk(c, id@, created, model@, None, None, None),
            StreamEvent::ToolCallChunk { fn_name, arguments } => is_chunk(
                c,
                id@,
                created,
                model@,
                None,
                Some("🔧 Calling "@ + fn_name@ + " with args: "@ + arguments@),
                None,
            ),
            StreamEvent::End => is_chunk(c, id@, created, model@, None, None, Some("stop"@)),
        },
{
    match event {
        StreamEvent::Start => make_chunk(id, created, model, Some("assistant".to_string()), None, None),
        StreamEvent::Chunk(t) => {
            let content = if t.as_str().is_empty() {
                None
            } else {
                Some(t)
            };
            make_chunk(id, created, model, None, content, None)
        },
        StreamEvent::ReasoningChunk => make_chunk(id, created, model, None, None, None),
        StreamEvent::ToolCallChunk { fn_name, arguments } => {
            let mut out: Vec<char> = Vec::new();
            push_str(&mut out, "🔧 Calling ");
            push_str(&mut out, fn_name.as_str());
            push_str(&mut out, " with args: ");
            push_str(&mut out, arguments.as_str());
            make_chunk(id, created, model, None, Some(string_from_chars(out.as_slice())), None)
        },
        StreamEvent::End => make_chunk(id, created, model, None, None, Some("stop".to_string())),
    }
}

/// The data of an error event: `{"error":"<message>"}`.
pub fn error_event_data(message: &str) -> (s: String)
    ensures
        s@ == "{\"error\":\""@ + message@ + "\"}"@,
{
    let mut out: Vec<char> = Vec::new();
    push_str(&mut out, "{\"error\":\"");
    push_str(&mut out, message);
    push_str(&mut out, "\"}");
    string_from_chars(out.as_slice())
}

/// The message for an unknown agent: `Agent '<name>' not found`.
pub fn agent_not_found_message(agent_name: &str) -> (s: String)
    ensures
        s@ == "Agent '"@ + agent_name@ + "' not found"@,
{
    let mut out: Vec<char> = Vec::new();
    push_str(&mut out, "Agent '");
    push_str(&mut out, agent_name);
    push_str(&mut out, "' not found");
    string_from_chars(out.as_slice())
}

/// Where a non-streaming completion goes: to a registered agent, with the
/// text of the last message, or to the model service.
#[derive(Debug)]
pub enum CompletionRoute {
    Agent { agent_id: String, content: String },
    Model,
}

/// Decides a non-streaming completion before anything is called: a request
/// naming an agent goes to that agent with the last message's text, and is
/// refused with status 400 when no such agent is registered; a request
/// naming none goes to the model service.
pub fn route_completion<A>(
    request: &ChatCompletionRequest,
    messages: &[InternalChatMessage],
    registry: &AgentRegistry<A>,
) -> (r: Result<CompletionRoute, (u16, String)>)
    requires
        registry.well_formed(),
    ensures
        match request.agent {
            Some(a) => if registry.ids().contains(a@) {
                r matches Ok(CompletionRoute::Agent { agent_id, content }) && agent_id@ == a@
                    && content@ == last_content(messages@)
            } else {
                r matches Err((status, text)) && status == 400 && text@ == "Agent '"@ + a@ + "' not found"@
            },
            None => r matches Ok(CompletionRoute::Model),
        },
{
    match &request.agent {
        Some(a) => {
            if !registry.has_agent(a.as_str()) {
                return Err((400, agent_not_found_message(a.as_str())));
            }
            Ok(CompletionRoute::Agent { agent_id: a.clone(), content: last_message_content(messages) })
        },
        None => Ok(CompletionRoute::Model),
    }
}

} // verus!

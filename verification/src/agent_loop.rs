//! The tool loop an agent runs for one incoming message, as a state
//! machine: the caller asks the model and runs tools as the machine
//! directs, and feeds back what came of it, until the machine replies.

use vstd::prelude::*;
use crate::llm::{InternalChatMessage, ToolResponse};
use crate::text::{push_str, string_from_chars};

verus! {

/// Most model calls one message may take.
pub const MAX_TOOL_ITERATIONS: u32 = 10;

/// Which agent runs the loop: the base agent records the tool calls it made
/// in its reply; the personality agent instead asks the model, after each
/// round of tools, to explain what it did.
#[derive(Debug, Clone, Copy, PartialEq, Eq, Structural)]
pub enum AgentStyle {
    Base,
    Personality,
}

/// A tool call requested by the model. Arguments are JSON text.
#[derive(Debug)]
pub struct ToolCallRequest {
    pub name: String,
    pub args: String,
    pub call_id: String,
}

/// A tool call made while answering a message. Arguments are JSON text.
#[derive(Debug)]
pub struct ToolCallInfo {
    pub tool_name: String,
    pub tool_args: String,
    pub tool_result: String,
    pub success: bool,
    pub call_id: Option<String>,
}

/// What the model answered.
#[derive(Debug)]
pub enum ModelReply {
    /// The model asks for tool calls.
    ToolCalls(Vec<ToolCallRequest>),
    /// A text answer.
    Text(String),
    /// An answer in parts: text parts are `Some`, other parts `None`.
    Parts(Vec<Option<String>>),
    /// The model returned tool responses.
    ToolResponses,
    /// The model could not be reached; the error's text.
    Failed(String),
}

/// What came of running a tool.
#[derive(Debug)]
pub enum ToolOutcome {
    /// The tool returned a value; its JSON text.
    Returned(String),
    /// The tool failed; the error's text.
    Failed(String),
    /// The agent has no such tool; the listing of its tools' names.
    NotFound(String),
}

/// The final reply to the message.
#[derive(Debug)]
pub struct TurnReply {
    pub in_response_to: String,
    pub success: bool,
    pub content: String,
    pub error: Option<String>,
    pub tool_calls: Vec<ToolCallInfo>,
}

/// What the caller is to do next.
#[derive(Debug)]
pub enum AgentAction {
    /// Ask the model with the current conversation.
    CallModel,
    /// Run a tool with JSON arguments.
    RunTool { name: String, args: String },
    /// The turn is over.
    Reply(TurnReply),
}

/// Where a turn stands.
#[derive(Debug, Clone, Copy, PartialEq, Eq, Structural)]
pub enum TurnPhase {
    AwaitingModel,
    AwaitingTool,
    Done,
}

/// The view of a tool response: tool name, content and call id.
pub open spec fn response_view(t: ToolResponse) -> (Seq<char>, Seq<char>, Option<Seq<char>>) {
    (t.tool_name@, t.content@, crate::agents_api::opt_text(t.call_id))
}

/// The views of a list of tool responses.
pub open spec fn responses_view(v: Seq<ToolResponse>) -> Seq<(Seq<char>, Seq<char>, Option<Seq<char>>)> {
    v.map_values(|t: ToolResponse| response_view(t))
}

/// The spec view of a message: its kind and texts; for an assistant
/// message, also the tool responses it carries.
pub enum MsgView {
    System(Seq<char>),
    User(Seq<char>),
    Assistant(Seq<char>, Option<Seq<(Seq<char>, Seq<char>, Option<Seq<char>>)>>),
    Tool(Seq<char>, Seq<char>, Option<Seq<char>>),
}

/// The view of a message.
pub open spec fn msg_view(m: InternalChatMessage) -> MsgView {
    match m {
        InternalChatMessage::System { content } => MsgView::System(content@),
        InternalChatMessage::User { content } => MsgView::User(content@),
        InternalChatMessage::Assistant { content, tool_responses } => MsgView::Assistant(
            content@,
            match tool_responses {
                Some(v) => Some(responses_view(v@)),
                None => None,
            },
        ),
        InternalChatMessage::Tool { tool_name, content, call_id } => MsgView::Tool(
            tool_name@,
            content@,
            crate::agents_api::opt_text(call_id),
        ),
    }
}

/// The views of a list of messages.
pub open spec fn msgs_view(ms: Seq<InternalChatMessage>) -> Seq<MsgView> {
    ms.map_values(|m: InternalChatMessage| msg_view(m))
}

/// The prompt a personality agent adds after running tools.
pub open spec fn explanation_prompt() -> Seq<char> {
    "Please explain what tools you just used, what results you obtained, and how this information helps answer the user's question. Provide your reasoning and give a clear final response."@
}

/// The text parts of an answer, joined by single spaces.
pub open spec fn joined_parts(parts: Seq<Option<String>>, n: nat) -> Seq<char>
    decreases n,
{
    if n == 0 {
        seq![]
    } else {
        let rest = joined_parts(parts, (n - 1) as nat);
        match parts[n - 1] {
            Some(t) => if text_part_count(parts, (n - 1) as nat) == 0 {
                t@
            } else {
                rest + " "@ + t@
            },
            None => rest,
        }
    }
}

/// Number of text parts among the first `n`.
pub open spec fn text_part_count(parts: Seq<Option<String>>, n: nat) -> nat
    decreases n,
{
    if n == 0 {
        0
    } else {
        text_part_count(parts, (n - 1) as nat) + if parts[n - 1] is Some {
            1nat
        } else {
            0nat
        }
    }
}

/// The text recorded for a tool's outcome, and whether the call succeeded.
pub open spec fn outcome_text(name: Seq<char>, outcome: ToolOutcome) -> (Seq<char>, bool) {
    match outcome {
        ToolOutcome::Returned(v) => (v@, true),
        ToolOutcome::Failed(e) => ("Error executing tool "@ + name + ": "@ + e@, false),
        ToolOutcome::NotFound(tools) => ("Tool '"@ + name + "' not found. Available tools: "@ + tools@, false),
    }
}

/// The view of a recorded tool call: name, arguments, result, success and
/// call id.
pub open spec fn call_view(c: ToolCallInfo) -> (Seq<char>, Seq<char>, Seq<char>, bool, Option<Seq<char>>) {
    (c.tool_name@, c.tool_args@, c.tool_result@, c.success, crate::agents_api::opt_text(c.call_id))
}

/// The views of a list of recorded tool calls.
pub open spec fn calls_view(v: Seq<ToolCallInfo>) -> Seq<(Seq<char>, Seq<char>, Seq<char>, bool, Option<Seq<char>>)> {
    v.map_values(|c: ToolCallInfo| call_view(c))
}

/// The view of a requested tool call: name, arguments and call id.
pub open spec fn request_view(c: ToolCallRequest) -> (Seq<char>, Seq<char>, Seq<char>) {
    (c.name@, c.args@, c.call_id@)
}

/// The views of a list of requested tool calls.
pub open spec fn requests_view(v: Seq<ToolCallRequest>) -> Seq<(Seq<char>, Seq<char>, Seq<char>)> {
    v.map_values(|c: ToolCallRequest| request_view(c))
}

/// The record made of running requested call `c` with outcome `outcome`.
pub open spec fn record_of(c: (Seq<char>, Seq<char>, Seq<char>), outcome: ToolOutcome) -> (
    Seq<char>,
    Seq<char>,
    Seq<char>,
    bool,
    Option<Seq<char>>,
) {
    (c.0, c.1, outcome_text(c.0, outcome).0, outcome_text(c.0, outcome).1, Some(c.2))
}

/// The state of one agent turn.
pub struct AgentTurn {
    style: AgentStyle,
    /// The identifier of the message being answered.
    message_id: String,
    phase: TurnPhase,
    /// The agent's persistent conversation history.
    history: Vec<InternalChatMessage>,
    /// The conversation sent to the model.
    conversation: Vec<InternalChatMessage>,
    /// Model calls made so far.
    iteration: u32,
    /// Tool calls made so far.
    tool_calls: Vec<ToolCallInfo>,
    /// Tool calls requested by the last model answer.
    pending: Vec<ToolCallRequest>,
    /// The next pending call to run.
    next: usize,
}

fn copy_responses(v: &Vec<ToolResponse>) -> (r: Vec<ToolResponse>)
    ensures
        responses_view(r@) == responses_view(v@),
{
    let mut r: Vec<ToolResponse> = Vec::new();
    let mut i: usize = 0;
    while i < v.len()
        invariant
            i <= v@.len(),
            r@.len() == i,
            forall|k: int| 0 <= k < i ==> response_view(#[trigger] r@[k]) == response_view(v@[k]),
        decreases v@.len() - i,
    {
        let t = &v[i];
        r.push(ToolResponse {
            tool_name: t.tool_name.clone(),
            content: t.content.clone(),
            call_id: match &t.call_id {
                Some(c) => Some(c.clone()),
                None => None,
            },
        });
        i = i + 1;
    }
    assert(responses_view(r@) =~= responses_view(v@));
    r
}

fn copy_message(m: &InternalChatMessage) -> (r: InternalChatMessage)
    ensures
        msg_view(r) == msg_view(*m),
{
    match m {
        InternalChatMessage::System { content } => InternalChatMessage::System { content: content.clone() },
        InternalChatMessage::User { content } => InternalChatMessage::User { content: content.clone() },
        InternalChatMessage::Assistant { content, tool_responses } => InternalChatMessage::Assistant {
            content: content.clone(),
            tool_responses: match tool_responses {
                Some(v) => Some(copy_responses(v)),
                None => None,
            },
        },
        InternalChatMessage::Tool { tool_name, content, call_id } => InternalChatMessage::Tool {
            tool_name: tool_name.clone(),
            content: content.clone(),
            call_id: match call_id {
                Some(c) => Some(c.clone()),
                None => None,
            },
        },
    }
}

/// A copy of a list of messages.
pub fn copy_messages(ms: &Vec<InternalChatMessage>) -> (r: Vec<InternalChatMessage>)
    ensures
        msgs_view(r@) == msgs_view(ms@),
{
    let mut r: Vec<InternalChatMessage> = Vec::new();
    let mut i: usize = 0;
    while i < ms.len()
        invariant
            i <= ms@.len(),
            r@.len() == i,
            forall|k: int| 0 <= k < i ==> msg_view(#[trigger] r@[k]) == msg_view(ms@[k]),
        decreases ms@.len() - i,
    {
        r.push(copy_message(&ms[i]));
        i = i + 1;
    }
    assert(msgs_view(r@) =~= msgs_view(ms@));
    r
}

fn text_of(s: &str) -> (r: String)
    ensures
        r@ == s@,
{
    s.to_string()
}

impl AgentTurn {
    /// The phase of the turn.
    pub closed spec fn phase_view(&self) -> TurnPhase {
        self.phase
    }

    /// The style of the agent.
    pub closed spec fn style_view(&self) -> AgentStyle {
        self.style
    }

    /// The agent's history.
    pub closed spec fn history_view(&self) -> Seq<MsgView> {
        msgs_view(self.history@)
    }

    /// The conversation sent to the model.
    pub closed spec fn conversation_view(&self) -> Seq<MsgView> {
        msgs_view(self.conversation@)
    }

    /// Model calls made so far.
    pub closed spec fn iteration_view(&self) -> nat {
        self.iteration as nat
    }

    /// The identifier of the message being answered.
    pub closed spec fn message_id_view(&self) -> Seq<char> {
        self.message_id@
    }

    /// The tool calls requested by the model's last answer.
    pub closed spec fn pending_calls(&self) -> Seq<(Seq<char>, Seq<char>, Seq<char>)> {
        requests_view(self.pending@)
    }

    /// The position of the next requested call to run.
    pub closed spec fn next_call(&self) -> nat {
        self.next as nat
    }

    /// The tool calls made so far, in order.
    pub closed spec fn recorded_calls(&self) -> Seq<(Seq<char>, Seq<char>, Seq<char>, bool, Option<Seq<char>>)> {
        calls_view(self.tool_calls@)
    }

    /// The name and arguments of the pending tool call, while one is
    /// awaited.
    pub open spec fn pending_call(&self) -> (Seq<char>, Seq<char>) {
        let c = self.pending_calls()[self.next_call() as int];
        (c.0, c.1)
    }

    /// Number of tool calls made so far.
    pub open spec fn calls_made(&self) -> nat {
        self.recorded_calls().len()
    }

    /// The turn's internal invariant.
    pub closed spec fn wf(&self) -> bool {
        &&& 1 <= self.iteration <= MAX_TOOL_ITERATIONS
        &&& self.next <= self.pending@.len()
        &&& self.pending_calls().len() == self.pending@.len()
        &&& self.phase == TurnPhase::AwaitingTool ==> self.next < self.pending@.len()
        &&& self.phase != TurnPhase::Done
        &&& self.style == AgentStyle::Base ==> msgs_view(self.conversation@) == msgs_view(self.history@)
    }

    /// Starts a turn for an incoming message: the message joins the
    /// agent's history and the model is asked with the whole history.
    pub fn start(style: AgentStyle, history: Vec<InternalChatMessage>, message_id: String, content: String) -> (r: (
        AgentTurn,
        AgentAction,
    ))
        ensures
            r.0.wf(),
            r.0.message_id_view() == message_id@,
            r.0.recorded_calls() == Seq::<(Seq<char>, Seq<char>, Seq<char>, bool, Option<Seq<char>>)>::empty(),
            r.0.style_view() == style,
            r.0.phase_view() == TurnPhase::AwaitingModel,
            r.0.history_view() == msgs_view(history@).push(MsgView::User(content@)),
            r.0.conversation_view() == r.0.history_view(),
            r.0.iteration_view() == 1,
            r.0.calls_made() == 0,
            r.1 is CallModel,
    {
        let mut history = history;
        let ghost h0 = msgs_view(history@);
        history.push(InternalChatMessage::User { content });
        assert(msgs_view(history@) =~= h0.push(msg_view(history@.last())));
        let conversation = copy_messages(&history);
        (
            AgentTurn {
                style,
                message_id,
                phase: TurnPhase::AwaitingModel,
                history,
                conversation,
                iteration: 1,
                tool_calls: Vec::new(),
                pending: Vec::new(),
                next: 0,
            },
            AgentAction::CallModel,
        )
    }

    /// The conversation to send to the model.
    pub fn conversation(&self) -> (r: &Vec<InternalChatMessage>)
        ensures
            msgs_view(r@) == self.conversation_view(),
    {
        &self.conversation
    }

    /// Ends the turn, handing back the agent's history.
    pub fn into_history(self) -> (h: Vec<InternalChatMessage>)
        ensures
            msgs_view(h@) == self.history_view(),
    {
        self.history
    }

    /// The name and arguments of the pending tool call.
    pub fn current_tool(&self) -> (r: (String, String))
        requires
            self.wf(),
            self.phase_view() == TurnPhase::AwaitingTool,
        ensures
            (r.0@, r.1@) == self.pending_call(),
    {
        let c = &self.pending[self.next];
        (c.name.clone(), c.args.clone())
    }

    fn push_both(&mut self, m: InternalChatMessage)
        ensures
            final(self).history_view() == old(self).history_view().push(msg_view(m)),
            final(self).conversation_view() == old(self).conversation_view().push(msg_view(m)),
            final(self).phase == old(self).phase,
            final(self).style == old(self).style,
            final(self).iteration == old(self).iteration,
            final(self).tool_calls == old(self).tool_calls,
            final(self).pending == old(self).pending,
            final(self).next == old(self).next,
            final(self).message_id == old(self).message_id,
    {
        let c = copy_message(&m);
        let ghost h0 = msgs_view(self.history@);
        let ghost c0 = msgs_view(self.conversation@);
        self.history.push(m);
        self.conversation.push(c);
        assert(msgs_view(self.history@) =~= h0.push(msg_view(m)));
        assert(msgs_view(self.conversation@) =~= c0.push(msg_view(m)));
    }

    fn reply_success(&mut self, content: String) -> (a: AgentAction)
        ensures
            final(self).phase == TurnPhase::Done,
            final(self).history_view() == old(self).history_view().push(MsgView::Assistant(content@, None)),
            final(self).message_id == old(self).message_id,
            final(self).conversation == old(self).conversation,
            final(self).iteration == old(self).iteration,
            final(self).style == old(self).style,
            final(self).tool_calls@.len() == 0,
            final(self).pending == old(self).pending,
            final(self).next == old(self).next,
            a matches AgentAction::Reply(r) && r.success && r.content@ == content@ && r.error is None
                && r.in_response_to@ == old(self).message_id@
                && (old(self).style == AgentStyle::Base ==> r.tool_calls@ == old(self).tool_calls@)
                && (old(self).style == AgentStyle::Personality ==> r.tool_calls@.len() == 0),
    {
        let copy = content.clone();
        let ghost h0 = msgs_view(self.history@);
        self.history.push(InternalChatMessage::Assistant { content: copy, tool_responses: None });
        assert(msgs_view(self.history@) =~= h0.push(MsgView::Assistant(content@, None)));
        self.phase = TurnPhase::Done;
        let mut calls: Vec<ToolCallInfo> = Vec::new();
        std::mem::swap(&mut calls, &mut self.tool_calls);
        let tool_calls = match self.style {
            AgentStyle::Base => calls,
            AgentStyle::Personality => Vec::new(),
        };
        AgentAction::Reply(TurnReply {
            in_response_to: self.message_id.clone(),
            success: true,
            content,
            error: None,
            tool_calls,
        })
    }

    fn reply_error(&mut self, message: String) -> (a: AgentAction)
        ensures
            final(self).phase == TurnPhase::Done,
            final(self).history == old(self).history,
            final(self).conversation == old(self).conversation,
            final(self).iteration == old(self).iteration,
            final(self).style == old(self).style,
            final(self).pending == old(self).pending,
            final(self).next == old(self).next,
            final(self).tool_calls == old(self).tool_calls,
            final(self).message_id == old(self).message_id,
            a matches AgentAction::Reply(r) && !r.success && r.content@.len() == 0 && r.error == Some(message)
                && r.tool_calls@.len() == 0 && r.in_response_to@ == old(self).message_id@,
    {
        self.phase = TurnPhase::Done;
        AgentAction::Reply(TurnReply {
            in_response_to: self.message_id.clone(),
            success: false,
            content: String::new(),
            error: Some(message),
            tool_calls: Vec::new(),
        })
    }

    /// After a round of tool calls: the personality agent asks for an
    /// explanation; then the model is asked again, unless the turn has used
    /// up its model calls.
    fn after_tools(&mut self) -> (a: AgentAction)
        requires
            1 <= old(self).iteration <= MAX_TOOL_ITERATIONS,
            old(self).next <= old(self).pending@.len(),
            old(self).phase != TurnPhase::Done,
            old(self).style == AgentStyle::Base ==> msgs_view(old(self).conversation@) == msgs_view(old(self).history@),
        ensures
            final(self).wf() || final(self).phase == TurnPhase::Done,
            final(self).next <= final(self).pending@.len(),
            final(self).pending == old(self).pending,
            final(self).next == old(self).next,
            final(self).message_id == old(self).message_id,
            final(self).history == old(self).history,
            final(self).style == old(self).style,
            final(self).tool_calls == old(self).tool_calls,
            final(self).conversation_view() == if old(self).style == AgentStyle::Personality {
                old(self).conversation_view().push(MsgView::System(explanation_prompt()))
            } else {
                old(self).conversation_view()
            },
            old(self).iteration < MAX_TOOL_ITERATIONS ==> {
                &&& final(self).iteration == old(self).iteration + 1
                &&& final(self).phase == TurnPhase::AwaitingModel
                &&& a is CallModel
            },
            old(self).iteration == MAX_TOOL_ITERATIONS ==> {
                &&& final(self).phase == TurnPhase::Done
                &&& a matches AgentAction::Reply(r) && !r.success && r.error is Some && r.error->0@
                    == "Maximum tool execution iterations reached"@ && r.content@.len() == 0
                    && r.tool_calls@.len() == 0 && r.in_response_to@ == old(self).message_id@
            },
    {
        if self.style == AgentStyle::Personality {
            let prompt = text_of("Please explain what tools you just used, what results you obtained, and how this information helps answer the user's question. Provide your reasoning and give a clear final response.");
            let ghost c0 = msgs_view(self.conversation@);
            self.conversation.push(InternalChatMessage::System { content: prompt });
            assert(msgs_view(self.conversation@) =~= c0.push(MsgView::System(explanation_prompt())));
        }
        if self.iteration >= MAX_TOOL_ITERATIONS {
            return self.reply_error(text_of("Maximum tool execution iterations reached"));
        }
        self.iteration = self.iteration + 1;
        self.phase = TurnPhase::AwaitingModel;
        AgentAction::CallModel
    }
}


proof fn lemma_no_text_parts(parts: Seq<Option<String>>, n: nat)
    requires
        text_part_count(parts, n) == 0,
    ensures
        joined_parts(parts, n) == Seq::<char>::empty(),
    decreases n,
{
    if n > 0 {
        lemma_no_text_parts(parts, (n - 1) as nat);
    }
}

/// The text parts of an answer joined by single spaces.
pub fn join_text_parts(parts: &Vec<Option<String>>) -> (s: String)
    ensures
        s@ == joined_parts(parts@, parts@.len()),
{
    let mut out: Vec<char> = Vec::new();
    let mut count: usize = 0;
    let mut i: usize = 0;
    while i < parts.len()
        invariant
            i <= parts@.len(),
            count == text_part_count(parts@, i as nat),
            count <= i,
            out@ == joined_parts(parts@, i as nat),
        decreases parts@.len() - i,
    {
        match &parts[i] {
            Some(t) => {
                proof {
                    if count == 0 {
                        lemma_no_text_parts(parts@, i as nat);
                    }
                }
                if count > 0 {
                    push_str(&mut out, " ");
                }
                push_str(&mut out, t.as_str());
                count = count + 1;
            },
            None => {},
        }
        i = i + 1;
    }
    string_from_chars(out.as_slice())
}

impl AgentTurn {
    /// Takes the model's answer. Tool calls are recorded in the history
    /// and run one by one; a text answer (or the text parts of an answer,
    /// joined by spaces) ends the turn successfully; anything else ends it
    /// with an error.
    pub fn on_model_reply(&mut self, reply: ModelReply) -> (a: AgentAction)
        requires
            old(self).wf(),
            old(self).phase_view() == TurnPhase::AwaitingModel,
        ensures
            final(self).wf() || final(self).phase_view() == TurnPhase::Done,
            final(self).style_view() == old(self).style_view(),
            final(self).message_id_view() == old(self).message_id_view(),
            final(self).phase_view() != TurnPhase::Done ==> final(self).recorded_calls() == old(self).recorded_calls(),
            a matches AgentAction::Reply(r) ==> r.in_response_to@ == old(self).message_id_view(),
            a matches AgentAction::Reply(r) ==> (!r.success ==> r.content@.len() == 0 && r.tool_calls@.len() == 0),
            match reply {
                ModelReply::ToolCalls(calls) => {
                    &&& final(self).history_view() == old(self).history_view().push(
                        MsgView::Assistant("Tool calls requested"@, None),
                    )
                    &&& calls@.len() > 0 ==> {
                        &&& final(self).phase_view() == TurnPhase::AwaitingTool
                        &&& final(self).iteration_view() == old(self).iteration_view()
                        &&& final(self).conversation_view() == old(self).conversation_view().push(
                            MsgView::Assistant("Tool calls requested"@, None),
                        )
                        &&& final(self).pending_calls() == requests_view(calls@)
                        &&& final(self).next_call() == 0
                        &&& a matches AgentAction::RunTool { name, args } && name@ == calls@[0].name@
                            && args@ == calls@[0].args@
                        &&& final(self).pending_call() == (calls@[0].name@, calls@[0].args@)
                    }
                    &&& calls@.len() == 0 ==> final(self).conversation_view() == if old(self).style_view()
                        == AgentStyle::Personality {
                        old(self).conversation_view().push(MsgView::Assistant("Tool calls requested"@, None)).push(
                            MsgView::System(explanation_prompt()),
                        )
                    } else {
                        old(self).conversation_view().push(MsgView::Assistant("Tool calls requested"@, None))
                    }
                    &&& calls@.len() == 0 && old(self).iteration_view() < MAX_TOOL_ITERATIONS ==> {
                        &&& final(self).phase_view() == TurnPhase::AwaitingModel
                        &&& final(self).iteration_view() == old(self).iteration_view() + 1
                        &&& a is CallModel
                    }
                    &&& calls@.len() == 0 && old(self).iteration_view() == MAX_TOOL_ITERATIONS ==> {
                        &&& final(self).phase_view() == TurnPhase::Done
                        &&& a matches AgentAction::Reply(r) && !r.success && r.error is Some
                            && r.error->0@ == "Maximum tool execution iterations reached"@
                    }
                },
                ModelReply::Text(t) => {
                    &&& final(self).phase_view() == TurnPhase::Done
                    &&& final(self).history_view() == old(self).history_view().push(MsgView::Assistant(t@, None))
                    &&& a matches AgentAction::Reply(r) && r.success && r.content@ == t@ && r.error is None
                        && (old(self).style_view() == AgentStyle::Base ==> calls_view(r.tool_calls@)
                        == old(self).recorded_calls())
                        && (old(self).style_view() == AgentStyle::Personality ==> r.tool_calls@.len() == 0)
                },
                ModelReply::Parts(ps) => {
                    let text = joined_parts(ps@, ps@.len());
                    &&& final(self).phase_view() == TurnPhase::Done
                    &&& text.len() > 0 ==> (final(self).history_view() == old(self).history_view().push(
                        MsgView::Assistant(text, None),
                    ) && (a matches AgentAction::Reply(r) && r.success && r.content@ == text && r.error is None
                        && (old(self).style_view() == AgentStyle::Base ==> calls_view(r.tool_calls@)
                        == old(self).recorded_calls())
                        && (old(self).style_view() == AgentStyle::Personality ==> r.tool_calls@.len() == 0)))
                    &&& text.len() == 0 ==> (final(self).history_view() == old(self).history_view()
                        && (a matches AgentAction::Reply(r) && !r.success && r.error is Some
                        && r.error->0@ == "LLM response contained only non-text parts (images, etc.)"@))
                },
                ModelReply::ToolResponses => {
                    &&& final(self).phase_view() == TurnPhase::Done
                    &&& final(self).history_view() == old(self).history_view()
                    &&& a matches AgentAction::Reply(r) && !r.success && r.error is Some
                        && r.error->0@ == "LLM unexpectedly returned tool responses"@
                },
                ModelReply::Failed(e) => {
                    &&& final(self).phase_view() == TurnPhase::Done
                    &&& final(self).history_view() == old(self).history_view()
                    &&& a matches AgentAction::Reply(r) && !r.success && r.error is Some
                        && r.error->0@ == "Failed to generate response: "@ + e@
                },
            },
    {
        match reply {
            ModelReply::ToolCalls(calls) => {
                self.push_both(InternalChatMessage::Assistant {
                    content: text_of("Tool calls requested"),
                    tool_responses: None,
                });
                self.pending = calls;
                self.next = 0;
                if self.pending.len() > 0 {
                    self.phase = TurnPhase::AwaitingTool;
                    let c = &self.pending[0];
                    AgentAction::RunTool { name: c.name.clone(), args: c.args.clone() }
                } else {
                    self.after_tools()
                }
            },
            ModelReply::Text(t) => self.reply_success(t),
            ModelReply::Parts(ps) => {
                let text = join_text_parts(&ps);
                if text.as_str().is_empty() {
                    self.reply_error(text_of("LLM response contained only non-text parts (images, etc.)"))
                } else {
                    self.reply_success(text)
                }
            },
            ModelReply::ToolResponses => self.reply_error(text_of("LLM unexpectedly returned tool responses")),
            ModelReply::Failed(e) => {
                let mut out: Vec<char> = Vec::new();
                push_str(&mut out, "Failed to generate response: ");
                push_str(&mut out, e.as_str());
                self.reply_error(string_from_chars(out.as_slice()))
            },
        }
    }

    /// Takes what came of the pending tool call: it is recorded, joins the
    /// history as a tool message, and the next pending call is run; after
    /// the last one the model is asked again.
    pub fn on_tool_result(&mut self, outcome: ToolOutcome) -> (a: AgentAction)
        requires
            old(self).wf(),
            old(self).phase_view() == TurnPhase::AwaitingTool,
        ensures
            final(self).wf() || final(self).phase_view() == TurnPhase::Done,
            final(self).style_view() == old(self).style_view(),
            final(self).message_id_view() == old(self).message_id_view(),
            ({
                let c = old(self).pending_calls()[old(self).next_call() as int];
                let tool_msg = MsgView::Tool(c.0, outcome_text(c.0, outcome).0, Some(c.2));
                let more = old(self).next_call() + 1 < old(self).pending_calls().len();
                &&& final(self).recorded_calls() == old(self).recorded_calls().push(record_of(c, outcome))
                &&& final(self).history_view() == old(self).history_view().push(tool_msg)
                &&& final(self).conversation_view() == if !more && old(self).style_view() == AgentStyle::Personality {
                    old(self).conversation_view().push(tool_msg).push(MsgView::System(explanation_prompt()))
                } else {
                    old(self).conversation_view().push(tool_msg)
                }
                &&& final(self).pending_calls() == old(self).pending_calls()
                &&& final(self).next_call() == old(self).next_call() + 1
                &&& (a is RunTool <==> more)
                &&& a matches AgentAction::RunTool { name, args } ==> {
                    &&& name@ == old(self).pending_calls()[old(self).next_call() + 1int].0
                    &&& args@ == old(self).pending_calls()[old(self).next_call() + 1int].1
                    &&& (name@, args@) == final(self).pending_call()
                    &&& final(self).phase_view() == TurnPhase::AwaitingTool
                    &&& final(self).iteration_view() == old(self).iteration_view()
                }
                &&& !more && old(self).iteration_view() < MAX_TOOL_ITERATIONS ==> {
                    &&& a is CallModel
                    &&& final(self).phase_view() == TurnPhase::AwaitingModel
                    &&& final(self).iteration_view() == old(self).iteration_view() + 1
                }
                &&& !more && old(self).iteration_view() == MAX_TOOL_ITERATIONS ==> {
                    &&& final(self).phase_view() == TurnPhase::Done
                    &&& a matches AgentAction::Reply(r) && !r.success && r.content@.len() == 0
                        && r.error is Some && r.error->0@ == "Maximum tool execution iterations reached"@
                        && r.tool_calls@.len() == 0 && r.in_response_to@ == old(self).message_id_view()
                }
            }),
    {
        let i = self.next;
        assert(i < self.pending@.len());
        let total = self.pending.len();
        let following = i + 1;
        let name = self.pending[i].name.clone();
        let args = self.pending[i].args.clone();
        let call_id = self.pending[i].call_id.clone();
        let (result, success) = match outcome {
            ToolOutcome::Returned(v) => (v, true),
            ToolOutcome::Failed(e) => {
                let mut out: Vec<char> = Vec::new();
                push_str(&mut out, "Error executing tool ");
                push_str(&mut out, name.as_str());
                push_str(&mut out, ": ");
                push_str(&mut out, e.as_str());
                (string_from_chars(out.as_slice()), false)
            },
            ToolOutcome::NotFound(tools) => {
                let mut out: Vec<char> = Vec::new();
                push_str(&mut out, "Tool '");
                push_str(&mut out, name.as_str());
                push_str(&mut out, "' not found. Available tools: ");
                push_str(&mut out, tools.as_str());
                (string_from_chars(out.as_slice()), false)
            },
        };
        assert(result@ == outcome_text(name@, outcome).0);
        self.tool_calls.push(ToolCallInfo {
            tool_name: name.clone(),
            tool_args: args,
            tool_result: result.clone(),
            success,
            call_id: Some(call_id.clone()),
        });
        self.push_both(InternalChatMessage::Tool { tool_name: name, content: result, call_id: Some(call_id) });
        self.next = following;
        if self.next < self.pending.len() {
            let c = &self.pending[self.next];
            AgentAction::RunTool { name: c.name.clone(), args: c.args.clone() }
        } else {
            self.after_tools()
        }
    }
}

/// A turn in progress has asked the model at least once and at most
/// `MAX_TOOL_ITERATIONS` times: one incoming message never costs more than
/// ten model calls.
pub proof fn law_model_calls_bounded(t: AgentTurn)
    requires
        t.wf(),
    ensures
        1 <= t.iteration_view() <= MAX_TOOL_ITERATIONS,
        t.phase_view() != TurnPhase::Done,
{
}

/// A base agent sends the model exactly its history while a turn is in
/// progress.
pub proof fn law_base_conversation_is_history(t: AgentTurn)
    requires
        t.wf(),
        t.style_view() == AgentStyle::Base,
    ensures
        t.conversation_view() == t.history_view(),
{
}

} // verus!

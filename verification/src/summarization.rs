//! Conversation summarization: when to summarize, and the text processing
//! around the model's summary (message rendering, identifiers, topics, key
//! facts and participants).

use vstd::prelude::*;
use crate::llm::{InternalChatMessage, message_content};
use crate::text::{contains_text, decimal, push_digits, push_str, string_from_chars, trim_space, unicode_lowercase};

verus! {

/// Summarization strategies.
#[derive(Debug, Clone, Copy, PartialEq, Eq, Structural)]
pub enum SummarizationStrategy {
    Single,
    Progressive,
    TopicBased,
    Hierarchical,
}

/// Summarization configuration.
#[derive(Debug, Clone, Copy, PartialEq, Eq, Structural)]
pub struct SummarizationConfig {
    pub max_conversation_length: usize,
    pub target_summary_length: usize,
    pub min_conversation_length: usize,
    pub strategy: SummarizationStrategy,
    pub preserve_recent_count: usize,
    pub auto_summarize_on_budget_limit: bool,
    pub preserve_important_messages: bool,
}

impl Default for SummarizationConfig {
    fn default() -> (c: SummarizationConfig)
        ensures
            c.max_conversation_length == 50,
            c.target_summary_length == 500,
            c.min_conversation_length == 10,
            c.strategy == SummarizationStrategy::Progressive,
            c.preserve_recent_count == 5,
            c.auto_summarize_on_budget_limit,
            c.preserve_important_messages,
    {
        SummarizationConfig {
            max_conversation_length: 50,
            target_summary_length: 500,
            min_conversation_length: 10,
            strategy: SummarizationStrategy::Progressive,
            preserve_recent_count: 5,
            auto_summarize_on_budget_limit: true,
            preserve_important_messages: true,
        }
    }
}

/// Whether a conversation of `count` messages is to be summarized: never
/// below the minimum length, always from the maximum length on, and in
/// between only when budget-driven summarization is on and the token budget
/// asks for it.
pub open spec fn summarize_decision(count: nat, config: SummarizationConfig, budget_asks: bool) -> bool {
    if count < config.min_conversation_length {
        false
    } else if count >= config.max_conversation_length {
        true
    } else {
        config.auto_summarize_on_budget_limit && budget_asks
    }
}

/// Decides whether to summarize a conversation of `message_count` messages;
/// `budget_asks` is whether the token budget status asks for automatic
/// summarization.
pub fn should_summarize(message_count: usize, config: &SummarizationConfig, budget_asks: bool) -> (b: bool)
    ensures
        b == summarize_decision(message_count as nat, *config, budget_asks),
{
    if message_count < config.min_conversation_length {
        return false;
    }
    if message_count >= config.max_conversation_length {
        return true;
    }
    config.auto_summarize_on_budget_limit && budget_asks
}

/// A message rendered for the summarizer.
pub open spec fn rendered_message(m: InternalChatMessage) -> Seq<char> {
    match m {
        InternalChatMessage::System { content } => "System: "@ + content@,
        InternalChatMessage::User { content } => "User: "@ + content@,
        InternalChatMessage::Assistant { content, .. } => "Assistant: "@ + content@,
        InternalChatMessage::Tool { tool_name, content, .. } => "Tool ("@ + tool_name@ + "): "@ + content@,
    }
}

/// The first `n` messages rendered and separated by blank lines.
pub open spec fn rendered_conversation(ms: Seq<InternalChatMessage>, n: nat) -> Seq<char>
    decreases n,
{
    if n == 0 {
        seq![]
    } else if n == 1 {
        rendered_message(ms[0])
    } else {
        rendered_conversation(ms, (n - 1) as nat) + "\n\n"@ + rendered_message(ms[n - 1])
    }
}

fn push_rendered(out: &mut Vec<char>, m: &InternalChatMessage)
    ensures
        final(out)@ == old(out)@ + rendered_message(*m),
{
    match m {
        InternalChatMessage::System { content } => {
            push_str(out, "System: ");
            push_str(out, content.as_str());
        },
        InternalChatMessage::User { content } => {
            push_str(out, "User: ");
            push_str(out, content.as_str());
        },
        InternalChatMessage::Assistant { content, .. } => {
            push_str(out, "Assistant: ");
            push_str(out, content.as_str());
        },
        InternalChatMessage::Tool { tool_name, content, .. } => {
            push_str(out, "Tool (");
            push_str(out, tool_name.as_str());
            push_str(out, "): ");
            push_str(out, content.as_str());
        },
    }
}

/// Renders messages for the summarizer, one per paragraph.
pub fn format_messages_for_summarization(messages: &[InternalChatMessage]) -> (s: String)
    ensures
        s@ == rendered_conversation(messages@, messages@.len()),
{
    let mut out: Vec<char> = Vec::new();
    let mut i: usize = 0;
    while i < messages.len()
        invariant
            i <= messages@.len(),
            out@ == rendered_conversation(messages@, i as nat),
        decreases messages@.len() - i,
    {
        if i > 0 {
            push_str(&mut out, "\n\n");
        }
        push_rendered(&mut out, &messages[i]);
        i = i + 1;
    }
    string_from_chars(out.as_slice())
}

/// The identifier of the `i`-th message: `msg_<i>_<byte length>`.
pub open spec fn message_id_text(i: nat, m: InternalChatMessage) -> Seq<char> {
    "msg_"@ + decimal(i) + "_"@ + decimal(crate::text::byte_len(message_content(m)))
}

/// Identifiers for messages, from their position and content length.
pub fn extract_message_ids(messages: &[InternalChatMessage]) -> (r: Vec<String>)
    ensures
        r@.len() == messages@.len(),
        forall|i: int| 0 <= i < r@.len() ==> (#[trigger] r@[i])@ == message_id_text(i as nat, messages@[i]),
{
    let mut r: Vec<String> = Vec::new();
    let mut i: usize = 0;
    while i < messages.len()
        invariant
            i <= messages@.len(),
            r@.len() == i,
            forall|k: int| 0 <= k < i ==> (#[trigger] r@[k])@ == message_id_text(k as nat, messages@[k]),
        decreases messages@.len() - i,
    {
        let content = messages[i].content_text();
        let len = content.as_str().as_bytes().len();
        let mut out: Vec<char> = Vec::new();
        push_str(&mut out, "msg_");
        push_digits(i as u128, 10, &mut out);
        push_str(&mut out, "_");
        push_digits(len as u128, 10, &mut out);
        let s = string_from_chars(out.as_slice());
        assert(s@ =~= message_id_text(i as nat, messages@[i as int]));
        r.push(s);
        i = i + 1;
    }
    r
}

/// The pieces of a text between `c` separators (`str::split`).
pub open spec fn split_acc(s: Seq<char>, c: char, n: nat) -> (Seq<Seq<char>>, Seq<char>)
    decreases n,
{
    if n == 0 {
        (seq![], seq![])
    } else {
        let (done, cur) = split_acc(s, c, (n - 1) as nat);
        if s[n - 1] == c {
            (done.push(cur), seq![])
        } else {
            (done, cur.push(s[n - 1]))
        }
    }
}

/// The pieces of a text between `c` separators.
pub open spec fn split_on(s: Seq<char>, c: char) -> Seq<Seq<char>> {
    let (done, cur) = split_acc(s, c, s.len());
    done.push(cur)
}

/// A sentence kept as a key fact: non-empty and longer than 20 bytes.
pub open spec fn is_fact(t: Seq<char>) -> bool {
    t.len() > 0 && crate::text::byte_len(t) > 20
}

/// The key facts among the first `n` sentences (trimmed), at most five.
pub open spec fn facts_upto(sentences: Seq<Seq<char>>, n: nat) -> Seq<Seq<char>>
    decreases n,
{
    if n == 0 {
        seq![]
    } else {
        let rest = facts_upto(sentences, (n - 1) as nat);
        let t = trim_space(sentences[n - 1]);
        if rest.len() < 5 && is_fact(t) {
            rest.push(t)
        } else {
            rest
        }
    }
}

/// The key facts of a summary: its `.`-separated sentences, trimmed, that
/// are longer than 20 bytes; the first five of them.
pub open spec fn key_facts(summary: Seq<char>) -> Seq<Seq<char>> {
    facts_upto(split_on(summary, '.'), split_on(summary, '.').len())
}

fn split_on_char(v: &[char], c: char) -> (r: Vec<Vec<char>>)
    ensures
        r@.len() == split_on(v@, c).len(),
        forall|i: int| 0 <= i < r@.len() ==> (#[trigger] r@[i])@ == split_on(v@, c)[i],
{
    let mut done: Vec<Vec<char>> = Vec::new();
    let mut cur: Vec<char> = Vec::new();
    let mut i: usize = 0;
    while i < v.len()
        invariant
            i <= v@.len(),
            done@.len() == split_acc(v@, c, i as nat).0.len(),
            forall|k: int| 0 <= k < done@.len() ==> (#[trigger] done@[k])@ == split_acc(v@, c, i as nat).0[k],
            cur@ == split_acc(v@, c, i as nat).1,
        decreases v@.len() - i,
    {
        if v[i] == c {
            let piece = cur;
            done.push(piece);
            cur = Vec::new();
        } else {
            cur.push(v[i]);
        }
        i = i + 1;
    }
    done.push(cur);
    done
}

/// Extracts up to five key facts from a summary.
pub fn extract_key_facts(summary_text: &str) -> (r: Vec<String>)
    ensures
        r@.len() == key_facts(summary_text@).len(),
        forall|i: int| 0 <= i < r@.len() ==> (#[trigger] r@[i])@ == key_facts(summary_text@)[i],
{
    let v = crate::text::chars_of(summary_text);
    let pieces = split_on_char(v.as_slice(), '.');
    let ghost sentences = split_on(v@, '.');
    let mut r: Vec<String> = Vec::new();
    let mut i: usize = 0;
    while i < pieces.len()
        invariant
            v@ == summary_text@,
            sentences == split_on(v@, '.'),
            pieces@.len() == sentences.len(),
            forall|k: int| 0 <= k < pieces@.len() ==> (#[trigger] pieces@[k])@ == sentences[k],
            i <= pieces@.len(),
            r@.len() == facts_upto(sentences, i as nat).len(),
            forall|k: int| 0 <= k < r@.len() ==> (#[trigger] r@[k])@ == facts_upto(sentences, i as nat)[k],
        decreases pieces@.len() - i,
    {
        let t = crate::text::trim_space_chars(pieces[i].as_slice());
        let s = string_from_chars(t.as_slice());
        let n_bytes = s.as_str().as_bytes().len();
        if r.len() < 5 && t.len() > 0 && n_bytes > 20 {
            r.push(s);
        }
        i = i + 1;
    }
    r
}

/// The topics the summarizer looks for.
pub open spec fn topic_list() -> Seq<Seq<char>> {
    seq![
        "technology"@, "AI"@, "programming"@, "business"@, "science"@, "health"@,
        "education"@, "finance"@, "marketing"@, "design"@, "productivity"@, "learning"@,
    ]
}

/// ASCII lower-casing of a text.
pub open spec fn ascii_lowercase(s: Seq<char>) -> Seq<char> {
    s.map_values(|c: char| crate::text::ascii_lower(c))
}

/// The topics among the first `n` of the list that the lower-cased
/// summary mentions.
pub open spec fn topics_upto(summary: Seq<char>, n: nat) -> Seq<Seq<char>>
    decreases n,
{
    if n == 0 {
        seq![]
    } else {
        let rest = topics_upto(summary, (n - 1) as nat);
        let t = topic_list()[n - 1];
        if contains_text(unicode_lowercase(summary), ascii_lowercase(t)) {
            rest.push(t)
        } else {
            rest
        }
    }
}

/// Extracts the known topics that a summary mentions, ignoring case.
pub fn extract_topics(summary_text: &str) -> (r: Vec<String>)
    ensures
        r@.len() == topics_upto(summary_text@, 12).len(),
        forall|i: int| 0 <= i < r@.len() ==> (#[trigger] r@[i])@ == topics_upto(summary_text@, 12)[i],
{
    let topics: [&str; 12] = [
        "technology", "AI", "programming", "business", "science", "health",
        "education", "finance", "marketing", "design", "productivity", "learning",
    ];
    assert(topics@.map_values(|s: &str| s@) =~= topic_list());
    let lower = crate::text::to_lowercase(summary_text);
    let hay = crate::text::chars_of(lower.as_str());
    let mut r: Vec<String> = Vec::new();
    let mut i: usize = 0;
    while i < 12
        invariant
            i <= 12,
            topics@.map_values(|s: &str| s@) == topic_list(),
            hay@ == unicode_lowercase(summary_text@),
            r@.len() == topics_upto(summary_text@, i as nat).len(),
            forall|k: int| 0 <= k < r@.len() ==> (#[trigger] r@[k])@ == topics_upto(summary_text@, i as nat)[k],
        decreases 12 - i,
    {
        let t = topics[i];
        assert(t@ == topic_list()[i as int]);
        let tv = crate::text::chars_of(t);
        let mut lt: Vec<char> = Vec::new();
        let mut k: usize = 0;
        while k < tv.len()
            invariant
                k <= tv@.len(),
                lt@ =~= ascii_lowercase(tv@).subrange(0, k as int),
            decreases tv@.len() - k,
        {
            lt.push(crate::text::char_ascii_lower(tv[k]));
            k = k + 1;
        }
        assert(lt@ =~= ascii_lowercase(t@));
        if crate::text::text_contains(hay.as_slice(), lt.as_slice()) {
            r.push(t.to_string());
        }
        i = i + 1;
    }
    r
}

/// The participant label of a message.
pub open spec fn participant_of(m: InternalChatMessage) -> Seq<char> {
    match m {
        InternalChatMessage::User { .. } => "User"@,
        InternalChatMessage::Assistant { .. } => "Assistant"@,
        InternalChatMessage::System { .. } => "System"@,
        InternalChatMessage::Tool { tool_name, .. } => "Tool("@ + tool_name@ + ")"@,
    }
}

/// The distinct participants of the first `n` messages, in order of first
/// appearance.
pub open spec fn participants_upto(ms: Seq<InternalChatMessage>, n: nat) -> Seq<Seq<char>>
    decreases n,
{
    if n == 0 {
        seq![]
    } else {
        let rest = participants_upto(ms, (n - 1) as nat);
        let p = participant_of(ms[n - 1]);
        if rest.contains(p) {
            rest
        } else {
            rest.push(p)
        }
    }
}

/// The distinct participants of a conversation (user, assistant, system,
/// and each tool by name), each once, in order of first appearance.
pub fn extract_participants(messages: &[InternalChatMessage]) -> (r: Vec<String>)
    ensures
        crate::agents_api::texts(r@) == participants_upto(messages@, messages@.len()),
{
    let mut r: Vec<String> = Vec::new();
    let mut i: usize = 0;
    while i < messages.len()
        invariant
            i <= messages@.len(),
            crate::agents_api::texts(r@) == participants_upto(messages@, i as nat),
        decreases messages@.len() - i,
    {
        let mut out: Vec<char> = Vec::new();
        match &messages[i] {
            InternalChatMessage::User { .. } => push_str(&mut out, "User"),
            InternalChatMessage::Assistant { .. } => push_str(&mut out, "Assistant"),
            InternalChatMessage::System { .. } => push_str(&mut out, "System"),
            InternalChatMessage::Tool { tool_name, .. } => {
                push_str(&mut out, "Tool(");
                push_str(&mut out, tool_name.as_str());
                push_str(&mut out, ")");
            },
        }
        let p = string_from_chars(out.as_slice());
        assert(p@ =~= participant_of(messages@[i as int]));
        let mut seen = false;
        let mut k: usize = 0;
        while k < r.len()
            invariant
                k <= r@.len(),
                seen == crate::agents_api::texts(r@).subrange(0, k as int).contains(p@),
            decreases r@.len() - k,
        {
            let eq = crate::text::str_eq(r[k].as_str(), p.as_str());
            proof {
                let t = crate::agents_api::texts(r@);
                let pre = t.subrange(0, k as int);
                assert(t.subrange(0, k as int + 1) =~= pre.push(t[k as int]));
                assert(t[k as int] == r@[k as int]@);
                if pre.push(t[k as int]).contains(p@) {
                    let j = choose|j: int| 0 <= j < pre.len() + 1 && pre.push(t[k as int])[j] == p@;
                    if j < pre.len() {
                        assert(pre[j] == p@);
                    }
                }
                if pre.contains(p@) {
                    let j = choose|j: int| 0 <= j < pre.len() && pre[j] == p@;
                    assert(pre.push(t[k as int])[j] == p@);
                }
                if t[k as int] == p@ {
                    assert(pre.push(t[k as int])[pre.len() as int] == p@);
                }
            }
            seen = seen || eq;
            k = k + 1;
        }
        assert(crate::agents_api::texts(r@).subrange(0, r@.len() as int) =~= crate::agents_api::texts(r@));
        if !seen {
            let ghost before = crate::agents_api::texts(r@);
            r.push(p);
            assert(crate::agents_api::texts(r@) =~= before.push(participant_of(messages@[i as int])));
        }
        i = i + 1;
    }
    r
}

} // verus!

verus! {

/// How many of the oldest messages are summarized: all but the most recent
/// `preserve` when there are more than that.
pub open spec fn summarized_count(len: nat, preserve: nat) -> nat {
    if preserve > 0 && len > preserve {
        (len - preserve) as nat
    } else {
        len
    }
}

/// The instruction sent to the summarizer for a conversation text.
pub open spec fn summary_prompt(target_length: nat, conversation: Seq<char>) -> Seq<char> {
    "Please provide a comprehensive summary of the following conversation. Focus on key topics, important decisions, and factual information. Aim for approximately "@
        + decimal(target_length) + " tokens in your summary.\n\nConversation:\n"@ + conversation
}

/// The system instruction of the summarizer.
pub open spec fn summarizer_instruction() -> Seq<char> {
    "You are an expert conversation summarizer. Create concise but comprehensive summaries."@
}

/// The request sent to summarize a conversation: the number of messages
/// summarized (the most recent ones kept out), and the two messages asking
/// for the summary (the summarizer's instruction, and the prompt with the
/// rendered messages).
pub fn summary_request(messages: &[InternalChatMessage], config: &SummarizationConfig) -> (r: (
    usize,
    Vec<InternalChatMessage>,
))
    ensures
        r.0 == summarized_count(messages@.len(), config.preserve_recent_count as nat),
        crate::agent_loop::msgs_view(r.1@) == seq![
            crate::agent_loop::MsgView::System(summarizer_instruction()),
            crate::agent_loop::MsgView::User(
                summary_prompt(
                    config.target_summary_length as nat,
                    rendered_conversation(messages@, r.0 as nat),
                ),
            ),
        ],
{
    let n = messages.len();
    let count = if config.preserve_recent_count > 0 && n > config.preserve_recent_count {
        n - config.preserve_recent_count
    } else {
        n
    };
    let part = slice_prefix(messages, count);
    let text = format_messages_for_summarization(part);
    assert(part@ =~= messages@.subrange(0, count as int));
    proof {
        lemma_rendered_prefix(messages@, count as nat);
    }
    let mut prompt: Vec<char> = Vec::new();
    push_str(&mut prompt, "Please provide a comprehensive summary of the following conversation. Focus on key topics, important decisions, and factual information. Aim for approximately ");
    push_digits(config.target_summary_length as u128, 10, &mut prompt);
    push_str(&mut prompt, " tokens in your summary.\n\nConversation:\n");
    push_str(&mut prompt, text.as_str());
    let mut v: Vec<InternalChatMessage> = Vec::new();
    v.push(InternalChatMessage::System {
        content: "You are an expert conversation summarizer. Create concise but comprehensive summaries.".to_string(),
    });
    v.push(InternalChatMessage::User { content: string_from_chars(prompt.as_slice()) });
    assert(crate::agent_loop::msgs_view(v@) =~= seq![
        crate::agent_loop::MsgView::System(summarizer_instruction()),
        crate::agent_loop::MsgView::User(
            summary_prompt(config.target_summary_length as nat, rendered_conversation(messages@, count as nat)),
        ),
    ]);
    (count, v)
}

fn slice_prefix(messages: &[InternalChatMessage], count: usize) -> (r: &[InternalChatMessage])
    requires
        count <= messages@.len(),
    ensures
        r@ == messages@.subrange(0, count as int),
{
    let (a, _b) = messages.split_at(count);
    a
}

proof fn lemma_rendered_prefix(ms: Seq<InternalChatMessage>, n: nat)
    requires
        n <= ms.len(),
    ensures
        rendered_conversation(ms.subrange(0, n as int), n) == rendered_conversation(ms, n),
    decreases n,
{
    if n > 0 {
        lemma_rendered_prefix_at(ms, n, n);
    }
}

proof fn lemma_rendered_prefix_at(ms: Seq<InternalChatMessage>, n: nat, k: nat)
    requires
        k <= n <= ms.len(),
    ensures
        rendered_conversation(ms.subrange(0, n as int), k) == rendered_conversation(ms, k),
    decreases k,
{
    if k > 1 {
        lemma_rendered_prefix_at(ms, n, (k - 1) as nat);
    }
}

} // verus!

//! Conversation export and import: the exportable model of a conversation,
//! message conversion, the text export formats and import checks.
//! Times are Unix milliseconds; files and serde formats stay with the
//! caller.

use vstd::prelude::*;
use std::collections::HashMap;
use crate::agents_api::texts;
use crate::llm::InternalChatMessage;
use crate::text::{decimal, push_digits, push_str, str_eq, string_from_chars};

verus! {

/// Status of a conversation.
#[derive(Debug, Clone, Copy, PartialEq, Eq, Structural)]
pub enum ConversationStatus {
    Active,
    Archived,
    Completed,
    Paused,
    Deleted,
}

/// Type of a message.
#[derive(Debug, Clone, Copy, PartialEq, Eq, Structural)]
pub enum MessageType {
    User,
    Assistant,
    System,
    Tool,
    Error,
    Note,
}

/// Message importance levels.
#[derive(Debug, Clone, Copy, PartialEq, Eq, Structural)]
pub enum MessageImportance {
    Low,
    Normal,
    High,
    Critical,
}

impl Default for MessageImportance {
    fn default() -> (m: MessageImportance)
        ensures
            m == MessageImportance::Normal,
    {
        MessageImportance::Normal
    }
}

/// A message attachment.
#[derive(Debug)]
pub struct MessageAttachment {
    pub id: String,
    pub filename: String,
    pub mime_type: String,
    pub size_bytes: usize,
    /// Content, base64 encoded, for small files.
    pub content: Option<String>,
    /// Path of the file, for large files.
    pub file_path: Option<String>,
    pub metadata: HashMap<String, String>,
}

/// Export formats.
#[derive(Debug, Clone, Copy, PartialEq, Eq, Structural)]
pub enum ExportFormat {
    Json,
    Yaml,
    Csv,
    Markdown,
    Html,
    Txt,
    Xml,
    Jsonl,
}

/// How imported conversations are merged.
#[derive(Debug, Clone, Copy, PartialEq, Eq, Structural)]
pub enum ImportMergeMode {
    Replace,
    Append,
    CreateNew,
    MergeByTimestamp,
}

/// How duplicate messages are handled on import.
#[derive(Debug, Clone, Copy, PartialEq, Eq, Structural)]
pub enum DuplicateHandling {
    Skip,
    Overwrite,
    CreateNew,
    MergeMetadata,
}

/// Import settings.
#[derive(Debug, Clone, Copy, PartialEq, Eq, Structural)]
pub struct ImportSettings {
    pub merge_mode: ImportMergeMode,
    pub duplicate_handling: DuplicateHandling,
    pub preserve_timestamps: bool,
    pub preserve_ids: bool,
    pub import_attachments: bool,
    pub validate_data: bool,
    pub auto_assign_ids: bool,
}

impl Default for ImportSettings {
    fn default() -> (s: ImportSettings)
        ensures
            s == (ImportSettings {
                merge_mode: ImportMergeMode::CreateNew,
                duplicate_handling: DuplicateHandling::Skip,
                preserve_timestamps: true,
                preserve_ids: false,
                import_attachments: true,
                validate_data: true,
                auto_assign_ids: true,
            }),
    {
        ImportSettings {
            merge_mode: ImportMergeMode::CreateNew,
            duplicate_handling: DuplicateHandling::Skip,
            preserve_timestamps: true,
            preserve_ids: false,
            import_attachments: true,
            validate_data: true,
            auto_assign_ids: true,
        }
    }
}

/// Export settings (the date range in Unix milliseconds).
#[derive(Debug)]
pub struct ExportSettings {
    pub include_metadata: bool,
    pub include_memory_blocks: bool,
    pub include_summaries: bool,
    pub include_token_usage: bool,
    pub include_attachments: bool,
    pub compress_content: bool,
    pub max_inline_attachment_size: usize,
    pub date_range: Option<(i64, i64)>,
    pub message_type_filter: Option<Vec<MessageType>>,
    pub include_system_messages: bool,
    pub pretty_print: bool,
}

impl Default for ExportSettings {
    fn default() -> (s: ExportSettings)
        ensures
            s.include_metadata && s.include_memory_blocks && s.include_summaries,
            s.include_token_usage && s.include_attachments && !s.compress_content,
            s.max_inline_attachment_size == 1024 * 1024,
            s.date_range is None,
            s.message_type_filter is None,
            s.include_system_messages,
            s.pretty_print,
    {
        ExportSettings {
            include_metadata: true,
            include_memory_blocks: true,
            include_summaries: true,
            include_token_usage: true,
            include_attachments: true,
            compress_content: false,
            max_inline_attachment_size: 1024 * 1024,
            date_range: None,
            message_type_filter: None,
            include_system_messages: true,
            pretty_print: true,
        }
    }
}

/// Metadata about a conversation.
#[derive(Debug)]
pub struct ConversationMetadata {
    pub id: String,
    pub title: String,
    pub description: Option<String>,
    pub user_id: String,
    pub session_id: String,
    pub started_at: i64,
    pub last_message_at: i64,
    pub message_count: usize,
    pub tags: Vec<String>,
    pub properties: HashMap<String, String>,
    pub language: Option<String>,
    pub status: ConversationStatus,
    pub participants: Vec<String>,
}

/// Message metadata (the generation temperature and confidence, which are
/// floating-point, are kept by the caller).
#[derive(Debug)]
pub struct MessageMetadata {
    pub token_count: Option<u32>,
    pub processing_time_ms: Option<u64>,
    pub model: Option<String>,
    pub importance: MessageImportance,
    pub is_bookmarked: bool,
    pub custom: HashMap<String, String>,
}

/// A message in exportable form.
#[derive(Debug)]
pub struct ExportableMessage {
    pub id: String,
    pub message_type: MessageType,
    pub content: String,
    pub timestamp: i64,
    pub author: String,
    pub metadata: MessageMetadata,
    pub references: Vec<String>,
    pub attachments: Vec<MessageAttachment>,
}

/// The export type of a chat message.
pub open spec fn message_kind(m: InternalChatMessage) -> MessageType {
    match m {
        InternalChatMessage::User { .. } => MessageType::User,
        InternalChatMessage::Assistant { .. } => MessageType::Assistant,
        InternalChatMessage::System { .. } => MessageType::System,
        InternalChatMessage::Tool { .. } => MessageType::Tool,
    }
}

/// The author shown for a chat message.
pub open spec fn message_author(m: InternalChatMessage) -> Seq<char> {
    match m {
        InternalChatMessage::User { .. } => "User"@,
        InternalChatMessage::Assistant { .. } => "Assistant"@,
        InternalChatMessage::System { .. } => "System"@,
        InternalChatMessage::Tool { tool_name, .. } => "Tool("@ + tool_name@ + ")"@,
    }
}

/// Whether a chat message is exported under the given settings: system
/// messages only when they are included, and only types the filter lists.
pub open spec fn exported(m: InternalChatMessage, include_system: bool, filter: Option<Seq<MessageType>>) -> bool {
    &&& (message_kind(m) == MessageType::System ==> include_system)
    &&& (filter is Some ==> filter->0.contains(message_kind(m)))
}

/// The exported messages among the first `n`, as (position, type,
/// content, author).
pub open spec fn exported_upto(
    ms: Seq<InternalChatMessage>,
    include_system: bool,
    filter: Option<Seq<MessageType>>,
    n: nat,
) -> Seq<(nat, MessageType, Seq<char>, Seq<char>)>
    decreases n,
{
    if n == 0 {
        Seq::empty()
    } else {
        let m = ms[n - 1];
        exported_upto(ms, include_system, filter, (n - 1) as nat) + if exported(m, include_system, filter) {
            seq![((n - 1) as nat, message_kind(m), crate::llm::message_content(m), message_author(m))]
        } else {
            Seq::empty()
        }
    }
}

/// The view of the type filter of export settings.
pub open spec fn type_filter(s: ExportSettings) -> Option<Seq<MessageType>> {
    match s.message_type_filter {
        Some(v) => Some(v@),
        None => None,
    }
}

/// A message with default metadata and no references or attachments.
pub open spec fn plain_message(m: ExportableMessage, now: i64) -> bool {
    &&& m.timestamp == now
    &&& m.metadata.token_count is None
    &&& m.metadata.processing_time_ms is None
    &&& m.metadata.model is None
    &&& m.metadata.importance == MessageImportance::Normal
    &&& !m.metadata.is_bookmarked
    &&& m.metadata.custom@ == Map::<String, String>::empty()
    &&& m.references@.len() == 0
    &&& m.attachments@.len() == 0
}

fn kind_of(m: &InternalChatMessage) -> (k: MessageType)
    ensures
        k == message_kind(*m),
{
    match m {
        InternalChatMessage::User { .. } => MessageType::User,
        InternalChatMessage::Assistant { .. } => MessageType::Assistant,
        InternalChatMessage::System { .. } => MessageType::System,
        InternalChatMessage::Tool { .. } => MessageType::Tool,
    }
}

fn author_of(m: &InternalChatMessage) -> (a: String)
    ensures
        a@ == message_author(*m),
{
    match m {
        InternalChatMessage::User { .. } => "User".to_string(),
        InternalChatMessage::Assistant { .. } => "Assistant".to_string(),
        InternalChatMessage::System { .. } => "System".to_string(),
        InternalChatMessage::Tool { tool_name, .. } => {
            let mut out: Vec<char> = Vec::new();
            push_str(&mut out, "Tool(");
            push_str(&mut out, tool_name.as_str());
            push_str(&mut out, ")");
            string_from_chars(out.as_slice())
        },
    }
}

fn type_listed(filter: &Vec<MessageType>, k: MessageType) -> (b: bool)
    ensures
        b == filter@.contains(k),
{
    let mut i: usize = 0;
    while i < filter.len()
        invariant
            i <= filter@.len(),
            forall|j: int| 0 <= j < i ==> filter@[j] != k,
        decreases filter@.len() - i,
    {
        if filter[i] == k {
            return true;
        }
        i = i + 1;
    }
    false
}

/// Converts chat messages to exportable messages: system messages are
/// dropped unless included, other types unless the type filter lists them;
/// each kept message gets the id `msg_<position>`, the time `now`, its
/// author and default metadata.
pub fn convert_messages_to_exportable(
    messages: &[InternalChatMessage],
    settings: &ExportSettings,
    now: i64,
) -> (r: Vec<ExportableMessage>)
    ensures
        r@.len() == exported_upto(messages@, settings.include_system_messages, type_filter(*settings), messages@.len()).len(),
        forall|k: int| 0 <= k < r@.len() ==> {
            let e = exported_upto(messages@, settings.include_system_messages, type_filter(*settings), messages@.len())[k];
            &&& (#[trigger] r@[k]).id@ == "msg_"@ + decimal(e.0)
            &&& r@[k].message_type == e.1
            &&& r@[k].content@ == e.2
            &&& r@[k].author@ == e.3
            &&& plain_message(r@[k], now)
        },
{
    let ghost flt = type_filter(*settings);
    let ghost inc = settings.include_system_messages;
    let mut r: Vec<ExportableMessage> = Vec::new();
    let mut i: usize = 0;
    while i < messages.len()
        invariant
            i <= messages@.len(),
            flt == type_filter(*settings),
            inc == settings.include_system_messages,
            r@.len() == exported_upto(messages@, inc, flt, i as nat).len(),
            forall|k: int| 0 <= k < r@.len() ==> {
                let e = exported_upto(messages@, inc, flt, i as nat)[k];
                &&& (#[trigger] r@[k]).id@ == "msg_"@ + decimal(e.0)
                &&& r@[k].message_type == e.1
                &&& r@[k].content@ == e.2
                &&& r@[k].author@ == e.3
                &&& plain_message(r@[k], now)
            },
        decreases messages@.len() - i,
    {
        let m = &messages[i];
        let kind = kind_of(m);
        let keep_system = !(kind == MessageType::System && !settings.include_system_messages);
        let keep_type = match &settings.message_type_filter {
            Some(f) => type_listed(f, kind),
            None => true,
        };
        let ghost prev = exported_upto(messages@, inc, flt, i as nat);
        assert(exported_upto(messages@, inc, flt, (i + 1) as nat) == prev + if exported(messages@[i as int], inc, flt) {
            seq![(i as nat, message_kind(messages@[i as int]), crate::llm::message_content(messages@[i as int]), message_author(messages@[i as int]))]
        } else {
            Seq::empty()
        });
        if keep_system && keep_type {
            let content = m.content_text();
            let mut id: Vec<char> = Vec::new();
            push_str(&mut id, "msg_");
            push_digits(i as u128, 10, &mut id);
            let msg = ExportableMessage {
                id: string_from_chars(id.as_slice()),
                message_type: kind,
                content,
                timestamp: now,
                author: author_of(m),
                metadata: MessageMetadata {
                    token_count: None,
                    processing_time_ms: None,
                    model: None,
                    importance: MessageImportance::Normal,
                    is_bookmarked: false,
                    custom: HashMap::new(),
                },
                references: Vec::new(),
                attachments: Vec::new(),
            };
            r.push(msg);
        }
        i = i + 1;
    }
    r
}


/// The text of a signed integer.
pub open spec fn signed_decimal(t: int) -> Seq<char> {
    if t < 0 {
        "-"@ + decimal((-t) as nat)
    } else {
        decimal(t as nat)
    }
}

pub(crate) fn push_signed(out: &mut Vec<char>, t: i64)
    ensures
        final(out)@ == old(out)@ + signed_decimal(t as int),
{
    if t < 0 {
        push_str(out, "-");
        let m: i128 = -(t as i128);
        push_digits(m as u128, 10, out);
    } else {
        push_digits(t as u128, 10, out);
    }
}

/// The warnings of the duplicate-id check over the first `n` messages.
pub open spec fn duplicate_warnings(ids: Seq<Seq<char>>, n: nat) -> Seq<Seq<char>>
    decreases n,
{
    if n == 0 {
        Seq::empty()
    } else {
        duplicate_warnings(ids, (n - 1) as nat) + if ids.subrange(0, n - 1).contains(ids[n - 1]) {
            seq!["Duplicate message ID found: "@ + ids[n - 1]]
        } else {
            Seq::empty()
        }
    }
}

/// The warnings of the future-time check over the first `n` messages.
pub open spec fn future_warnings(ids: Seq<Seq<char>>, times: Seq<i64>, now: i64, n: nat) -> Seq<Seq<char>>
    decreases n,
{
    if n == 0 {
        Seq::empty()
    } else {
        future_warnings(ids, times, now, (n - 1) as nat) + if times[n - 1] > now {
            seq!["Message "@ + ids[n - 1] + " has future timestamp"@]
        } else {
            Seq::empty()
        }
    }
}

/// The ids of messages.
pub open spec fn message_ids(ms: Seq<ExportableMessage>) -> Seq<Seq<char>> {
    Seq::new(ms.len(), |i: int| ms[i].id@)
}

/// The times of messages.
pub open spec fn message_times(ms: Seq<ExportableMessage>) -> Seq<i64> {
    Seq::new(ms.len(), |i: int| ms[i].timestamp)
}

/// The warnings about an imported conversation at time `now`: no messages;
/// each repeated message id; each message dated in the future; a message
/// count in the metadata that differs from the messages.
pub open spec fn validation_warnings(message_count: usize, ms: Seq<ExportableMessage>, now: i64) -> Seq<Seq<char>> {
    (if ms.len() == 0 { seq!["Conversation contains no messages"@] } else { Seq::empty() })
        + duplicate_warnings(message_ids(ms), ms.len())
        + future_warnings(message_ids(ms), message_times(ms), now, ms.len())
        + (if message_count != ms.len() {
        seq![
            "Metadata message count ("@ + decimal(message_count as nat) + ") doesn't match actual count ("@
                + decimal(ms.len()) + ")"@,
        ]
    } else {
        Seq::empty()
    })
}

fn id_seen_before(ms: &[ExportableMessage], i: usize) -> (b: bool)
    requires
        i < ms@.len(),
    ensures
        b == message_ids(ms@).subrange(0, i as int).contains(message_ids(ms@)[i as int]),
{
    let mut j: usize = 0;
    while j < i
        invariant
            j <= i,
            i < ms@.len(),
            forall|k: int| 0 <= k < j ==> ms@[k].id@ != ms@[i as int].id@,
        decreases i - j,
    {
        if str_eq(ms[j].id.as_str(), ms[i].id.as_str()) {
            assert(message_ids(ms@).subrange(0, i as int)[j as int] == message_ids(ms@)[i as int]);
            return true;
        }
        j = j + 1;
    }
    proof {
        let pre = message_ids(ms@).subrange(0, i as int);
        if pre.contains(message_ids(ms@)[i as int]) {
            let k = choose|k: int| 0 <= k < pre.len() && pre[k] == message_ids(ms@)[i as int];
            assert(ms@[k].id@ == ms@[i as int].id@);
        }
    }
    false
}

/// Checks an imported conversation at time `now` and lists what is wrong
/// with it.
pub fn validate_conversation_data(message_count: usize, messages: &[ExportableMessage], now: i64) -> (w: Vec<String>)
    ensures
        texts(w@) == validation_warnings(message_count, messages@, now),
{
    let mut w: Vec<String> = Vec::new();
    if messages.len() == 0 {
        w.push("Conversation contains no messages".to_string());
    }
    let ghost w0 = texts(w@);
    let mut i: usize = 0;
    while i < messages.len()
        invariant
            i <= messages@.len(),
            texts(w@) == w0 + duplicate_warnings(message_ids(messages@), i as nat),
        decreases messages@.len() - i,
    {
        let ghost prev = w@;
        if id_seen_before(messages, i) {
            let mut t: Vec<char> = Vec::new();
            push_str(&mut t, "Duplicate message ID found: ");
            push_str(&mut t, messages[i].id.as_str());
            w.push(string_from_chars(t.as_slice()));
            assert(texts(w@) =~= texts(prev).push(t@));
        }
        assert(texts(w@) =~= w0 + duplicate_warnings(message_ids(messages@), (i + 1) as nat));
        i = i + 1;
    }
    let ghost w1 = texts(w@);
    let mut i: usize = 0;
    while i < messages.len()
        invariant
            i <= messages@.len(),
            texts(w@) == w1 + future_warnings(message_ids(messages@), message_times(messages@), now, i as nat),
        decreases messages@.len() - i,
    {
        let ghost prev = w@;
        if messages[i].timestamp > now {
            let mut t: Vec<char> = Vec::new();
            push_str(&mut t, "Message ");
            push_str(&mut t, messages[i].id.as_str());
            push_str(&mut t, " has future timestamp");
            w.push(string_from_chars(t.as_slice()));
            assert(texts(w@) =~= texts(prev).push(t@));
        }
        assert(texts(w@) =~= w1 + future_warnings(message_ids(messages@), message_times(messages@), now, (i + 1) as nat));
        i = i + 1;
    }
    let ghost w2 = texts(w@);
    if message_count != messages.len() {
        let mut t: Vec<char> = Vec::new();
        push_str(&mut t, "Metadata message count (");
        push_digits(message_count as u128, 10, &mut t);
        push_str(&mut t, ") doesn't match actual count (");
        push_digits(messages.len() as u128, 10, &mut t);
        push_str(&mut t, ")");
        w.push(string_from_chars(t.as_slice()));
        assert(texts(w@) =~= w2.push(t@));
    }
    assert(texts(w@) =~= validation_warnings(message_count, messages@, now));
    w
}

/// The id given to the `i`-th message of an imported conversation.
pub open spec fn imported_message_id(conversation_id: Seq<char>, i: nat) -> Seq<char> {
    "msg_"@ + conversation_id + "_"@ + decimal(i)
}

/// Gives each message of an imported conversation the id
/// `msg_<conversation id>_<position>`; nothing else changes.
pub fn assign_message_ids(conversation_id: &str, messages: &mut Vec<ExportableMessage>)
    ensures
        final(messages)@.len() == old(messages)@.len(),
        forall|i: int| 0 <= i < final(messages)@.len() ==> {
            &&& (#[trigger] final(messages)@[i]).id@ == imported_message_id(conversation_id@, i as nat)
            &&& final(messages)@[i].message_type == old(messages)@[i].message_type
            &&& final(messages)@[i].content == old(messages)@[i].content
            &&& final(messages)@[i].timestamp == old(messages)@[i].timestamp
            &&& final(messages)@[i].author == old(messages)@[i].author
        },
{
    let ghost orig = messages@;
    let mut i: usize = 0;
    while i < messages.len()
        invariant
            i <= messages@.len(),
            messages@.len() == orig.len(),
            forall|k: int| 0 <= k < i ==> (#[trigger] messages@[k]).id@ == imported_message_id(conversation_id@, k as nat),
            forall|k: int| 0 <= k < messages@.len() ==> {
                &&& (#[trigger] messages@[k]).message_type == orig[k].message_type
                &&& messages@[k].content == orig[k].content
                &&& messages@[k].timestamp == orig[k].timestamp
                &&& messages@[k].author == orig[k].author
            },
            forall|k: int| i <= k < messages@.len() ==> (#[trigger] messages@[k]) == orig[k],
        decreases orig.len() - i,
    {
        let mut t: Vec<char> = Vec::new();
        push_str(&mut t, "msg_");
        push_str(&mut t, conversation_id);
        push_str(&mut t, "_");
        push_digits(i as u128, 10, &mut t);
        let new_id = string_from_chars(t.as_slice());
        let mut m = messages.remove(i);
        m.id = new_id;
        messages.insert(i, m);
        i = i + 1;
    }
}

/// The text of the id of an imported conversation: `imported_<seconds>_`
/// and the first eight characters of a random UUID.
pub open spec fn is_imported_id(s: Seq<char>) -> bool {
    exists|t: i64, u: Seq<char>|
        #![trigger signed_decimal(t as int), crate::clock::is_hyphenated_uuid(u)]
        crate::clock::is_hyphenated_uuid(u) && s == "imported_"@ + signed_decimal(t as int) + "_"@ + u.subrange(0, 8)
}

/// A fresh id for an imported conversation.
pub fn imported_conversation_id() -> (s: String)
    ensures
        is_imported_id(s@),
{
    let t = crate::clock::utc_now_timestamp();
    let u = crate::clock::new_uuid_text();
    let uv = crate::text::chars_of(u.as_str());
    let mut out: Vec<char> = Vec::new();
    push_str(&mut out, "imported_");
    push_signed(&mut out, t);
    push_str(&mut out, "_");
    let mut k: usize = 0;
    let ghost base = out@;
    while k < 8
        invariant
            k <= 8,
            uv@ == u@,
            uv@.len() == 36,
            out@ == base + uv@.subrange(0, k as int),
        decreases 8 - k,
    {
        out.push(uv[k]);
        assert(uv@.subrange(0, k + 1) =~= uv@.subrange(0, k as int).push(uv@[k as int]));
        k = k + 1;
    }
    let s = string_from_chars(out.as_slice());
    assert(s@ == "imported_"@ + signed_decimal(t as int) + "_"@ + u@.subrange(0, 8));
    s
}

/// Sets every time of an imported conversation to `now`.
pub fn reset_timestamps(metadata: &mut ConversationMetadata, messages: &mut Vec<ExportableMessage>, now: i64)
    ensures
        final(metadata).started_at == now,
        final(metadata).last_message_at == now,
        final(metadata).id == old(metadata).id,
        final(metadata).message_count == old(metadata).message_count,
        final(messages)@.len() == old(messages)@.len(),
        forall|i: int| 0 <= i < final(messages)@.len() ==> {
            &&& (#[trigger] final(messages)@[i]).timestamp == now
            &&& final(messages)@[i].id == old(messages)@[i].id
            &&& final(messages)@[i].content == old(messages)@[i].content
        },
{
    metadata.started_at = now;
    metadata.last_message_at = now;
    let ghost orig = messages@;
    let mut i: usize = 0;
    while i < messages.len()
        invariant
            i <= messages@.len(),
            messages@.len() == orig.len(),
            forall|k: int| 0 <= k < i ==> (#[trigger] messages@[k]).timestamp == now,
            forall|k: int| 0 <= k < messages@.len() ==> (#[trigger] messages@[k]).id == orig[k].id
                && messages@[k].content == orig[k].content,
            forall|k: int| i <= k < messages@.len() ==> (#[trigger] messages@[k]) == orig[k],
        decreases orig.len() - i,
    {
        let mut m = messages.remove(i);
        m.timestamp = now;
        messages.insert(i, m);
        i = i + 1;
    }
}


/// The text chrono writes for a time (Unix milliseconds) with the format
/// `%Y-%m-%d %H:%M:%S UTC`.
pub uninterp spec fn utc_datetime_text(ms: int) -> Seq<char>;

/// The text chrono writes for a time (Unix milliseconds) with the format
/// `%H:%M:%S`.
pub uninterp spec fn utc_clock_text(ms: int) -> Seq<char>;

/// The RFC 3339 text chrono writes for a time (Unix milliseconds).
pub uninterp spec fn rfc3339_text(ms: int) -> Seq<char>;

/// Formats a time with chrono (`DateTime::<Utc>::from_timestamp_millis`,
/// then `format("%Y-%m-%d %H:%M:%S UTC")`); the text is named by
/// `utc_datetime_text`. A time chrono cannot represent gives the empty text.
#[verifier::external_body]
pub(crate) fn format_utc_datetime(ms: i64) -> (s: String)
    ensures
        s@ == utc_datetime_text(ms as int),
{
    match chrono::DateTime::<chrono::Utc>::from_timestamp_millis(ms) {
        Some(d) => d.format("%Y-%m-%d %H:%M:%S UTC").to_string(),
        None => String::new(),
    }
}

/// Formats the time of day of a time with chrono (`format("%H:%M:%S")`);
/// the text is named by `utc_clock_text`. A time chrono cannot represent
/// gives the empty text.
#[verifier::external_body]
fn format_utc_clock(ms: i64) -> (s: String)
    ensures
        s@ == utc_clock_text(ms as int),
{
    match chrono::DateTime::<chrono::Utc>::from_timestamp_millis(ms) {
        Some(d) => d.format("%H:%M:%S").to_string(),
        None => String::new(),
    }
}

/// Formats a time as RFC 3339 with chrono (`to_rfc3339`); the text is
/// named by `rfc3339_text`. A time chrono cannot represent gives the empty
/// text.
#[verifier::external_body]
fn format_rfc3339(ms: i64) -> (s: String)
    ensures
        s@ == rfc3339_text(ms as int),
{
    match chrono::DateTime::<chrono::Utc>::from_timestamp_millis(ms) {
        Some(d) => d.to_rfc3339(),
        None => String::new(),
    }
}

/// The debug name of a message type.
pub open spec fn message_type_name(t: MessageType) -> Seq<char> {
    match t {
        MessageType::User => "User"@,
        MessageType::Assistant => "Assistant"@,
        MessageType::System => "System"@,
        MessageType::Tool => "Tool"@,
        MessageType::Error => "Error"@,
        MessageType::Note => "Note"@,
    }
}

fn message_type_text(t: MessageType) -> (s: &'static str)
    ensures
        s@ == message_type_name(t),
{
    match t {
        MessageType::User => "User",
        MessageType::Assistant => "Assistant",
        MessageType::System => "System",
        MessageType::Tool => "Tool",
        MessageType::Error => "Error",
        MessageType::Note => "Note",
    }
}

/// The debug name of an importance level.
pub open spec fn importance_name(i: MessageImportance) -> Seq<char> {
    match i {
        MessageImportance::Low => "Low"@,
        MessageImportance::Normal => "Normal"@,
        MessageImportance::High => "High"@,
        MessageImportance::Critical => "Critical"@,
    }
}

fn importance_text(i: MessageImportance) -> (s: &'static str)
    ensures
        s@ == importance_name(i),
{
    match i {
        MessageImportance::Low => "Low",
        MessageImportance::Normal => "Normal",
        MessageImportance::High => "High",
        MessageImportance::Critical => "Critical",
    }
}

/// The concatenation of `line` over the first `n` messages.
pub open spec fn lines_of(ms: Seq<ExportableMessage>, line: spec_fn(ExportableMessage) -> Seq<char>, n: nat) -> Seq<char>
    decreases n,
{
    if n == 0 {
        Seq::empty()
    } else {
        lines_of(ms, line, (n - 1) as nat) + line(ms[n - 1])
    }
}

/// A text with each character mapped to a replacement text.
pub open spec fn map_chars(s: Seq<char>, f: spec_fn(char) -> Seq<char>) -> Seq<char>
    decreases s.len(),
{
    if s.len() == 0 {
        Seq::empty()
    } else {
        map_chars(s.drop_last(), f) + f(s.last())
    }
}

/// How a character is written inside a CSV field: a quote doubled, line
/// breaks as spaces.
pub open spec fn csv_char(c: char) -> Seq<char> {
    if c == '"' {
        seq!['"', '"']
    } else if c == '\n' || c == '\r' {
        seq![' ']
    } else {
        seq![c]
    }
}

/// How a character is written in HTML message text: a line break as
/// `<br>`.
pub open spec fn html_char(c: char) -> Seq<char> {
    if c == '\n' {
        "<br>"@
    } else {
        seq![c]
    }
}

fn push_mapped(out: &mut Vec<char>, s: &str, html: bool)
    ensures
        html ==> final(out)@ == old(out)@ + map_chars(s@, |c: char| html_char(c)),
        !html ==> final(out)@ == old(out)@ + map_chars(s@, |c: char| csv_char(c)),
{
    let v = crate::text::chars_of(s);
    let ghost f: spec_fn(char) -> Seq<char> = if html { |c: char| html_char(c) } else { |c: char| csv_char(c) };
    let ghost start = out@;
    let mut i: usize = 0;
    while i < v.len()
        invariant
            v@ == s@,
            i <= v@.len(),
            f == (if html { |c: char| html_char(c) } else { |c: char| csv_char(c) }),
            out@ == start + map_chars(v@.subrange(0, i as int), f),
        decreases v@.len() - i,
    {
        let c = v[i];
        if html {
            if c == '\n' {
                push_str(out, "<br>");
            } else {
                out.push(c);
            }
        } else {
            if c == '"' {
                out.push('"');
                out.push('"');
            } else if c == '\n' || c == '\r' {
                out.push(' ');
            } else {
                out.push(c);
            }
        }
        proof {
            assert(v@.subrange(0, i + 1).drop_last() =~= v@.subrange(0, i as int));
            assert(out@ =~= start + map_chars(v@.subrange(0, i + 1), f));
        }
        i = i + 1;
    }
    assert(v@.subrange(0, v@.len() as int) =~= v@);
}

/// The CSV line of a message.
pub open spec fn csv_line(m: ExportableMessage) -> Seq<char> {
    utc_datetime_text(m.timestamp as int) + ","@ + m.author@ + ","@ + message_type_name(m.message_type) + ",\""@
        + map_chars(m.content@, |c: char| csv_char(c)) + "\","@ + match m.metadata.token_count {
        Some(t) => decimal(t as nat),
        None => Seq::empty(),
    } + ","@ + importance_name(m.metadata.importance) + "\n"@
}

/// The CSV export: a header line, then one line per message.
pub open spec fn csv_text(ms: Seq<ExportableMessage>) -> Seq<char> {
    "timestamp,author,type,content,token_count,importance\n"@ + lines_of(ms, |m: ExportableMessage| csv_line(m), ms.len())
}

/// Writes the CSV export of the messages.
pub fn convert_to_csv(messages: &[ExportableMessage]) -> (s: String)
    ensures
        s@ == csv_text(messages@),
{
    let mut out: Vec<char> = Vec::new();
    push_str(&mut out, "timestamp,author,type,content,token_count,importance\n");
    let ghost head = out@;
    let ghost f = |m: ExportableMessage| csv_line(m);
    let mut i: usize = 0;
    while i < messages.len()
        invariant
            i <= messages@.len(),
            f == |m: ExportableMessage| csv_line(m),
            out@ == head + lines_of(messages@, f, i as nat),
        decreases messages@.len() - i,
    {
        let m = &messages[i];
        let ghost before = out@;
        let ts = format_utc_datetime(m.timestamp);
        push_str(&mut out, ts.as_str());
        push_str(&mut out, ",");
        push_str(&mut out, m.author.as_str());
        push_str(&mut out, ",");
        push_str(&mut out, message_type_text(m.message_type));
        push_str(&mut out, ",\"");
        push_mapped(&mut out, m.content.as_str(), false);
        push_str(&mut out, "\",");
        match m.metadata.token_count {
            Some(t) => push_digits(t as u128, 10, &mut out),
            None => {},
        }
        push_str(&mut out, ",");
        push_str(&mut out, importance_text(m.metadata.importance));
        push_str(&mut out, "\n");
        proof {
            assert(out@ =~= before + csv_line(messages@[i as int]));
        }
        i = i + 1;
    }
    string_from_chars(out.as_slice())
}

/// The marker shown before a message's author in Markdown.
pub open spec fn author_marker(t: MessageType) -> Seq<char> {
    match t {
        MessageType::User => "👤"@,
        MessageType::Assistant => "🤖"@,
        MessageType::System => "⚙️"@,
        MessageType::Tool => "🔧"@,
        MessageType::Error => "❌"@,
        MessageType::Note => "📝"@,
    }
}

fn author_marker_text(t: MessageType) -> (s: &'static str)
    ensures
        s@ == author_marker(t),
{
    match t {
        MessageType::User => "👤",
        MessageType::Assistant => "🤖",
        MessageType::System => "⚙️",
        MessageType::Tool => "🔧",
        MessageType::Error => "❌",
        MessageType::Note => "📝",
    }
}

/// Strings joined with a separator.
pub open spec fn joined(items: Seq<Seq<char>>, sep: Seq<char>) -> Seq<char>
    decreases items.len(),
{
    if items.len() == 0 {
        Seq::empty()
    } else if items.len() == 1 {
        items[0]
    } else {
        joined(items.drop_last(), sep) + sep + items.last()
    }
}

pub(crate) fn push_joined(out: &mut Vec<char>, items: &[String], sep: &str)
    ensures
        final(out)@ == old(out)@ + joined(texts(items@), sep@),
{
    let ghost start = out@;
    let mut i: usize = 0;
    while i < items.len()
        invariant
            i <= items@.len(),
            out@ == start + joined(texts(items@).subrange(0, i as int), sep@),
        decreases items@.len() - i,
    {
        if i > 0 {
            push_str(out, sep);
        }
        push_str(out, items[i].as_str());
        proof {
            let nxt = texts(items@).subrange(0, i + 1);
            assert(nxt.drop_last() =~= texts(items@).subrange(0, i as int));
            assert(nxt.last() == items@[i as int]@);
            if i == 0 {
                assert(joined(nxt, sep@) == items@[0]@);
            }
            assert(out@ =~= start + joined(nxt, sep@));
        }
        i = i + 1;
    }
    assert(texts(items@).subrange(0, items@.len() as int) =~= texts(items@));
}

/// The Markdown section of a message.
pub open spec fn markdown_line(m: ExportableMessage) -> Seq<char> {
    "### "@ + author_marker(m.message_type) + " "@ + m.author@ + " ("@ + utc_clock_text(m.timestamp as int)
        + ")\n\n"@ + m.content@ + "\n\n"@
}

/// The fixed lines of the Markdown head: title, start time, user, session
/// and message count.
pub open spec fn markdown_fixed(meta: ConversationMetadata) -> Seq<char> {
    "# "@ + meta.title@ + "\n\n"@ + "**Started:** "@ + utc_datetime_text(meta.started_at as int) + "\n"@
        + "**User:** "@ + meta.user_id@ + "\n"@ + "**Session:** "@ + meta.session_id@ + "\n"@
        + "**Messages:** "@ + decimal(meta.message_count as nat) + "\n\n"@
}

/// The optional lines of the Markdown head: the description and the tags,
/// when there are any.
pub open spec fn markdown_optional(meta: ConversationMetadata) -> Seq<char> {
    (match meta.description {
        Some(d) => "**Description:** "@ + d@ + "\n\n"@,
        None => Seq::empty(),
    }) + (if meta.tags@.len() > 0 {
        "**Tags:** "@ + joined(texts(meta.tags@), ", "@) + "\n\n"@
    } else {
        Seq::empty()
    })
}

/// The head of the Markdown export.
pub open spec fn markdown_head(meta: ConversationMetadata) -> Seq<char> {
    markdown_fixed(meta) + markdown_optional(meta)
}

/// The tail of the Markdown export: the numbers of memory blocks and of
/// summaries, when there are any.
pub open spec fn markdown_tail(memory_blocks: nat, summaries: nat) -> Seq<char> {
    (if memory_blocks > 0 {
        "## Memory Blocks ("@ + decimal(memory_blocks) + ")\n\n"@
    } else {
        Seq::empty()
    }) + (if summaries > 0 {
        "## Summaries ("@ + decimal(summaries) + ")\n\n"@
    } else {
        Seq::empty()
    })
}

/// The Markdown export: the head, the messages under `## Conversation`,
/// and the tail.
pub open spec fn markdown_text(
    meta: ConversationMetadata,
    ms: Seq<ExportableMessage>,
    memory_blocks: nat,
    summaries: nat,
) -> Seq<char> {
    markdown_head(meta) + "## Conversation\n\n"@ + lines_of(ms, |m: ExportableMessage| markdown_line(m), ms.len())
        + markdown_tail(memory_blocks, summaries)
}

/// The Markdown export shows the conversation's description, after
/// `**Description:** `, when it has one, and its tags joined by `, `, after
/// `**Tags:** `, when it has any.
pub proof fn law_markdown_shows_description_and_tags(
    meta: ConversationMetadata,
    ms: Seq<ExportableMessage>,
    memory_blocks: nat,
    summaries: nat,
)
    ensures
        meta.description matches Some(d) ==> crate::text::contains_text(
            markdown_text(meta, ms, memory_blocks, summaries),
            "**Description:** "@ + d@,
        ),
        meta.tags@.len() > 0 ==> crate::text::contains_text(
            markdown_text(meta, ms, memory_blocks, summaries),
            "**Tags:** "@ + joined(texts(meta.tags@), ", "@),
        ),
{
    let text = markdown_text(meta, ms, memory_blocks, summaries);
    let fixed = markdown_fixed(meta);
    let desc = match meta.description {
        Some(d) => "**Description:** "@ + d@ + "\n\n"@,
        None => Seq::<char>::empty(),
    };
    let tags = if meta.tags@.len() > 0 {
        "**Tags:** "@ + joined(texts(meta.tags@), ", "@) + "\n\n"@
    } else {
        Seq::<char>::empty()
    };
    let rest = "## Conversation\n\n"@ + lines_of(ms, |m: ExportableMessage| markdown_line(m), ms.len())
        + markdown_tail(memory_blocks, summaries);
    assert(text =~= fixed + desc + tags + rest);
    if let Some(d) = meta.description {
        let needle = "**Description:** "@ + d@;
        let p = fixed.len() as int;
        assert(text.subrange(p, p + needle.len()) =~= needle);
        assert(crate::text::occurs_at(text, needle, p));
    }
    if meta.tags@.len() > 0 {
        let needle = "**Tags:** "@ + joined(texts(meta.tags@), ", "@);
        let p = (fixed.len() + desc.len()) as int;
        assert(text.subrange(p, p + needle.len()) =~= needle);
        assert(crate::text::occurs_at(text, needle, p));
    }
}

#[verifier::rlimit(30)]
fn push_markdown_fixed(out: &mut Vec<char>, metadata: &ConversationMetadata)
    ensures
        final(out)@ == old(out)@ + markdown_fixed(*metadata),
{
    let ghost start = out@;
    push_str(out, "# ");
    push_str(out, metadata.title.as_str());
    push_str(out, "\n\n");
    push_str(out, "**Started:** ");
    let started = format_utc_datetime(metadata.started_at);
    push_str(out, started.as_str());
    push_str(out, "\n");
    push_str(out, "**User:** ");
    push_str(out, metadata.user_id.as_str());
    push_str(out, "\n");
    push_str(out, "**Session:** ");
    push_str(out, metadata.session_id.as_str());
    push_str(out, "\n");
    push_str(out, "**Messages:** ");
    push_digits(metadata.message_count as u128, 10, out);
    push_str(out, "\n\n");
    proof {
        assert(out@ =~= start + markdown_fixed(*metadata));
    }
}

fn push_markdown_optional(out: &mut Vec<char>, metadata: &ConversationMetadata)
    ensures
        final(out)@ == old(out)@ + markdown_optional(*metadata),
{
    let ghost start = out@;
    match &metadata.description {
        Some(d) => {
            push_str(out, "**Description:** ");
            push_str(out, d.as_str());
            push_str(out, "\n\n");
        },
        None => {},
    }
    let ghost mid = out@;
    if metadata.tags.len() > 0 {
        push_str(out, "**Tags:** ");
        push_joined(out, metadata.tags.as_slice(), ", ");
        push_str(out, "\n\n");
    }
    proof {
        assert(out@ =~= start + markdown_optional(*metadata));
    }
}

fn push_markdown_head(out: &mut Vec<char>, metadata: &ConversationMetadata)
    ensures
        final(out)@ == old(out)@ + markdown_head(*metadata),
{
    let ghost start = out@;
    push_markdown_fixed(out, metadata);
    push_markdown_optional(out, metadata);
    proof {
        assert(out@ =~= start + markdown_head(*metadata));
    }
}

fn push_markdown_tail(out: &mut Vec<char>, memory_blocks: usize, summaries: usize)
    ensures
        final(out)@ == old(out)@ + markdown_tail(memory_blocks as nat, summaries as nat),
{
    let ghost start = out@;
    if memory_blocks > 0 {
        push_str(out, "## Memory Blocks (");
        push_digits(memory_blocks as u128, 10, out);
        push_str(out, ")\n\n");
    }
    let ghost mid = out@;
    if summaries > 0 {
        push_str(out, "## Summaries (");
        push_digits(summaries as u128, 10, out);
        push_str(out, ")\n\n");
    }
    proof {
        assert(out@ =~= start + markdown_tail(memory_blocks as nat, summaries as nat));
    }
}

/// Writes the Markdown export of a conversation.
pub fn convert_to_markdown(
    metadata: &ConversationMetadata,
    messages: &[ExportableMessage],
    memory_blocks: usize,
    summaries: usize,
) -> (s: String)
    ensures
        s@ == markdown_text(*metadata, messages@, memory_blocks as nat, summaries as nat),
        metadata.description matches Some(d) ==> crate::text::contains_text(s@, "**Description:** "@ + d@),
        metadata.tags@.len() > 0 ==> crate::text::contains_text(
            s@,
            "**Tags:** "@ + joined(texts(metadata.tags@), ", "@),
        ),
{
    proof {
        law_markdown_shows_description_and_tags(*metadata, messages@, memory_blocks as nat, summaries as nat);
    }
    let mut out: Vec<char> = Vec::new();
    push_markdown_head(&mut out, metadata);
    push_str(&mut out, "## Conversation\n\n");
    let ghost head = out@;
    let ghost f = |m: ExportableMessage| markdown_line(m);
    let mut i: usize = 0;
    while i < messages.len()
        invariant
            i <= messages@.len(),
            f == |m: ExportableMessage| markdown_line(m),
            out@ == head + lines_of(messages@, f, i as nat),
        decreases messages@.len() - i,
    {
        let m = &messages[i];
        let ghost before = out@;
        push_str(&mut out, "### ");
        push_str(&mut out, author_marker_text(m.message_type));
        push_str(&mut out, " ");
        push_str(&mut out, m.author.as_str());
        push_str(&mut out, " (");
        let clock = format_utc_clock(m.timestamp);
        push_str(&mut out, clock.as_str());
        push_str(&mut out, ")\n\n");
        push_str(&mut out, m.content.as_str());
        push_str(&mut out, "\n\n");
        proof {
            assert(out@ =~= before + markdown_line(messages@[i as int]));
        }
        i = i + 1;
    }
    push_markdown_tail(&mut out, memory_blocks, summaries);
    let s = string_from_chars(out.as_slice());
    assert(s@ =~= markdown_text(*metadata, messages@, memory_blocks as nat, summaries as nat));
    s
}

/// The style class of a message in HTML.
pub open spec fn html_class(t: MessageType) -> Seq<char> {
    match t {
        MessageType::User => "user"@,
        MessageType::Assistant => "assistant"@,
        MessageType::System => "system"@,
        MessageType::Tool => "tool"@,
        _ => "message"@,
    }
}

fn html_class_text(t: MessageType) -> (s: &'static str)
    ensures
        s@ == html_class(t),
{
    match t {
        MessageType::User => "user",
        MessageType::Assistant => "assistant",
        MessageType::System => "system",
        MessageType::Tool => "tool",
        _ => "message",
    }
}

/// The fixed head of the HTML export before the title.
pub open spec fn html_head() -> Seq<char> {
    "<!DOCTYPE html>\n<html>\n<head>\n"@
}

/// The style sheet of the HTML export.
pub open spec fn html_style() -> Seq<char> {
    "<style>\nbody { font-family: Arial, sans-serif; margin: 40px; }\n"@
        + ".message { margin: 20px 0; padding: 10px; border-left: 3px solid #ccc; }\n"@
        + ".user { border-left-color: #007bff; }\n"@ + ".assistant { border-left-color: #28a745; }\n"@
        + ".system { border-left-color: #ffc107; }\n"@ + ".tool { border-left-color: #17a2b8; }\n"@
        + "</style>\n</head>\n<body>\n"@
}

/// The HTML block of a message (line breaks of its content as `<br>`).
pub open spec fn html_line(m: ExportableMessage) -> Seq<char> {
    "<div class=\"message "@ + html_class(m.message_type) + "\">\n<strong>"@ + m.author@ + "</strong> <small>("@
        + utc_clock_text(m.timestamp as int) + ")</small>\n<p>"@ + map_chars(m.content@, |c: char| html_char(c))
        + "</p>\n</div>\n"@
}

/// The HTML export: a page with the title, the start time, the message
/// count and one block per message.
pub open spec fn html_text(meta: ConversationMetadata, ms: Seq<ExportableMessage>) -> Seq<char> {
    html_head() + "<title>"@ + meta.title@ + "</title>\n"@ + html_style() + "<h1>"@ + meta.title@ + "</h1>\n"@
        + "<p><strong>Started:</strong> "@ + utc_datetime_text(meta.started_at as int) + "</p>\n"@
        + "<p><strong>Messages:</strong> "@ + decimal(meta.message_count as nat) + "</p>\n"@
        + lines_of(ms, |m: ExportableMessage| html_line(m), ms.len()) + "</body>\n</html>"@
}

/// Writes the HTML export of a conversation.
pub fn convert_to_html(metadata: &ConversationMetadata, messages: &[ExportableMessage]) -> (s: String)
    ensures
        s@ == html_text(*metadata, messages@),
{
    let mut out: Vec<char> = Vec::new();
    push_str(&mut out, "<!DOCTYPE html>\n<html>\n<head>\n");
    push_str(&mut out, "<title>");
    push_str(&mut out, metadata.title.as_str());
    push_str(&mut out, "</title>\n");
    push_str(&mut out, "<style>\nbody { font-family: Arial, sans-serif; margin: 40px; }\n");
    push_str(&mut out, ".message { margin: 20px 0; padding: 10px; border-left: 3px solid #ccc; }\n");
    push_str(&mut out, ".user { border-left-color: #007bff; }\n");
    push_str(&mut out, ".assistant { border-left-color: #28a745; }\n");
    push_str(&mut out, ".system { border-left-color: #ffc107; }\n");
    push_str(&mut out, ".tool { border-left-color: #17a2b8; }\n");
    push_str(&mut out, "</style>\n</head>\n<body>\n");
    push_str(&mut out, "<h1>");
    push_str(&mut out, metadata.title.as_str());
    push_str(&mut out, "</h1>\n");
    push_str(&mut out, "<p><strong>Started:</strong> ");
    let started = format_utc_datetime(metadata.started_at);
    push_str(&mut out, started.as_str());
    push_str(&mut out, "</p>\n");
    push_str(&mut out, "<p><strong>Messages:</strong> ");
    push_digits(metadata.message_count as u128, 10, &mut out);
    push_str(&mut out, "</p>\n");
    let ghost head = out@;
    let ghost f = |m: ExportableMessage| html_line(m);
    let mut i: usize = 0;
    while i < messages.len()
        invariant
            i <= messages@.len(),
            f == |m: ExportableMessage| html_line(m),
            out@ == head + lines_of(messages@, f, i as nat),
        decreases messages@.len() - i,
    {
        let m = &messages[i];
        let ghost before = out@;
        push_str(&mut out, "<div class=\"message ");
        push_str(&mut out, html_class_text(m.message_type));
        push_str(&mut out, "\">\n<strong>");
        push_str(&mut out, m.author.as_str());
        push_str(&mut out, "</strong> <small>(");
        let clock = format_utc_clock(m.timestamp);
        push_str(&mut out, clock.as_str());
        push_str(&mut out, ")</small>\n<p>");
        push_mapped(&mut out, m.content.as_str(), true);
        push_str(&mut out, "</p>\n</div>\n");
        proof {
            assert(out@ =~= before + html_line(messages@[i as int]));
        }
        i = i + 1;
    }
    push_str(&mut out, "</body>\n</html>");
    let s = string_from_chars(out.as_slice());
    assert(s@ =~= html_text(*metadata, messages@));
    s
}

/// A rule of 80 `=` characters.
pub open spec fn rule_80() -> Seq<char> {
    Seq::new(80, |i: int| '=')
}

/// The plain-text line of a message.
pub open spec fn text_line(m: ExportableMessage) -> Seq<char> {
    "["@ + utc_clock_text(m.timestamp as int) + "] "@ + m.author@ + ": "@ + m.content@ + "\n\n"@
}

/// The plain-text export: title, start time, message count, a rule, and
/// one paragraph per message.
pub open spec fn plain_text(meta: ConversationMetadata, ms: Seq<ExportableMessage>) -> Seq<char> {
    meta.title@ + "\n"@ + "Started: "@ + utc_datetime_text(meta.started_at as int) + "\n"@ + "Messages: "@
        + decimal(meta.message_count as nat) + "\n\n"@ + rule_80() + "\n"@
        + lines_of(ms, |m: ExportableMessage| text_line(m), ms.len())
}

/// Writes the plain-text export of a conversation.
pub fn convert_to_text(metadata: &ConversationMetadata, messages: &[ExportableMessage]) -> (s: String)
    ensures
        s@ == plain_text(*metadata, messages@),
{
    let mut out: Vec<char> = Vec::new();
    push_str(&mut out, metadata.title.as_str());
    push_str(&mut out, "\n");
    push_str(&mut out, "Started: ");
    let started = format_utc_datetime(metadata.started_at);
    push_str(&mut out, started.as_str());
    push_str(&mut out, "\n");
    push_str(&mut out, "Messages: ");
    push_digits(metadata.message_count as u128, 10, &mut out);
    push_str(&mut out, "\n\n");
    let ghost pre = out@;
    let mut k: usize = 0;
    while k < 80
        invariant
            k <= 80,
            out@ == pre + Seq::new(k as nat, |i: int| '='),
        decreases 80 - k,
    {
        out.push('=');
        proof {
            assert(out@ =~= pre + Seq::new((k + 1) as nat, |i: int| '='));
        }
        k = k + 1;
    }
    push_str(&mut out, "\n");
    let ghost head = out@;
    let ghost f = |m: ExportableMessage| text_line(m);
    let mut i: usize = 0;
    while i < messages.len()
        invariant
            i <= messages@.len(),
            f == |m: ExportableMessage| text_line(m),
            out@ == head + lines_of(messages@, f, i as nat),
        decreases messages@.len() - i,
    {
        let m = &messages[i];
        let ghost before = out@;
        push_str(&mut out, "[");
        let clock = format_utc_clock(m.timestamp);
        push_str(&mut out, clock.as_str());
        push_str(&mut out, "] ");
        push_str(&mut out, m.author.as_str());
        push_str(&mut out, ": ");
        push_str(&mut out, m.content.as_str());
        push_str(&mut out, "\n\n");
        proof {
            assert(out@ =~= before + text_line(messages@[i as int]));
        }
        i = i + 1;
    }
    let s = string_from_chars(out.as_slice());
    assert(s@ =~= plain_text(*metadata, messages@));
    s
}

/// The XML element of a message.
pub open spec fn xml_line(m: ExportableMessage) -> Seq<char> {
    "    <message>\n"@ + "      <id>"@ + m.id@ + "</id>\n"@ + "      <type>"@ + message_type_name(m.message_type)
        + "</type>\n"@ + "      <author>"@ + m.author@ + "</author>\n"@ + "      <timestamp>"@
        + rfc3339_text(m.timestamp as int) + "</timestamp>\n"@ + "      <content><![CDATA["@ + m.content@
        + "]]></content>\n"@ + "    </message>\n"@
}

/// The XML export: the conversation's title, id, user and start time and
/// one element per message.
pub open spec fn xml_text(meta: ConversationMetadata, ms: Seq<ExportableMessage>) -> Seq<char> {
    "<?xml version=\"1.0\" encoding=\"UTF-8\"?>\n"@ + "<conversation>\n"@ + "  <title>"@ + meta.title@
        + "</title>\n"@ + "  <id>"@ + meta.id@ + "</id>\n"@ + "  <user_id>"@ + meta.user_id@ + "</user_id>\n"@
        + "  <started_at>"@ + rfc3339_text(meta.started_at as int) + "</started_at>\n"@ + "  <messages>\n"@
        + lines_of(ms, |m: ExportableMessage| xml_line(m), ms.len()) + "  </messages>\n"@ + "</conversation>\n"@
}

/// Writes the XML export of a conversation.
pub fn convert_to_xml(metadata: &ConversationMetadata, messages: &[ExportableMessage]) -> (s: String)
    ensures
        s@ == xml_text(*metadata, messages@),
{
    let mut out: Vec<char> = Vec::new();
    push_str(&mut out, "<?xml version=\"1.0\" encoding=\"UTF-8\"?>\n");
    push_str(&mut out, "<conversation>\n");
    push_str(&mut out, "  <title>");
    push_str(&mut out, metadata.title.as_str());
    push_str(&mut out, "</title>\n");
    push_str(&mut out, "  <id>");
    push_str(&mut out, metadata.id.as_str());
    push_str(&mut out, "</id>\n");
    push_str(&mut out, "  <user_id>");
    push_str(&mut out, metadata.user_id.as_str());
    push_str(&mut out, "</user_id>\n");
    push_str(&mut out, "  <started_at>");
    let started = format_rfc3339(metadata.started_at);
    push_str(&mut out, started.as_str());
    push_str(&mut out, "</started_at>\n");
    push_str(&mut out, "  <messages>\n");
    let ghost head = out@;
    let ghost f = |m: ExportableMessage| xml_line(m);
    let mut i: usize = 0;
    while i < messages.len()
        invariant
            i <= messages@.len(),
            f == |m: ExportableMessage| xml_line(m),
            out@ == head + lines_of(messages@, f, i as nat),
        decreases messages@.len() - i,
    {
        let m = &messages[i];
        let ghost before = out@;
        push_str(&mut out, "    <message>\n");
        push_str(&mut out, "      <id>");
        push_str(&mut out, m.id.as_str());
        push_str(&mut out, "</id>\n");
        push_str(&mut out, "      <type>");
        push_str(&mut out, message_type_text(m.message_type));
        push_str(&mut out, "</type>\n");
        push_str(&mut out, "      <author>");
        push_str(&mut out, m.author.as_str());
        push_str(&mut out, "</author>\n");
        push_str(&mut out, "      <timestamp>");
        let ts = format_rfc3339(m.timestamp);
        push_str(&mut out, ts.as_str());
        push_str(&mut out, "</timestamp>\n");
        push_str(&mut out, "      <content><![CDATA[");
        push_str(&mut out, m.content.as_str());
        push_str(&mut out, "]]></content>\n");
        push_str(&mut out, "    </message>\n");
        proof {
            assert(out@ =~= before + xml_line(messages@[i as int]));
        }
        i = i + 1;
    }
    push_str(&mut out, "  </messages>\n");
    push_str(&mut out, "</conversation>\n");
    let s = string_from_chars(out.as_slice());
    assert(s@ =~= xml_text(*metadata, messages@));
    s
}


/// Splitting the first `n` characters into lines: the lines completed so
/// far (each without its `\n` and a `\r` before it) and the line being
/// read.
pub open spec fn lines_acc(s: Seq<char>, n: nat) -> (Seq<Seq<char>>, Seq<char>)
    decreases n,
{
    if n == 0 {
        (Seq::empty(), Seq::empty())
    } else {
        let (done, cur) = lines_acc(s, (n - 1) as nat);
        if s[n - 1] == '\n' {
            (done.push(if cur.len() > 0 && cur.last() == '\r' { cur.drop_last() } else { cur }), Seq::empty())
        } else {
            (done, cur.push(s[n - 1]))
        }
    }
}

/// The lines of a text (`str::lines`): split at `\n`, a `\r` before the
/// `\n` dropped, no final empty line.
pub open spec fn text_lines(s: Seq<char>) -> Seq<Seq<char>> {
    let (done, cur) = lines_acc(s, s.len());
    if cur.len() > 0 {
        done.push(cur)
    } else {
        done
    }
}

/// The lines among the first `n` that hold more than white space.
pub open spec fn nonblank_upto(ls: Seq<Seq<char>>, n: nat) -> Seq<Seq<char>>
    decreases n,
{
    if n == 0 {
        Seq::empty()
    } else {
        nonblank_upto(ls, (n - 1) as nat) + if crate::text::trim_space(ls[n - 1]).len() > 0 {
            seq![ls[n - 1]]
        } else {
            Seq::empty()
        }
    }
}

/// The records of a JSON Lines text: its lines that hold more than white
/// space, in order.
pub fn jsonl_records(content: &str) -> (r: Vec<String>)
    ensures
        texts(r@) == nonblank_upto(text_lines(content@), text_lines(content@).len()),
{
    let v = crate::text::chars_of(content);
    let mut done: Vec<String> = Vec::new();
    let mut cur: Vec<char> = Vec::new();
    let mut i: usize = 0;
    while i < v.len()
        invariant
            v@ == content@,
            i <= v@.len(),
            texts(done@) == lines_acc(v@, i as nat).0,
            cur@ == lines_acc(v@, i as nat).1,
        decreases v@.len() - i,
    {
        let c = v[i];
        if c == '\n' {
            let ghost pd = done@;
            if cur.len() > 0 && cur[cur.len() - 1] == '\r' {
                cur.pop();
            }
            done.push(string_from_chars(cur.as_slice()));
            assert(texts(done@) =~= texts(pd).push(cur@));
            cur = Vec::new();
        } else {
            cur.push(c);
        }
        i = i + 1;
    }
    if cur.len() > 0 {
        let ghost pd = done@;
        done.push(string_from_chars(cur.as_slice()));
        assert(texts(done@) =~= texts(pd).push(cur@));
    }
    let ghost ls = text_lines(content@);
    assert(texts(done@) == ls);
    let mut r: Vec<String> = Vec::new();
    let mut k: usize = 0;
    while k < done.len()
        invariant
            k <= done@.len(),
            texts(done@) == ls,
            texts(r@) == nonblank_upto(ls, k as nat),
        decreases done@.len() - k,
    {
        let dv = crate::text::chars_of(done[k].as_str());
        let t = crate::text::trim_space_chars(dv.as_slice());
        let ghost pr = r@;
        assert(ls[k as int] == done@[k as int]@);
        if t.len() > 0 {
            r.push(done[k].clone());
            assert(texts(r@) =~= texts(pr).push(done@[k as int]@));
        }
        k = k + 1;
    }
    r
}

/// The metadata given to a conversation imported from JSON Lines at time
/// `now_ms` (`now_secs` in seconds): a fresh id, a fixed title, user and
/// session, and the number of messages read.
pub fn jsonl_import_metadata(message_count: usize, now_secs: i64, now_ms: i64) -> (m: ConversationMetadata)
    ensures
        m.id@ == "jsonl_import_"@ + signed_decimal(now_secs as int),
        m.title@ == "Imported JSONL Conversation"@,
        m.description is None,
        m.user_id@ == "imported_user"@,
        m.session_id@ == "imported_session"@,
        m.started_at == now_ms,
        m.last_message_at == now_ms,
        m.message_count == message_count,
        m.tags@.len() == 0,
        m.properties@ == Map::<String, String>::empty(),
        m.language is None,
        m.status == ConversationStatus::Active,
        m.participants@.len() == 0,
{
    let mut id: Vec<char> = Vec::new();
    push_str(&mut id, "jsonl_import_");
    push_signed(&mut id, now_secs);
    ConversationMetadata {
        id: string_from_chars(id.as_slice()),
        title: "Imported JSONL Conversation".to_string(),
        description: None,
        user_id: "imported_user".to_string(),
        session_id: "imported_session".to_string(),
        started_at: now_ms,
        last_message_at: now_ms,
        message_count,
        tags: Vec::new(),
        properties: HashMap::new(),
        language: None,
        status: ConversationStatus::Active,
        participants: Vec::new(),
    }
}

/// The text of an export in the formats this library writes itself (CSV,
/// Markdown, HTML, plain text, XML); `None` for the serialized formats
/// (JSON, YAML, JSON Lines).
pub fn render_export(
    format: ExportFormat,
    metadata: &ConversationMetadata,
    messages: &[ExportableMessage],
    memory_blocks: usize,
    summaries: usize,
) -> (r: Option<String>)
    ensures
        match format {
            ExportFormat::Csv => r is Some && r->0@ == csv_text(messages@),
            ExportFormat::Markdown => r is Some && r->0@ == markdown_text(
                *metadata,
                messages@,
                memory_blocks as nat,
                summaries as nat,
            ),
            ExportFormat::Html => r is Some && r->0@ == html_text(*metadata, messages@),
            ExportFormat::Txt => r is Some && r->0@ == plain_text(*metadata, messages@),
            ExportFormat::Xml => r is Some && r->0@ == xml_text(*metadata, messages@),
            _ => r is None,
        },
{
    match format {
        ExportFormat::Csv => Some(convert_to_csv(messages)),
        ExportFormat::Markdown => Some(convert_to_markdown(metadata, messages, memory_blocks, summaries)),
        ExportFormat::Html => Some(convert_to_html(metadata, messages)),
        ExportFormat::Txt => Some(convert_to_text(metadata, messages)),
        ExportFormat::Xml => Some(convert_to_xml(metadata, messages)),
        _ => None,
    }
}

/// Whether a format can be imported (JSON, YAML and JSON Lines).
pub open spec fn importable(format: ExportFormat) -> bool {
    format == ExportFormat::Json || format == ExportFormat::Yaml || format == ExportFormat::Jsonl
}

/// The debug name of an export format.
pub open spec fn export_format_name(f: ExportFormat) -> Seq<char> {
    match f {
        ExportFormat::Json => "Json"@,
        ExportFormat::Yaml => "Yaml"@,
        ExportFormat::Csv => "Csv"@,
        ExportFormat::Markdown => "Markdown"@,
        ExportFormat::Html => "Html"@,
        ExportFormat::Txt => "Txt"@,
        ExportFormat::Xml => "Xml"@,
        ExportFormat::Jsonl => "Jsonl"@,
    }
}

/// Checks that a format can be imported; the others are refused with
/// `Import not yet supported for format: <format>`.
pub fn check_importable(format: ExportFormat) -> (r: Result<(), String>)
    ensures
        importable(format) <==> r is Ok,
        r is Err ==> r->Err_0@ == "Import not yet supported for format: "@ + export_format_name(format),
{
    let name = match format {
        ExportFormat::Json => return Ok(()),
        ExportFormat::Yaml => return Ok(()),
        ExportFormat::Jsonl => return Ok(()),
        ExportFormat::Csv => "Csv",
        ExportFormat::Markdown => "Markdown",
        ExportFormat::Html => "Html",
        ExportFormat::Txt => "Txt",
        ExportFormat::Xml => "Xml",
    };
    let mut out: Vec<char> = Vec::new();
    push_str(&mut out, "Import not yet supported for format: ");
    push_str(&mut out, name);
    Err(string_from_chars(out.as_slice()))
}

} // verus!

verus! {

/// A text without line breaks.
pub open spec fn no_breaks(t: Seq<char>) -> bool {
    forall|k: int| 0 <= k < t.len() ==> #[trigger] t[k] != '\n' && t[k] != '\r'
}

/// Message text written into a CSV field holds no line breaks, so each
/// message stays on one CSV line.
pub proof fn law_csv_field_has_no_breaks(s: Seq<char>)
    ensures
        no_breaks(map_chars(s, |c: char| csv_char(c))),
    decreases s.len(),
{
    if s.len() > 0 {
        law_csv_field_has_no_breaks(s.drop_last());
        let f = |c: char| csv_char(c);
        let a = map_chars(s.drop_last(), f);
        let b = csv_char(s.last());
        assert(map_chars(s, f) == a + b);
        assert forall|k: int| 0 <= k < (a + b).len() implies #[trigger] (a + b)[k] != '\n' && (a + b)[k] != '\r' by {
            if k >= a.len() {
                assert((a + b)[k] == b[k - a.len()]);
            } else {
                assert((a + b)[k] == a[k]);
            }
        }
    }
}

} // verus!

//! The decisions of the agent memory search tool: which block types and how
//! many results are asked for, the query sent to the memory store, and how
//! the blocks found are presented to the agent.

use vstd::prelude::*;
use vstd::string::StringSliceAdditionalSpecFns;
use crate::agents_api::texts;
use crate::memory::{block_type_name, BlockType, MemoryBlock, MemoryContent, MemoryQuery, QuerySort};
use crate::clock::utc_now_millis;
use crate::conversation_export::{format_utc_datetime, utc_datetime_text};
use crate::text::{decimal, push_digits, push_str, str_eq, string_from_chars, to_lowercase, unicode_lowercase};

verus! {

/// The block type a memory type name selects, if it names one.
pub open spec fn memory_type_of(name: Seq<char>) -> Option<BlockType> {
    if name == "Message"@ {
        Some(BlockType::Message)
    } else if name == "Summary"@ {
        Some(BlockType::Summary)
    } else if name == "Fact"@ {
        Some(BlockType::Fact)
    } else if name == "Preference"@ {
        Some(BlockType::Preference)
    } else if name == "PersonalInfo"@ {
        Some(BlockType::PersonalInfo)
    } else if name == "Goal"@ {
        Some(BlockType::Goal)
    } else if name == "Task"@ {
        Some(BlockType::Task)
    } else {
        None
    }
}

/// The block types selected by a list of names, unknown names skipped.
pub open spec fn memory_types_of(names: Seq<Seq<char>>) -> Seq<BlockType>
    decreases names.len(),
{
    if names.len() == 0 {
        Seq::empty()
    } else {
        memory_types_of(names.drop_last()) + match memory_type_of(names.last()) {
            Some(t) => seq![t],
            None => Seq::empty(),
        }
    }
}

/// Parses one memory type name.
pub fn parse_memory_type(name: &str) -> (r: Option<BlockType>)
    ensures
        r == memory_type_of(name@),
{
    if str_eq(name, "Message") {
        Some(BlockType::Message)
    } else if str_eq(name, "Summary") {
        Some(BlockType::Summary)
    } else if str_eq(name, "Fact") {
        Some(BlockType::Fact)
    } else if str_eq(name, "Preference") {
        Some(BlockType::Preference)
    } else if str_eq(name, "PersonalInfo") {
        Some(BlockType::PersonalInfo)
    } else if str_eq(name, "Goal") {
        Some(BlockType::Goal)
    } else if str_eq(name, "Task") {
        Some(BlockType::Task)
    } else {
        None
    }
}

/// Parses the requested memory type names in order, skipping unknown ones.
/// No names at all means every type (an empty list).
pub fn parse_memory_types(names: Option<&[String]>) -> (r: Vec<BlockType>)
    ensures
        match names {
            Some(ns) => r@ == memory_types_of(texts(ns@)),
            None => r@.len() == 0,
        },
{
    let mut r: Vec<BlockType> = Vec::new();
    match names {
        Some(ns) => {
            let mut i: usize = 0;
            while i < ns.len()
                invariant
                    i <= ns@.len(),
                    r@ == memory_types_of(texts(ns@).subrange(0, i as int)),
                decreases ns@.len() - i,
            {
                let t = parse_memory_type(ns[i].as_str());
                match t {
                    Some(bt) => r.push(bt),
                    None => {},
                }
                proof {
                    let pre = texts(ns@).subrange(0, i as int);
                    let nxt = texts(ns@).subrange(0, i + 1);
                    assert(nxt.drop_last() =~= pre);
                    assert(nxt.last() == ns@[i as int]@);
                }
                i = i + 1;
            }
            assert(texts(ns@).subrange(0, ns@.len() as int) =~= texts(ns@));
        },
        None => {},
    }
    r
}

/// The number of results asked for: 5 when not given, kept within 1 to 10.
pub open spec fn result_limit(max_results: Option<usize>) -> usize {
    let m = match max_results {
        Some(m) => m,
        None => 5,
    };
    if m > 10 {
        10
    } else if m < 1 {
        1
    } else {
        m
    }
}

/// The number of results to ask the store for.
pub fn search_limit(max_results: Option<usize>) -> (n: usize)
    ensures
        n == result_limit(max_results),
        1 <= n <= 10,
{
    let m = match max_results {
        Some(m) => m,
        None => 5,
    };
    let m = if m < 10 {
        m
    } else {
        10
    };
    if m > 1 {
        m
    } else {
        1
    }
}

/// The store query of a memory search: the agent's own blocks, in the given
/// session if one is named, of the given types, whose content holds the
/// query text, at most `limit` of them, newest first.
pub fn search_query(
    user_id: &str,
    session_id: Option<String>,
    block_types: Vec<BlockType>,
    query: &str,
    limit: usize,
) -> (q: MemoryQuery)
    ensures
        q.user_id is Some && q.user_id->0@ == user_id@,
        q.session_id == session_id,
        q.block_types == block_types,
        q.content_contains is Some && q.content_contains->0@ == query@,
        q.created_after is None,
        q.created_before is None,
        q.limit == Some(limit),
        q.sort == Some(QuerySort::NewestFirst),
{
    MemoryQuery {
        user_id: Some(user_id.to_string()),
        session_id,
        block_types,
        content_contains: Some(query.to_string()),
        created_after: None,
        created_before: None,
        limit: Some(limit),
        sort: Some(QuerySort::NewestFirst),
    }
}

/// The longest content shown for one memory, in bytes.
pub const MAX_SHOWN_CONTENT: usize = 300;

/// A text cut to its first 300 bytes followed by `...` when it is longer.
pub open spec fn shown_text(s: Seq<char>) -> Seq<char> {
    let bytes = vstd::utf8::encode_utf8(s);
    if bytes.len() > 300 {
        vstd::utf8::decode_utf8(bytes.subrange(0, 300)) + "..."@
    } else {
        s
    }
}

/// Whether a text can be cut after 300 bytes (it is short enough, or the
/// cut falls on a character boundary).
pub open spec fn cut_ok(s: Seq<char>) -> bool {
    vstd::utf8::encode_utf8(s).len() > 300 ==> vstd::utf8::is_char_boundary(vstd::utf8::encode_utf8(s), 300)
}

/// What a memory's content is shown as.
pub open spec fn shown_content(c: MemoryContent) -> Seq<char> {
    match c {
        MemoryContent::Text(t) => shown_text(t@),
        MemoryContent::Json(j) => shown_text(j@),
        MemoryContent::Binary { .. } => "[Binary content - not searchable]"@,
    }
}

fn shorten(s: &str) -> (r: String)
    requires
        cut_ok(s@),
    ensures
        r@ == shown_text(s@),
{
    if s.as_bytes().len() > MAX_SHOWN_CONTENT {
        let (head, _tail) = s.split_at(MAX_SHOWN_CONTENT);
        proof {
            vstd::utf8::encode_utf8_decode_utf8(head@);
            assert(head.spec_bytes() == vstd::utf8::encode_utf8(head@));
        }
        let mut out = crate::text::chars_of(head);
        push_str(&mut out, "...");
        string_from_chars(out.as_slice())
    } else {
        s.to_string()
    }
}

/// The content of a memory as shown to the agent: text (or JSON text) cut
/// after 300 bytes with `...`, and a placeholder for binary content. The cut
/// must fall on a character boundary.
pub fn result_content(content: &MemoryContent) -> (r: String)
    requires
        match content {
            MemoryContent::Text(t) => cut_ok(t@),
            MemoryContent::Json(j) => cut_ok(j@),
            MemoryContent::Binary { .. } => true,
        },
    ensures
        r@ == shown_content(*content),
{
    match content {
        MemoryContent::Text(t) => shorten(t.as_str()),
        MemoryContent::Json(j) => shorten(j.as_str()),
        MemoryContent::Binary { .. } => "[Binary content - not searchable]".to_string(),
    }
}

/// The insights of a memory: its tags when it has any; otherwise its type
/// name in lower case, and `detailed` when the shown content is longer than
/// 100 bytes.
pub open spec fn insights_of(tags: Seq<Seq<char>>, t: BlockType, shown: Seq<char>) -> Seq<Seq<char>> {
    if tags.len() > 0 {
        tags
    } else if vstd::utf8::encode_utf8(shown).len() > 100 {
        seq![unicode_lowercase(block_type_name(t)), "detailed"@]
    } else {
        seq![unicode_lowercase(block_type_name(t))]
    }
}

/// Builds the insights of a memory.
pub fn result_insights(tags: &[String], block_type: BlockType, shown: &str) -> (r: Vec<String>)
    ensures
        texts(r@) == insights_of(texts(tags@), block_type, shown@),
{
    let mut r: Vec<String> = Vec::new();
    if tags.len() > 0 {
        let mut i: usize = 0;
        while i < tags.len()
            invariant
                i <= tags@.len(),
                r@.len() == i,
                forall|k: int| 0 <= k < i ==> (#[trigger] r@[k])@ == tags@[k]@,
            decreases tags@.len() - i,
        {
            r.push(tags[i].clone());
            i = i + 1;
        }
        assert(texts(r@) =~= texts(tags@));
    } else {
        let name = block_type.debug_name();
        r.push(to_lowercase(name.as_str()));
        if shown.as_bytes().len() > 100 {
            r.push("detailed".to_string());
        }
        assert(texts(r@) =~= insights_of(texts(tags@), block_type, shown@));
    }
    r
}

/// How many different types a list holds.
pub open spec fn distinct_count(ts: Seq<BlockType>) -> nat
    decreases ts.len(),
{
    if ts.len() == 0 {
        0
    } else {
        distinct_count(ts.drop_last()) + if ts.drop_last().contains(ts.last()) {
            0nat
        } else {
            1nat
        }
    }
}

/// The summary line of a memory search, given the types of the memories
/// found in order.
pub open spec fn summary_text(types: Seq<BlockType>, query: Seq<char>) -> Seq<char> {
    if types.len() == 0 {
        "No memories found matching '"@ + query + "'"@
    } else if types.len() == 1 {
        "Found 1 relevant memory about '"@ + query + "'"@
    } else if distinct_count(types) == 1 {
        "Found "@ + decimal(types.len()) + " "@ + unicode_lowercase(block_type_name(types[0]))
            + " memories related to '"@ + query + "'"@
    } else {
        "Found "@ + decimal(types.len()) + " memories across "@ + decimal(distinct_count(types))
            + " different types related to '"@ + query + "'"@
    }
}

/// A list whose first element differs from none of the others holds one
/// type; a list with two different types holds more than one.
proof fn lemma_distinct_one(ts: Seq<BlockType>)
    requires
        ts.len() >= 1,
    ensures
        (forall|k: int| 0 <= k < ts.len() ==> #[trigger] ts[k] == ts[0]) ==> distinct_count(ts) == 1,
        (exists|k: int| 0 <= k < ts.len() && #[trigger] ts[k] != ts[0]) ==> distinct_count(ts) >= 2,
    decreases ts.len(),
{
    if ts.len() == 1 {
        assert(ts.drop_last().len() == 0);
        assert(!ts.drop_last().contains(ts.last()));
        assert(distinct_count(ts.drop_last()) == 0);
    } else {
        let d = ts.drop_last();
        lemma_distinct_one(d);
        lemma_distinct_positive(d);
        if forall|k: int| 0 <= k < ts.len() ==> #[trigger] ts[k] == ts[0] {
            assert forall|k: int| 0 <= k < d.len() implies #[trigger] d[k] == d[0] by {
                assert(d[k] == ts[k]);
                assert(d[0] == ts[0]);
            }
            assert(d[0] == ts.last());
            assert(d.contains(ts.last()));
        }
        if exists|k: int| 0 <= k < ts.len() && #[trigger] ts[k] != ts[0] {
            let k = choose|k: int| 0 <= k < ts.len() && #[trigger] ts[k] != ts[0];
            if k == ts.len() - 1 {
                if !d.contains(ts.last()) {
                } else {
                    let j = choose|j: int| 0 <= j < d.len() && #[trigger] d[j] == ts.last();
                    assert(d[j] != d[0]);
                }
            } else {
                assert(d[k] != d[0]);
            }
        }
    }
}

proof fn lemma_distinct_positive(ts: Seq<BlockType>)
    requires
        ts.len() >= 1,
    ensures
        distinct_count(ts) >= 1,
    decreases ts.len(),
{
    if ts.len() > 1 {
        lemma_distinct_positive(ts.drop_last());
    } else {
        assert(!ts.drop_last().contains(ts.last()));
    }
}

fn count_distinct(ts: &[BlockType]) -> (n: usize)
    ensures
        n == distinct_count(ts@),
{
    let mut n: usize = 0;
    let mut i: usize = 0;
    while i < ts.len()
        invariant
            i <= ts@.len(),
            n == distinct_count(ts@.subrange(0, i as int)),
            n <= i,
        decreases ts@.len() - i,
    {
        let mut seen = false;
        let mut j: usize = 0;
        while j < i
            invariant
                j <= i,
                i < ts@.len(),
                seen == exists|k: int| 0 <= k < j && ts@[k] == ts@[i as int],
            decreases i - j,
        {
            if ts[j] == ts[i] {
                seen = true;
            }
            j = j + 1;
        }
        proof {
            let pre = ts@.subrange(0, i as int);
            let nxt = ts@.subrange(0, i + 1);
            assert(nxt.drop_last() =~= pre);
            assert(nxt.last() == ts@[i as int]);
            if seen {
                let k = choose|k: int| 0 <= k < i && ts@[k] == ts@[i as int];
                assert(pre[k] == ts@[i as int]);
            }
        }
        if !seen {
            n = n + 1;
        }
        i = i + 1;
    }
    assert(ts@.subrange(0, ts@.len() as int) =~= ts@);
    n
}

/// Writes the summary line of a memory search.
pub fn search_summary(types: &[BlockType], query: &str) -> (s: String)
    ensures
        s@ == summary_text(types@, query@),
{
    let mut out: Vec<char> = Vec::new();
    if types.len() == 0 {
        push_str(&mut out, "No memories found matching '");
        push_str(&mut out, query);
        push_str(&mut out, "'");
    } else if types.len() == 1 {
        push_str(&mut out, "Found 1 relevant memory about '");
        push_str(&mut out, query);
        push_str(&mut out, "'");
    } else {
        let d = count_distinct(types);
        if d == 1 {
            let name = types[0].debug_name();
            let lower = to_lowercase(name.as_str());
            push_str(&mut out, "Found ");
            push_digits(types.len() as u128, 10, &mut out);
            push_str(&mut out, " ");
            push_str(&mut out, lower.as_str());
            push_str(&mut out, " memories related to '");
            push_str(&mut out, query);
            push_str(&mut out, "'");
        } else {
            push_str(&mut out, "Found ");
            push_digits(types.len() as u128, 10, &mut out);
            push_str(&mut out, " memories across ");
            push_digits(d as u128, 10, &mut out);
            push_str(&mut out, " different types related to '");
            push_str(&mut out, query);
            push_str(&mut out, "'");
        }
    }
    let s = string_from_chars(out.as_slice());
    assert(s@ =~= summary_text(types@, query@));
    s
}

/// A summary over memories that all have one type names that type, and one
/// over memories of several types counts them.
pub proof fn law_summary_names_single_type(types: Seq<BlockType>, query: Seq<char>)
    requires
        types.len() >= 2,
    ensures
        (forall|k: int| 0 <= k < types.len() ==> #[trigger] types[k] == types[0]) ==> summary_text(types, query) == "Found "@
            + decimal(types.len()) + " "@ + unicode_lowercase(block_type_name(types[0]))
            + " memories related to '"@ + query + "'"@,
        (exists|k: int| 0 <= k < types.len() && #[trigger] types[k] != types[0]) ==> distinct_count(types) >= 2,
{
    lemma_distinct_one(types);
}

/// One memory as presented to the agent.
#[derive(Debug)]
pub struct MemoryResult {
    pub id: String,
    pub memory_type: BlockType,
    pub content: String,
    pub session: Option<String>,
    pub insights: Vec<String>,
    pub created_at: u64,
    pub created: String,
}

/// Whether `r` presents block `b` with tags `tags`: its identifier, type,
/// shown content, session, insights and creation time, and the creation
/// time as chrono's `%Y-%m-%d %H:%M:%S UTC` text where chrono can represent
/// it.
pub open spec fn presents(r: MemoryResult, b: MemoryBlock, tags: Seq<String>) -> bool {
    &&& r.id@ == b.metadata.id.0@
    &&& r.memory_type == b.metadata.block_type
    &&& r.content@ == shown_content(b.content)
    &&& r.session == b.metadata.session_id
    &&& texts(r.insights@) == insights_of(texts(tags), b.metadata.block_type, shown_content(b.content))
    &&& r.created_at == b.metadata.created_at
    &&& utc_datetime_text(b.metadata.created_at as i64 as int).len() > 0 ==> r.created@ == utc_datetime_text(
        b.metadata.created_at as i64 as int,
    )
}

/// Whether a block's content can be shown (cut on a character boundary).
pub open spec fn showable(c: MemoryContent) -> bool {
    match c {
        MemoryContent::Text(t) => cut_ok(t@),
        MemoryContent::Json(j) => cut_ok(j@),
        MemoryContent::Binary { .. } => true,
    }
}

/// Presents a found memory block with its tags. A creation time chrono
/// cannot represent is shown as the current time, as the tool does.
pub fn memory_result(block: &MemoryBlock, tags: &[String]) -> (r: MemoryResult)
    requires
        showable(block.content),
    ensures
        presents(r, *block, tags@),
{
    let content = result_content(&block.content);
    let insights = result_insights(tags, block.metadata.block_type, content.as_str());
    let ms = block.metadata.created_at as i64;
    let text = format_utc_datetime(ms);
    let created = if text.as_str().unicode_len() > 0 {
        text
    } else {
        format_utc_datetime(utc_now_millis())
    };
    MemoryResult {
        id: block.metadata.id.0.clone(),
        memory_type: block.metadata.block_type,
        content,
        session: match &block.metadata.session_id {
            Some(s) => Some(s.clone()),
            None => None,
        },
        insights,
        created_at: block.metadata.created_at,
        created,
    }
}

/// The response of a memory search.
#[derive(Debug)]
pub struct MemorySearchResponse {
    pub summary: String,
    pub total_results: usize,
    pub memories: Vec<MemoryResult>,
    pub query: String,
    pub mode: String,
    pub memory_types: Vec<String>,
    pub max_results: usize,
    pub relevant_memories: usize,
}

/// The types of a list of presented memories.
pub open spec fn result_types(ms: Seq<MemoryResult>) -> Seq<BlockType> {
    ms.map_values(|m: MemoryResult| m.memory_type)
}

/// The search mode reported: the one asked for, else `semantic`, the
/// default the tool's schema documents.
pub open spec fn reported_mode(search_mode: Option<String>) -> Seq<char> {
    match search_mode {
        Some(m) => m@,
        None => "semantic"@,
    }
}

/// The memory types reported: those asked for, else `All`.
pub open spec fn reported_types(memory_types: Option<Vec<String>>) -> Seq<Seq<char>> {
    match memory_types {
        Some(v) => texts(v@),
        None => seq!["All"@],
    }
}

/// Assembles the response of a memory search from the presented memories:
/// the summary over their types, their number, and the search details.
pub fn search_response(
    query: String,
    memory_types: Option<Vec<String>>,
    search_mode: Option<String>,
    max_results: usize,
    memories: Vec<MemoryResult>,
) -> (r: MemorySearchResponse)
    ensures
        r.summary@ == summary_text(result_types(memories@), query@),
        r.total_results == memories@.len(),
        r.relevant_memories == memories@.len(),
        r.memories@ == memories@,
        r.query@ == query@,
        r.mode@ == reported_mode(search_mode),
        texts(r.memory_types@) == reported_types(memory_types),
        r.max_results == max_results,
{
    let mut types: Vec<BlockType> = Vec::new();
    let mut i: usize = 0;
    while i < memories.len()
        invariant
            i <= memories@.len(),
            types@ == result_types(memories@).subrange(0, i as int),
        decreases memories@.len() - i,
    {
        types.push(memories[i].memory_type);
        assert(types@ =~= result_types(memories@).subrange(0, i + 1));
        i = i + 1;
    }
    assert(types@ =~= result_types(memories@));
    let summary = search_summary(types.as_slice(), query.as_str());
    let mode = match search_mode {
        Some(m) => m,
        None => "semantic".to_string(),
    };
    let listed = match memory_types {
        Some(v) => v,
        None => {
            let mut v: Vec<String> = Vec::new();
            v.push("All".to_string());
            assert(texts(v@) =~= seq!["All"@]);
            v
        },
    };
    let n = memories.len();
    MemorySearchResponse {
        summary,
        total_results: n,
        memories,
        query,
        mode,
        memory_types: listed,
        max_results,
        relevant_memories: n,
    }
}

/// The response of the memory search tool for the blocks the store found,
/// each with its tags: every block presented in the order found, and the
/// response assembled over them (see `search_response`).
pub fn present_search_results(
    found: &[(MemoryBlock, Vec<String>)],
    query: String,
    memory_types: Option<Vec<String>>,
    search_mode: Option<String>,
    max_results: usize,
) -> (r: MemorySearchResponse)
    requires
        forall|i: int| 0 <= i < found@.len() ==> showable((#[trigger] found@[i]).0.content),
    ensures
        r.memories@.len() == found@.len(),
        forall|i: int| 0 <= i < found@.len() ==> presents(#[trigger] r.memories@[i], found@[i].0, found@[i].1@),
        r.total_results == found@.len(),
        r.relevant_memories == found@.len(),
        r.summary@ == summary_text(result_types(r.memories@), query@),
        r.query@ == query@,
        r.mode@ == reported_mode(search_mode),
        texts(r.memory_types@) == reported_types(memory_types),
        r.max_results == max_results,
{
    let mut memories: Vec<MemoryResult> = Vec::new();
    let mut i: usize = 0;
    while i < found.len()
        invariant
            i <= found@.len(),
            forall|k: int| 0 <= k < found@.len() ==> showable((#[trigger] found@[k]).0.content),
            memories@.len() == i,
            forall|k: int| 0 <= k < i ==> presents(#[trigger] memories@[k], found@[k].0, found@[k].1@),
        decreases found@.len() - i,
    {
        let m = memory_result(&found[i].0, found[i].1.as_slice());
        memories.push(m);
        i = i + 1;
    }
    search_response(query, memory_types, search_mode, max_results, memories)
}

} // verus!

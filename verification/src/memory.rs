//! Memory block types: identifiers, block kinds, content and the block
//! record that core context blocks are built on.

use vstd::prelude::*;
use crate::clock::{unix_millis, random_u64};
use crate::text::{decimal, hex, push_digits, push_str, string_from_chars};
use crate::select::{is_index_permutation, ordered_by, precedes, stable_order};

verus! {

/// A unique identifier for a memory block.
#[derive(Debug)]
pub struct BlockId(pub String);

/// The shape of a generated identifier: `block_<hex millis>_<hex random>`.
pub open spec fn generated_id_text(millis: nat, random: nat) -> Seq<char> {
    "block_"@ + hex(millis) + "_"@ + hex(random)
}

/// The text of a block identifier made at time `millis` with the random
/// value `random`: `block_<hex millis>_<hex random>`.
pub fn block_id_text(millis: u128, random: u64) -> (s: String)
    ensures
        s@ == generated_id_text(millis as nat, random as nat),
{
    let mut out: Vec<char> = Vec::new();
    push_str(&mut out, "block_");
    push_digits(millis, 16, &mut out);
    push_str(&mut out, "_");
    push_digits(random as u128, 16, &mut out);
    let s = string_from_chars(out.as_slice());
    assert(s@ =~= generated_id_text(millis as nat, random as nat));
    s
}

impl BlockId {
    /// Creates a block ID from a string.
    pub fn new(id: &str) -> (b: BlockId)
        ensures
            b.0@ == id@,
    {
        BlockId(id.to_string())
    }

    /// Generates a new block ID from the current time and a random number
    /// (see `block_id_text`).
    pub fn generate() -> (b: BlockId)
        ensures
            exists|millis: u128, random: u64| b.0@ == generated_id_text(millis as nat, random as nat),
    {
        let millis = unix_millis();
        let random = random_u64();
        BlockId(block_id_text(millis, random))
    }

    /// Returns the inner string value.
    pub fn as_str(&self) -> (s: &str)
        ensures
            s@ == self.0@,
    {
        self.0.as_str()
    }

    /// A copy of this identifier.
    pub fn copy_id(&self) -> (b: BlockId)
        ensures
            b.0@ == self.0@,
    {
        BlockId(self.0.clone())
    }
}

/// Kinds of memory blocks.
#[derive(Debug, Clone, Copy, PartialEq, Eq, Structural)]
pub enum BlockType {
    Message,
    Summary,
    Fact,
    Preference,
    PersonalInfo,
    Goal,
    Task,
    Custom(u8),
}

/// Content of a memory block. JSON content is carried as its JSON text.
#[derive(Debug)]
pub enum MemoryContent {
    Text(String),
    Json(String),
    Binary { mime_type: String, data: String },
}

impl MemoryContent {
    /// The text content, if this is text.
    pub fn as_text(&self) -> (t: Option<&str>)
        ensures
            match self {
                MemoryContent::Text(s) => t is Some && t->0@ == s@,
                _ => t is None,
            },
    {
        match self {
            MemoryContent::Text(s) => Some(s.as_str()),
            _ => None,
        }
    }

    /// A copy of this content.
    pub fn copy_content(&self) -> (c: MemoryContent)
        ensures
            c.same_as(*self),
    {
        match self {
            MemoryContent::Text(s) => MemoryContent::Text(s.clone()),
            MemoryContent::Json(s) => MemoryContent::Json(s.clone()),
            MemoryContent::Binary { mime_type, data } => MemoryContent::Binary {
                mime_type: mime_type.clone(),
                data: data.clone(),
            },
        }
    }

    /// Two contents carry the same variant and the same text.
    pub open spec fn same_as(self, other: MemoryContent) -> bool {
        match (self, other) {
            (MemoryContent::Text(a), MemoryContent::Text(b)) => a@ == b@,
            (MemoryContent::Json(a), MemoryContent::Json(b)) => a@ == b@,
            (
                MemoryContent::Binary { mime_type: m1, data: d1 },
                MemoryContent::Binary { mime_type: m2, data: d2 },
            ) => m1@ == m2@ && d1@ == d2@,
            _ => false,
        }
    }

    /// The text of text content, if any.
    pub open spec fn text(self) -> Option<Seq<char>> {
        match self {
            MemoryContent::Text(s) => Some(s@),
            _ => None,
        }
    }
}


/// The name of a block type as its debug form prints it (`Fact`,
/// `Custom(3)`).
pub open spec fn block_type_name(t: BlockType) -> Seq<char> {
    match t {
        BlockType::Message => "Message"@,
        BlockType::Summary => "Summary"@,
        BlockType::Fact => "Fact"@,
        BlockType::Preference => "Preference"@,
        BlockType::PersonalInfo => "PersonalInfo"@,
        BlockType::Goal => "Goal"@,
        BlockType::Task => "Task"@,
        BlockType::Custom(n) => "Custom("@ + decimal(n as nat) + ")"@,
    }
}

impl BlockType {
    /// The debug name of this block type.
    pub fn debug_name(&self) -> (s: String)
        ensures
            s@ == block_type_name(*self),
    {
        match self {
            BlockType::Message => "Message".to_string(),
            BlockType::Summary => "Summary".to_string(),
            BlockType::Fact => "Fact".to_string(),
            BlockType::Preference => "Preference".to_string(),
            BlockType::PersonalInfo => "PersonalInfo".to_string(),
            BlockType::Goal => "Goal".to_string(),
            BlockType::Task => "Task".to_string(),
            BlockType::Custom(n) => {
                let mut out: Vec<char> = Vec::new();
                push_str(&mut out, "Custom(");
                push_digits(*n as u128, 10, &mut out);
                push_str(&mut out, ")");
                string_from_chars(out.as_slice())
            },
        }
    }
}

/// Sort order for memory queries.
#[derive(Debug, Clone, Copy, PartialEq, Eq, Structural)]
pub enum QuerySort {
    /// By creation time, newest first.
    NewestFirst,
    /// By creation time, oldest first.
    OldestFirst,
    /// By relevance score.
    Relevance,
}

impl Default for QuerySort {
    fn default() -> (s: QuerySort)
        ensures
            s == QuerySort::NewestFirst,
    {
        QuerySort::NewestFirst
    }
}

/// A time range for querying memory blocks (Unix milliseconds; each end
/// optional).
#[derive(Debug, Clone, Copy, PartialEq, Eq, Structural)]
pub struct TimeRange {
    pub start: Option<u64>,
    pub end: Option<u64>,
}

/// The range of the last `ms` milliseconds up to `now` (starting at 0 when
/// `ms` reaches back before the epoch).
pub open spec fn range_ending_at(now: u64, ms: u64) -> TimeRange {
    TimeRange { start: Some(if now >= ms { (now - ms) as u64 } else { 0 }), end: Some(now) }
}

impl TimeRange {
    /// Creates a time range.
    pub fn new(start: Option<u64>, end: Option<u64>) -> (r: TimeRange)
        ensures
            r == (TimeRange { start, end }),
    {
        TimeRange { start, end }
    }

    /// The last `ms` milliseconds up to `now`.
    pub fn ending_at(now: u64, ms: u64) -> (r: TimeRange)
        ensures
            r == range_ending_at(now, ms),
    {
        TimeRange { start: Some(now.saturating_sub(ms)), end: Some(now) }
    }

    /// The last `ms` milliseconds up to the current time.
    pub fn last_ms(ms: u64) -> (r: TimeRange)
        ensures
            exists|now: u64| r == #[trigger] range_ending_at(now, ms),
    {
        let now = unix_millis() as u64;
        Self::ending_at(now, ms)
    }

    /// The last `seconds` seconds up to the current time.
    pub fn last_seconds(seconds: u64) -> (r: TimeRange)
        requires
            seconds * 1000 <= u64::MAX,
        ensures
            exists|now: u64| r == #[trigger] range_ending_at(now, (seconds * 1000) as u64),
    {
        Self::last_ms(seconds * 1000)
    }

    /// The last `minutes` minutes up to the current time.
    pub fn last_minutes(minutes: u64) -> (r: TimeRange)
        requires
            minutes * 60 * 1000 <= u64::MAX,
        ensures
            exists|now: u64| r == #[trigger] range_ending_at(now, (minutes * 60 * 1000) as u64),
    {
        Self::last_seconds(minutes * 60)
    }

    /// The last `hours` hours up to the current time.
    pub fn last_hours(hours: u64) -> (r: TimeRange)
        requires
            hours * 60 * 60 * 1000 <= u64::MAX,
        ensures
            exists|now: u64| r == #[trigger] range_ending_at(now, (hours * 60 * 60 * 1000) as u64),
    {
        Self::last_minutes(hours * 60)
    }

    /// The last `days` days up to the current time.
    pub fn last_days(days: u64) -> (r: TimeRange)
        requires
            days * 24 * 60 * 60 * 1000 <= u64::MAX,
        ensures
            exists|now: u64| r == #[trigger] range_ending_at(now, (days * 24 * 60 * 60 * 1000) as u64),
    {
        Self::last_hours(days * 24)
    }
}

/// A range that ends now and reaches back `ms` milliseconds spans exactly
/// `ms` milliseconds once the current time is at least `ms`.
pub proof fn law_range_spans_duration(now: u64, ms: u64)
    requires
        now >= ms,
    ensures
        range_ending_at(now, ms).end->0 - range_ending_at(now, ms).start->0 == ms,
{
}

/// A query for memory blocks (times in Unix milliseconds).
#[derive(Debug)]
pub struct MemoryQuery {
    /// User whose blocks are searched.
    pub user_id: Option<String>,
    /// Session whose blocks are searched.
    pub session_id: Option<String>,
    /// Block types searched; empty means all types.
    pub block_types: Vec<BlockType>,
    /// Text that the content must contain (case-insensitively).
    pub content_contains: Option<String>,
    /// Blocks created after this time.
    pub created_after: Option<i64>,
    /// Blocks created before this time.
    pub created_before: Option<i64>,
    /// Maximum number of blocks returned.
    pub limit: Option<usize>,
    /// Sort order.
    pub sort: Option<QuerySort>,
}

impl Default for MemoryQuery {
    fn default() -> (q: MemoryQuery)
        ensures
            q.user_id is None,
            q.session_id is None,
            q.block_types@.len() == 0,
            q.content_contains is None,
            q.created_after is None,
            q.created_before is None,
            q.limit == Some(100usize),
            q.sort == Some(QuerySort::NewestFirst),
    {
        MemoryQuery {
            user_id: None,
            session_id: None,
            block_types: Vec::new(),
            content_contains: None,
            created_after: None,
            created_before: None,
            limit: Some(100),
            sort: Some(QuerySort::NewestFirst),
        }
    }
}

/// The names of the block types, in order.
pub open spec fn type_names(ts: Seq<BlockType>) -> Seq<Seq<char>> {
    Seq::new(ts.len(), |i: int| block_type_name(ts[i]))
}

/// The JSON text that serde_json writes for a list of strings.
pub uninterp spec fn json_array_text(items: Seq<Seq<char>>) -> Seq<char>;

/// Serializes a list of strings with `serde_json::to_string`; the text is
/// named by `json_array_text` (serializing strings cannot fail).
#[verifier::external_body]
fn json_string_array(items: &Vec<String>) -> (s: String)
    ensures
        s@ == json_array_text(crate::agents_api::texts(items@)),
{
    serde_json::to_string(items).unwrap()
}

/// The filter clauses of the plain block search: user, session, block
/// types and content, each when the query has it.
pub open spec fn text_search_filters(q: MemoryQuery) -> Seq<char> {
    let a = if q.user_id is Some { " AND user_id = $user_id"@ } else { Seq::empty() };
    let b = if q.session_id is Some { " AND session_id = $session_id"@ } else { Seq::empty() };
    let c = if q.block_types@.len() > 0 { " AND block_type IN $block_types"@ } else { Seq::empty() };
    let d = if q.content_contains is Some {
        " AND string::contains(string::lowercase(content), string::lowercase($content))"@
    } else {
        Seq::empty()
    };
    a + b + c + d
}

/// The limit clause of the plain block search.
pub open spec fn text_search_limit(q: MemoryQuery) -> Seq<char> {
    match q.limit {
        Some(l) => " LIMIT "@ + decimal(l as nat),
        None => Seq::empty(),
    }
}

/// The SQL text of the plain (non-vector) block search for a query.
pub open spec fn text_search_sql_text(q: MemoryQuery) -> Seq<char> {
    "SELECT * FROM memory_blocks WHERE true"@ + text_search_filters(q) + " ORDER BY created_at DESC"@
        + text_search_limit(q)
}

/// The parameters bound into the plain block search: user, session, the
/// JSON array of type names and the content text, each when the query has
/// it, in that order.
pub open spec fn text_search_bindings(q: MemoryQuery) -> Seq<(Seq<char>, Seq<char>)> {
    (if q.user_id is Some { seq![("user_id"@, q.user_id->0@)] } else { Seq::empty() })
        + (if q.session_id is Some { seq![("session_id"@, q.session_id->0@)] } else { Seq::empty() })
        + (if q.block_types@.len() > 0 {
            seq![
                (
                    "block_types"@,
                    json_array_text(type_names(q.block_types@)),
                ),
            ]
        } else {
            Seq::empty()
        })
        + (if q.content_contains is Some {
            seq![("content"@, q.content_contains->0@)]
        } else {
            Seq::empty()
        })
}

/// The views of binding pairs.
pub open spec fn binding_views(v: Seq<(String, String)>) -> Seq<(Seq<char>, Seq<char>)> {
    Seq::new(v.len(), |i: int| (v[i].0@, v[i].1@))
}

fn push_binding(v: &mut Vec<(String, String)>, key: &str, value: String)
    ensures
        binding_views(final(v)@) == binding_views(old(v)@) + seq![(key@, value@)],
{
    v.push((key.to_string(), value));
    assert(binding_views(v@) =~= binding_views(old(v)@) + seq![(key@, value@)]);
}

/// Builds the SQL text and the bound parameters of the plain block search
/// (filters on user, session, block types and content, newest first, with
/// the query's limit).
pub fn text_search_sql(q: &MemoryQuery) -> (r: (String, Vec<(String, String)>))
    ensures
        r.0@ == text_search_sql_text(*q),
        binding_views(r.1@) == text_search_bindings(*q),
{
    let mut sql: Vec<char> = Vec::new();
    let mut b: Vec<(String, String)> = Vec::new();
    let mut f: Vec<char> = Vec::new();
    match &q.user_id {
        Some(u) => {
            push_str(&mut f, " AND user_id = $user_id");
            push_binding(&mut b, "user_id", u.clone());
        },
        None => {},
    }
    let ghost f1 = f@;
    match &q.session_id {
        Some(sid) => {
            push_str(&mut f, " AND session_id = $session_id");
            push_binding(&mut b, "session_id", sid.clone());
        },
        None => {},
    }
    let ghost f2 = f@;
    if q.block_types.len() > 0 {
        push_str(&mut f, " AND block_type IN $block_types");
        let mut names: Vec<String> = Vec::new();
        let mut i: usize = 0;
        while i < q.block_types.len()
            invariant
                i <= q.block_types@.len(),
                names@.len() == i,
                crate::agents_api::texts(names@) =~= type_names(q.block_types@).subrange(0, i as int),
            decreases q.block_types@.len() - i,
        {
            let ghost prev = names@;
            let nm = q.block_types[i].debug_name();
            names.push(nm);
            proof {
                assert(names@ == prev.push(nm));
                assert(crate::agents_api::texts(names@)[i as int] == nm@);
                assert(type_names(q.block_types@)[i as int] == block_type_name(q.block_types@[i as int]));
                assert forall|k: int| 0 <= k < i implies crate::agents_api::texts(names@)[k]
                    == crate::agents_api::texts(prev)[k] by {
                    assert(names@[k] == prev[k]);
                }
            }
            i = i + 1;
        }
        assert(crate::agents_api::texts(names@) =~= type_names(q.block_types@));
        push_binding(&mut b, "block_types", json_string_array(&names));
    }
    let ghost f3 = f@;
    match &q.content_contains {
        Some(c) => {
            push_str(
                &mut f,
                " AND string::contains(string::lowercase(content), string::lowercase($content))",
            );
            push_binding(&mut b, "content", c.clone());
        },
        None => {},
    }
    proof {
        let a = if q.user_id is Some { " AND user_id = $user_id"@ } else { Seq::<char>::empty() };
        let bb = if q.session_id is Some { " AND session_id = $session_id"@ } else { Seq::<char>::empty() };
        let c = if q.block_types@.len() > 0 { " AND block_type IN $block_types"@ } else { Seq::<char>::empty() };
        assert(f1 =~= a);
        assert(f2 =~= a + bb);
        assert(f3 =~= a + bb + c);
        assert(f@ =~= text_search_filters(*q));
    }
    push_str(&mut sql, "SELECT * FROM memory_blocks WHERE true");
    sql.append(&mut f);
    push_str(&mut sql, " ORDER BY created_at DESC");
    let ghost s4 = sql@;
    match q.limit {
        Some(l) => {
            push_str(&mut sql, " LIMIT ");
            push_digits(l as u128, 10, &mut sql);
        },
        None => {},
    }
    proof {
        assert(sql@ =~= s4 + text_search_limit(*q));
        assert(sql@ =~= text_search_sql_text(*q));
        assert(binding_views(b@) =~= text_search_bindings(*q));
    }
    (string_from_chars(sql.as_slice()), b)
}

/// Whether a block passes the filters of a stored-block scan: owner,
/// session, block types and creation time range, each when given.
pub open spec fn scan_matches(
    meta: MemoryBlockMetadata,
    user_id: Option<Seq<char>>,
    session_id: Option<Seq<char>>,
    block_types: Option<Seq<BlockType>>,
    time_range: Option<TimeRange>,
) -> bool {
    &&& (user_id is Some ==> meta.user_id@ == user_id->0)
    &&& (session_id is Some ==> meta.session_id is Some && meta.session_id->0@ == session_id->0)
    &&& (block_types is Some ==> block_types->0.contains(meta.block_type))
    &&& (time_range is Some && time_range->0.start is Some ==> meta.created_at >= time_range->0.start->0)
    &&& (time_range is Some && time_range->0.end is Some ==> meta.created_at <= time_range->0.end->0)
}

/// The view of an optional string.
pub open spec fn opt_str(o: Option<&str>) -> Option<Seq<char>> {
    match o {
        Some(s) => Some(s@),
        None => None,
    }
}

/// The view of an optional slice of block types.
pub open spec fn opt_types(o: Option<&[BlockType]>) -> Option<Seq<BlockType>> {
    match o {
        Some(s) => Some(s@),
        None => None,
    }
}

/// Checks one block against the filters of a stored-block scan.
pub fn block_matches(
    meta: &MemoryBlockMetadata,
    user_id: Option<&str>,
    session_id: Option<&str>,
    block_types: Option<&[BlockType]>,
    time_range: Option<TimeRange>,
) -> (b: bool)
    ensures
        b == scan_matches(*meta, opt_str(user_id), opt_str(session_id), opt_types(block_types), time_range),
{
    match user_id {
        Some(u) => {
            if !crate::text::str_eq(meta.user_id.as_str(), u) {
                return false;
            }
        },
        None => {},
    }
    match session_id {
        Some(sid) => match &meta.session_id {
            Some(ms) => {
                if !crate::text::str_eq(ms.as_str(), sid) {
                    return false;
                }
            },
            None => {
                return false;
            },
        },
        None => {},
    }
    match block_types {
        Some(ts) => {
            let mut found = false;
            let mut i: usize = 0;
            while i < ts.len()
                invariant
                    i <= ts@.len(),
                    found == exists|k: int| 0 <= k < i && ts@[k] == meta.block_type,
                decreases ts@.len() - i,
            {
                if ts[i] == meta.block_type {
                    found = true;
                }
                i = i + 1;
            }
            if !found {
                return false;
            }
        },
        None => {},
    }
    match time_range {
        Some(tr) => {
            match tr.start {
                Some(st) => {
                    if meta.created_at < st {
                        return false;
                    }
                },
                None => {},
            }
            match tr.end {
                Some(en) => {
                    if meta.created_at > en {
                        return false;
                    }
                },
                None => {},
            }
        },
        None => {},
    }
    true
}

/// The creation times of blocks.
pub open spec fn creation_times(metas: Seq<MemoryBlockMetadata>) -> Seq<u64> {
    Seq::new(metas.len(), |i: int| metas[i].created_at)
}

/// Orders blocks by creation time as a stable sort does: newest first for
/// `NewestFirst`, oldest first for `OldestFirst`, blocks created at the same
/// time in scan order (`ordered_by` compares equal times by position).
/// Relevance is a score that
/// this library does not hold, so for `Relevance` the scan order is kept.
pub fn order_by_creation(metas: &[MemoryBlockMetadata], sort: QuerySort) -> (r: Vec<usize>)
    ensures
        is_index_permutation(r@, metas@.len()),
        sort == QuerySort::NewestFirst ==> ordered_by(creation_times(metas@), r@, true),
        sort == QuerySort::OldestFirst ==> ordered_by(creation_times(metas@), r@, false),
        sort == QuerySort::Relevance ==> r@ == Seq::new(metas@.len(), |i: int| i as usize),
{
    let mut keys: Vec<u64> = Vec::new();
    let mut i: usize = 0;
    while i < metas.len()
        invariant
            i <= metas@.len(),
            keys@ =~= creation_times(metas@).subrange(0, i as int),
        decreases metas@.len() - i,
    {
        keys.push(metas[i].created_at);
        i = i + 1;
    }
    assert(keys@ =~= creation_times(metas@));
    match sort {
        QuerySort::NewestFirst => stable_order(keys.as_slice(), true),
        QuerySort::OldestFirst => stable_order(keys.as_slice(), false),
        QuerySort::Relevance => {
            let mut r: Vec<usize> = Vec::new();
            let mut k: usize = 0;
            while k < metas.len()
                invariant
                    k <= metas@.len(),
                    r@ =~= Seq::new(k as nat, |j: int| j as usize),
                decreases metas@.len() - k,
            {
                r.push(k);
                k = k + 1;
            }
            r
        },
    }
}

/// The positions, among the first `n` blocks, of those a scan keeps.
pub open spec fn matched_upto(
    metas: Seq<MemoryBlockMetadata>,
    user_id: Option<Seq<char>>,
    session_id: Option<Seq<char>>,
    block_types: Option<Seq<BlockType>>,
    time_range: Option<TimeRange>,
    n: nat,
) -> Seq<usize>
    decreases n,
{
    if n == 0 {
        Seq::empty()
    } else {
        matched_upto(metas, user_id, session_id, block_types, time_range, (n - 1) as nat) + if scan_matches(
            metas[n - 1],
            user_id,
            session_id,
            block_types,
            time_range,
        ) {
            seq![(n - 1) as usize]
        } else {
            Seq::empty()
        }
    }
}

/// Whether `full` lists exactly the positions in `m`, each once.
pub open spec fn same_positions(full: Seq<usize>, m: Seq<usize>) -> bool {
    &&& full.len() == m.len()
    &&& forall|i: int, j: int| 0 <= i < j < full.len() ==> full[i] != full[j]
    &&& forall|i: int| 0 <= i < full.len() ==> m.contains(#[trigger] full[i])
}

/// The keys a scan orders by: creation times, or for `Relevance` the
/// relevance ranks given with the blocks.
pub open spec fn scan_keys(metas: Seq<MemoryBlockMetadata>, relevance: Seq<u64>, sort: Option<QuerySort>) -> Seq<u64> {
    if sort == Some(QuerySort::Relevance) {
        relevance
    } else {
        creation_times(metas)
    }
}

/// Scans stored blocks as the store's search does: the blocks that pass the
/// filters, in scan order; ordered when an order is asked for, as a stable
/// sort does (newest or oldest created first, or most relevant first);
/// then at most `limit` of them. Relevance is a floating-point score this
/// library does not hold: the caller gives, for each block, a rank that
/// orders as the scores do (`relevance`, read only for `Relevance`).
pub fn scan_blocks(
    metas: &[MemoryBlockMetadata],
    user_id: Option<&str>,
    session_id: Option<&str>,
    block_types: Option<&[BlockType]>,
    time_range: Option<TimeRange>,
    sort: Option<QuerySort>,
    relevance: &[u64],
    limit: Option<usize>,
) -> (r: Vec<usize>)
    requires
        sort == Some(QuerySort::Relevance) ==> relevance@.len() == metas@.len(),
    ensures
        ({
            let m = matched_upto(
                metas@,
                opt_str(user_id),
                opt_str(session_id),
                opt_types(block_types),
                time_range,
                metas@.len(),
            );
            let cut = |s: Seq<usize>| match limit {
                Some(l) => if l < s.len() { s.take(l as int) } else { s },
                None => s,
            };
            match sort {
                None => r@ == cut(m),
                Some(o) => exists|full: Seq<usize>|
                    same_positions(full, m) && ordered_by(scan_keys(metas@, relevance@, sort), full, o != QuerySort::OldestFirst)
                        && r@ == cut(full),
            }
        }),
{
    let ghost keyseq = scan_keys(metas@, relevance@, sort);
    let by_relevance = match sort {
        Some(QuerySort::Relevance) => true,
        _ => false,
    };
    let mut matched: Vec<usize> = Vec::new();
    let mut keys: Vec<u64> = Vec::new();
    let mut i: usize = 0;
    while i < metas.len()
        invariant
            i <= metas@.len(),
            by_relevance == (sort == Some(QuerySort::Relevance)),
            sort == Some(QuerySort::Relevance) ==> relevance@.len() == metas@.len(),
            keyseq == scan_keys(metas@, relevance@, sort),
            keyseq.len() == metas@.len(),
            matched@ == matched_upto(metas@, opt_str(user_id), opt_str(session_id), opt_types(block_types), time_range, i as nat),
            keys@.len() == matched@.len(),
            forall|k: int| 0 <= k < keys@.len() ==> #[trigger] keys@[k] == keyseq[matched@[k] as int],
            forall|k: int| 0 <= k < matched@.len() ==> #[trigger] matched@[k] < i,
            forall|a: int, b: int| 0 <= a < b < matched@.len() ==> matched@[a] < matched@[b],
        decreases metas@.len() - i,
    {
        if block_matches(&metas[i], user_id, session_id, block_types, time_range) {
            matched.push(i);
            if by_relevance {
                keys.push(relevance[i]);
            } else {
                keys.push(metas[i].created_at);
            }
        }
        i = i + 1;
    }
    let ordered: Vec<usize> = match sort {
        None => matched,
        Some(o) => {
            let descending = match o {
                QuerySort::OldestFirst => false,
                _ => true,
            };
            let p = stable_order(keys.as_slice(), descending);
            let mut full: Vec<usize> = Vec::new();
            let mut k: usize = 0;
            while k < p.len()
                invariant
                    k <= p@.len(),
                    is_index_permutation(p@, keys@.len()),
                    ordered_by(keys@, p@, descending),
                    keys@.len() == matched@.len(),
                    forall|t: int| 0 <= t < keys@.len() ==> #[trigger] keys@[t] == keyseq[matched@[t] as int],
                    forall|a: int, b: int| 0 <= a < b < matched@.len() ==> matched@[a] < matched@[b],
                    full@.len() == k,
                    forall|t: int| 0 <= t < k ==> #[trigger] full@[t] == matched@[p@[t] as int],
                decreases p@.len() - k,
            {
                full.push(matched[p[k]]);
                k = k + 1;
            }
            proof {
                assert forall|a: int, b: int| 0 <= a < b < full@.len() implies full@[a] != full@[b] by {
                    assert(p@[a] != p@[b]);
                    if p@[a] < p@[b] {
                        assert(matched@[p@[a] as int] < matched@[p@[b] as int]);
                    } else {
                        assert(matched@[p@[b] as int] < matched@[p@[a] as int]);
                    }
                }
                assert forall|a: int| 0 <= a < full@.len() implies matched@.contains(#[trigger] full@[a]) by {
                    assert(matched@[p@[a] as int] == full@[a]);
                }
                assert forall|a: int, b: int| 0 <= a < b < full@.len() implies precedes(
                    keyseq,
                    #[trigger] full@[a],
                    #[trigger] full@[b],
                    descending,
                ) by {
                    assert(precedes(keys@, p@[a], p@[b], descending));
                    assert(keys@[p@[a] as int] == keyseq[full@[a] as int]);
                    assert(keys@[p@[b] as int] == keyseq[full@[b] as int]);
                    if p@[a] < p@[b] {
                        assert(matched@[p@[a] as int] < matched@[p@[b] as int]);
                    }
                }
                assert(same_positions(full@, matched@));
                assert(ordered_by(keyseq, full@, descending));
                assert(descending == (o != QuerySort::OldestFirst));
            }
            full
        },
    };
    let ghost before_cut = ordered@;
    let mut ordered = ordered;
    match limit {
        Some(l) => {
            if l < ordered.len() {
                ordered.truncate(l);
            }
        },
        None => {},
    }
    proof {
        match limit {
            Some(l) => {
                if l < before_cut.len() {
                    assert(ordered@ =~= before_cut.take(l as int));
                }
            },
            None => {},
        }
    }
    ordered
}

/// Metadata of a memory block.
#[derive(Debug)]
pub struct MemoryBlockMetadata {
    pub id: BlockId,
    pub block_type: BlockType,
    pub user_id: String,
    pub session_id: Option<String>,
    pub created_at: u64,
    pub updated_at: u64,
}

/// A memory block: metadata and content.
#[derive(Debug)]
pub struct MemoryBlock {
    pub metadata: MemoryBlockMetadata,
    pub content: MemoryContent,
}

impl MemoryBlock {
    /// Creates a block of the given type and content for a user, with a
    /// generated identifier and creation and update times set to now.
    pub fn new(block_type: BlockType, user_id: &str, content: MemoryContent) -> (b: MemoryBlock)
        ensures
            b.metadata.block_type == block_type,
            b.metadata.user_id@ == user_id@,
            b.metadata.session_id is None,
            b.metadata.created_at == b.metadata.updated_at,
            b.content == content,
            exists|millis: u128, random: u64|
                b.metadata.id.0@ == generated_id_text(millis as nat, random as nat),
    {
        let id = BlockId::generate();
        let now = unix_millis() as u64;
        MemoryBlock {
            metadata: MemoryBlockMetadata {
                id,
                block_type,
                user_id: user_id.to_string(),
                session_id: None,
                created_at: now,
                updated_at: now,
            },
            content,
        }
    }

    /// The identifier of this block.
    pub fn id(&self) -> (id: &BlockId)
        ensures
            id == &self.metadata.id,
    {
        &self.metadata.id
    }

    /// A copy of this block.
    pub fn copy_block(&self) -> (b: MemoryBlock)
        ensures
            b.same_as(*self),
    {
        MemoryBlock {
            metadata: MemoryBlockMetadata {
                id: self.metadata.id.copy_id(),
                block_type: self.metadata.block_type,
                user_id: self.metadata.user_id.clone(),
                session_id: match &self.metadata.session_id {
                    Some(s) => Some(s.clone()),
                    None => None,
                },
                created_at: self.metadata.created_at,
                updated_at: self.metadata.updated_at,
            },
            content: self.content.copy_content(),
        }
    }

    /// Two blocks agree on every field, strings compared by their text.
    pub open spec fn same_as(self, other: MemoryBlock) -> bool {
        &&& self.metadata.id.0@ == other.metadata.id.0@
        &&& self.metadata.block_type == other.metadata.block_type
        &&& self.metadata.user_id@ == other.metadata.user_id@
        &&& (self.metadata.session_id is Some <==> other.metadata.session_id is Some)
        &&& (self.metadata.session_id is Some ==> self.metadata.session_id->0@
            == other.metadata.session_id->0@)
        &&& self.metadata.created_at == other.metadata.created_at
        &&& self.metadata.updated_at == other.metadata.updated_at
        &&& self.content.same_as(other.content)
    }
}


/// A text with every leading copy of `p` removed (`str::trim_start_matches`).
pub open spec fn strip_prefixes(s: Seq<char>, p: Seq<char>) -> Seq<char>
    decreases s.len(),
{
    if p.len() > 0 && p.len() <= s.len() && s.subrange(0, p.len() as int) == p {
        strip_prefixes(s.subrange(p.len() as int, s.len() as int), p)
    } else {
        s
    }
}

/// The digit value of a character, if it is an ASCII digit.
pub open spec fn digit_value(c: char) -> Option<nat> {
    if '0' <= c && c <= '9' {
        Some((c as nat - '0' as nat) as nat)
    } else {
        None
    }
}

/// Reading decimal digits from position `i` on, `acc` read so far: the
/// value, or the first problem met (a non-digit, or a value past 255).
pub open spec fn read_u8_digits(ds: Seq<char>, i: nat, acc: nat) -> Result<u8, Seq<char>>
    decreases ds.len() - i,
{
    if i >= ds.len() {
        Ok(acc as u8)
    } else {
        match digit_value(ds[i as int]) {
            None => Err("invalid digit found in string"@),
            Some(d) => if acc * 10 + d > 255 {
                Err("number too large to fit in target type"@)
            } else {
                read_u8_digits(ds, i + 1, acc * 10 + d)
            },
        }
    }
}

/// Parsing a `u8` from decimal text (`str::parse::<u8>`): an optional `+`
/// and digits; the error text of each failure.
pub open spec fn parse_u8_text(t: Seq<char>) -> Result<u8, Seq<char>> {
    if t.len() == 0 {
        Err("cannot parse integer from empty string"@)
    } else if (t[0] == '+' || t[0] == '-') && t.len() == 1 {
        Err("invalid digit found in string"@)
    } else if t[0] == '+' {
        read_u8_digits(t, 1, 0)
    } else {
        read_u8_digits(t, 0, 0)
    }
}

/// The block type stored under a debug name, or why there is none.
pub open spec fn block_type_from_name(s: Seq<char>) -> Result<BlockType, Seq<char>> {
    if s == "Message"@ {
        Ok(BlockType::Message)
    } else if s == "Summary"@ {
        Ok(BlockType::Summary)
    } else if s == "Fact"@ {
        Ok(BlockType::Fact)
    } else if s == "Preference"@ {
        Ok(BlockType::Preference)
    } else if s == "PersonalInfo"@ {
        Ok(BlockType::PersonalInfo)
    } else if s == "Goal"@ {
        Ok(BlockType::Goal)
    } else if s == "Task"@ {
        Ok(BlockType::Task)
    } else if crate::auto_save::starts_with(s, "Custom("@) {
        match parse_u8_text(crate::text::trim_end_char(strip_prefixes(s, "Custom("@), ')')) {
            Ok(n) => Ok(BlockType::Custom(n)),
            Err(e) => Err("Failed to parse custom block type: "@ + e),
        }
    } else {
        Err("Unknown block type: "@ + s)
    }
}

fn read_u8(t: &[char], start: usize) -> (r: Result<u8, String>)
    requires
        start <= t@.len(),
    ensures
        match (r, read_u8_digits(t@, start as nat, 0)) {
            (Ok(a), Ok(b)) => a == b,
            (Err(a), Err(b)) => a@ == b,
            _ => false,
        },
{
    let mut acc: u32 = 0;
    let mut i: usize = start;
    while i < t.len()
        invariant
            start <= i <= t@.len(),
            acc <= 255,
            read_u8_digits(t@, start as nat, 0) == read_u8_digits(t@, i as nat, acc as nat),
        decreases t@.len() - i,
    {
        let c = t[i];
        if !('0' <= c && c <= '9') {
            return Err("invalid digit found in string".to_string());
        }
        let d = (c as u32) - ('0' as u32);
        assert(digit_value(c) == Some(d as nat));
        if acc * 10 + d > 255 {
            return Err("number too large to fit in target type".to_string());
        }
        acc = acc * 10 + d;
        i = i + 1;
    }
    Ok(acc as u8)
}

fn prefix_at(v: &[char], lo: usize, p: &[char]) -> (b: bool)
    requires
        lo <= v@.len(),
    ensures
        b == (p@.len() <= v@.len() - lo && v@.subrange(lo as int, lo + p@.len()) == p@),
{
    if p.len() > v.len() - lo {
        return false;
    }
    let mut k: usize = 0;
    while k < p.len()
        invariant
            lo <= v@.len(),
            v@.len() <= usize::MAX,
            p@.len() <= v@.len() - lo,
            k <= p@.len(),
            forall|j: int| 0 <= j < k ==> v@[lo + j] == p@[j],
        decreases p@.len() - k,
    {
        if v[lo + k] != p[k] {
            assert(v@.subrange(lo as int, lo + p@.len())[k as int] != p@[k as int]);
            return false;
        }
        k = k + 1;
    }
    assert(v@.subrange(lo as int, lo + p@.len()) =~= p@);
    true
}

fn strip_all_prefixes(v: &[char], p: &[char]) -> (r: Vec<char>)
    requires
        p@.len() > 0,
    ensures
        r@ == strip_prefixes(v@, p@),
{
    let n = v.len();
    let mut lo: usize = 0;
    assert(v@.subrange(0, n as int) =~= v@);
    while prefix_at(v, lo, p)
        invariant
            n == v@.len(),
            lo <= n,
            p@.len() > 0,
            strip_prefixes(v@, p@) == strip_prefixes(v@.subrange(lo as int, n as int), p@),
        decreases n - lo,
    {
        proof {
            let w = v@.subrange(lo as int, n as int);
            assert(w.subrange(0, p@.len() as int) =~= v@.subrange(lo as int, lo + p@.len()));
            assert(w.subrange(p@.len() as int, w.len() as int) =~= v@.subrange(lo + p@.len(), n as int));
        }
        lo = lo + p.len();
    }
    proof {
        let w = v@.subrange(lo as int, n as int);
        if p@.len() <= w.len() {
            assert(w.subrange(0, p@.len() as int) =~= v@.subrange(lo as int, lo + p@.len()));
        }
    }
    let mut r: Vec<char> = Vec::new();
    let mut i: usize = lo;
    while i < n
        invariant
            n == v@.len(),
            lo <= i <= n,
            r@ == v@.subrange(lo as int, i as int),
        decreases n - i,
    {
        r.push(v[i]);
        assert(r@ =~= v@.subrange(lo as int, i + 1));
        i = i + 1;
    }
    r
}

fn parse_u8_chars(t: &[char]) -> (r: Result<u8, String>)
    ensures
        match (r, parse_u8_text(t@)) {
            (Ok(a), Ok(b)) => a == b,
            (Err(a), Err(b)) => a@ == b,
            _ => false,
        },
{
    if t.len() == 0 {
        Err("cannot parse integer from empty string".to_string())
    } else if (t[0] == '+' || t[0] == '-') && t.len() == 1 {
        Err("invalid digit found in string".to_string())
    } else if t[0] == '+' {
        read_u8(t, 1)
    } else {
        read_u8(t, 0)
    }
}

impl BlockType {
    /// Reads a block type back from its debug name (`Fact`, `Custom(3)`).
    pub fn from_debug_name(s: &str) -> (r: Result<BlockType, String>)
        ensures
            match (r, block_type_from_name(s@)) {
                (Ok(a), Ok(b)) => a == b,
                (Err(a), Err(b)) => a@ == b,
                _ => false,
            },
    {
        if crate::text::str_eq(s, "Message") {
            return Ok(BlockType::Message);
        } else if crate::text::str_eq(s, "Summary") {
            return Ok(BlockType::Summary);
        } else if crate::text::str_eq(s, "Fact") {
            return Ok(BlockType::Fact);
        } else if crate::text::str_eq(s, "Preference") {
            return Ok(BlockType::Preference);
        } else if crate::text::str_eq(s, "PersonalInfo") {
            return Ok(BlockType::PersonalInfo);
        } else if crate::text::str_eq(s, "Goal") {
            return Ok(BlockType::Goal);
        } else if crate::text::str_eq(s, "Task") {
            return Ok(BlockType::Task);
        }
        let v = crate::text::chars_of(s);
        let p = crate::text::chars_of("Custom(");
        proof {
            reveal_strlit("Custom(");
        }
        if !crate::auto_save::chars_starts_with(v.as_slice(), p.as_slice()) {
            let mut out: Vec<char> = Vec::new();
            push_str(&mut out, "Unknown block type: ");
            push_str(&mut out, s);
            return Err(string_from_chars(out.as_slice()));
        }
        let rest = strip_all_prefixes(v.as_slice(), p.as_slice());
        let t = crate::text::trim_end_char_chars(rest.as_slice(), ')');
        match parse_u8_chars(t.as_slice()) {
            Ok(num) => Ok(BlockType::Custom(num)),
            Err(e) => {
                let mut out: Vec<char> = Vec::new();
                push_str(&mut out, "Failed to parse custom block type: ");
                push_str(&mut out, e.as_str());
                Err(string_from_chars(out.as_slice()))
            },
        }
    }
}

} // verus!

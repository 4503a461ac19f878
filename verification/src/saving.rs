//! Context snapshots: save settings, snapshot queries, which snapshots a
//! query lists and in what order, which are evicted, storage statistics and
//! the Markdown export of a snapshot. Times are Unix milliseconds.

use vstd::prelude::*;
use crate::agents_api::texts;
use crate::conversation_export::joined;
use crate::llm::InternalChatMessage;
use crate::search::{SearchSortOptions, SortDirection, SortField};
use crate::search_sort::{sort_results, sorted_before, text_order, SortValues};
use crate::select::{is_index_permutation, ordered_by, stable_order};
use crate::text::{
    chars_of, contains_text, decimal, push_digits, push_str, str_eq, string_from_chars, text_contains, to_lowercase,
    unicode_lowercase,
};

verus! {

/// Configuration for context saving.
#[derive(Debug)]
pub struct ContextSaveConfig {
    /// Auto-save interval in seconds (0 disables it).
    pub auto_save_interval: u64,
    /// Maximum number of snapshots kept.
    pub max_snapshots: usize,
    pub compress_snapshots: bool,
    /// Archive snapshots older than this many days.
    pub auto_archive_after_days: Option<u32>,
    pub include_token_usage: bool,
    pub include_memory_blocks: bool,
    pub include_summaries: bool,
    pub backup_enabled: bool,
    /// Backup location, if different from the main storage.
    pub backup_path: Option<String>,
}

impl Default for ContextSaveConfig {
    fn default() -> (c: ContextSaveConfig)
        ensures
            c.auto_save_interval == 300,
            c.max_snapshots == 100,
            c.compress_snapshots,
            c.auto_archive_after_days == Some(30u32),
            c.include_token_usage && c.include_memory_blocks && c.include_summaries,
            c.backup_enabled,
            c.backup_path is None,
    {
        ContextSaveConfig {
            auto_save_interval: 300,
            max_snapshots: 100,
            compress_snapshots: true,
            auto_archive_after_days: Some(30),
            include_token_usage: true,
            include_memory_blocks: true,
            include_summaries: true,
            backup_enabled: true,
            backup_path: None,
        }
    }
}

/// Sort options for snapshots.
#[derive(Debug, Clone, Copy, PartialEq, Eq, Structural)]
pub enum SnapshotSortBy {
    CreatedAt,
    LastAccessed,
    Name,
    SizeBytes,
    MessageCount,
}

impl Default for SnapshotSortBy {
    fn default() -> (s: SnapshotSortBy)
        ensures
            s == SnapshotSortBy::LastAccessed,
    {
        SnapshotSortBy::LastAccessed
    }
}

/// Query parameters for finding snapshots.
#[derive(Debug)]
pub struct SnapshotQuery {
    pub user_id: Option<String>,
    pub session_id: Option<String>,
    /// At least one of these tags (none given: any).
    pub tags: Vec<String>,
    /// Creation time range, inclusive.
    pub date_range: Option<(i64, i64)>,
    /// Text searched, ignoring case, in the name and description.
    pub search_text: Option<String>,
    pub include_archived: bool,
    pub favorites_only: bool,
    pub limit: Option<usize>,
    pub sort_by: SnapshotSortBy,
}

impl Default for SnapshotQuery {
    fn default() -> (q: SnapshotQuery)
        ensures
            q.user_id is None && q.session_id is None,
            q.tags@.len() == 0,
            q.date_range is None && q.search_text is None,
            !q.include_archived && !q.favorites_only,
            q.limit is None,
            q.sort_by == SnapshotSortBy::LastAccessed,
    {
        SnapshotQuery {
            user_id: None,
            session_id: None,
            tags: Vec::new(),
            date_range: None,
            search_text: None,
            include_archived: false,
            favorites_only: false,
            limit: None,
            sort_by: SnapshotSortBy::LastAccessed,
        }
    }
}

/// What queries and statistics read of a stored snapshot.
#[derive(Debug)]
pub struct SnapshotInfo {
    pub id: String,
    pub name: String,
    pub description: Option<String>,
    pub created_at: i64,
    pub last_accessed: i64,
    pub user_id: String,
    pub session_id: String,
    pub tags: Vec<String>,
    pub size_bytes: usize,
    pub message_count: usize,
    pub is_favorite: bool,
    pub is_archived: bool,
}

/// Whether a snapshot matches a query: same user and session when given,
/// one of the query's tags when it has any, created within the date range,
/// the search text (ignoring case) in its name or description, archived
/// ones only when included, favourites only when asked.
pub open spec fn snapshot_matches(s: SnapshotInfo, q: SnapshotQuery) -> bool {
    &&& (q.user_id is Some ==> s.user_id@ == q.user_id->0@)
    &&& (q.session_id is Some ==> s.session_id@ == q.session_id->0@)
    &&& (q.tags@.len() > 0 ==> exists|i: int| 0 <= i < q.tags@.len() && texts(s.tags@).contains(#[trigger] q.tags@[i]@))
    &&& match q.date_range {
        Some((start, end)) => start <= s.created_at <= end,
        None => true,
    }
    &&& (q.search_text is Some ==> {
        let needle = unicode_lowercase(q.search_text->0@);
        contains_text(unicode_lowercase(s.name@), needle) || contains_text(
            unicode_lowercase(
                match s.description {
                    Some(d) => d@,
                    None => Seq::empty(),
                },
            ),
            needle,
        )
    })
    &&& (s.is_archived ==> q.include_archived)
    &&& (q.favorites_only ==> s.is_favorite)
}

fn lower_contains(hay: &str, needle_lower: &Vec<char>) -> (b: bool)
    ensures
        b == contains_text(unicode_lowercase(hay@), needle_lower@),
{
    let h = to_lowercase(hay);
    let hv = chars_of(h.as_str());
    text_contains(hv.as_slice(), needle_lower.as_slice())
}

fn some_tag_shared(tags: &Vec<String>, wanted: &Vec<String>) -> (b: bool)
    ensures
        b == exists|i: int| 0 <= i < wanted@.len() && texts(tags@).contains(#[trigger] wanted@[i]@),
{
    let mut i: usize = 0;
    while i < wanted.len()
        invariant
            i <= wanted@.len(),
            forall|k: int| 0 <= k < i ==> !texts(tags@).contains(#[trigger] wanted@[k]@),
        decreases wanted@.len() - i,
    {
        let mut j: usize = 0;
        let mut hit = false;
        while j < tags.len()
            invariant
                j <= tags@.len(),
                i < wanted@.len(),
                hit == exists|m: int| 0 <= m < j && tags@[m]@ == wanted@[i as int]@,
            decreases tags@.len() - j,
        {
            if str_eq(tags[j].as_str(), wanted[i].as_str()) {
                hit = true;
            }
            j = j + 1;
        }
        proof {
            if hit {
                let m = choose|m: int| 0 <= m < tags@.len() && tags@[m]@ == wanted@[i as int]@;
                assert(texts(tags@)[m] == wanted@[i as int]@);
            } else {
                if texts(tags@).contains(wanted@[i as int]@) {
                    let m = choose|m: int| 0 <= m < texts(tags@).len() && texts(tags@)[m] == wanted@[i as int]@;
                    assert(tags@[m]@ == wanted@[i as int]@);
                }
            }
        }
        if hit {
            return true;
        }
        i = i + 1;
    }
    false
}

/// Checks a snapshot against a query.
pub fn matches_query(snapshot: &SnapshotInfo, query: &SnapshotQuery) -> (b: bool)
    ensures
        b == snapshot_matches(*snapshot, *query),
{
    match &query.user_id {
        Some(u) => {
            if !str_eq(snapshot.user_id.as_str(), u.as_str()) {
                return false;
            }
        },
        None => {},
    }
    match &query.session_id {
        Some(sid) => {
            if !str_eq(snapshot.session_id.as_str(), sid.as_str()) {
                return false;
            }
        },
        None => {},
    }
    if query.tags.len() > 0 {
        if !some_tag_shared(&snapshot.tags, &query.tags) {
            return false;
        }
    }
    match query.date_range {
        Some((start, end)) => {
            if snapshot.created_at < start || snapshot.created_at > end {
                return false;
            }
        },
        None => {},
    }
    match &query.search_text {
        Some(t) => {
            let lower = to_lowercase(t.as_str());
            let nv = chars_of(lower.as_str());
            let in_name = lower_contains(snapshot.name.as_str(), &nv);
            proof {
                reveal_strlit("");
                assert(""@ =~= Seq::<char>::empty());
            }
            let in_desc = match &snapshot.description {
                Some(d) => lower_contains(d.as_str(), &nv),
                None => lower_contains("", &nv),
            };
            if !in_name && !in_desc {
                return false;
            }
        },
        None => {},
    }
    if !query.include_archived && snapshot.is_archived {
        return false;
    }
    if query.favorites_only && !snapshot.is_favorite {
        return false;
    }
    true
}

/// An order-preserving map of signed times onto unsigned keys.
pub open spec fn time_key(t: i64) -> u64 {
    (t as int - i64::MIN as int) as u64
}

fn time_key_exec(t: i64) -> (k: u64)
    ensures
        k == time_key(t),
{
    ((t as i128) - (i64::MIN as i128)) as u64
}

/// The sort keys of snapshots for a sort option (names are ordered as
/// text instead).
pub open spec fn sort_keys(infos: Seq<SnapshotInfo>, by: SnapshotSortBy) -> Seq<u64> {
    Seq::new(
        infos.len(),
        |i: int|
            match by {
                SnapshotSortBy::CreatedAt => time_key(infos[i].created_at),
                SnapshotSortBy::LastAccessed => time_key(infos[i].last_accessed),
                SnapshotSortBy::SizeBytes => infos[i].size_bytes as u64,
                SnapshotSortBy::MessageCount => infos[i].message_count as u64,
                SnapshotSortBy::Name => 0,
            },
    )
}

/// Whether `r` lists snapshots by name, alphabetically, as a stable sort
/// leaves them.
pub open spec fn ordered_by_name(infos: Seq<SnapshotInfo>, r: Seq<usize>) -> bool {
    forall|k: int, m: int|
        0 <= k < m < r.len() ==> {
            let c = text_order(infos[#[trigger] r[k] as int].name@, infos[#[trigger] r[m] as int].name@);
            c < 0 || (c == 0 && r[k] < r[m])
        }
}

/// Orders snapshots for listing as a stable sort does: newest created or
/// accessed first, largest first, most messages first, or by name
/// alphabetically.
pub fn snapshot_order(infos: &[SnapshotInfo], by: SnapshotSortBy) -> (r: Vec<usize>)
    ensures
        is_index_permutation(r@, infos@.len()),
        by != SnapshotSortBy::Name ==> ordered_by(sort_keys(infos@, by), r@, true),
        by == SnapshotSortBy::Name ==> ordered_by_name(infos@, r@),
{
    if by == SnapshotSortBy::Name {
        let mut values: Vec<SortValues> = Vec::new();
        let mut i: usize = 0;
        while i < infos.len()
            invariant
                i <= infos@.len(),
                values@.len() == i,
                forall|k: int| 0 <= k < i ==> (#[trigger] values@[k]).title@ == infos@[k].name@,
            decreases infos@.len() - i,
        {
            values.push(SortValues {
                relevance_rank: 0,
                started_at: 0,
                last_message_at: 0,
                message_count: 0,
                title: infos[i].name.clone(),
                user_id: String::new(),
            });
            i = i + 1;
        }
        let o = SearchSortOptions { primary: SortField::Title, secondary: None, direction: SortDirection::Ascending };
        let r = sort_results(values.as_slice(), &o);
        proof {
            assert forall|k: int, m: int| 0 <= k < m < r@.len() implies {
                let c = text_order(infos@[#[trigger] r@[k] as int].name@, infos@[#[trigger] r@[m] as int].name@);
                c < 0 || (c == 0 && r@[k] < r@[m])
            } by {
                assert(sorted_before(values@, o, r@[k], r@[m]));
            }
        }
        return r;
    }
    let mut keys: Vec<u64> = Vec::new();
    let mut i: usize = 0;
    while i < infos.len()
        invariant
            i <= infos@.len(),
            keys@ =~= sort_keys(infos@, by).subrange(0, i as int),
        decreases infos@.len() - i,
    {
        let k = match by {
            SnapshotSortBy::CreatedAt => time_key_exec(infos[i].created_at),
            SnapshotSortBy::LastAccessed => time_key_exec(infos[i].last_accessed),
            SnapshotSortBy::SizeBytes => infos[i].size_bytes as u64,
            SnapshotSortBy::MessageCount => infos[i].message_count as u64,
            SnapshotSortBy::Name => 0,
        };
        keys.push(k);
        i = i + 1;
    }
    assert(keys@ =~= sort_keys(infos@, by));
    stable_order(keys.as_slice(), true)
}

/// Which snapshots are evicted when more than `max_snapshots` are stored:
/// the least recently accessed ones, as many as are over the limit, in the
/// order of a stable sort by access time.
pub fn snapshots_to_evict(last_accessed: &[i64], max_snapshots: usize) -> (r: Vec<usize>)
    ensures
        last_accessed@.len() <= max_snapshots ==> r@.len() == 0,
        last_accessed@.len() > max_snapshots ==> {
            &&& r@.len() == last_accessed@.len() - max_snapshots
            &&& forall|k: int| 0 <= k < r@.len() ==> (#[trigger] r@[k]) < last_accessed@.len()
            &&& forall|k: int, m: int| 0 <= k < m < r@.len() ==> r@[k] != r@[m]
            &&& forall|k: int, d: int|
                #![trigger r@[k], last_accessed@[d]]
                0 <= k < r@.len() && 0 <= d < last_accessed@.len() && !r@.contains(d as usize)
                    ==> last_accessed@[r@[k] as int] <= last_accessed@[d]
        },
{
    let n = last_accessed.len();
    let mut r: Vec<usize> = Vec::new();
    if n <= max_snapshots {
        return r;
    }
    let mut keys: Vec<u64> = Vec::new();
    let mut i: usize = 0;
    while i < n
        invariant
            i <= n,
            n == last_accessed@.len(),
            keys@.len() == i,
            forall|k: int| 0 <= k < i ==> #[trigger] keys@[k] == time_key(last_accessed@[k]),
        decreases n - i,
    {
        keys.push(time_key_exec(last_accessed[i]));
        i = i + 1;
    }
    let order = stable_order(keys.as_slice(), false);
    let ghost o = order@;
    let to_remove = n - max_snapshots;
    let mut k: usize = 0;
    while k < to_remove
        invariant
            k <= to_remove,
            to_remove == n - max_snapshots,
            n == last_accessed@.len(),
            n == keys@.len(),
            o == order@,
            is_index_permutation(o, n as nat),
            r@ =~= o.subrange(0, k as int),
        decreases to_remove - k,
    {
        r.push(order[k]);
        k = k + 1;
    }
    proof {
        assert forall|kk: int, d: int|
            #![trigger r@[kk], last_accessed@[d]]
            0 <= kk < r@.len() && 0 <= d < last_accessed@.len() && !r@.contains(d as usize)
                implies last_accessed@[r@[kk] as int] <= last_accessed@[d] by {
            crate::window::lemma_permutation_covers(o, n as nat, d as usize);
            let pd = choose|j: int| 0 <= j < o.len() && o[j] == d as usize;
            if pd < to_remove {
                assert(r@[pd] == o[pd]);
                assert(r@.contains(d as usize));
            } else {
                assert(r@[kk] == o[kk]);
                assert(crate::select::precedes(keys@, o[kk], o[pd], false));
                assert(keys@[o[kk] as int] == time_key(last_accessed@[o[kk] as int]));
                assert(keys@[o[pd] as int] == time_key(last_accessed@[o[pd] as int]));
            }
        }
    }
    r
}

/// Storage statistics over the stored snapshots.
#[derive(Debug, Clone, Copy, PartialEq, Eq, Structural)]
pub struct SnapshotCounts {
    pub total_snapshots: usize,
    pub archived_snapshots: usize,
    pub favorite_snapshots: usize,
    pub total_storage_bytes: usize,
    pub average_snapshot_size: usize,
    pub oldest_snapshot: Option<i64>,
    pub newest_snapshot: Option<i64>,
}

/// How many of the first `n` snapshots satisfy `p`.
pub open spec fn count_where(infos: Seq<SnapshotInfo>, p: spec_fn(SnapshotInfo) -> bool, n: nat) -> nat
    decreases n,
{
    if n == 0 {
        0
    } else {
        count_where(infos, p, (n - 1) as nat) + if p(infos[n - 1]) { 1nat } else { 0nat }
    }
}

/// The total size of the first `n` snapshots.
pub open spec fn total_size(infos: Seq<SnapshotInfo>, n: nat) -> nat
    decreases n,
{
    if n == 0 {
        0
    } else {
        total_size(infos, (n - 1) as nat) + infos[n - 1].size_bytes as nat
    }
}

/// The earliest creation time among the first `n` snapshots.
pub open spec fn oldest_upto(infos: Seq<SnapshotInfo>, n: nat) -> Option<i64>
    decreases n,
{
    if n == 0 {
        None
    } else {
        match oldest_upto(infos, (n - 1) as nat) {
            Some(t) => Some(if infos[n - 1].created_at < t { infos[n - 1].created_at } else { t }),
            None => Some(infos[n - 1].created_at),
        }
    }
}

/// The latest creation time among the first `n` snapshots.
pub open spec fn newest_upto(infos: Seq<SnapshotInfo>, n: nat) -> Option<i64>
    decreases n,
{
    if n == 0 {
        None
    } else {
        match newest_upto(infos, (n - 1) as nat) {
            Some(t) => Some(if infos[n - 1].created_at > t { infos[n - 1].created_at } else { t }),
            None => Some(infos[n - 1].created_at),
        }
    }
}

proof fn lemma_count_le(infos: Seq<SnapshotInfo>, p: spec_fn(SnapshotInfo) -> bool, n: nat)
    ensures
        count_where(infos, p, n) <= n,
    decreases n,
{
    if n > 0 {
        lemma_count_le(infos, p, (n - 1) as nat);
    }
}

proof fn lemma_total_monotone(infos: Seq<SnapshotInfo>, a: nat, b: nat)
    requires
        a <= b,
    ensures
        total_size(infos, a) <= total_size(infos, b),
    decreases b - a,
{
    if a < b {
        lemma_total_monotone(infos, a, (b - 1) as nat);
    }
}

/// Counts, sizes and the date span of the stored snapshots. The total size
/// must fit in `usize`.
pub fn snapshot_counts(infos: &[SnapshotInfo]) -> (c: SnapshotCounts)
    requires
        total_size(infos@, infos@.len()) <= usize::MAX,
    ensures
        c.total_snapshots == infos@.len(),
        c.archived_snapshots == count_where(infos@, |s: SnapshotInfo| s.is_archived, infos@.len()),
        c.favorite_snapshots == count_where(infos@, |s: SnapshotInfo| s.is_favorite, infos@.len()),
        c.total_storage_bytes == total_size(infos@, infos@.len()),
        c.average_snapshot_size == if infos@.len() > 0 {
            total_size(infos@, infos@.len()) / infos@.len()
        } else {
            0
        },
        c.oldest_snapshot == oldest_upto(infos@, infos@.len()),
        c.newest_snapshot == newest_upto(infos@, infos@.len()),
{
    let ghost fa = |s: SnapshotInfo| s.is_archived;
    let ghost ff = |s: SnapshotInfo| s.is_favorite;
    let mut archived: usize = 0;
    let mut favorite: usize = 0;
    let mut total: usize = 0;
    let mut oldest: Option<i64> = None;
    let mut newest: Option<i64> = None;
    let mut i: usize = 0;
    while i < infos.len()
        invariant
            i <= infos@.len(),
            fa == |s: SnapshotInfo| s.is_archived,
            ff == |s: SnapshotInfo| s.is_favorite,
            total_size(infos@, infos@.len()) <= usize::MAX,
            archived == count_where(infos@, fa, i as nat),
            favorite == count_where(infos@, ff, i as nat),
            total == total_size(infos@, i as nat),
            oldest == oldest_upto(infos@, i as nat),
            newest == newest_upto(infos@, i as nat),
        decreases infos@.len() - i,
    {
        proof {
            lemma_count_le(infos@, fa, i as nat);
            lemma_count_le(infos@, ff, i as nat);
            lemma_total_monotone(infos@, (i + 1) as nat, infos@.len());
        }
        let s = &infos[i];
        if s.is_archived {
            archived = archived + 1;
        }
        if s.is_favorite {
            favorite = favorite + 1;
        }
        total = total + s.size_bytes;
        oldest = match oldest {
            Some(t) => Some(if s.created_at < t {
                s.created_at
            } else {
                t
            }),
            None => Some(s.created_at),
        };
        newest = match newest {
            Some(t) => Some(if s.created_at > t {
                s.created_at
            } else {
                t
            }),
            None => Some(s.created_at),
        };
        i = i + 1;
    }
    let n = infos.len();
    SnapshotCounts {
        total_snapshots: n,
        archived_snapshots: archived,
        favorite_snapshots: favorite,
        total_storage_bytes: total,
        average_snapshot_size: if n > 0 {
            total / n
        } else {
            0
        },
        oldest_snapshot: oldest,
        newest_snapshot: newest,
    }
}

/// The Markdown heading of the `i`-th message of a snapshot.
pub open spec fn snapshot_message_md(i: nat, m: InternalChatMessage) -> Seq<char> {
    "### Message "@ + decimal(i + 1) + match m {
        InternalChatMessage::System { content } => " (System)\n"@ + content@,
        InternalChatMessage::User { content } => " (User)\n"@ + content@,
        InternalChatMessage::Assistant { content, .. } => " (Assistant)\n"@ + content@,
        InternalChatMessage::Tool { tool_name, content, .. } => " (Tool: "@ + tool_name@ + ")\n"@ + content@,
    } + "\n\n"@
}

/// The messages of a snapshot in Markdown, the first `n`.
pub open spec fn snapshot_messages_md(ms: Seq<InternalChatMessage>, n: nat) -> Seq<char>
    decreases n,
{
    if n == 0 {
        Seq::empty()
    } else {
        snapshot_messages_md(ms, (n - 1) as nat) + snapshot_message_md((n - 1) as nat, ms[n - 1])
    }
}

/// The head of a snapshot's Markdown export.
pub open spec fn snapshot_md_head(s: SnapshotInfo, created: Seq<char>) -> Seq<char> {
    "# Context Snapshot: "@ + s.name@ + "\n\n"@ + "**Created:** "@ + created + "\n"@ + "**User:** "@ + s.user_id@
        + "\n"@ + "**Session:** "@ + s.session_id@ + "\n"@ + (match s.description {
        Some(d) => "**Description:** "@ + d@ + "\n"@,
        None => Seq::empty(),
    }) + (if s.tags@.len() > 0 {
        "**Tags:** "@ + joined(texts(s.tags@), ", "@) + "\n"@
    } else {
        Seq::empty()
    })
}

/// The Markdown export of a snapshot: its head, its messages numbered from
/// one, and the numbers of memory blocks and summaries when there are any.
pub open spec fn snapshot_markdown_text(
    s: SnapshotInfo,
    ms: Seq<InternalChatMessage>,
    memory_blocks: nat,
    summaries: nat,
) -> Seq<char> {
    snapshot_md_head(s, crate::conversation_export::utc_datetime_text(s.created_at as int))
        + "\n## Conversation Messages\n\n"@ + snapshot_messages_md(ms, ms.len()) + (if memory_blocks > 0 {
        "## Memory Blocks ("@ + decimal(memory_blocks) + ")\n\n"@
    } else {
        Seq::empty()
    }) + (if summaries > 0 {
        "## Conversation Summaries ("@ + decimal(summaries) + ")\n\n"@
    } else {
        Seq::empty()
    })
}

#[verifier::spinoff_prover]
fn push_snapshot_head(out: &mut Vec<char>, s: &SnapshotInfo, created: &str)
    ensures
        final(out)@ == old(out)@ + snapshot_md_head(*s, created@),
{
    let ghost start = out@;
    push_str(out, "# Context Snapshot: ");
    push_str(out, s.name.as_str());
    push_str(out, "\n\n");
    push_str(out, "**Created:** ");
    push_str(out, created);
    push_str(out, "\n");
    push_str(out, "**User:** ");
    push_str(out, s.user_id.as_str());
    push_str(out, "\n");
    push_str(out, "**Session:** ");
    push_str(out, s.session_id.as_str());
    push_str(out, "\n");
    match &s.description {
        Some(d) => {
            push_str(out, "**Description:** ");
            push_str(out, d.as_str());
            push_str(out, "\n");
        },
        None => {},
    }
    let ghost mid = out@;
    if s.tags.len() > 0 {
        push_str(out, "**Tags:** ");
        crate::conversation_export::push_joined(out, s.tags.as_slice(), ", ");
        push_str(out, "\n");
    }
    proof {
        assert(out@ =~= start + snapshot_md_head(*s, created@));
    }
}

/// Writes the Markdown export of a snapshot.
pub fn convert_snapshot_to_markdown(
    snapshot: &SnapshotInfo,
    messages: &[InternalChatMessage],
    memory_blocks: usize,
    summaries: usize,
) -> (r: String)
    ensures
        r@ == snapshot_markdown_text(*snapshot, messages@, memory_blocks as nat, summaries as nat),
{
    let mut out: Vec<char> = Vec::new();
    let created = crate::conversation_export::format_utc_datetime(snapshot.created_at);
    push_snapshot_head(&mut out, snapshot, created.as_str());
    push_str(&mut out, "\n## Conversation Messages\n\n");
    let ghost head = out@;
    let mut i: usize = 0;
    while i < messages.len()
        invariant
            i <= messages@.len(),
            out@ == head + snapshot_messages_md(messages@, i as nat),
        decreases messages@.len() - i,
    {
        let ghost before = out@;
        push_str(&mut out, "### Message ");
        push_digits((i as u128) + 1, 10, &mut out);
        match &messages[i] {
            InternalChatMessage::System { content } => {
                push_str(&mut out, " (System)\n");
                push_str(&mut out, content.as_str());
            },
            InternalChatMessage::User { content } => {
                push_str(&mut out, " (User)\n");
                push_str(&mut out, content.as_str());
            },
            InternalChatMessage::Assistant { content, .. } => {
                push_str(&mut out, " (Assistant)\n");
                push_str(&mut out, content.as_str());
            },
            InternalChatMessage::Tool { tool_name, content, .. } => {
                push_str(&mut out, " (Tool: ");
                push_str(&mut out, tool_name.as_str());
                push_str(&mut out, ")\n");
                push_str(&mut out, content.as_str());
            },
        }
        push_str(&mut out, "\n\n");
        proof {
            assert(out@ =~= before + snapshot_message_md(i as nat, messages@[i as int]));
        }
        i = i + 1;
    }
    let ghost body = out@;
    if memory_blocks > 0 {
        push_str(&mut out, "## Memory Blocks (");
        push_digits(memory_blocks as u128, 10, &mut out);
        push_str(&mut out, ")\n\n");
    }
    let ghost body2 = out@;
    if summaries > 0 {
        push_str(&mut out, "## Conversation Summaries (");
        push_digits(summaries as u128, 10, &mut out);
        push_str(&mut out, ")\n\n");
    }
    let r = string_from_chars(out.as_slice());
    assert(r@ =~= snapshot_markdown_text(*snapshot, messages@, memory_blocks as nat, summaries as nat));
    r
}


/// A fresh snapshot identifier: `snapshot_`, the current time in seconds,
/// `_`, and eight random hexadecimal digits.
pub fn new_snapshot_id() -> (s: String)
    ensures
        crate::utils::is_timestamped_id(s@, Some("snapshot"@)),
{
    crate::utils::generate_timestamped_id(Some("snapshot"))
}


/// The tags of the first `n` snapshots, in order.
pub open spec fn tags_upto(infos: Seq<SnapshotInfo>, n: nat) -> Seq<Seq<char>>
    decreases n,
{
    if n == 0 {
        seq![]
    } else {
        tags_upto(infos, (n - 1) as nat) + texts(infos[n - 1].tags@)
    }
}

/// All tags of the snapshots, in order, repeats included.
pub open spec fn all_tags(infos: Seq<SnapshotInfo>) -> Seq<Seq<char>> {
    tags_upto(infos, infos.len())
}

/// How often `t` occurs in `s`.
pub open spec fn occurrences(s: Seq<Seq<char>>, t: Seq<char>) -> nat
    decreases s.len(),
{
    if s.len() == 0 {
        0
    } else {
        occurrences(s.drop_last(), t) + if s.last() == t {
            1nat
        } else {
            0nat
        }
    }
}

/// Whether `r` counts the texts of `s`: one entry per distinct text, with
/// the number of its occurrences.
pub open spec fn counts_texts(r: Seq<(Seq<char>, nat)>, s: Seq<Seq<char>>) -> bool {
    &&& forall|a: int, b: int| 0 <= a < b < r.len() ==> (#[trigger] r[a]).0 != (#[trigger] r[b]).0
    &&& forall|a: int|
        0 <= a < r.len() ==> (#[trigger] r[a]).1 == occurrences(s, r[a].0) && s.contains(r[a].0)
    &&& forall|t: Seq<char>| #[trigger] s.contains(t) ==> exists|a: int| 0 <= a < r.len() && (#[trigger] r[a]).0 == t
}

proof fn lemma_occurrences_push(s: Seq<Seq<char>>, x: Seq<char>, t: Seq<char>)
    ensures
        occurrences(s.push(x), t) == occurrences(s, t) + if x == t {
            1nat
        } else {
            0nat
        },
{
    assert(s.push(x).drop_last() =~= s);
}

proof fn lemma_occurrences_bounds(s: Seq<Seq<char>>, t: Seq<char>)
    ensures
        occurrences(s, t) <= s.len(),
        !s.contains(t) ==> occurrences(s, t) == 0,
    decreases s.len(),
{
    if s.len() > 0 {
        lemma_occurrences_bounds(s.drop_last(), t);
        if !s.contains(t) {
            assert forall|k: int| 0 <= k < s.drop_last().len() implies s.drop_last()[k] != t by {
                assert(s.drop_last()[k] == s[k]);
            }
            assert(s[s.len() - 1] != t);
        }
    }
}

/// All tags of the snapshots as one list.
fn flatten_tags(infos: &[SnapshotInfo]) -> (r: Vec<String>)
    ensures
        texts(r@) == all_tags(infos@),
{
    let mut r: Vec<String> = Vec::new();
    let mut i: usize = 0;
    while i < infos.len()
        invariant
            i <= infos@.len(),
            texts(r@) == tags_upto(infos@, i as nat),
        decreases infos@.len() - i,
    {
        let tags = &infos[i].tags;
        let ghost base = texts(r@);
        let mut j: usize = 0;
        while j < tags.len()
            invariant
                j <= tags@.len(),
                tags@ == infos@[i as int].tags@,
                texts(r@) == base + texts(tags@.subrange(0, j as int)),
            decreases tags@.len() - j,
        {
            let ghost before = texts(r@);
            r.push(tags[j].clone());
            assert(texts(r@) =~= before.push(tags@[j as int]@));
            assert(texts(tags@.subrange(0, j as int + 1)) =~= texts(tags@.subrange(0, j as int)).push(tags@[j as int]@));
            assert(texts(r@) =~= base + texts(tags@.subrange(0, j as int + 1)));
            j = j + 1;
        }
        assert(tags@.subrange(0, tags@.len() as int) =~= tags@);
        i = i + 1;
    }
    r
}

/// Counts the texts of a list: one entry per distinct text, in order of
/// first occurrence.
fn count_texts(flat: &Vec<String>) -> (r: Vec<(String, usize)>)
    ensures
        counts_texts(crate::search::count_view(r@), texts(flat@)),
{
    let ghost all = texts(flat@);
    let mut r: Vec<(String, usize)> = Vec::new();
    let mut j: usize = 0;
    assert(all.subrange(0, 0) =~= Seq::<Seq<char>>::empty());
    while j < flat.len()
        invariant
            j <= flat@.len(),
            all == texts(flat@),
            counts_texts(crate::search::count_view(r@), all.subrange(0, j as int)),
            forall|a: int| 0 <= a < r@.len() ==> (#[trigger] r@[a]).1 <= j,
        decreases flat@.len() - j,
    {
        let ghost s = all.subrange(0, j as int);
        let ghost x = flat@[j as int]@;
        let ghost cv = crate::search::count_view(r@);
        assert(all.subrange(0, j as int + 1) =~= s.push(x));
        let tag = flat[j].as_str();
        let mut k: usize = 0;
        let mut found: Option<usize> = None;
        while k < r.len()
            invariant
                k <= r@.len(),
                cv == crate::search::count_view(r@),
                found is None ==> forall|a: int| 0 <= a < k ==> (#[trigger] cv[a]).0 != tag@,
                found is Some ==> found->0 < r@.len() && cv[found->0 as int].0 == tag@,
            decreases r@.len() - k,
        {
            if found.is_none() && str_eq(r[k].0.as_str(), tag) {
                found = Some(k);
            }
            k = k + 1;
        }
        match found {
            Some(k) => {
                let c = r[k].1;
                let name = r[k].0.clone();
                r.set(k, (name, c + 1));
                proof {
                    let nv = crate::search::count_view(r@);
                    assert(nv =~= cv.update(k as int, (x, cv[k as int].1 + 1)));
                    assert forall|a: int| 0 <= a < nv.len() implies (#[trigger] nv[a]).1 == occurrences(s.push(x), nv[a].0)
                        && s.push(x).contains(nv[a].0) by {
                        lemma_occurrences_push(s, x, nv[a].0);
                        assert(s.contains(cv[a].0));
                        let w = choose|w: int| 0 <= w < s.len() && s[w] == cv[a].0;
                        assert(s.push(x)[w] == cv[a].0);
                    }
                    assert forall|t: Seq<char>| #[trigger] s.push(x).contains(t) implies exists|a: int| 0 <= a < nv.len() && (#[trigger] nv[a]).0 == t by {
                        let w = choose|w: int| 0 <= w < s.push(x).len() && s.push(x)[w] == t;
                        if w < s.len() {
                            assert(s[w] == t);
                            assert(s.contains(t));
                            let a = choose|a: int| 0 <= a < cv.len() && (#[trigger] cv[a]).0 == t;
                            assert(nv[a].0 == t);
                        } else {
                            assert(nv[k as int].0 == t);
                        }
                    }
                    assert forall|a: int| 0 <= a < r@.len() implies (#[trigger] r@[a]).1 <= j + 1 by {
                        assert(nv[a].1 == r@[a].1);
                    }
                }
            },
            None => {
                proof {
                    if s.contains(x) {
                        let a = choose|a: int| 0 <= a < cv.len() && (#[trigger] cv[a]).0 == x;
                        assert(cv[a].0 != tag@);
                    }
                    lemma_occurrences_bounds(s, x);
                }
                r.push((flat[j].clone(), 1));
                proof {
                    let nv = crate::search::count_view(r@);
                    assert(nv =~= cv.push((x, 1)));
                    assert forall|a: int| 0 <= a < nv.len() implies (#[trigger] nv[a]).1 == occurrences(s.push(x), nv[a].0)
                        && s.push(x).contains(nv[a].0) by {
                        lemma_occurrences_push(s, x, nv[a].0);
                        if a < cv.len() {
                            assert(s.contains(cv[a].0));
                            let w = choose|w: int| 0 <= w < s.len() && s[w] == cv[a].0;
                            assert(s.push(x)[w] == cv[a].0);
                        } else {
                            assert(s.push(x)[s.len() as int] == x);
                        }
                    }
                    assert forall|t: Seq<char>| #[trigger] s.push(x).contains(t) implies exists|a: int| 0 <= a < nv.len() && (#[trigger] nv[a]).0 == t by {
                        let w = choose|w: int| 0 <= w < s.push(x).len() && s.push(x)[w] == t;
                        if w < s.len() {
                            assert(s[w] == t);
                            assert(s.contains(t));
                            let a = choose|a: int| 0 <= a < cv.len() && (#[trigger] cv[a]).0 == t;
                            assert(nv[a].0 == t);
                        } else {
                            assert(nv[cv.len() as int].0 == t);
                        }
                    }
                }
            },
        }
        j = j + 1;
    }
    assert(all.subrange(0, flat@.len() as int) =~= all);
    r
}

/// How often each tag is used across the snapshots: one entry per
/// distinct tag, in order of first use.
pub fn tag_counts(infos: &[SnapshotInfo]) -> (r: Vec<(String, usize)>)
    ensures
        counts_texts(crate::search::count_view(r@), all_tags(infos@)),
{
    let flat = flatten_tags(infos);
    count_texts(&flat)
}

/// The most used tags: at most ten, by use count from most to least
/// used, with their counts; when fewer than ten are listed, every tag is.
pub fn popular_tags(infos: &[SnapshotInfo]) -> (r: Vec<(String, usize)>)
    ensures
        ({
            let all = all_tags(infos@);
            let v = crate::search::count_view(r@);
            &&& v.len() <= 10
            &&& forall|a: int, b: int| 0 <= a < b < v.len() ==> (#[trigger] v[a]).0 != (#[trigger] v[b]).0
            &&& forall|a: int| 0 <= a < v.len() ==> (#[trigger] v[a]).1 == occurrences(all, v[a].0) && all.contains(v[a].0)
            &&& forall|a: int, b: int| 0 <= a < b < v.len() ==> (#[trigger] v[a]).1 >= (#[trigger] v[b]).1
            &&& forall|t: Seq<char>|
                #[trigger] all.contains(t) && (forall|a: int| 0 <= a < v.len() ==> (#[trigger] v[a]).0 != t) ==> {
                    &&& v.len() == 10
                    &&& forall|a: int| 0 <= a < v.len() ==> occurrences(all, t) <= (#[trigger] v[a]).1
                }
        }),
{
    let counts = tag_counts(infos);
    let ghost cv = crate::search::count_view(counts@);
    let mut keys: Vec<u64> = Vec::new();
    let mut i: usize = 0;
    while i < counts.len()
        invariant
            i <= counts@.len(),
            keys@.len() == i,
            forall|k: int| 0 <= k < i ==> (#[trigger] keys@[k]) as nat == counts@[k].1 as nat,
        decreases counts@.len() - i,
    {
        keys.push(counts[i].1 as u64);
        i = i + 1;
    }
    let order = stable_order(keys.as_slice(), true);
    let m: usize = if counts.len() < 10 {
        counts.len()
    } else {
        10
    };
    let mut r: Vec<(String, usize)> = Vec::new();
    let mut k: usize = 0;
    while k < m
        invariant
            k <= m,
            m <= 10,
            m <= counts@.len(),
            order@.len() == counts@.len(),
            keys@.len() == counts@.len(),
            forall|q: int| 0 <= q < order@.len() ==> (#[trigger] order@[q]) < counts@.len(),
            r@.len() == k,
            forall|q: int| 0 <= q < k ==> (#[trigger] r@[q]).0@ == counts@[order@[q] as int].0@ && r@[q].1 == counts@[order@[q] as int].1,
        decreases m - k,
    {
        let c = &counts[order[k]];
        r.push((c.0.clone(), c.1));
        k = k + 1;
    }
    proof {
        let all = all_tags(infos@);
        let v = crate::search::count_view(r@);
        assert forall|a: int, b: int| 0 <= a < b < v.len() implies (#[trigger] v[a]).1 >= (#[trigger] v[b]).1 by {
            assert(crate::select::precedes(keys@, order@[a], order@[b], true));
        }
        assert forall|a: int, b: int| 0 <= a < b < v.len() implies (#[trigger] v[a]).0 != (#[trigger] v[b]).0 by {
            assert(order@[a] != order@[b]);
            assert(cv[order@[a] as int].0 != cv[order@[b] as int].0 || order@[a] == order@[b]);
        }
        assert forall|a: int| 0 <= a < v.len() implies (#[trigger] v[a]).1 == occurrences(all, v[a].0) && all.contains(v[a].0) by {
            assert(cv[order@[a] as int].1 == occurrences(all, cv[order@[a] as int].0));
        }
        assert forall|t: Seq<char>| #[trigger] all.contains(t) && (forall|a: int| 0 <= a < v.len() ==> (#[trigger] v[a]).0 != t) implies {
            &&& v.len() == 10
            &&& forall|a: int| 0 <= a < v.len() ==> occurrences(all, t) <= (#[trigger] v[a]).1
        } by {
            let q = choose|q: int| 0 <= q < cv.len() && (#[trigger] cv[q]).0 == t;
            crate::window::lemma_permutation_covers(order@, counts@.len() as nat, q as usize);
            let p = choose|p: int| 0 <= p < order@.len() && order@[p] == q as usize;
            if p < m {
                assert(v[p].0 == t);
            }
            assert forall|a: int| 0 <= a < v.len() implies occurrences(all, t) <= (#[trigger] v[a]).1 by {
                assert(crate::select::precedes(keys@, order@[a], order@[p], true));
            }
        }
    }
    r
}

/// The storage used by user `u` among the first `n` snapshots.
pub open spec fn user_storage(infos: Seq<SnapshotInfo>, u: Seq<char>, n: nat) -> nat
    decreases n,
{
    if n == 0 {
        0
    } else {
        user_storage(infos, u, (n - 1) as nat) + if infos[n - 1].user_id@ == u {
            infos[n - 1].size_bytes as nat
        } else {
            0nat
        }
    }
}

proof fn lemma_user_storage_le_total(infos: Seq<SnapshotInfo>, u: Seq<char>, n: nat)
    requires
        n <= infos.len(),
    ensures
        user_storage(infos, u, n) <= total_size(infos, n),
    decreases n,
{
    if n > 0 {
        lemma_user_storage_le_total(infos, u, (n - 1) as nat);
    }
}

proof fn lemma_user_storage_is_key_total(infos: Seq<SnapshotInfo>, keys: Seq<Seq<char>>, sizes: Seq<u64>, u: Seq<char>, n: nat)
    requires
        n <= infos.len(),
        keys.len() == infos.len(),
        sizes.len() == infos.len(),
        forall|i: int| 0 <= i < infos.len() ==> keys[i] == (#[trigger] infos[i]).user_id@ && sizes[i] == infos[i].size_bytes as u64,
    ensures
        user_storage(infos, u, n) == crate::tally::key_total(keys, sizes, u, n),
        crate::tally::amount_total(sizes, n) == total_size(infos, n),
    decreases n,
{
    if n > 0 {
        lemma_user_storage_is_key_total(infos, keys, sizes, u, (n - 1) as nat);
        assert(keys[n - 1] == infos[n - 1].user_id@);
    }
}

#[verifier::rlimit(40)]
proof fn lemma_storage_table(
    infos: Seq<SnapshotInfo>,
    keys: Seq<Seq<char>>,
    sizes: Seq<u64>,
    tv: Seq<(Seq<char>, nat)>,
    v: Seq<(Seq<char>, nat)>,
)
    requires
        crate::tally::is_tally(tv, keys, sizes, infos.len() as nat),
        keys.len() == infos.len(),
        sizes.len() == infos.len(),
        forall|k: int| 0 <= k < infos.len() ==> keys[k] == (#[trigger] infos[k]).user_id@ && sizes[k] == infos[k].size_bytes as u64,
        v.len() == tv.len(),
        forall|a: int| 0 <= a < v.len() ==> (#[trigger] v[a]) == tv[a],
    ensures
        forall|a: int, b: int| 0 <= a < b < v.len() ==> (#[trigger] v[a]).0 != (#[trigger] v[b]).0,
        forall|a: int| 0 <= a < v.len() ==> (#[trigger] v[a]).1 == user_storage(infos, v[a].0, infos.len()),
        forall|i: int| 0 <= i < infos.len() ==> crate::tally::tally_keys(v).contains((#[trigger] infos[i]).user_id@),
        forall|a: int| 0 <= a < v.len() ==> snapshot_users(infos).contains((#[trigger] v[a]).0),
{
    assert forall|a: int, b: int| 0 <= a < b < v.len() implies (#[trigger] v[a]).0 != (#[trigger] v[b]).0 by {
        assert(v[a] == tv[a] && v[b] == tv[b]);
    }
    assert forall|a: int| 0 <= a < v.len() implies (#[trigger] v[a]).1 == user_storage(infos, v[a].0, infos.len()) by {
        assert(v[a] == tv[a]);
        lemma_user_storage_is_key_total(infos, keys, sizes, v[a].0, infos.len());
    }
    assert(crate::tally::tally_keys(v) =~= crate::tally::tally_keys(tv));
    assert(keys.subrange(0, infos.len() as int) =~= keys);
    assert(snapshot_users(infos) =~= keys);
    assert forall|i: int| 0 <= i < infos.len() implies crate::tally::tally_keys(v).contains((#[trigger] infos[i]).user_id@) by {
        assert(keys[i] == infos[i].user_id@);
    }
    assert forall|a: int| 0 <= a < v.len() implies snapshot_users(infos).contains((#[trigger] v[a]).0) by {
        assert(v[a] == tv[a]);
    }
}

/// The owners of the snapshots, in order.
pub open spec fn snapshot_users(infos: Seq<SnapshotInfo>) -> Seq<Seq<char>> {
    infos.map_values(|s: SnapshotInfo| s.user_id@)
}

/// Storage used per user: one entry per user owning a snapshot, in order
/// of first appearance, with the total size of that user's snapshots. The
/// total size must fit in `usize`.
pub fn storage_by_user(infos: &[SnapshotInfo]) -> (r: Vec<(String, usize)>)
    requires
        total_size(infos@, infos@.len()) <= usize::MAX,
    ensures
        ({
            let v = crate::search::count_view(r@);
            &&& forall|a: int, b: int| 0 <= a < b < v.len() ==> (#[trigger] v[a]).0 != (#[trigger] v[b]).0
            &&& forall|a: int| 0 <= a < v.len() ==> (#[trigger] v[a]).1 == user_storage(infos@, v[a].0, infos@.len())
            &&& forall|i: int| 0 <= i < infos@.len() ==> crate::tally::tally_keys(v).contains((#[trigger] infos@[i]).user_id@)
            &&& forall|a: int| 0 <= a < v.len() ==> snapshot_users(infos@).contains((#[trigger] v[a]).0)
        }),
{
    let mut users: Vec<String> = Vec::new();
    let mut sizes: Vec<u64> = Vec::new();
    let mut i: usize = 0;
    while i < infos.len()
        invariant
            i <= infos@.len(),
            users@.len() == i,
            sizes@.len() == i,
            forall|k: int| 0 <= k < i ==> (#[trigger] users@[k])@ == infos@[k].user_id@ && sizes@[k] == infos@[k].size_bytes as u64,
        decreases infos@.len() - i,
    {
        users.push(infos[i].user_id.clone());
        sizes.push(infos[i].size_bytes as u64);
        i = i + 1;
    }
    let ghost keys = texts(users@);
    proof {
        assert forall|k: int| 0 <= k < infos@.len() implies keys[k] == (#[trigger] infos@[k]).user_id@ && sizes@[k] == infos@[k].size_bytes as u64 by {
            assert(users@[k]@ == infos@[k].user_id@);
        }
        lemma_user_storage_is_key_total(infos@, keys, sizes@, Seq::empty(), infos@.len());
    }
    let totals = crate::tally::sum_by_key(users.as_slice(), sizes.as_slice());
    let ghost tv = crate::tally::tally_view(totals@);
    let mut r: Vec<(String, usize)> = Vec::new();
    let mut j: usize = 0;
    while j < totals.len()
        invariant
            j <= totals@.len(),
            tv == crate::tally::tally_view(totals@),
            crate::tally::is_tally(tv, keys, sizes@, infos@.len() as nat),
            keys.len() == infos@.len(),
            sizes@.len() == infos@.len(),
            forall|k: int| 0 <= k < infos@.len() ==> keys[k] == (#[trigger] infos@[k]).user_id@ && sizes@[k] == infos@[k].size_bytes as u64,
            total_size(infos@, infos@.len()) <= usize::MAX,
            r@.len() == j,
            forall|a: int| 0 <= a < j ==> (#[trigger] r@[a]).0@ == tv[a].0 && r@[a].1 as nat == tv[a].1,
        decreases totals@.len() - j,
    {
        proof {
            lemma_user_storage_is_key_total(infos@, keys, sizes@, tv[j as int].0, infos@.len());
            lemma_user_storage_le_total(infos@, tv[j as int].0, infos@.len());
        }
        r.push((totals[j].0.clone(), totals[j].1 as usize));
        j = j + 1;
    }
    proof {
        lemma_storage_table(infos@, keys, sizes@, tv, crate::search::count_view(r@));
    }
    r
}

} // verus!

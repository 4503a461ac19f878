//! Conversation search: filter and sort options, tag and date filters,
//! query terms, term indexing, result pages and search suggestions.

use vstd::prelude::*;
use crate::agents_api::texts;
use crate::conversation_export::ConversationMetadata;
use crate::text::{
    chars_of, is_alphanumeric, push_str, str_eq, string_from_chars, to_lowercase, unicode_alphanumeric,
    unicode_lowercase, words, split_words, byte_len,
};

verus! {

/// Status of a conversation, for filtering.
#[derive(Debug, Clone, Copy, PartialEq, Eq, Structural)]
pub enum ConversationStatus {
    Active,
    Archived,
    Completed,
    Paused,
    Deleted,
    Bookmarked,
    Important,
}

/// A range filter; each bound optional and inclusive.
#[derive(Debug)]
pub struct RangeFilter<T> {
    pub min: Option<T>,
    pub max: Option<T>,
}

/// Whether a count lies in a range filter.
pub open spec fn in_range(r: RangeFilter<usize>, v: usize) -> bool {
    (r.min is Some ==> v >= r.min->0) && (r.max is Some ==> v <= r.max->0)
}

/// Checks a count against a range filter.
pub fn count_in_range(range: &RangeFilter<usize>, value: usize) -> (b: bool)
    ensures
        b == in_range(*range, value),
{
    let lo = match range.min {
        Some(m) => value >= m,
        None => true,
    };
    let hi = match range.max {
        Some(m) => value <= m,
        None => true,
    };
    lo && hi
}

/// Tag filtering options.
#[derive(Debug)]
pub struct TagFilter {
    /// Tags that must all be present.
    pub required: Option<Vec<String>>,
    /// Tags of which at least one must be present.
    pub any_of: Option<Vec<String>>,
    /// Tags that must not be present.
    pub excluded: Option<Vec<String>>,
}

/// The view of an optional list of strings.
pub open spec fn opt_texts(o: Option<Vec<String>>) -> Option<Seq<Seq<char>>> {
    match o {
        Some(v) => Some(texts(v@)),
        None => None,
    }
}

/// Whether every one of `wanted` is among `tags`.
pub open spec fn all_present(tags: Seq<Seq<char>>, wanted: Seq<Seq<char>>) -> bool {
    forall|i: int| 0 <= i < wanted.len() ==> tags.contains(#[trigger] wanted[i])
}

/// Whether some one of `wanted` is among `tags`.
pub open spec fn any_present(tags: Seq<Seq<char>>, wanted: Seq<Seq<char>>) -> bool {
    exists|i: int| 0 <= i < wanted.len() && tags.contains(#[trigger] wanted[i])
}

/// Whether a conversation's tags pass a tag filter.
pub open spec fn tags_match(
    tags: Seq<Seq<char>>,
    required: Option<Seq<Seq<char>>>,
    any_of: Option<Seq<Seq<char>>>,
    excluded: Option<Seq<Seq<char>>>,
) -> bool {
    &&& (required is Some ==> all_present(tags, required->0))
    &&& (any_of is Some ==> any_present(tags, any_of->0))
    &&& (excluded is Some ==> !any_present(tags, excluded->0))
}

fn has_tag(tags: &[String], tag: &str) -> (b: bool)
    ensures
        b == texts(tags@).contains(tag@),
{
    let mut i: usize = 0;
    while i < tags.len()
        invariant
            i <= tags@.len(),
            forall|k: int| 0 <= k < i ==> tags@[k]@ != tag@,
        decreases tags@.len() - i,
    {
        if str_eq(tags[i].as_str(), tag) {
            assert(texts(tags@)[i as int] == tag@);
            return true;
        }
        i = i + 1;
    }
    proof {
        if texts(tags@).contains(tag@) {
            let k = choose|k: int| 0 <= k < texts(tags@).len() && texts(tags@)[k] == tag@;
            assert(tags@[k]@ == tag@);
        }
    }
    false
}

fn all_tags_present(tags: &[String], wanted: &Vec<String>) -> (b: bool)
    ensures
        b == all_present(texts(tags@), texts(wanted@)),
{
    let mut i: usize = 0;
    while i < wanted.len()
        invariant
            i <= wanted@.len(),
            forall|k: int| 0 <= k < i ==> texts(tags@).contains(#[trigger] texts(wanted@)[k]),
        decreases wanted@.len() - i,
    {
        let h = has_tag(tags, wanted[i].as_str());
        assert(texts(wanted@)[i as int] == wanted@[i as int]@);
        if !h {
            return false;
        }
        i = i + 1;
    }
    true
}

fn any_tag_present(tags: &[String], wanted: &Vec<String>) -> (b: bool)
    ensures
        b == any_present(texts(tags@), texts(wanted@)),
{
    let mut i: usize = 0;
    while i < wanted.len()
        invariant
            i <= wanted@.len(),
            forall|k: int| 0 <= k < i ==> !texts(tags@).contains(#[trigger] texts(wanted@)[k]),
        decreases wanted@.len() - i,
    {
        let h = has_tag(tags, wanted[i].as_str());
        assert(texts(wanted@)[i as int] == wanted@[i as int]@);
        if h {
            return true;
        }
        i = i + 1;
    }
    false
}

/// Checks a conversation's tags against a tag filter: all required tags,
/// at least one of the `any_of` tags, none of the excluded tags.
pub fn matches_tag_filter(tags: &[String], filter: &TagFilter) -> (b: bool)
    ensures
        b == tags_match(texts(tags@), opt_texts(filter.required), opt_texts(filter.any_of), opt_texts(filter.excluded)),
{
    let req_ok = match &filter.required {
        Some(req) => all_tags_present(tags, req),
        None => true,
    };
    let any_ok = match &filter.any_of {
        Some(any) => any_tag_present(tags, any),
        None => true,
    };
    let ex_ok = match &filter.excluded {
        Some(ex) => !any_tag_present(tags, ex),
        None => true,
    };
    req_ok && any_ok && ex_ok
}

/// Relative date ranges, reaching back from now (a custom range in
/// milliseconds).
#[derive(Debug, Clone, Copy, PartialEq, Eq, Structural)]
pub enum RelativeDateRange {
    Today,
    Yesterday,
    LastWeek,
    LastMonth,
    LastThreeMonths,
    LastYear,
    Custom(i64),
}

/// How far back a relative range reaches, in milliseconds.
pub open spec fn reach_back(r: RelativeDateRange) -> int {
    match r {
        RelativeDateRange::Today => 86_400_000int,
        RelativeDateRange::Yesterday => 172_800_000int,
        RelativeDateRange::LastWeek => 604_800_000int,
        RelativeDateRange::LastMonth => 2_592_000_000int,
        RelativeDateRange::LastThreeMonths => 7_776_000_000int,
        RelativeDateRange::LastYear => 31_536_000_000int,
        RelativeDateRange::Custom(ms) => ms as int,
    }
}

/// A date range filter (Unix milliseconds; bounds inclusive).
#[derive(Debug, Clone, Copy, PartialEq, Eq, Structural)]
pub struct DateRangeFilter {
    pub start: Option<i64>,
    pub end: Option<i64>,
    pub relative: Option<RelativeDateRange>,
}

/// Whether a date passes a date filter at time `now`: within the absolute
/// bounds, and no earlier than the relative range reaches back from now.
pub open spec fn date_matches(date: i64, f: DateRangeFilter, now: i64) -> bool {
    &&& (f.start is Some ==> date >= f.start->0)
    &&& (f.end is Some ==> date <= f.end->0)
    &&& (f.relative is Some ==> date >= now - reach_back(f.relative->0))
}

/// Checks a date against a date filter at time `now`.
pub fn matches_date_range(date: i64, filter: &DateRangeFilter, now: i64) -> (b: bool)
    ensures
        b == date_matches(date, *filter, now),
{
    match filter.start {
        Some(s) => {
            if date < s {
                return false;
            }
        },
        None => {},
    }
    match filter.end {
        Some(e) => {
            if date > e {
                return false;
            }
        },
        None => {},
    }
    match filter.relative {
        Some(r) => {
            let back: i128 = match r {
                RelativeDateRange::Today => 86_400_000,
                RelativeDateRange::Yesterday => 172_800_000,
                RelativeDateRange::LastWeek => 604_800_000,
                RelativeDateRange::LastMonth => 2_592_000_000,
                RelativeDateRange::LastThreeMonths => 7_776_000_000,
                RelativeDateRange::LastYear => 31_536_000_000,
                RelativeDateRange::Custom(ms) => ms as i128,
            };
            (date as i128) >= (now as i128) - back
        },
        None => true,
    }
}

/// The filters applied to conversation search results.
#[derive(Debug)]
pub struct ResultFilters {
    pub user_ids: Option<Vec<String>>,
    pub date_range: Option<DateRangeFilter>,
    pub message_count_range: Option<RangeFilter<usize>>,
    pub tags: Option<TagFilter>,
}

/// Whether a conversation passes the result filters at time `now`: its
/// user among the given ones, its start within the date range, its message
/// count within range, and its tags through the tag filter.
pub open spec fn passes_filters(c: ConversationMetadata, f: ResultFilters, now: i64) -> bool {
    &&& (f.user_ids matches Some(ids) ==> texts(ids@).contains(c.user_id@))
    &&& (f.date_range matches Some(d) ==> date_matches(c.started_at, d, now))
    &&& (f.message_count_range matches Some(r) ==> in_range(r, c.message_count))
    &&& (f.tags matches Some(t) ==> tags_match(texts(c.tags@), opt_texts(t.required), opt_texts(t.any_of), opt_texts(t.excluded)))
}

/// The positions among the first `n` conversations that pass the filters.
pub open spec fn passing_positions(cs: Seq<ConversationMetadata>, f: ResultFilters, now: i64, n: nat) -> Seq<usize>
    decreases n,
{
    if n == 0 {
        seq![]
    } else {
        let rest = passing_positions(cs, f, now, (n - 1) as nat);
        if passes_filters(cs[n - 1], f, now) {
            rest.push((n - 1) as usize)
        } else {
            rest
        }
    }
}

fn user_listed(ids: &Vec<String>, user: &str) -> (b: bool)
    ensures
        b == texts(ids@).contains(user@),
{
    let mut i: usize = 0;
    while i < ids.len()
        invariant
            i <= ids@.len(),
            forall|k: int| 0 <= k < i ==> (#[trigger] ids@[k])@ != user@,
        decreases ids@.len() - i,
    {
        if str_eq(ids[i].as_str(), user) {
            assert(texts(ids@)[i as int] == user@);
            return true;
        }
        i = i + 1;
    }
    proof {
        if texts(ids@).contains(user@) {
            let k = choose|k: int| 0 <= k < texts(ids@).len() && texts(ids@)[k] == user@;
            assert(ids@[k]@ == user@);
        }
    }
    false
}

proof fn lemma_passing_positions(cs: Seq<ConversationMetadata>, f: ResultFilters, now: i64, n: nat)
    requires
        n <= cs.len(),
        cs.len() <= usize::MAX,
    ensures
        forall|k: int| 0 <= k < passing_positions(cs, f, now, n).len() ==> {
            let p = #[trigger] passing_positions(cs, f, now, n)[k];
            p < n && passes_filters(cs[p as int], f, now)
        },
        forall|i: int| 0 <= i < n && passes_filters(cs[i], f, now) ==> passing_positions(cs, f, now, n).contains(i as usize),
    decreases n,
{
    if n > 0 {
        lemma_passing_positions(cs, f, now, (n - 1) as nat);
        let rest = passing_positions(cs, f, now, (n - 1) as nat);
        let all = passing_positions(cs, f, now, n);
        assert forall|k: int| 0 <= k < all.len() implies {
            let p = #[trigger] all[k];
            p < n && passes_filters(cs[p as int], f, now)
        } by {
            if k < rest.len() {
                assert(all[k] == rest[k]);
            } else {
                assert(passes_filters(cs[n - 1], f, now));
                assert(all[k] == (n - 1) as usize);
            }
        }
        assert forall|i: int| 0 <= i < n && passes_filters(cs[i], f, now) implies all.contains(i as usize) by {
            if i < n - 1 {
                assert(rest.contains(i as usize));
                let k = choose|k: int| 0 <= k < rest.len() && rest[k] == i as usize;
                assert(all[k] == rest[k]);
            } else {
                assert(all[rest.len() as int] == i as usize);
            }
        }
    }
}

/// Filtering keeps exactly the conversations that pass every given
/// filter: a kept conversation is one of the listed users', started within
/// the date range (`matches_date_range`), has a message count within the
/// range and tags that pass the tag filter; and every conversation that
/// passes all of them is kept.
pub proof fn law_filtered_conversations_pass(cs: Seq<ConversationMetadata>, f: ResultFilters, now: i64)
    requires
        cs.len() <= usize::MAX,
    ensures
        forall|k: int| 0 <= k < passing_positions(cs, f, now, cs.len()).len() ==> {
            let c = cs[#[trigger] passing_positions(cs, f, now, cs.len())[k] as int];
            &&& passing_positions(cs, f, now, cs.len())[k] < cs.len()
            &&& (f.user_ids matches Some(ids) ==> texts(ids@).contains(c.user_id@))
            &&& (f.date_range matches Some(d) ==> date_matches(c.started_at, d, now))
            &&& (f.message_count_range matches Some(rg) ==> in_range(rg, c.message_count))
            &&& (f.tags matches Some(t) ==> tags_match(
                texts(c.tags@),
                opt_texts(t.required),
                opt_texts(t.any_of),
                opt_texts(t.excluded),
            ))
        },
        forall|i: int|
            0 <= i < cs.len() && (f.user_ids matches Some(ids) ==> texts(ids@).contains(cs[i].user_id@)) && (
            f.date_range matches Some(d) ==> date_matches(cs[i].started_at, d, now)) && (f.message_count_range matches Some(
                rg,
            ) ==> in_range(rg, cs[i].message_count)) && (f.tags matches Some(t) ==> tags_match(
                texts(cs[i].tags@),
                opt_texts(t.required),
                opt_texts(t.any_of),
                opt_texts(t.excluded),
            )) ==> #[trigger] passing_positions(cs, f, now, cs.len()).contains(i as usize),
{
    lemma_passing_positions(cs, f, now, cs.len());
}

/// Keeps the search results that pass the filters, by position, in order.
pub fn apply_filters(conversations: &[ConversationMetadata], filters: &ResultFilters, now: i64) -> (r: Vec<usize>)
    ensures
        r@ == passing_positions(conversations@, *filters, now, conversations@.len()),
        forall|k: int| 0 <= k < r@.len() ==> {
            let c = conversations@[#[trigger] r@[k] as int];
            &&& r@[k] < conversations@.len()
            &&& (filters.user_ids matches Some(ids) ==> texts(ids@).contains(c.user_id@))
            &&& (filters.date_range matches Some(d) ==> date_matches(c.started_at, d, now))
            &&& (filters.message_count_range matches Some(rg) ==> in_range(rg, c.message_count))
        },
{
    let total = conversations.len();
    proof {
        assert(conversations@.len() == total);
        law_filtered_conversations_pass(conversations@, *filters, now);
    }
    let mut r: Vec<usize> = Vec::new();
    let mut i: usize = 0;
    while i < conversations.len()
        invariant
            i <= conversations@.len(),
            r@ == passing_positions(conversations@, *filters, now, i as nat),
        decreases conversations@.len() - i,
    {
        let c = &conversations[i];
        let users_ok = match &filters.user_ids {
            Some(ids) => user_listed(ids, c.user_id.as_str()),
            None => true,
        };
        let date_ok = match &filters.date_range {
            Some(d) => matches_date_range(c.started_at, d, now),
            None => true,
        };
        let count_ok = match &filters.message_count_range {
            Some(rg) => count_in_range(rg, c.message_count),
            None => true,
        };
        let tags_ok = match &filters.tags {
            Some(t) => matches_tag_filter(c.tags.as_slice(), t),
            None => true,
        };
        if users_ok && date_ok && count_ok && tags_ok {
            r.push(i);
        }
        i = i + 1;
    }
    r
}

/// Search scope options.
#[derive(Debug)]
pub enum SearchScope {
    All,
    MessageContent,
    Metadata,
    MemoryBlocks,
    Summaries,
    Fields(Vec<String>),
}

/// Fields results can be sorted by.
#[derive(Debug)]
pub enum SortField {
    Relevance,
    CreatedAt,
    LastMessageTime,
    MessageCount,
    TokenCount,
    Duration,
    Title,
    UserId,
    Property(String),
}

/// Sort direction.
#[derive(Debug, Clone, Copy, PartialEq, Eq, Structural)]
pub enum SortDirection {
    Ascending,
    Descending,
}

/// Result sorting options.
#[derive(Debug)]
pub struct SearchSortOptions {
    pub primary: SortField,
    pub secondary: Option<SortField>,
    pub direction: SortDirection,
}

impl Default for SearchSortOptions {
    fn default() -> (o: SearchSortOptions)
        ensures
            o.primary is Relevance,
            o.secondary is Some && o.secondary->0 is LastMessageTime,
            o.direction == SortDirection::Descending,
    {
        SearchSortOptions {
            primary: SortField::Relevance,
            secondary: Some(SortField::LastMessageTime),
            direction: SortDirection::Descending,
        }
    }
}

/// A highlighted match position.
#[derive(Debug)]
pub struct HighlightPosition {
    pub start: usize,
    pub end: usize,
    pub term: String,
}

/// Highlighted matches in one field.
#[derive(Debug)]
pub struct SearchHighlight {
    pub field: String,
    pub highlighted_text: String,
    pub positions: Vec<HighlightPosition>,
}

/// Kinds of search suggestions.
#[derive(Debug, Clone, Copy, PartialEq, Eq, Structural)]
pub enum SuggestionType {
    SpellingCorrection,
    QueryExpansion,
    FilterSuggestion,
    ScopeSuggestion,
    RelatedTerms,
}

/// The view of an optional string slice.
pub open spec fn opt_words(o: Option<&str>) -> Seq<Seq<char>> {
    match o {
        Some(s) => words(s@),
        None => Seq::empty(),
    }
}

fn push_words(out: &mut Vec<String>, s: &str)
    ensures
        texts(final(out)@) == texts(old(out)@) + words(s@),
{
    let ws = split_words(s);
    let ghost start = out@;
    let mut i: usize = 0;
    while i < ws.len()
        invariant
            i <= ws@.len(),
            ws@.len() == words(s@).len(),
            forall|k: int| 0 <= k < ws@.len() ==> (#[trigger] ws@[k])@ == words(s@)[k],
            texts(out@) =~= texts(start) + words(s@).subrange(0, i as int),
        decreases ws@.len() - i,
    {
        let ghost prev = out@;
        let w = ws[i].clone();
        out.push(w);
        proof {
            assert(out@ == prev.push(w));
            assert(texts(out@) =~= texts(prev).push(w@));
            assert(words(s@).subrange(0, i + 1) =~= words(s@).subrange(0, i as int).push(words(s@)[i as int]));
        }
        i = i + 1;
    }
    assert(words(s@).subrange(0, ws@.len() as int) =~= words(s@));
}

/// The terms of a search: the words of the text query, then the words of
/// the semantic query.
pub fn extract_query_terms(text_query: Option<&str>, semantic_query: Option<&str>) -> (r: Vec<String>)
    ensures
        texts(r@) == opt_words(text_query) + opt_words(semantic_query),
{
    let mut r: Vec<String> = Vec::new();
    match text_query {
        Some(t) => push_words(&mut r, t),
        None => {},
    }
    match semantic_query {
        Some(s) => push_words(&mut r, s),
        None => {},
    }
    assert(texts(r@) =~= opt_words(text_query) + opt_words(semantic_query));
    r
}

/// The suggestions for a search: broader terms when a text search found
/// fewer than three results, more filters when there are more than fifty.
pub open spec fn suggestions_for(result_count: nat, has_text_query: bool) -> Seq<(SuggestionType, Seq<char>)> {
    (if result_count < 3 && has_text_query {
        seq![(SuggestionType::QueryExpansion, "Try broader search terms or remove some filters"@)]
    } else {
        Seq::empty()
    }) + (if result_count > 50 {
        seq![(SuggestionType::FilterSuggestion, "Try adding date or user filters to narrow results"@)]
    } else {
        Seq::empty()
    })
}

/// Suggests how to improve a search from its number of results.
pub fn generate_suggestions(result_count: usize, has_text_query: bool) -> (r: Vec<(SuggestionType, String)>)
    ensures
        Seq::new(r@.len(), |i: int| (r@[i].0, r@[i].1@)) == suggestions_for(result_count as nat, has_text_query),
{
    let mut r: Vec<(SuggestionType, String)> = Vec::new();
    if result_count < 3 && has_text_query {
        r.push((SuggestionType::QueryExpansion, "Try broader search terms or remove some filters".to_string()));
    }
    if result_count > 50 {
        r.push((SuggestionType::FilterSuggestion, "Try adding date or user filters to narrow results".to_string()));
    }
    assert(Seq::new(r@.len(), |i: int| (r@[i].0, r@[i].1@)) =~= suggestions_for(result_count as nat, has_text_query));
    r
}

/// The window of results returned: skip `offset` (all of them when the
/// offset reaches the end), then keep at most `limit`.
pub open spec fn page_window(total: nat, offset: Option<usize>, limit: Option<usize>) -> (nat, nat) {
    let start: nat = match offset {
        Some(o) => if o < total { o as nat } else { total },
        None => 0,
    };
    let rest = (total - start) as nat;
    let count: nat = match limit {
        Some(l) => if l < rest { l as nat } else { rest },
        None => rest,
    };
    (start, start + count)
}

/// Computes the window `[start, end)` of the results returned.
pub fn result_page(total: usize, offset: Option<usize>, limit: Option<usize>) -> (r: (usize, usize))
    ensures
        (r.0 as nat, r.1 as nat) == page_window(total as nat, offset, limit),
        r.0 <= r.1 <= total,
{
    let start = match offset {
        Some(o) => if o < total {
            o
        } else {
            total
        },
        None => 0,
    };
    let rest = total - start;
    let count = match limit {
        Some(l) => if l < rest {
            l
        } else {
            rest
        },
        None => rest,
    };
    (start, start + count)
}

/// A page never holds more than the limit or reaches past the results.
pub proof fn law_page_within_bounds(total: nat, offset: Option<usize>, limit: Option<usize>)
    ensures
        page_window(total, offset, limit).0 <= page_window(total, offset, limit).1 <= total,
        limit is Some ==> page_window(total, offset, limit).1 - page_window(total, offset, limit).0 <= limit->0,
{
}

/// Removes leading characters that are not alphanumeric.
pub open spec fn trim_start_nonalnum(s: Seq<char>) -> Seq<char>
    decreases s.len(),
{
    if s.len() > 0 && !unicode_alphanumeric(s[0]) {
        trim_start_nonalnum(s.drop_first())
    } else {
        s
    }
}

/// Removes trailing characters that are not alphanumeric.
pub open spec fn trim_end_nonalnum(s: Seq<char>) -> Seq<char>
    decreases s.len(),
{
    if s.len() > 0 && !unicode_alphanumeric(s.last()) {
        trim_end_nonalnum(s.drop_last())
    } else {
        s
    }
}

/// A word stripped of surrounding punctuation.
pub open spec fn index_term(w: Seq<char>) -> Seq<char> {
    trim_end_nonalnum(trim_start_nonalnum(w))
}

/// The indexed terms of the first `n` words, with their word positions:
/// each word stripped of surrounding punctuation, kept when it is longer
/// than two bytes.
pub open spec fn index_terms_upto(ws: Seq<Seq<char>>, n: nat) -> Seq<(Seq<char>, nat)>
    decreases n,
{
    if n == 0 {
        Seq::empty()
    } else {
        let t = index_term(ws[n - 1]);
        index_terms_upto(ws, (n - 1) as nat) + if byte_len(t) > 2 {
            seq![(t, (n - 1) as nat)]
        } else {
            Seq::empty()
        }
    }
}

/// The indexed terms of a message: its lower-cased words stripped of
/// surrounding punctuation, those longer than two bytes, with positions.
pub open spec fn message_terms(content: Seq<char>) -> Seq<(Seq<char>, nat)> {
    let ws = words(unicode_lowercase(content));
    index_terms_upto(ws, ws.len())
}

fn strip_nonalnum(w: &str) -> (r: String)
    ensures
        r@ == index_term(w@),
{
    let v = chars_of(w);
    let n = v.len();
    let mut lo: usize = 0;
    assert(v@.subrange(0, n as int) =~= v@);
    while lo < n && !is_alphanumeric(v[lo])
        invariant
            v@ == w@,
            n == v@.len(),
            lo <= n,
            trim_start_nonalnum(v@) == trim_start_nonalnum(v@.subrange(lo as int, n as int)),
        decreases n - lo,
    {
        assert(v@.subrange(lo as int, n as int).drop_first() =~= v@.subrange(lo as int + 1, n as int));
        lo = lo + 1;
    }
    assert(trim_start_nonalnum(v@.subrange(lo as int, n as int)) == v@.subrange(lo as int, n as int));
    let mut hi: usize = n;
    while hi > lo && !is_alphanumeric(v[hi - 1])
        invariant
            v@ == w@,
            n == v@.len(),
            lo <= hi <= n,
            index_term(v@) == trim_end_nonalnum(v@.subrange(lo as int, hi as int)),
        decreases hi - lo,
    {
        assert(v@.subrange(lo as int, hi as int).drop_last() =~= v@.subrange(lo as int, hi as int - 1));
        hi = hi - 1;
    }
    let mut r: Vec<char> = Vec::new();
    let mut i: usize = lo;
    while i < hi
        invariant
            n == v@.len(),
            lo <= i <= hi <= n,
            r@ == v@.subrange(lo as int, i as int),
        decreases hi - i,
    {
        r.push(v[i]);
        assert(r@ =~= v@.subrange(lo as int, i as int + 1));
        i = i + 1;
    }
    string_from_chars(r.as_slice())
}

/// The terms under which a message is indexed, with their word positions.
pub fn index_message_terms(content: &str) -> (r: Vec<(String, usize)>)
    ensures
        Seq::new(r@.len(), |i: int| (r@[i].0@, r@[i].1 as nat)) == message_terms(content@),
{
    let lower = to_lowercase(content);
    let ws = split_words(lower.as_str());
    let ghost wv = words(unicode_lowercase(content@));
    let mut r: Vec<(String, usize)> = Vec::new();
    let mut i: usize = 0;
    while i < ws.len()
        invariant
            i <= ws@.len(),
            wv == words(lower@),
            ws@.len() == wv.len(),
            forall|k: int| 0 <= k < ws@.len() ==> (#[trigger] ws@[k])@ == wv[k],
            Seq::new(r@.len(), |j: int| (r@[j].0@, r@[j].1 as nat)) =~= index_terms_upto(wv, i as nat),
        decreases ws@.len() - i,
    {
        let t = strip_nonalnum(ws[i].as_str());
        let ghost before = r@;
        if t.as_str().as_bytes().len() > 2 {
            r.push((t, i));
        }
        proof {
            assert(ws@[i as int]@ == wv[i as int]);
            assert(Seq::new(r@.len(), |j: int| (r@[j].0@, r@[j].1 as nat)) =~= index_terms_upto(wv, (i + 1) as nat));
        }
        i = i + 1;
    }
    r
}

/// The term counts after counting the words of `terms[..n]`: a known term
/// adds one to its first entry, a new term is appended with count one.
pub open spec fn counted_terms(popular: Seq<(Seq<char>, nat)>, terms: Seq<Seq<char>>, n: nat) -> Seq<(Seq<char>, nat)>
    decreases n,
{
    if n == 0 {
        popular
    } else {
        let p = counted_terms(popular, terms, (n - 1) as nat);
        let t = terms[n - 1];
        match first_entry(p, t, p.len()) {
            Some(k) => p.update(k as int, (t, p[k as int].1 + 1)),
            None => p.push((t, 1)),
        }
    }
}

/// The first entry among the first `n` whose term is `t`.
pub open spec fn first_entry(p: Seq<(Seq<char>, nat)>, t: Seq<char>, n: nat) -> Option<nat>
    decreases n,
{
    if n == 0 {
        None
    } else {
        match first_entry(p, t, (n - 1) as nat) {
            Some(k) => Some(k),
            None => if p[n - 1].0 == t {
                Some((n - 1) as nat)
            } else {
                None
            },
        }
    }
}

/// The view of a term count table.
pub open spec fn count_view(v: Seq<(String, usize)>) -> Seq<(Seq<char>, nat)> {
    Seq::new(v.len(), |i: int| (v[i].0@, v[i].1 as nat))
}

proof fn lemma_first_entry(p: Seq<(Seq<char>, nat)>, t: Seq<char>, n: nat)
    requires
        n <= p.len(),
    ensures
        first_entry(p, t, n) is Some ==> first_entry(p, t, n)->0 < n && p[first_entry(p, t, n)->0 as int].0 == t,
        first_entry(p, t, n) is None ==> forall|k: int| 0 <= k < n ==> #[trigger] p[k].0 != t,
        first_entry(p, t, n) is Some ==> forall|k: int| 0 <= k < first_entry(p, t, n)->0 ==> #[trigger] p[k].0 != t,
    decreases n,
{
    if n > 0 {
        lemma_first_entry(p, t, (n - 1) as nat);
    }
}

/// Counts the words of a search text into the term counts. Counts must
/// leave room for the words counted.
pub fn count_query_terms(popular: &mut Vec<(String, usize)>, text_query: &str)
    requires
        forall|k: int| 0 <= k < old(popular)@.len() ==> (#[trigger] old(popular)@[k]).1 + words(text_query@).len() <= usize::MAX,
    ensures
        count_view(final(popular)@) == counted_terms(count_view(old(popular)@), words(text_query@), words(text_query@).len()),
{
    let ws = split_words(text_query);
    let ghost tv = words(text_query@);
    let ghost start = count_view(popular@);
    let mut i: usize = 0;
    while i < ws.len()
        invariant
            i <= ws@.len(),
            ws@.len() == tv.len(),
            tv == words(text_query@),
            forall|k: int| 0 <= k < ws@.len() ==> (#[trigger] ws@[k])@ == tv[k],
            count_view(popular@) == counted_terms(start, tv, i as nat),
            start.len() <= popular@.len(),
            forall|k: int| 0 <= k < start.len() ==> start[k].1 + tv.len() <= usize::MAX,
            forall|k: int| 0 <= k < start.len() ==> (#[trigger] popular@[k]).1 <= start[k].1 + i,
            forall|k: int| start.len() <= k < popular@.len() ==> (#[trigger] popular@[k]).1 <= i,
        decreases ws@.len() - i,
    {
        let term = ws[i].as_str();
        let ghost p = count_view(popular@);
        let mut j: usize = 0;
        let mut found: Option<usize> = None;
        while j < popular.len()
            invariant
                j <= popular@.len(),
                p == count_view(popular@),
                found is None ==> first_entry(p, term@, j as nat) is None,
                found is Some ==> first_entry(p, term@, j as nat) == Some(found->0 as nat) && found->0 < j,
            decreases popular@.len() - j,
        {
            if found.is_none() && str_eq(popular[j].0.as_str(), term) {
                found = Some(j);
            }
            j = j + 1;
        }
        proof {
            assert(ws@[i as int]@ == tv[i as int]);
            lemma_first_entry(p, term@, p.len());
        }
        let ghost old_pop = popular@;
        match found {
            Some(k) => {
                let c = popular[k].1;
                let name = popular[k].0.clone();
                proof {
                    if k < start.len() {
                        assert(popular@[k as int].1 <= start[k as int].1 + i);
                    } else {
                        assert(popular@[k as int].1 <= i);
                    }
                }
                popular.set(k, (name, c + 1));
                proof {
                    assert(p[k as int].0 == term@);
                    assert(count_view(popular@) =~= p.update(k as int, (term@, p[k as int].1 + 1)));
                }
            },
            None => {
                popular.push((term.to_string(), 1));
                proof {
                    assert(count_view(popular@) =~= p.push((term@, 1)));
                }
            },
        }
        proof {
            assert(count_view(popular@) == counted_terms(start, tv, (i + 1) as nat));
            assert forall|k: int| 0 <= k < start.len() implies (#[trigger] popular@[k]).1 <= start[k].1 + i + 1 by {
                assert(old_pop[k].1 <= start[k].1 + i);
            }
            assert forall|k: int| start.len() <= k < popular@.len() implies (#[trigger] popular@[k]).1 <= i + 1 by {
                if k < old_pop.len() {
                    assert(old_pop[k].1 <= i);
                }
            }
        }
        i = i + 1;
    }
}

} // verus!

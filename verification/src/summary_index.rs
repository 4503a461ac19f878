//! The summaries kept by the summarizer: finding them by topic or by text,
//! how often each topic occurs, the totals of the analytics, and the hour
//! of the day at which most summaries were made. Times are Unix
//! milliseconds; compression ratios (floating point) stay with the caller.

use vstd::prelude::*;
use crate::agents_api::texts;
use crate::tally::{is_tally, sum_by_key, tally_view};
use crate::text::{chars_of, contains_text, text_contains, to_lowercase, unicode_lowercase};

verus! {

/// What the summarizer keeps of a summary.
#[derive(Debug)]
pub struct SummaryRecord {
    pub summary_text: String,
    pub topics: Vec<String>,
    pub key_facts: Vec<String>,
    pub created_at: i64,
    pub original_message_count: usize,
    /// Tokens spent making the summary, when recorded.
    pub tokens_used: Option<u32>,
}

/// The positions among the first `n` records that satisfy `p`, in order.
pub open spec fn positions_where(records: Seq<SummaryRecord>, p: spec_fn(SummaryRecord) -> bool, n: nat) -> Seq<usize>
    decreases n,
{
    if n == 0 {
        seq![]
    } else {
        let rest = positions_where(records, p, (n - 1) as nat);
        if p(records[n - 1]) {
            rest.push((n - 1) as usize)
        } else {
            rest
        }
    }
}

/// Whether some topic of a summary contains `topic`.
pub open spec fn has_topic(s: SummaryRecord, topic: Seq<char>) -> bool {
    exists|k: int| 0 <= k < s.topics@.len() && contains_text(#[trigger] s.topics@[k]@, topic)
}

/// Whether some text of `v`, lower-cased, contains `q`.
pub open spec fn any_lower_contains(v: Seq<String>, q: Seq<char>) -> bool {
    exists|k: int| 0 <= k < v.len() && contains_text(unicode_lowercase(#[trigger] v[k]@), q)
}

/// Whether a summary matches a search: its text, a key fact or a topic
/// contains the query, all compared lower-cased.
pub open spec fn summary_matches(s: SummaryRecord, query: Seq<char>) -> bool {
    let q = unicode_lowercase(query);
    contains_text(unicode_lowercase(s.summary_text@), q) || any_lower_contains(s.key_facts@, q)
        || any_lower_contains(s.topics@, q)
}

fn any_topic_contains(topics: &Vec<String>, topic: &[char]) -> (b: bool)
    ensures
        b == exists|k: int| 0 <= k < topics@.len() && contains_text(#[trigger] topics@[k]@, topic@),
{
    let mut i: usize = 0;
    while i < topics.len()
        invariant
            i <= topics@.len(),
            forall|k: int| 0 <= k < i ==> !contains_text(#[trigger] topics@[k]@, topic@),
        decreases topics@.len() - i,
    {
        let t = chars_of(topics[i].as_str());
        if text_contains(t.as_slice(), topic) {
            return true;
        }
        i = i + 1;
    }
    false
}

fn any_lower_contains_exec(v: &Vec<String>, q: &[char]) -> (b: bool)
    ensures
        b == any_lower_contains(v@, q@),
{
    let mut i: usize = 0;
    while i < v.len()
        invariant
            i <= v@.len(),
            forall|k: int| 0 <= k < i ==> !contains_text(unicode_lowercase(#[trigger] v@[k]@), q@),
        decreases v@.len() - i,
    {
        let l = to_lowercase(v[i].as_str());
        let lc = chars_of(l.as_str());
        if text_contains(lc.as_slice(), q) {
            return true;
        }
        i = i + 1;
    }
    false
}

/// The summaries with a topic containing `topic`, by position.
pub fn summaries_by_topic(records: &[SummaryRecord], topic: &str) -> (r: Vec<usize>)
    ensures
        r@ == positions_where(records@, |s: SummaryRecord| has_topic(s, topic@), records@.len()),
{
    let tc = chars_of(topic);
    let ghost p = |s: SummaryRecord| has_topic(s, topic@);
    let mut r: Vec<usize> = Vec::new();
    let mut i: usize = 0;
    while i < records.len()
        invariant
            i <= records@.len(),
            tc@ == topic@,
            p == (|s: SummaryRecord| has_topic(s, topic@)),
            r@ == positions_where(records@, p, i as nat),
        decreases records@.len() - i,
    {
        if any_topic_contains(&records[i].topics, tc.as_slice()) {
            r.push(i);
        }
        i = i + 1;
    }
    r
}

/// The summaries matching a search query, by position.
pub fn search_summaries(records: &[SummaryRecord], query: &str) -> (r: Vec<usize>)
    ensures
        r@ == positions_where(records@, |s: SummaryRecord| summary_matches(s, query@), records@.len()),
{
    let ql = to_lowercase(query);
    let q = chars_of(ql.as_str());
    let ghost p = |s: SummaryRecord| summary_matches(s, query@);
    let mut r: Vec<usize> = Vec::new();
    let mut i: usize = 0;
    while i < records.len()
        invariant
            i <= records@.len(),
            q@ == unicode_lowercase(query@),
            p == (|s: SummaryRecord| summary_matches(s, query@)),
            r@ == positions_where(records@, p, i as nat),
        decreases records@.len() - i,
    {
        let s = &records[i];
        let tl = to_lowercase(s.summary_text.as_str());
        let tcs = chars_of(tl.as_str());
        let m = text_contains(tcs.as_slice(), q.as_slice()) || any_lower_contains_exec(&s.key_facts, q.as_slice())
            || any_lower_contains_exec(&s.topics, q.as_slice());
        if m {
            r.push(i);
        }
        i = i + 1;
    }
    r
}

/// The topics of the first `n` summaries, in order, repeats included.
pub open spec fn topics_upto(records: Seq<SummaryRecord>, n: nat) -> Seq<Seq<char>>
    decreases n,
{
    if n == 0 {
        seq![]
    } else {
        topics_upto(records, (n - 1) as nat) + texts(records[n - 1].topics@)
    }
}

/// How often each topic occurs across the summaries: one entry per topic,
/// in order of first occurrence.
pub fn topic_frequency(records: &[SummaryRecord]) -> (r: Vec<(String, u64)>)
    requires
        topics_upto(records@, records@.len()).len() <= u64::MAX,
    ensures
        ({
            let all = topics_upto(records@, records@.len());
            is_tally(tally_view(r@), all, Seq::new(all.len(), |k: int| 1u64), all.len())
        }),
{
    let mut keys: Vec<String> = Vec::new();
    let mut i: usize = 0;
    while i < records.len()
        invariant
            i <= records@.len(),
            texts(keys@) == topics_upto(records@, i as nat),
        decreases records@.len() - i,
    {
        let topics = &records[i].topics;
        let ghost base = texts(keys@);
        let mut j: usize = 0;
        while j < topics.len()
            invariant
                j <= topics@.len(),
                topics@ == records@[i as int].topics@,
                texts(keys@) == base + texts(topics@.subrange(0, j as int)),
            decreases topics@.len() - j,
        {
            let ghost before = texts(keys@);
            keys.push(topics[j].clone());
            assert(texts(keys@) =~= before.push(topics@[j as int]@));
            assert(texts(topics@.subrange(0, j as int + 1)) =~= texts(topics@.subrange(0, j as int)).push(topics@[j as int]@));
            j = j + 1;
        }
        assert(topics@.subrange(0, topics@.len() as int) =~= topics@);
        i = i + 1;
    }
    let mut ones: Vec<u64> = Vec::new();
    let mut k: usize = 0;
    while k < keys.len()
        invariant
            k <= keys@.len(),
            ones@ == Seq::new(k as nat, |q: int| 1u64),
        decreases keys@.len() - k,
    {
        ones.push(1);
        assert(ones@ =~= Seq::new((k + 1) as nat, |q: int| 1u64));
        k = k + 1;
    }
    proof {
        lemma_ones_total(ones@.len());
    }
    sum_by_key(keys.as_slice(), ones.as_slice())
}

proof fn lemma_ones_total(n: nat)
    ensures
        crate::tally::amount_total(Seq::new(n, |k: int| 1u64), n) == n,
    decreases n,
{
    if n > 0 {
        lemma_ones_total((n - 1) as nat);
        let a = Seq::new(n, |k: int| 1u64);
        let b = Seq::new((n - 1) as nat, |k: int| 1u64);
        lemma_amount_total_same(a, b, (n - 1) as nat);
    }
}

proof fn lemma_amount_total_same(a: Seq<u64>, b: Seq<u64>, n: nat)
    requires
        n <= a.len(),
        n <= b.len(),
        forall|k: int| 0 <= k < n ==> a[k] == b[k],
    ensures
        crate::tally::amount_total(a, n) == crate::tally::amount_total(b, n),
    decreases n,
{
    if n > 0 {
        lemma_amount_total_same(a, b, (n - 1) as nat);
    }
}

/// The number of messages summarized by the first `n` summaries.
pub open spec fn messages_summarized(records: Seq<SummaryRecord>, n: nat) -> nat
    decreases n,
{
    if n == 0 {
        0
    } else {
        messages_summarized(records, (n - 1) as nat) + records[n - 1].original_message_count as nat
    }
}

/// The tokens recorded for the first `n` summaries.
pub open spec fn tokens_recorded(records: Seq<SummaryRecord>, n: nat) -> nat
    decreases n,
{
    if n == 0 {
        0
    } else {
        tokens_recorded(records, (n - 1) as nat) + match records[n - 1].tokens_used {
            Some(t) => t as nat,
            None => 0nat,
        }
    }
}

/// The totals of the summarization analytics: summaries, messages
/// summarized, and tokens used. The totals must fit their types.
pub fn summary_totals(records: &[SummaryRecord]) -> (r: (usize, usize, u32))
    requires
        messages_summarized(records@, records@.len()) <= usize::MAX,
        tokens_recorded(records@, records@.len()) <= u32::MAX,
    ensures
        r.0 == records@.len(),
        r.1 == messages_summarized(records@, records@.len()),
        r.2 == tokens_recorded(records@, records@.len()),
{
    let mut messages: usize = 0;
    let mut tokens: u32 = 0;
    let mut i: usize = 0;
    while i < records.len()
        invariant
            i <= records@.len(),
            messages_summarized(records@, records@.len()) <= usize::MAX,
            tokens_recorded(records@, records@.len()) <= u32::MAX,
            messages == messages_summarized(records@, i as nat),
            tokens == tokens_recorded(records@, i as nat),
        decreases records@.len() - i,
    {
        proof {
            lemma_totals_mono(records@, (i + 1) as nat, records@.len());
        }
        messages = messages + records[i].original_message_count;
        match records[i].tokens_used {
            Some(t) => tokens = tokens + t,
            None => {},
        }
        i = i + 1;
    }
    (records.len(), messages, tokens)
}

proof fn lemma_totals_mono(records: Seq<SummaryRecord>, a: nat, b: nat)
    requires
        a <= b,
    ensures
        messages_summarized(records, a) <= messages_summarized(records, b),
        tokens_recorded(records, a) <= tokens_recorded(records, b),
    decreases b - a,
{
    if a < b {
        lemma_totals_mono(records, a, (b - 1) as nat);
    }
}

/// The hour of the day, in UTC, of a time in milliseconds.
pub open spec fn utc_hour(ms: int) -> int {
    ((ms / 1000) % 86400) / 3600
}

/// The UTC hour of a time, from `chrono::DateTime::from_timestamp_millis`
/// and `Timelike::hour`. The claim, from chrono's source (days and seconds
/// are split with Euclidean division), is that the hour is the Euclidean
/// seconds of the day divided by 3600, for times within 8 * 10^15 ms of
/// the epoch, where the conversion succeeds.
#[verifier::external_body]
fn hour_of_millis(ms: i64) -> (h: u32)
    requires
        -8_000_000_000_000_000 <= ms <= 8_000_000_000_000_000,
    ensures
        h == utc_hour(ms as int),
{
    chrono::DateTime::from_timestamp_millis(ms).map(|d| chrono::Timelike::hour(&d)).unwrap_or(0)
}

/// How many of the first `n` summaries were made in hour `h`.
pub open spec fn summaries_in_hour(records: Seq<SummaryRecord>, h: int, n: nat) -> nat
    decreases n,
{
    if n == 0 {
        0
    } else {
        summaries_in_hour(records, h, (n - 1) as nat) + if utc_hour(records[n - 1].created_at as int) == h {
            1nat
        } else {
            0nat
        }
    }
}

/// The hour of the day (UTC) at which most summaries were made; `None`
/// without summaries. Among hours with equally many summaries, one of them.
/// Times must be within 8 * 10^15 ms of the epoch.
pub fn most_productive_hour(records: &[SummaryRecord]) -> (r: Option<u32>)
    requires
        forall|i: int|
            0 <= i < records@.len() ==> -8_000_000_000_000_000 <= (#[trigger] records@[i]).created_at
                <= 8_000_000_000_000_000,
    ensures
        records@.len() == 0 <==> r is None,
        r is Some ==> {
            &&& r->0 < 24
            &&& summaries_in_hour(records@, r->0 as int, records@.len()) > 0
            &&& forall|h: int| 0 <= h < 24 ==> #[trigger] summaries_in_hour(records@, h, records@.len()) <= summaries_in_hour(
                records@,
                r->0 as int,
                records@.len(),
            )
        },
{
    if records.len() == 0 {
        return None;
    }
    let mut counts: Vec<usize> = Vec::new();
    let mut h: usize = 0;
    while h < 24
        invariant
            h <= 24,
            counts@.len() == h,
            forall|g: int| 0 <= g < h ==> counts@[g] == 0,
        decreases 24 - h,
    {
        counts.push(0);
        h = h + 1;
    }
    let mut i: usize = 0;
    while i < records.len()
        invariant
            i <= records@.len(),
            counts@.len() == 24,
            forall|j: int|
                0 <= j < records@.len() ==> -8_000_000_000_000_000 <= (#[trigger] records@[j]).created_at
                    <= 8_000_000_000_000_000,
            forall|g: int| 0 <= g < 24 ==> #[trigger] counts@[g] == summaries_in_hour(records@, g, i as nat),
            forall|g: int| 0 <= g < 24 ==> #[trigger] counts@[g] <= i,
        decreases records@.len() - i,
    {
        let hr = hour_of_millis(records[i].created_at) as usize;
        assert(0 <= utc_hour(records@[i as int].created_at as int) < 24);
        let c = counts[hr];
        counts.set(hr, c + 1);
        i = i + 1;
    }
    let mut best: usize = 0;
    let mut g: usize = 1;
    while g < 24
        invariant
            1 <= g <= 24,
            best < g,
            counts@.len() == 24,
            forall|q: int| 0 <= q < g ==> counts@[q] <= counts@[best as int],
        decreases 24 - g,
    {
        if counts[g] > counts[best] {
            best = g;
        }
        g = g + 1;
    }
    proof {
        let h0 = utc_hour(records@[0].created_at as int);
        assert(0 <= h0 < 24);
        lemma_hour_counted(records@, 0, records@.len());
        assert(counts@[h0] > 0);
        assert(counts@[h0] <= counts@[best as int]);
        assert forall|h: int| 0 <= h < 24 implies #[trigger] summaries_in_hour(records@, h, records@.len())
            <= summaries_in_hour(records@, best as int, records@.len()) by {
            assert(counts@[h] <= counts@[best as int]);
        }
    }
    Some(best as u32)
}

proof fn lemma_hour_counted(records: Seq<SummaryRecord>, i: int, n: nat)
    requires
        0 <= i < n <= records.len(),
    ensures
        summaries_in_hour(records, utc_hour(records[i].created_at as int), n) > 0,
    decreases n,
{
    if i < n - 1 {
        lemma_hour_counted(records, i, (n - 1) as nat);
    }
}

} // verus!

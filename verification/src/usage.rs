//! Token usage records and their analysis: which records a filter keeps,
//! token totals over a time window, the hourly trend, per-provider and
//! per-operation totals, the sessions seen, and the token limit checks of a
//! budget. Times are Unix milliseconds; costs are kept by the caller.

use vstd::prelude::*;
use crate::agents_api::texts;
use crate::tally::{amount_total, is_tally, key_total, sum_by_key, tally_keys, tally_view};
use crate::text::{decimal, push_digits, push_str, str_eq, string_from_chars};

verus! {

/// One recorded use of the model.
#[derive(Debug)]
pub struct TokenUsage {
    pub input_tokens: u32,
    pub output_tokens: u32,
    pub total_tokens: u32,
    pub timestamp: i64,
    pub provider: String,
    pub model: String,
    pub operation_type: String,
    pub session_id: String,
    pub user_id: String,
}

/// A filter on usage records; each condition is optional.
#[derive(Debug)]
pub struct UsageFilter {
    pub provider: Option<String>,
    pub model: Option<String>,
    pub operation_type: Option<String>,
    pub session_id: Option<String>,
    pub user_id: Option<String>,
    /// Inclusive time bounds.
    pub date_range: Option<(i64, i64)>,
    pub min_tokens: Option<u32>,
    pub max_tokens: Option<u32>,
}

impl Default for UsageFilter {
    fn default() -> (f: UsageFilter)
        ensures
            f.provider is None,
            f.model is None,
            f.operation_type is None,
            f.session_id is None,
            f.user_id is None,
            f.date_range is None,
            f.min_tokens is None,
            f.max_tokens is None,
    {
        UsageFilter {
            provider: None,
            model: None,
            operation_type: None,
            session_id: None,
            user_id: None,
            date_range: None,
            min_tokens: None,
            max_tokens: None,
        }
    }
}

/// Whether an optional text condition admits a value.
pub open spec fn text_admits(cond: Option<String>, value: Seq<char>) -> bool {
    match cond {
        Some(c) => c@ == value,
        None => true,
    }
}

/// Whether a usage record passes a filter: every given text equal, the
/// time within the range, the total tokens within the bounds.
pub open spec fn usage_matches(f: UsageFilter, u: TokenUsage) -> bool {
    &&& text_admits(f.provider, u.provider@)
    &&& text_admits(f.model, u.model@)
    &&& text_admits(f.operation_type, u.operation_type@)
    &&& text_admits(f.session_id, u.session_id@)
    &&& text_admits(f.user_id, u.user_id@)
    &&& (f.date_range matches Some((start, end)) ==> start <= u.timestamp && u.timestamp <= end)
    &&& (f.min_tokens matches Some(m) ==> u.total_tokens >= m)
    &&& (f.max_tokens matches Some(m) ==> u.total_tokens <= m)
}

fn admits(cond: &Option<String>, value: &str) -> (b: bool)
    ensures
        b == text_admits(*cond, value@),
{
    match cond {
        Some(c) => str_eq(c.as_str(), value),
        None => true,
    }
}

/// A token count as reported (absent counts as zero), as a `u32`: a
/// negative or too large count wraps as `as u32` does.
pub open spec fn reported_count(c: Option<i32>) -> u32 {
    match c {
        Some(n) => n as u32,
        None => 0,
    }
}

impl TokenUsage {
    /// The usage record of one model call from the counts the model service
    /// reports (prompt, completion and total tokens), stamped now.
    pub fn from_genai_usage(
        prompt_tokens: Option<i32>,
        completion_tokens: Option<i32>,
        total_tokens: Option<i32>,
        provider: String,
        model: String,
        operation_type: String,
        session_id: String,
        user_id: String,
    ) -> (u: TokenUsage)
        ensures
            u.input_tokens == reported_count(prompt_tokens),
            u.output_tokens == reported_count(completion_tokens),
            u.total_tokens == reported_count(total_tokens),
            u.provider == provider,
            u.model == model,
            u.operation_type == operation_type,
            u.session_id == session_id,
            u.user_id == user_id,
    {
        let count = |c: Option<i32>| -> (r: u32)
            ensures
                r == reported_count(c),
        {
            match c {
                Some(n) => n as u32,
                None => 0,
            }
        };
        TokenUsage {
            input_tokens: count(prompt_tokens),
            output_tokens: count(completion_tokens),
            total_tokens: count(total_tokens),
            timestamp: crate::clock::utc_now_millis(),
            provider,
            model,
            operation_type,
            session_id,
            user_id,
        }
    }
}

impl UsageFilter {
    /// Whether a usage record passes this filter.
    pub fn matches(&self, usage: &TokenUsage) -> (b: bool)
        ensures
            b == usage_matches(*self, *usage),
            b ==> (self.session_id matches Some(s) ==> usage.session_id@ == s@),
            b ==> (self.user_id matches Some(s) ==> usage.user_id@ == s@),
            b ==> (self.provider matches Some(s) ==> usage.provider@ == s@),
            b ==> (self.model matches Some(s) ==> usage.model@ == s@),
            b ==> (self.operation_type matches Some(s) ==> usage.operation_type@ == s@),
    {
        if !admits(&self.provider, usage.provider.as_str()) || !admits(&self.model, usage.model.as_str())
            || !admits(&self.operation_type, usage.operation_type.as_str()) || !admits(
            &self.session_id,
            usage.session_id.as_str(),
        ) || !admits(&self.user_id, usage.user_id.as_str()) {
            return false;
        }
        if let Some((start, end)) = self.date_range {
            if usage.timestamp < start || usage.timestamp > end {
                return false;
            }
        }
        if let Some(m) = self.min_tokens {
            if usage.total_tokens < m {
                return false;
            }
        }
        if let Some(m) = self.max_tokens {
            if usage.total_tokens > m {
                return false;
            }
        }
        true
    }
}

/// The positions of the records a filter keeps, in order; all of them
/// without a filter.
pub open spec fn kept_positions(history: Seq<TokenUsage>, filter: Option<UsageFilter>, n: nat) -> Seq<usize>
    decreases n,
{
    if n == 0 {
        seq![]
    } else {
        let rest = kept_positions(history, filter, (n - 1) as nat);
        match filter {
            Some(f) => if usage_matches(f, history[n - 1]) {
                rest.push((n - 1) as usize)
            } else {
                rest
            },
            None => rest.push((n - 1) as usize),
        }
    }
}

proof fn lemma_kept_positions(history: Seq<TokenUsage>, filter: Option<UsageFilter>, n: nat)
    requires
        n <= history.len(),
        history.len() <= usize::MAX,
    ensures
        forall|k: int| 0 <= k < kept_positions(history, filter, n).len() ==> {
            let p = #[trigger] kept_positions(history, filter, n)[k];
            &&& p < n
            &&& (filter matches Some(f) ==> usage_matches(f, history[p as int]))
        },
    decreases n,
{
    if n > 0 {
        lemma_kept_positions(history, filter, (n - 1) as nat);
        let rest = kept_positions(history, filter, (n - 1) as nat);
        let all = kept_positions(history, filter, n);
        assert forall|k: int| 0 <= k < all.len() implies {
            let p = #[trigger] all[k];
            &&& p < n
            &&& (filter matches Some(f) ==> usage_matches(f, history[p as int]))
        } by {
            if k < rest.len() {
                assert(all[k] == rest[k]);
            } else {
                assert(all[k] == (n - 1) as usize);
            }
        }
    }
}

/// Every record a filter keeps has the filter's session, user, provider,
/// model and operation where the filter names them, its time within the
/// filter's range and its total tokens within the filter's bounds.
pub proof fn law_filtered_usage_matches(history: Seq<TokenUsage>, f: UsageFilter)
    requires
        history.len() <= usize::MAX,
    ensures
        forall|k: int| 0 <= k < kept_positions(history, Some(f), history.len()).len() ==> {
            let u = history[#[trigger] kept_positions(history, Some(f), history.len())[k] as int];
            &&& kept_positions(history, Some(f), history.len())[k] < history.len()
            &&& (f.session_id matches Some(s) ==> u.session_id@ == s@)
            &&& (f.user_id matches Some(s) ==> u.user_id@ == s@)
            &&& (f.provider matches Some(s) ==> u.provider@ == s@)
            &&& (f.model matches Some(s) ==> u.model@ == s@)
            &&& (f.operation_type matches Some(s) ==> u.operation_type@ == s@)
            &&& (f.date_range matches Some((start, end)) ==> start <= u.timestamp && u.timestamp <= end)
            &&& (f.min_tokens matches Some(m) ==> u.total_tokens >= m)
            &&& (f.max_tokens matches Some(m) ==> u.total_tokens <= m)
        },
{
    lemma_kept_positions(history, Some(f), history.len());
}

/// The usage history a filter keeps: the positions of the kept records,
/// in their order.
pub fn usage_history(history: &[TokenUsage], filter: Option<&UsageFilter>) -> (r: Vec<usize>)
    ensures
        r@ == kept_positions(
            history@,
            match filter {
                Some(f) => Some(*f),
                None => None,
            },
            history@.len(),
        ),
        forall|k: int| 0 <= k < r@.len() ==> {
            let u = history@[#[trigger] r@[k] as int];
            &&& r@[k] < history@.len()
            &&& (filter matches Some(f) ==> (f.session_id matches Some(s) ==> u.session_id@ == s@))
            &&& (filter matches Some(f) ==> (f.user_id matches Some(s) ==> u.user_id@ == s@))
        },
{
    let total = history.len();
    proof {
        assert(history@.len() == total);
        match filter {
            Some(f) => law_filtered_usage_matches(history@, *f),
            None => lemma_kept_positions(history@, None, history@.len()),
        }
    }
    let ghost fv = match filter {
        Some(f) => Some(*f),
        None => None,
    };
    let mut r: Vec<usize> = Vec::new();
    let mut i: usize = 0;
    while i < history.len()
        invariant
            i <= history@.len(),
            fv == match filter {
                Some(f) => Some(*f),
                None => None::<UsageFilter>,
            },
            r@ == kept_positions(history@, fv, i as nat),
        decreases history@.len() - i,
    {
        let keep = match filter {
            Some(f) => f.matches(&history[i]),
            None => true,
        };
        if keep {
            r.push(i);
        }
        i = i + 1;
    }
    r
}

/// The tokens of the first `n` records taken at or after `start`.
pub open spec fn tokens_since(history: Seq<TokenUsage>, start: i64, n: nat) -> nat
    decreases n,
{
    if n == 0 {
        0
    } else {
        tokens_since(history, start, (n - 1) as nat) + if history[n - 1].timestamp >= start {
            history[n - 1].total_tokens as nat
        } else {
            0nat
        }
    }
}

/// The tokens of the first `n` records taken in `[start, end)`.
pub open spec fn tokens_between(history: Seq<TokenUsage>, start: int, end: int, n: nat) -> nat
    decreases n,
{
    if n == 0 {
        0
    } else {
        tokens_between(history, start, end, (n - 1) as nat) + if start <= history[n - 1].timestamp < end {
            history[n - 1].total_tokens as nat
        } else {
            0nat
        }
    }
}

/// Total tokens of the records taken at or after `start` (a day's or a
/// month's usage). The total must fit in `u32`.
pub fn total_tokens_since(history: &[TokenUsage], start: i64) -> (t: u32)
    requires
        tokens_since(history@, start, history@.len()) <= u32::MAX,
    ensures
        t == tokens_since(history@, start, history@.len()),
{
    let mut t: u32 = 0;
    let mut i: usize = 0;
    while i < history.len()
        invariant
            i <= history@.len(),
            tokens_since(history@, start, history@.len()) <= u32::MAX,
            t == tokens_since(history@, start, i as nat),
        decreases history@.len() - i,
    {
        proof {
            lemma_tokens_since_mono(history@, start, (i + 1) as nat, history@.len());
        }
        if history[i].timestamp >= start {
            t = t + history[i].total_tokens;
        }
        i = i + 1;
    }
    t
}

proof fn lemma_tokens_since_mono(history: Seq<TokenUsage>, start: i64, a: nat, b: nat)
    requires
        a <= b,
    ensures
        tokens_since(history, start, a) <= tokens_since(history, start, b),
    decreases b - a,
{
    if a < b {
        lemma_tokens_since_mono(history, start, a, (b - 1) as nat);
    }
}

proof fn lemma_tokens_between_mono(history: Seq<TokenUsage>, start: int, end: int, a: nat, b: nat)
    requires
        a <= b,
    ensures
        tokens_between(history, start, end, a) <= tokens_between(history, start, end, b),
    decreases b - a,
{
    if a < b {
        lemma_tokens_between_mono(history, start, end, a, (b - 1) as nat);
    }
}

/// Milliseconds in an hour.
pub const HOUR_MS: i64 = 3_600_000;

/// The start of hour `h` of the trend: `24 - h` hours before `today_start`.
pub open spec fn trend_hour_start(today_start: i64, h: int) -> int {
    today_start - (24 - h) * 3_600_000
}

/// The tokens of one hour starting at `start`.
fn tokens_in_hour(history: &[TokenUsage], start: i64) -> (t: u32)
    requires
        start as int + 3_600_000 <= i64::MAX,
        tokens_between(history@, start as int, start + 3_600_000, history@.len()) <= u32::MAX,
    ensures
        t == tokens_between(history@, start as int, start + 3_600_000, history@.len()),
{
    let end = start + HOUR_MS;
    let mut t: u32 = 0;
    let mut i: usize = 0;
    while i < history.len()
        invariant
            i <= history@.len(),
            end == start + 3_600_000,
            tokens_between(history@, start as int, end as int, history@.len()) <= u32::MAX,
            t == tokens_between(history@, start as int, end as int, i as nat),
        decreases history@.len() - i,
    {
        proof {
            lemma_tokens_between_mono(history@, start as int, end as int, (i + 1) as nat, history@.len());
        }
        if start <= history[i].timestamp && history[i].timestamp < end {
            t = t + history[i].total_tokens;
        }
        i = i + 1;
    }
    t
}

/// The hourly trend of the last day: 24 hours ending at `today_start`, each
/// with its start and the tokens used in it. Each hour's tokens must fit
/// in `u32`.
pub fn hourly_trend(history: &[TokenUsage], today_start: i64) -> (r: Vec<(i64, u32)>)
    requires
        today_start as int - 24 * 3_600_000 >= i64::MIN,
        forall|h: int|
            0 <= h < 24 ==> tokens_between(
                history@,
                #[trigger] trend_hour_start(today_start, h),
                trend_hour_start(today_start, h) + 3_600_000,
                history@.len(),
            ) <= u32::MAX,
    ensures
        r@.len() == 24,
        forall|h: int|
            0 <= h < 24 ==> (#[trigger] r@[h]).0 == trend_hour_start(today_start, h) && r@[h].1 == tokens_between(
                history@,
                trend_hour_start(today_start, h),
                trend_hour_start(today_start, h) + 3_600_000,
                history@.len(),
            ),
{
    let mut r: Vec<(i64, u32)> = Vec::new();
    let mut h: i64 = 0;
    while h < 24
        invariant
            0 <= h <= 24,
            r@.len() == h,
            today_start as int - 24 * 3_600_000 >= i64::MIN,
            forall|g: int|
                0 <= g < 24 ==> tokens_between(
                    history@,
                    #[trigger] trend_hour_start(today_start, g),
                    trend_hour_start(today_start, g) + 3_600_000,
                    history@.len(),
                ) <= u32::MAX,
            forall|g: int|
                0 <= g < h ==> (#[trigger] r@[g]).0 == trend_hour_start(today_start, g) && r@[g].1
                    == tokens_between(
                    history@,
                    trend_hour_start(today_start, g),
                    trend_hour_start(today_start, g) + 3_600_000,
                    history@.len(),
                ),
        decreases 24 - h,
    {
        let start = today_start - (24 - h) * HOUR_MS;
        assert(start == trend_hour_start(today_start, h as int));
        let t = tokens_in_hour(history, start);
        r.push((start, t));
        h = h + 1;
    }
    r
}

/// The keys and tokens of the records taken at or after `since`.
pub open spec fn recent_keys(history: Seq<TokenUsage>, since: i64, by_provider: bool, n: nat) -> (Seq<Seq<char>>, Seq<u64>)
    decreases n,
{
    if n == 0 {
        (seq![], seq![])
    } else {
        let (ks, ts) = recent_keys(history, since, by_provider, (n - 1) as nat);
        let u = history[n - 1];
        if u.timestamp >= since {
            (ks.push(if by_provider { u.provider@ } else { u.operation_type@ }), ts.push(u.total_tokens as u64))
        } else {
            (ks, ts)
        }
    }
}

proof fn lemma_recent_keys_len(history: Seq<TokenUsage>, since: i64, by_provider: bool, n: nat)
    ensures
        recent_keys(history, since, by_provider, n).0.len() == recent_keys(history, since, by_provider, n).1.len(),
    decreases n,
{
    if n > 0 {
        lemma_recent_keys_len(history, since, by_provider, (n - 1) as nat);
    }
}

proof fn lemma_recent_total(history: Seq<TokenUsage>, since: i64, by_provider: bool, n: nat)
    ensures
        amount_total(recent_keys(history, since, by_provider, n).1, recent_keys(history, since, by_provider, n).1.len())
            == tokens_since(history, since, n),
    decreases n,
{
    if n > 0 {
        lemma_recent_total(history, since, by_provider, (n - 1) as nat);
        let ts = recent_keys(history, since, by_provider, (n - 1) as nat).1;
        let nts = recent_keys(history, since, by_provider, n).1;
        if history[n - 1].timestamp >= since {
            assert(nts.drop_last() =~= ts);
            lemma_amount_total_prefix(nts, ts.len() as nat);
        } else {
            assert(nts == ts);
        }
    }
}

proof fn lemma_amount_total_prefix(ts: Seq<u64>, n: nat)
    requires
        n < ts.len(),
    ensures
        amount_total(ts, n) == amount_total(ts.subrange(0, n as int), n),
    decreases n,
{
    if n > 0 {
        lemma_amount_total_prefix(ts, (n - 1) as nat);
        lemma_amount_total_prefix(ts.subrange(0, n as int), (n - 1) as nat);
        assert(ts.subrange(0, n as int).subrange(0, n - 1) =~= ts.subrange(0, n - 1));
    }
}

/// Tokens per provider (or per operation type) over the records taken at
/// or after `since`: one entry per key, in order of first appearance.
pub fn token_breakdown(history: &[TokenUsage], since: i64, by_provider: bool) -> (r: Vec<(String, u64)>)
    requires
        tokens_since(history@, since, history@.len()) <= u32::MAX,
    ensures
        ({
            let (ks, ts) = recent_keys(history@, since, by_provider, history@.len());
            is_tally(tally_view(r@), ks, ts, ks.len())
        }),
{
    let mut keys: Vec<String> = Vec::new();
    let mut tokens: Vec<u64> = Vec::new();
    let mut i: usize = 0;
    while i < history.len()
        invariant
            i <= history@.len(),
            (texts(keys@), tokens@) == recent_keys(history@, since, by_provider, i as nat),
        decreases history@.len() - i,
    {
        if history[i].timestamp >= since {
            let key = if by_provider {
                history[i].provider.clone()
            } else {
                history[i].operation_type.clone()
            };
            let ghost before = texts(keys@);
            keys.push(key);
            assert(texts(keys@) =~= before.push(keys@.last()@));
            tokens.push(history[i].total_tokens as u64);
        }
        i = i + 1;
    }
    proof {
        lemma_recent_keys_len(history@, since, by_provider, history@.len());
        lemma_recent_total(history@, since, by_provider, history@.len());
    }
    sum_by_key(keys.as_slice(), tokens.as_slice())
}

/// The sessions of the first `n` records taken at or after `since`.
pub open spec fn recent_sessions(history: Seq<TokenUsage>, since: i64, n: nat) -> Seq<Seq<char>>
    decreases n,
{
    if n == 0 {
        seq![]
    } else {
        let s = recent_sessions(history, since, (n - 1) as nat);
        if history[n - 1].timestamp >= since {
            s.push(history[n - 1].session_id@)
        } else {
            s
        }
    }
}

/// The distinct sessions of the records taken at or after `since`, in
/// order of first appearance.
pub fn sessions_since(history: &[TokenUsage], since: i64) -> (r: Vec<String>)
    ensures
        ({
            let s = recent_sessions(history@, since, history@.len());
            &&& forall|a: int, b: int| 0 <= a < b < r@.len() ==> (#[trigger] r@[a])@ != (#[trigger] r@[b])@
            &&& forall|k: int| 0 <= k < s.len() ==> texts(r@).contains(#[trigger] s[k])
            &&& forall|a: int| 0 <= a < r@.len() ==> s.contains((#[trigger] r@[a])@)
        }),
{
    let mut r: Vec<String> = Vec::new();
    let mut i: usize = 0;
    while i < history.len()
        invariant
            i <= history@.len(),
            ({
                let s = recent_sessions(history@, since, i as nat);
                &&& forall|a: int, b: int| 0 <= a < b < r@.len() ==> (#[trigger] r@[a])@ != (#[trigger] r@[b])@
                &&& forall|k: int| 0 <= k < s.len() ==> texts(r@).contains(#[trigger] s[k])
                &&& forall|a: int| 0 <= a < r@.len() ==> s.contains((#[trigger] r@[a])@)
            }),
        decreases history@.len() - i,
    {
        let ghost s = recent_sessions(history@, since, i as nat);
        let ghost old_r = r@;
        if history[i].timestamp >= since {
            let session = history[i].session_id.as_str();
            let mut k: usize = 0;
            let mut seen = false;
            while k < r.len()
                invariant
                    k <= r@.len(),
                    r@ == old_r,
                    !seen ==> forall|a: int| 0 <= a < k ==> (#[trigger] r@[a])@ != session@,
                    seen ==> texts(r@).contains(session@),
                decreases r@.len() - k,
            {
                if !seen && str_eq(r[k].as_str(), session) {
                    seen = true;
                    assert(texts(r@)[k as int] == session@);
                }
                k = k + 1;
            }
            let ghost ns = s.push(session@);
            assert(recent_sessions(history@, since, (i + 1) as nat) == ns);
            if !seen {
                r.push(history[i].session_id.clone());
                proof {
                    assert forall|a: int| 0 <= a < r@.len() implies ns.contains((#[trigger] r@[a])@) by {
                        if a < old_r.len() {
                            let w = choose|w: int| 0 <= w < s.len() && s[w] == old_r[a]@;
                            assert(ns[w] == old_r[a]@);
                        } else {
                            assert(ns[s.len() as int] == session@);
                        }
                    }
                    assert forall|q: int| 0 <= q < ns.len() implies texts(r@).contains(#[trigger] ns[q]) by {
                        if q < s.len() {
                            let w = choose|w: int| 0 <= w < old_r.len() && texts(old_r)[w] == s[q];
                            assert(texts(r@)[w] == s[q]);
                        } else {
                            assert(texts(r@)[old_r.len() as int] == session@);
                        }
                    }
                }
            } else {
                proof {
                    assert forall|a: int| 0 <= a < r@.len() implies ns.contains((#[trigger] r@[a])@) by {
                        let w = choose|w: int| 0 <= w < s.len() && s[w] == r@[a]@;
                        assert(ns[w] == r@[a]@);
                    }
                    assert forall|q: int| 0 <= q < ns.len() implies texts(r@).contains(#[trigger] ns[q]) by {
                        if q < s.len() {
                            assert(texts(r@).contains(s[q]));
                        }
                    }
                }
            }
        }
        i = i + 1;
    }
    r
}

/// A budget period.
#[derive(Debug, Clone, Copy, PartialEq, Eq, Structural)]
pub enum BudgetPeriod {
    Daily,
    Monthly,
}

/// Whether token use exceeds its limit: the used share of the limit
/// reaches one (a zero limit is exceeded by any use).
pub open spec fn exceeds_token_limit(used: u32, limit: u32) -> bool {
    used >= limit && used > 0
}

/// Whether token use exceeds its limit.
pub fn token_limit_exceeded(used: u32, limit: u32) -> (b: bool)
    ensures
        b == exceeds_token_limit(used, limit),
{
    used >= limit && used > 0
}

/// The name of a budget period.
pub open spec fn period_name(p: BudgetPeriod) -> Seq<char> {
    match p {
        BudgetPeriod::Daily => "Daily"@,
        BudgetPeriod::Monthly => "Monthly"@,
    }
}

/// The report of an exceeded token limit.
pub open spec fn token_limit_report(p: BudgetPeriod, used: u32, limit: u32) -> Seq<char> {
    period_name(p) + " token limit exceeded: "@ + decimal(used as nat) + " / "@ + decimal(limit as nat)
}

/// Reports an exceeded token limit: `<Period> token limit exceeded: used / limit`.
pub fn token_limit_message(p: BudgetPeriod, used: u32, limit: u32) -> (s: String)
    ensures
        s@ == token_limit_report(p, used, limit),
{
    let mut out: Vec<char> = Vec::new();
    match p {
        BudgetPeriod::Daily => push_str(&mut out, "Daily"),
        BudgetPeriod::Monthly => push_str(&mut out, "Monthly"),
    }
    push_str(&mut out, " token limit exceeded: ");
    push_digits(used as u128, 10, &mut out);
    push_str(&mut out, " / ");
    push_digits(limit as u128, 10, &mut out);
    string_from_chars(out.as_slice())
}

} // verus!

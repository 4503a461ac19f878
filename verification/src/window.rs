//! Context window arithmetic: token estimates, the budget left for dynamic
//! memories, the order of candidate memories, and which access-tracking
//! entries are kept.

use vstd::prelude::*;
use crate::select::{is_index_permutation, ordered_by, precedes, stable_order};
use crate::utils::{p2, round_div_even};

verus! {

/// Strategy for selecting dynamic memory blocks.
#[derive(Debug, Clone, Copy, PartialEq, Eq, Structural)]
pub enum SelectionStrategy {
    /// By relevance score only.
    ByRelevance,
    /// By recency, most recent first.
    ByRecency,
    /// Relevance and recency together.
    Balanced,
    /// By access frequency.
    ByFrequency,
    /// Trying to include different types.
    Diversified,
}

impl Default for SelectionStrategy {
    fn default() -> (s: SelectionStrategy)
        ensures
            s == SelectionStrategy::Balanced,
    {
        SelectionStrategy::Balanced
    }
}

/// The order in which candidate memories are considered for a strategy
/// that orders by integers: most recently updated first, or most accessed
/// first, equal keys keeping their order. The relevance-based strategies
/// order by floating-point scores and are left to the caller (`None`).
pub fn candidate_order(strategy: SelectionStrategy, updated_at: &[u64], access_counts: &[u64]) -> (r: Option<Vec<usize>>)
    ensures
        strategy == SelectionStrategy::ByRecency ==> r is Some && is_index_permutation(r->0@, updated_at@.len())
            && ordered_by(updated_at@, r->0@, true),
        strategy == SelectionStrategy::ByFrequency ==> r is Some && is_index_permutation(r->0@, access_counts@.len())
            && ordered_by(access_counts@, r->0@, true),
        strategy != SelectionStrategy::ByRecency && strategy != SelectionStrategy::ByFrequency ==> r is None,
{
    match strategy {
        SelectionStrategy::ByRecency => Some(stable_order(updated_at, true)),
        SelectionStrategy::ByFrequency => Some(stable_order(access_counts, true)),
        _ => None,
    }
}

/// Token usage of a context window by category.
#[derive(Debug, Clone, Copy, PartialEq, Eq, Structural)]
pub struct TokenBreakdown {
    pub core_blocks: u32,
    pub conversation: u32,
    pub dynamic_memory: u32,
    pub total: u32,
}

/// How many low bits an integer loses when held in a 24-bit significand.
pub open spec fn f32_shift(n: nat) -> nat
    decreases n,
{
    if n < 0x100_0000 {
        0
    } else {
        1 + f32_shift(n / 2)
    }
}

/// The value of the nearest 32-bit float to `n` (ties to even).
pub open spec fn f32_value(n: nat) -> nat {
    round_div_even(n, p2(f32_shift(n))) * p2(f32_shift(n))
}

/// The token estimate of a text of `len` bytes: a quarter of the length
/// (taken as a 32-bit float), rounded up, saturating at `u32::MAX`.
pub open spec fn token_estimate(len: nat) -> nat {
    let t = (f32_value(len) + 3) / 4;
    if t > u32::MAX {
        u32::MAX as nat
    } else {
        t
    }
}

proof fn lemma_div_div2(b: nat, p: nat)
    requires
        p > 0,
    ensures
        (b / p) / 2 == b / (p * 2),
{
    vstd::arithmetic::div_mod::lemma_div_denominator(b as int, p as int, 2);
}

/// Estimates the tokens of a text: about four bytes per token.
pub fn estimate_tokens(text: &str) -> (n: u32)
    ensures
        n == token_estimate(crate::text::byte_len(text@)),
{
    let b = text.as_bytes().len() as u128;
    assert(b == crate::text::byte_len(text@));
    if b == 0 {
        assert(f32_shift(0) == 0 && p2(0) == 1 && round_div_even(0, 1) == 0);
        return 0;
    }
    let mut m: u128 = b;
    let mut p: u128 = 1;
    let ghost mut s: nat = 0;
    while m >= 0x100_0000
        invariant
            p == p2(s),
            m == b / p,
            f32_shift(b as nat) == s + f32_shift(m as nat),
            p <= b,
            b < 0x1_0000_0000_0000_0000,
            p > 0,
        decreases m,
    {
        proof {
            lemma_div_div2(b as nat, p as nat);
            assert(p * 2 <= b) by (nonlinear_arith)
                requires
                    m == b / p,
                    m >= 2,
                    p > 0,
            {
                vstd::arithmetic::div_mod::lemma_fundamental_div_mod(b as int, p as int);
            }
        }
        m = m / 2;
        p = p * 2;
        proof {
            s = s + 1;
        }
    }
    proof {
        assert(f32_shift(m as nat) == 0);
    }
    let q0 = b / p;
    let r0 = b % p;
    let q = if r0 > p - r0 || (r0 == p - r0 && q0 % 2 == 1) {
        q0 + 1
    } else {
        q0
    };
    assert(q == round_div_even(b as nat, p as nat));
    assert(q <= 0x100_0000);
    assert(q * p <= 0x100_0000 * 0x1_0000_0000_0000_0000) by (nonlinear_arith)
        requires
            q <= 0x100_0000,
            p <= 0x1_0000_0000_0000_0000,
    ;
    let v = q * p;
    assert(v == f32_value(b as nat));
    let t = (v + 3) / 4;
    if t > u32::MAX as u128 {
        u32::MAX
    } else {
        t as u32
    }
}

/// For texts shorter than 16 MiB the estimate is exactly the byte length
/// divided by four, rounded up.
pub proof fn law_estimate_is_quarter_rounded_up(len: nat)
    requires
        len < 0x100_0000,
    ensures
        token_estimate(len) == (len + 3) / 4,
{
    assert(f32_shift(len) == 0);
    assert(p2(0) == 1);
    assert(round_div_even(len, 1) == len);
}

/// Tokens left for dynamic memories: the dynamic budget less what the core
/// blocks and the conversation use beyond their own budgets.
pub open spec fn dynamic_allowance(
    dynamic_budget: nat,
    core_budget: nat,
    conversation_budget: nat,
    core_used: nat,
    conversation_used: nat,
) -> nat {
    let used = core_used + conversation_used;
    let reserved = core_budget + conversation_budget;
    let over: nat = if used > reserved { (used - reserved) as nat } else { 0 };
    if dynamic_budget > over {
        (dynamic_budget - over) as nat
    } else {
        0
    }
}

/// Computes the tokens left for dynamic memories.
pub fn dynamic_token_allowance(
    dynamic_budget: u32,
    core_budget: u32,
    conversation_budget: u32,
    core_used: u32,
    conversation_used: u32,
) -> (n: u32)
    requires
        core_used + conversation_used <= u32::MAX,
        core_budget + conversation_budget <= u32::MAX,
    ensures
        n == dynamic_allowance(
            dynamic_budget as nat,
            core_budget as nat,
            conversation_budget as nat,
            core_used as nat,
            conversation_used as nat,
        ),
{
    let used = core_used + conversation_used;
    let over = used.saturating_sub(core_budget + conversation_budget);
    dynamic_budget.saturating_sub(over)
}

/// The sum of the token estimates of the first `n` texts.
pub open spec fn estimates_total(texts: Seq<Seq<char>>, n: nat) -> nat
    decreases n,
{
    if n == 0 {
        0
    } else {
        estimates_total(texts, (n - 1) as nat) + token_estimate(crate::text::byte_len(texts[n - 1]))
    }
}

/// The tokens of a conversation history: the sum of its messages'
/// estimates.
pub fn conversation_tokens(history: &[String]) -> (n: u32)
    requires
        estimates_total(crate::agents_api::texts(history@), history@.len()) <= u32::MAX,
    ensures
        n == estimates_total(crate::agents_api::texts(history@), history@.len()),
{
    let ghost ts = crate::agents_api::texts(history@);
    let mut total: u32 = 0;
    let mut i: usize = 0;
    while i < history.len()
        invariant
            i <= history@.len(),
            ts == crate::agents_api::texts(history@),
            estimates_total(ts, history@.len()) <= u32::MAX,
            total == estimates_total(ts, i as nat),
        decreases history@.len() - i,
    {
        proof {
            lemma_estimates_monotone(ts, (i + 1) as nat, history@.len());
        }
        let e = estimate_tokens(history[i].as_str());
        total = total + e;
        i = i + 1;
    }
    total
}

proof fn lemma_estimates_monotone(ts: Seq<Seq<char>>, a: nat, b: nat)
    requires
        a <= b,
    ensures
        estimates_total(ts, a) <= estimates_total(ts, b),
    decreases b - a,
{
    if a < b {
        lemma_estimates_monotone(ts, a, (b - 1) as nat);
    }
}

/// The token breakdown of a context window.
pub fn token_breakdown(core_blocks: u32, conversation: u32, dynamic_memory: u32) -> (t: TokenBreakdown)
    requires
        core_blocks + conversation + dynamic_memory <= u32::MAX,
    ensures
        t.core_blocks == core_blocks,
        t.conversation == conversation,
        t.dynamic_memory == dynamic_memory,
        t.total == core_blocks + conversation + dynamic_memory,
{
    TokenBreakdown {
        core_blocks,
        conversation,
        dynamic_memory,
        total: core_blocks + conversation + dynamic_memory,
    }
}

/// Access tracking is pruned when it holds more than this many entries.
pub const TRACKING_LIMIT: usize = 1000;

/// How many entries pruning keeps.
pub const TRACKING_KEEP: usize = 800;

/// Which access-tracking entries stay (given their last access times in
/// the order the table lists them): all of them up to 1000 entries;
/// beyond that the 800 most recently accessed.
pub fn tracking_entries_to_keep(last_accessed: &[u64]) -> (r: Vec<usize>)
    ensures
        last_accessed@.len() <= 1000 ==> r@ == Seq::new(last_accessed@.len(), |i: int| i as usize),
        last_accessed@.len() > 1000 ==> {
            &&& r@.len() == 800
            &&& forall|k: int| 0 <= k < r@.len() ==> (#[trigger] r@[k]) < last_accessed@.len()
            &&& forall|k: int, m: int| 0 <= k < m < r@.len() ==> r@[k] != r@[m]
            &&& forall|k: int, d: int|
                #![trigger r@[k], last_accessed@[d]]
                0 <= k < r@.len() && 0 <= d < last_accessed@.len() && !r@.contains(d as usize)
                    ==> last_accessed@[r@[k] as int] >= last_accessed@[d]
        },
{
    let n = last_accessed.len();
    let mut r: Vec<usize> = Vec::new();
    if n <= TRACKING_LIMIT {
        let mut i: usize = 0;
        while i < n
            invariant
                i <= n,
                n == last_accessed@.len(),
                r@ =~= Seq::new(i as nat, |j: int| j as usize),
            decreases n - i,
        {
            r.push(i);
            i = i + 1;
        }
        return r;
    }
    let order = stable_order(last_accessed, false);
    let ghost o = order@;
    let mut k: usize = 0;
    while k < TRACKING_KEEP
        invariant
            k <= 800,
            n == last_accessed@.len(),
            n > 1000,
            o == order@,
            is_index_permutation(o, n as nat),
            r@ =~= Seq::new(k as nat, |j: int| o[n - 1 - j]),
        decreases 800 - k,
    {
        r.push(order[n - 1 - k]);
        k = k + 1;
    }
    proof {
        assert forall|k: int, m: int| 0 <= k < m < r@.len() implies r@[k] != r@[m] by {
            assert(r@[k] == o[n - 1 - k]);
            assert(r@[m] == o[n - 1 - m]);
        }
        assert forall|kk: int, d: int|
            #![trigger r@[kk], last_accessed@[d]]
            0 <= kk < r@.len() && 0 <= d < last_accessed@.len() && !r@.contains(d as usize)
                implies last_accessed@[r@[kk] as int] >= last_accessed@[d] by {
            lemma_permutation_covers(o, n as nat, d as usize);
            let pd = choose|j: int| 0 <= j < o.len() && o[j] == d as usize;
            if pd >= n - 800 {
                let j = n - 1 - pd;
                assert(r@[j] == o[pd]);
                assert(r@.contains(d as usize));
            } else {
                let pk = n - 1 - kk;
                assert(r@[kk] == o[pk]);
                assert(precedes(last_accessed@, o[pd], o[pk], false));
            }
        }
    }
    r
}

/// Every index below `n` appears in a permutation of the indices below `n`.
pub proof fn lemma_permutation_covers(r: Seq<usize>, n: nat, x: usize)
    requires
        is_index_permutation(r, n),
        x < n,
        n <= usize::MAX,
    ensures
        exists|j: int| 0 <= j < r.len() && r[j] == x,
{
    let s = r.to_set();
    assert(s.subset_of(Set::new(|y: usize| y < n)));
    if !s.contains(x) {
        lemma_distinct_len(r);
        assert(s.subset_of(Set::new(|y: usize| y < n).remove(x)));
        lemma_below_set_len(n);
        vstd::set_lib::lemma_len_subset(s, Set::new(|y: usize| y < n).remove(x));
        assert(false);
    }
}

proof fn lemma_distinct_len(r: Seq<usize>)
    requires
        forall|i: int, j: int| 0 <= i < j < r.len() ==> r[i] != r[j],
    ensures
        r.to_set().len() == r.len(),
{
    assert(r.no_duplicates());
    r.unique_seq_to_set();
}

proof fn lemma_below_set_len(n: nat)
    requires
        n <= usize::MAX,
    ensures
        Set::new(|y: usize| y < n).finite(),
        Set::new(|y: usize| y < n).len() == n,
    decreases n,
{
    if n == 0 {
        assert(Set::new(|y: usize| y < n) =~= Set::empty());
    } else {
        lemma_below_set_len((n - 1) as nat);
        assert(Set::new(|y: usize| y < n) =~= Set::new(|y: usize| y < (n - 1) as nat).insert((n - 1) as usize));
    }
}


/// The sections of the first `n` memories: each one holding text is
/// headed with its number (from 1) and its relevance, as given.
pub open spec fn memory_sections(memories: Seq<(String, Option<String>)>, n: nat) -> Seq<char>
    decreases n,
{
    if n == 0 {
        seq![]
    } else {
        memory_sections(memories, (n - 1) as nat) + match memories[n - 1].1 {
            Some(c) => "## Memory "@ + crate::text::decimal(n) + " (Relevance: "@ + memories[n - 1].0@ + ")\n\n"@
                + c@ + "\n\n"@,
            None => seq![],
        }
    }
}

/// The `k` most recent messages, most recent first, each followed by a
/// blank line.
pub open spec fn recent_messages(history: Seq<String>, k: nat) -> Seq<char>
    decreases k,
{
    if k == 0 || k > history.len() {
        seq![]
    } else {
        recent_messages(history, (k - 1) as nat) + history[history.len() - k]@ + "\n\n"@
    }
}

/// The text of a context window: the core blocks, the relevant memories
/// (with relevance texts written by the caller) and the five most recent
/// messages, most recent first.
pub open spec fn context_text(core: Seq<char>, memories: Seq<(String, Option<String>)>, history: Seq<String>) -> Seq<char> {
    "# Core Context\n\n"@ + core + "\n"@ + (if memories.len() > 0 {
        "# Relevant Memories\n\n"@ + memory_sections(memories, memories.len())
    } else {
        seq![]
    }) + (if history.len() > 0 {
        "# Recent Conversation\n\n"@ + recent_messages(history, if history.len() < 5 { history.len() } else { 5 })
    } else {
        seq![]
    })
}

/// Writes the text of a context window.
pub fn format_context(core: &str, memories: &[(String, Option<String>)], history: &[String]) -> (s: String)
    ensures
        s@ == context_text(core@, memories@, history@),
{
    let mut out: Vec<char> = Vec::new();
    crate::text::push_str(&mut out, "# Core Context\n\n");
    crate::text::push_str(&mut out, core);
    crate::text::push_str(&mut out, "\n");
    let ghost head = out@;
    if memories.len() > 0 {
        crate::text::push_str(&mut out, "# Relevant Memories\n\n");
        let ghost start = out@;
        let mut i: usize = 0;
        while i < memories.len()
            invariant
                i <= memories@.len(),
                out@ == start + memory_sections(memories@, i as nat),
            decreases memories@.len() - i,
        {
            match &memories[i].1 {
                Some(c) => {
                    crate::text::push_str(&mut out, "## Memory ");
                    crate::text::push_digits((i + 1) as u128, 10, &mut out);
                    crate::text::push_str(&mut out, " (Relevance: ");
                    crate::text::push_str(&mut out, memories[i].0.as_str());
                    crate::text::push_str(&mut out, ")\n\n");
                    crate::text::push_str(&mut out, c.as_str());
                    crate::text::push_str(&mut out, "\n\n");
                },
                None => {},
            }
            assert(out@ =~= start + memory_sections(memories@, (i + 1) as nat));
            i = i + 1;
        }
    }
    let ghost mid = out@;
    assert(mid =~= head + (if memories@.len() > 0 {
        "# Relevant Memories\n\n"@ + memory_sections(memories@, memories@.len() as nat)
    } else {
        seq![]
    }));
    if history.len() > 0 {
        crate::text::push_str(&mut out, "# Recent Conversation\n\n");
        let ghost start = out@;
        let take: usize = if history.len() < 5 {
            history.len()
        } else {
            5
        };
        let mut k: usize = 0;
        while k < take
            invariant
                k <= take,
                take <= history@.len(),
                out@ == start + recent_messages(history@, k as nat),
            decreases take - k,
        {
            crate::text::push_str(&mut out, history[history.len() - 1 - k].as_str());
            crate::text::push_str(&mut out, "\n\n");
            assert(out@ =~= start + recent_messages(history@, (k + 1) as nat));
            k = k + 1;
        }
    }
    crate::text::string_from_chars(out.as_slice())
}

} // verus!

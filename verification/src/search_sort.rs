//! The order of conversation search results: by a primary field, ties
//! broken by an optional secondary field, in one direction, as a stable
//! sort leaves them.

use vstd::prelude::*;
use crate::search::{SearchSortOptions, SortDirection, SortField};
use crate::select::is_index_permutation;
use crate::text::chars_of;

verus! {

/// The values a search result is sorted by. The relevance score enters by
/// its rank: a number that orders as the score does.
#[derive(Debug)]
pub struct SortValues {
    pub relevance_rank: u64,
    pub started_at: i64,
    pub last_message_at: i64,
    pub message_count: usize,
    pub title: String,
    pub user_id: String,
}

/// Three-way comparison of integers: -1, 0 or 1.
pub open spec fn three_way(a: int, b: int) -> int {
    if a < b {
        -1
    } else if a > b {
        1
    } else {
        0
    }
}

/// Three-way lexicographic comparison of texts by characters, as `String`
/// orders them.
pub open spec fn text_order(a: Seq<char>, b: Seq<char>) -> int
    decreases a.len(),
{
    if a.len() == 0 {
        if b.len() == 0 {
            0
        } else {
            -1
        }
    } else if b.len() == 0 {
        1
    } else if a[0] < b[0] {
        -1
    } else if a[0] > b[0] {
        1
    } else {
        text_order(a.drop_first(), b.drop_first())
    }
}

/// How two results compare by one field; fields without a defined order
/// compare equal.
pub open spec fn compare_field(a: SortValues, b: SortValues, f: SortField) -> int {
    match f {
        SortField::Relevance => three_way(a.relevance_rank as int, b.relevance_rank as int),
        SortField::CreatedAt => three_way(a.started_at as int, b.started_at as int),
        SortField::LastMessageTime => three_way(a.last_message_at as int, b.last_message_at as int),
        SortField::MessageCount => three_way(a.message_count as int, b.message_count as int),
        SortField::Title => text_order(a.title@, b.title@),
        SortField::UserId => text_order(a.user_id@, b.user_id@),
        _ => 0,
    }
}

/// How two results compare under the sort options: by the primary field,
/// on a tie by the secondary field, reversed when descending.
pub open spec fn compare_results(a: SortValues, b: SortValues, o: SearchSortOptions) -> int {
    let p = compare_field(a, b, o.primary);
    let c = if p != 0 {
        p
    } else {
        match o.secondary {
            Some(s) => compare_field(a, b, s),
            None => 0,
        }
    };
    if o.direction == SortDirection::Descending {
        -c
    } else {
        c
    }
}

/// Whether result `i` comes before result `j` when sorted stably.
pub open spec fn sorted_before(v: Seq<SortValues>, o: SearchSortOptions, i: usize, j: usize) -> bool {
    let c = compare_results(v[i as int], v[j as int], o);
    c < 0 || (c == 0 && i < j)
}

/// Whether the index list `r` lists results in stably sorted order.
pub open spec fn stably_sorted(v: Seq<SortValues>, o: SearchSortOptions, r: Seq<usize>) -> bool {
    forall|k: int, m: int| 0 <= k < m < r.len() ==> sorted_before(v, o, #[trigger] r[k], #[trigger] r[m])
}

proof fn lemma_text_order(a: Seq<char>, b: Seq<char>, c: Seq<char>)
    ensures
        text_order(a, b) == -text_order(b, a),
        text_order(a, b) == 0 ==> a == b,
        -1 <= text_order(a, b) <= 1,
        text_order(a, b) < 0 && text_order(b, c) < 0 ==> text_order(a, c) < 0,
    decreases a.len(),
{
    if a.len() > 0 && b.len() > 0 {
        if c.len() > 0 {
            lemma_text_order(a.drop_first(), b.drop_first(), c.drop_first());
        } else {
            lemma_text_order(a.drop_first(), b.drop_first(), c);
        }
        if text_order(a, b) == 0 {
            assert(a =~= seq![a[0]] + a.drop_first());
            assert(b =~= seq![b[0]] + b.drop_first());
        }
    }
}

proof fn lemma_compare_field(a: SortValues, b: SortValues, c: SortValues, f: SortField)
    ensures
        compare_field(a, b, f) == -compare_field(b, a, f),
        -1 <= compare_field(a, b, f) <= 1,
        compare_field(a, b, f) < 0 && compare_field(b, c, f) < 0 ==> compare_field(a, c, f) < 0,
        compare_field(a, b, f) == 0 ==> compare_field(a, c, f) == compare_field(b, c, f),
{
    match f {
        SortField::Title => {
            lemma_text_order(a.title@, b.title@, c.title@);
        },
        SortField::UserId => {
            lemma_text_order(a.user_id@, b.user_id@, c.user_id@);
        },
        _ => {},
    }
}

proof fn lemma_compare_results(a: SortValues, b: SortValues, c: SortValues, o: SearchSortOptions)
    ensures
        compare_results(a, b, o) == -compare_results(b, a, o),
        compare_results(a, b, o) < 0 && compare_results(b, c, o) <= 0 ==> compare_results(a, c, o) < 0,
{
    lemma_compare_field(a, b, c, o.primary);
    lemma_compare_field(b, a, c, o.primary);
    lemma_compare_field(b, c, a, o.primary);
    lemma_compare_field(a, c, b, o.primary);
    lemma_compare_field(c, a, b, o.primary);
    lemma_compare_field(c, b, a, o.primary);
    match o.secondary {
        Some(s) => {
            lemma_compare_field(a, b, c, s);
            lemma_compare_field(b, a, c, s);
            lemma_compare_field(b, c, a, s);
            lemma_compare_field(a, c, b, s);
            lemma_compare_field(c, a, b, s);
            lemma_compare_field(c, b, a, s);
        },
        None => {},
    }
}

fn compare_ints(a: i128, b: i128) -> (r: i8)
    ensures
        r as int == three_way(a as int, b as int),
{
    if a < b {
        -1
    } else if a > b {
        1
    } else {
        0
    }
}

fn compare_texts(a: &str, b: &str) -> (r: i8)
    ensures
        r as int == text_order(a@, b@),
{
    let va = chars_of(a);
    let vb = chars_of(b);
    let mut i: usize = 0;
    assert(va@.subrange(0, va@.len() as int) =~= va@);
    assert(vb@.subrange(0, vb@.len() as int) =~= vb@);
    while i < va.len() && i < vb.len() && va[i] == vb[i]
        invariant
            i <= va@.len(),
            i <= vb@.len(),
            text_order(a@, b@) == text_order(va@.subrange(i as int, va@.len() as int), vb@.subrange(i as int, vb@.len() as int)),
            va@ == a@,
            vb@ == b@,
        decreases va@.len() - i,
    {
        assert(va@.subrange(i as int, va@.len() as int).drop_first() =~= va@.subrange(i as int + 1, va@.len() as int));
        assert(vb@.subrange(i as int, vb@.len() as int).drop_first() =~= vb@.subrange(i as int + 1, vb@.len() as int));
        i = i + 1;
    }
    if i == va.len() {
        if i == vb.len() {
            0
        } else {
            -1
        }
    } else if i == vb.len() {
        1
    } else if va[i] < vb[i] {
        -1
    } else {
        1
    }
}

/// Compares two results by one field.
pub fn compare_by_field(a: &SortValues, b: &SortValues, f: &SortField) -> (r: i8)
    ensures
        r as int == compare_field(*a, *b, *f),
{
    match f {
        SortField::Relevance => compare_ints(a.relevance_rank as i128, b.relevance_rank as i128),
        SortField::CreatedAt => compare_ints(a.started_at as i128, b.started_at as i128),
        SortField::LastMessageTime => compare_ints(a.last_message_at as i128, b.last_message_at as i128),
        SortField::MessageCount => compare_ints(a.message_count as i128, b.message_count as i128),
        SortField::Title => compare_texts(a.title.as_str(), b.title.as_str()),
        SortField::UserId => compare_texts(a.user_id.as_str(), b.user_id.as_str()),
        _ => 0,
    }
}

/// Compares two results under the sort options.
pub fn compare_search_results(a: &SortValues, b: &SortValues, o: &SearchSortOptions) -> (r: i8)
    ensures
        r as int == compare_results(*a, *b, *o),
{
    proof {
        lemma_compare_field(*a, *b, *a, o.primary);
        if o.secondary is Some {
            lemma_compare_field(*a, *b, *a, o.secondary->0);
        }
    }
    let p = compare_by_field(a, b, &o.primary);
    let c = if p != 0 {
        p
    } else {
        match &o.secondary {
            Some(s) => compare_by_field(a, b, s),
            None => 0,
        }
    };
    match o.direction {
        SortDirection::Descending => -c,
        SortDirection::Ascending => c,
    }
}

/// The order in which search results are listed: the indices of `values`,
/// sorted stably under the sort options.
pub fn sort_results(values: &[SortValues], o: &SearchSortOptions) -> (r: Vec<usize>)
    ensures
        is_index_permutation(r@, values@.len()),
        stably_sorted(values@, *o, r@),
{
    let mut r: Vec<usize> = Vec::new();
    let mut i: usize = 0;
    while i < values.len()
        invariant
            i <= values@.len(),
            r@.len() == i,
            forall|k: int| 0 <= k < r@.len() ==> (#[trigger] r@[k]) < i,
            forall|k: int, m: int| 0 <= k < m < r@.len() ==> r@[k] != r@[m],
            stably_sorted(values@, *o, r@),
        decreases values@.len() - i,
    {
        let mut p: usize = 0;
        while p < r.len()
            invariant
                p <= r@.len(),
                r@.len() == i,
                i < values@.len(),
                forall|k: int| 0 <= k < r@.len() ==> (#[trigger] r@[k]) < i,
                forall|q: int| 0 <= q < p ==> sorted_before(values@, *o, #[trigger] r@[q], i),
            ensures
                p <= r@.len(),
                forall|q: int| 0 <= q < p ==> sorted_before(values@, *o, #[trigger] r@[q], i),
                p < r@.len() ==> !sorted_before(values@, *o, r@[p as int], i),
            decreases r@.len() - p,
        {
            let c = compare_search_results(&values[r[p]], &values[i], o);
            assert(r@[p as int] < i);
            if c > 0 {
                break;
            }
            p = p + 1;
        }
        let ghost old_r = r@;
        proof {
            if p < old_r.len() {
                let rp = old_r[p as int];
                assert forall|q: int| p <= q < old_r.len() implies sorted_before(values@, *o, i, #[trigger] old_r[q]) by {
                    lemma_compare_results(values@[i as int], values@[rp as int], values@[old_r[q] as int], *o);
                    lemma_compare_results(values@[rp as int], values@[i as int], values@[old_r[q] as int], *o);
                    if q > p {
                        assert(sorted_before(values@, *o, rp, old_r[q]));
                    }
                }
            }
        }
        r.insert(p, i);
        proof {
            assert forall|k: int| 0 <= k < r@.len() implies (#[trigger] r@[k]) < i + 1 by {
                if k < p {
                    assert(r@[k] == old_r[k]);
                } else if k > p {
                    assert(r@[k] == old_r[k - 1]);
                }
            }
            assert forall|k: int, m: int| 0 <= k < m < r@.len() implies r@[k] != r@[m] by {
                if k < p {
                    assert(r@[k] == old_r[k]);
                } else if k > p {
                    assert(r@[k] == old_r[k - 1]);
                }
                if m < p {
                    assert(r@[m] == old_r[m]);
                } else if m > p {
                    assert(r@[m] == old_r[m - 1]);
                }
            }
            assert forall|k: int, m: int| 0 <= k < m < r@.len() implies sorted_before(
                values@,
                *o,
                #[trigger] r@[k],
                #[trigger] r@[m],
            ) by {
                if k < p {
                    assert(r@[k] == old_r[k]);
                } else if k > p {
                    assert(r@[k] == old_r[k - 1]);
                }
                if m < p {
                    assert(r@[m] == old_r[m]);
                } else if m > p {
                    assert(r@[m] == old_r[m - 1]);
                }
            }
        }
        i = i + 1;
    }
    r
}

} // verus!

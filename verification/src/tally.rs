//! Per-key totals: one entry per distinct key, in order of first
//! appearance, with the sum of the amounts recorded under that key.

use vstd::prelude::*;
use crate::agents_api::texts;
use crate::text::str_eq;

verus! {

/// The sum of the amounts recorded under key `k` among the first `n`.
pub open spec fn key_total(keys: Seq<Seq<char>>, amounts: Seq<u64>, k: Seq<char>, n: nat) -> nat
    decreases n,
{
    if n == 0 {
        0
    } else {
        key_total(keys, amounts, k, (n - 1) as nat) + if keys[n - 1] == k {
            amounts[n - 1] as nat
        } else {
            0nat
        }
    }
}

/// The sum of the first `n` amounts.
pub open spec fn amount_total(amounts: Seq<u64>, n: nat) -> nat
    decreases n,
{
    if n == 0 {
        0
    } else {
        amount_total(amounts, (n - 1) as nat) + amounts[n - 1] as nat
    }
}

/// The view of a table of totals.
pub open spec fn tally_view(v: Seq<(String, u64)>) -> Seq<(Seq<char>, nat)> {
    Seq::new(v.len(), |i: int| (v[i].0@, v[i].1 as nat))
}

/// The keys of a table of totals.
pub open spec fn tally_keys(v: Seq<(Seq<char>, nat)>) -> Seq<Seq<char>> {
    v.map_values(|e: (Seq<char>, nat)| e.0)
}

/// Whether `v` tabulates the totals of the first `n` records: one entry
/// per key recorded, each with its total, and no other entries.
pub open spec fn is_tally(v: Seq<(Seq<char>, nat)>, keys: Seq<Seq<char>>, amounts: Seq<u64>, n: nat) -> bool {
    &&& forall|a: int, b: int| 0 <= a < b < v.len() ==> (#[trigger] v[a]).0 != (#[trigger] v[b]).0
    &&& forall|a: int| 0 <= a < v.len() ==> (#[trigger] v[a]).1 == key_total(keys, amounts, v[a].0, n)
    &&& forall|k: int| 0 <= k < n ==> tally_keys(v).contains(#[trigger] keys[k])
    &&& forall|a: int| 0 <= a < v.len() ==> keys.subrange(0, n as int).contains((#[trigger] v[a]).0)
}

/// The table of the first `n` records, with witnesses: `pos[k]` is the
/// entry of record `k`, `first[a]` a record of entry `a`.
spec fn tally_step(
    v: Seq<(Seq<char>, nat)>,
    keys: Seq<Seq<char>>,
    amounts: Seq<u64>,
    n: nat,
    pos: Seq<int>,
    first: Seq<int>,
) -> bool {
    &&& forall|a: int, b: int| 0 <= a < b < v.len() ==> (#[trigger] v[a]).0 != (#[trigger] v[b]).0
    &&& forall|a: int| 0 <= a < v.len() ==> (#[trigger] v[a]).1 == key_total(keys, amounts, v[a].0, n)
    &&& pos.len() == n
    &&& forall|k: int| 0 <= k < n ==> 0 <= #[trigger] pos[k] < v.len() && v[pos[k]].0 == keys[k]
    &&& first.len() == v.len()
    &&& forall|a: int| 0 <= a < v.len() ==> 0 <= #[trigger] first[a] < n && keys[first[a]] == v[a].0
}

proof fn lemma_key_total_le(keys: Seq<Seq<char>>, amounts: Seq<u64>, k: Seq<char>, n: nat)
    ensures
        key_total(keys, amounts, k, n) <= amount_total(amounts, n),
    decreases n,
{
    if n > 0 {
        lemma_key_total_le(keys, amounts, k, (n - 1) as nat);
    }
}

proof fn lemma_amount_total_mono(amounts: Seq<u64>, a: nat, b: nat)
    requires
        a <= b,
    ensures
        amount_total(amounts, a) <= amount_total(amounts, b),
    decreases b - a,
{
    if a < b {
        lemma_amount_total_mono(amounts, a, (b - 1) as nat);
    }
}

proof fn lemma_key_total_absent(keys: Seq<Seq<char>>, amounts: Seq<u64>, k: Seq<char>, n: nat)
    requires
        n <= keys.len(),
        forall|q: int| 0 <= q < n ==> keys[q] != k,
    ensures
        key_total(keys, amounts, k, n) == 0,
    decreases n,
{
    if n > 0 {
        lemma_key_total_absent(keys, amounts, k, (n - 1) as nat);
    }
}

proof fn lemma_tally_add(
    v: Seq<(Seq<char>, nat)>,
    keys: Seq<Seq<char>>,
    amounts: Seq<u64>,
    n: nat,
    pos: Seq<int>,
    first: Seq<int>,
    k: int,
)
    requires
        n < keys.len(),
        n < amounts.len(),
        tally_step(v, keys, amounts, n, pos, first),
        0 <= k < v.len(),
        v[k].0 == keys[n as int],
    ensures
        tally_step(v.update(k, (v[k].0, v[k].1 + amounts[n as int] as nat)), keys, amounts, n + 1, pos.push(k), first),
        v[k].1 == key_total(keys, amounts, v[k].0, n),
{
    let nv = v.update(k, (v[k].0, v[k].1 + amounts[n as int] as nat));
    assert forall|a: int| 0 <= a < nv.len() implies (#[trigger] nv[a]).0 == v[a].0 by {}
    assert forall|a: int, b: int| 0 <= a < b < nv.len() implies (#[trigger] nv[a]).0 != (#[trigger] nv[b]).0 by {
        assert(nv[a].0 == v[a].0 && nv[b].0 == v[b].0);
    }
    assert forall|a: int| 0 <= a < nv.len() implies (#[trigger] nv[a]).1 == key_total(keys, amounts, nv[a].0, n + 1) by {
        assert(nv[a].0 == v[a].0);
        if a != k {
            assert(v[a].0 != v[k].0);
        }
    }
    let np = pos.push(k);
    assert forall|q: int| 0 <= q < n + 1 implies 0 <= #[trigger] np[q] < nv.len() && nv[np[q]].0 == keys[q] by {
        if q < n {
            assert(np[q] == pos[q]);
        }
    }
    assert forall|a: int| 0 <= a < nv.len() implies 0 <= #[trigger] first[a] < n + 1 && keys[first[a]] == nv[a].0 by {}
}

proof fn lemma_tally_new(
    v: Seq<(Seq<char>, nat)>,
    keys: Seq<Seq<char>>,
    amounts: Seq<u64>,
    n: nat,
    pos: Seq<int>,
    first: Seq<int>,
)
    requires
        n < keys.len(),
        n < amounts.len(),
        tally_step(v, keys, amounts, n, pos, first),
        forall|a: int| 0 <= a < v.len() ==> (#[trigger] v[a]).0 != keys[n as int],
    ensures
        tally_step(
            v.push((keys[n as int], amounts[n as int] as nat)),
            keys,
            amounts,
            n + 1,
            pos.push(v.len() as int),
            first.push(n as int),
        ),
{
    let u = keys[n as int];
    let nv = v.push((u, amounts[n as int] as nat));
    assert forall|q: int| 0 <= q < n implies keys[q] != u by {
        assert(v[pos[q]].0 == keys[q]);
    }
    lemma_key_total_absent(keys, amounts, u, n);
    assert forall|a: int| 0 <= a < nv.len() implies (#[trigger] nv[a]).1 == key_total(keys, amounts, nv[a].0, n + 1) by {}
    let np = pos.push(v.len() as int);
    let nf = first.push(n as int);
    assert forall|q: int| 0 <= q < n + 1 implies 0 <= #[trigger] np[q] < nv.len() && nv[np[q]].0 == keys[q] by {
        if q < n {
            assert(np[q] == pos[q]);
        }
    }
    assert forall|a: int| 0 <= a < nv.len() implies 0 <= #[trigger] nf[a] < n + 1 && keys[nf[a]] == nv[a].0 by {
        if a < v.len() {
            assert(nf[a] == first[a]);
        }
    }
}

/// Totals the amounts per key: one entry per distinct key, in order of
/// first appearance. The grand total must fit in `u64`.
pub fn sum_by_key(keys: &[String], amounts: &[u64]) -> (r: Vec<(String, u64)>)
    requires
        keys@.len() == amounts@.len(),
        amount_total(amounts@, amounts@.len()) <= u64::MAX,
    ensures
        is_tally(tally_view(r@), texts(keys@), amounts@, keys@.len()),
{
    let ghost ks = texts(keys@);
    let mut r: Vec<(String, u64)> = Vec::new();
    let mut i: usize = 0;
    let ghost mut pos: Seq<int> = Seq::empty();
    let ghost mut first: Seq<int> = Seq::empty();
    while i < keys.len()
        invariant
            i <= keys@.len(),
            keys@.len() == amounts@.len(),
            ks == texts(keys@),
            amount_total(amounts@, amounts@.len()) <= u64::MAX,
            tally_step(tally_view(r@), ks, amounts@, i as nat, pos, first),
        decreases keys@.len() - i,
    {
        let ghost cv = tally_view(r@);
        let key = keys[i].as_str();
        let amount = amounts[i];
        assert(ks[i as int] == key@);
        let mut k: usize = 0;
        let mut found: Option<usize> = None;
        while k < r.len()
            invariant
                k <= r@.len(),
                cv == tally_view(r@),
                found is None ==> forall|a: int| 0 <= a < k ==> (#[trigger] cv[a]).0 != key@,
                found is Some ==> found->0 < r@.len() && cv[found->0 as int].0 == key@,
            decreases r@.len() - k,
        {
            if found.is_none() && str_eq(r[k].0.as_str(), key) {
                found = Some(k);
            }
            k = k + 1;
        }
        match found {
            Some(k) => {
                proof {
                    lemma_tally_add(cv, ks, amounts@, i as nat, pos, first, k as int);
                    pos = pos.push(k as int);
                    lemma_key_total_le(ks, amounts@, key@, (i + 1) as nat);
                    lemma_amount_total_mono(amounts@, (i + 1) as nat, amounts@.len());
                }
                let c = r[k].1;
                let name = r[k].0.clone();
                r.set(k, (name, c + amount));
                assert(tally_view(r@) =~= cv.update(k as int, (cv[k as int].0, cv[k as int].1 + amount as nat)));
            },
            None => {
                proof {
                    lemma_tally_new(cv, ks, amounts@, i as nat, pos, first);
                    pos = pos.push(cv.len() as int);
                    first = first.push(i as int);
                }
                r.push((keys[i].clone(), amount));
                assert(tally_view(r@) =~= cv.push((key@, amount as nat)));
            },
        }
        i = i + 1;
    }
    proof {
        let v = tally_view(r@);
        let n = keys@.len() as nat;
        assert forall|k: int| 0 <= k < n implies tally_keys(v).contains(#[trigger] ks[k]) by {
            assert(tally_keys(v)[pos[k]] == ks[k]);
        }
        assert(ks.subrange(0, n as int) =~= ks);
        assert forall|a: int| 0 <= a < v.len() implies ks.subrange(0, n as int).contains((#[trigger] v[a]).0) by {
            assert(ks[first[a]] == v[a].0);
        }
    }
    r
}

} // verus!

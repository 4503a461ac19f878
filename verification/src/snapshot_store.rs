//! The collection of saved context snapshots, keyed by snapshot id: adding,
//! reading, deleting and flagging snapshots, and evicting the least
//! recently accessed ones over the limit.

use vstd::prelude::*;
use crate::saving::{new_snapshot_id, snapshots_to_evict, SnapshotInfo};
use crate::text::str_eq;

verus! {

/// The ids of a list of snapshots.
pub open spec fn snapshot_ids(v: Seq<SnapshotInfo>) -> Seq<Seq<char>> {
    v.map_values(|s: SnapshotInfo| s.id@)
}

/// The stored snapshots; no id occurs twice.
pub struct SnapshotStore {
    snapshots: Vec<SnapshotInfo>,
}

/// The snapshots among the first `n` whose positions are not in `gone`.
pub open spec fn kept_snapshots(v: Seq<SnapshotInfo>, gone: Seq<usize>, n: nat) -> Seq<SnapshotInfo>
    decreases n,
{
    if n == 0 {
        Seq::empty()
    } else {
        kept_snapshots(v, gone, (n - 1) as nat) + if gone.contains((n - 1) as usize) {
            Seq::empty()
        } else {
            seq![v[n - 1]]
        }
    }
}

/// The snapshots after storing `s` under its id: it replaces the one with
/// that id, or comes last.
pub open spec fn with_snapshot(v: Seq<SnapshotInfo>, s: SnapshotInfo) -> Seq<SnapshotInfo> {
    if snapshot_ids(v).contains(s.id@) {
        v.update(snapshot_ids(v).index_of(s.id@), s)
    } else {
        v.push(s)
    }
}

/// `after` is `before` with `n` snapshots evicted to keep at most
/// `max_snapshots`: the least recently accessed ones, the rest in order.
pub open spec fn evicted(before: Seq<SnapshotInfo>, after: Seq<SnapshotInfo>, n: nat, max_snapshots: nat) -> bool {
    &&& before.len() <= max_snapshots ==> n == 0 && after == before
    &&& before.len() > max_snapshots ==> n == before.len() - max_snapshots
    &&& exists|gone: Seq<usize>|
        #![trigger kept_snapshots(before, gone, before.len())]
        {
            &&& after == kept_snapshots(before, gone, before.len())
            &&& gone.len() == n
            &&& forall|k: int, m: int| 0 <= k < m < gone.len() ==> gone[k] != gone[m]
            &&& forall|k: int| 0 <= k < gone.len() ==> (#[trigger] gone[k]) < before.len()
            &&& forall|k: int, d: int|
                #![trigger gone[k], before[d]]
                0 <= k < gone.len() && 0 <= d < before.len() && !gone.contains(d as usize)
                    ==> before[gone[k] as int].last_accessed <= before[d].last_accessed
        }
}

impl SnapshotStore {
    /// The stored snapshots.
    pub closed spec fn entries(self) -> Seq<SnapshotInfo> {
        self.snapshots@
    }

    /// The stored ids.
    pub open spec fn ids(self) -> Seq<Seq<char>> {
        snapshot_ids(self.entries())
    }

    /// No id is stored twice.
    pub open spec fn well_formed(self) -> bool {
        self.ids().no_duplicates()
    }

    /// An empty store.
    pub fn new() -> (s: SnapshotStore)
        ensures
            s.entries() == Seq::<SnapshotInfo>::empty(),
            s.well_formed(),
    {
        let s = SnapshotStore { snapshots: Vec::new() };
        assert(s.ids() =~= Seq::<Seq<char>>::empty());
        s
    }

    fn position(&self, id: &str) -> (p: Option<usize>)
        ensures
            match p {
                Some(i) => i < self.ids().len() && self.ids()[i as int] == id@,
                None => !self.ids().contains(id@),
            },
    {
        let mut i: usize = 0;
        while i < self.snapshots.len()
            invariant
                i <= self.snapshots@.len(),
                forall|j: int| 0 <= j < i ==> self.ids()[j] != id@,
            decreases self.snapshots@.len() - i,
        {
            if str_eq(self.snapshots[i].id.as_str(), id) {
                return Some(i);
            }
            i = i + 1;
        }
        None
    }

    /// Stores a snapshot under its id, replacing one with the same id.
    pub fn insert(&mut self, snapshot: SnapshotInfo)
        requires
            old(self).well_formed(),
        ensures
            final(self).well_formed(),
            final(self).entries() == with_snapshot(old(self).entries(), snapshot),
    {
        let ghost before = self.entries();
        let ghost id = snapshot.id@;
        match self.position(snapshot.id.as_str()) {
            Some(i) => {
                proof {
                    let k = self.ids().index_of(id);
                    assert(self.ids()[k] == id);
                    assert(k == i as int);
                }
                self.snapshots.set(i, snapshot);
                assert(self.ids() =~= snapshot_ids(before).update(i as int, id));
                assert(snapshot_ids(before).update(i as int, id) =~= snapshot_ids(before));
            },
            None => {
                self.snapshots.push(snapshot);
                assert(self.ids() =~= snapshot_ids(before).push(id));
            },
        }
    }

    /// The snapshot with the given id, if stored.
    pub fn get(&self, id: &str) -> (r: Option<&SnapshotInfo>)
        requires
            self.well_formed(),
        ensures
            !self.ids().contains(id@) ==> r is None,
            self.ids().contains(id@) ==> r is Some && *r->0 == self.entries()[self.ids().index_of(id@)],
    {
        match self.position(id) {
            None => None,
            Some(i) => {
                proof {
                    let k = self.ids().index_of(id@);
                    assert(self.ids()[k] == id@);
                    assert(k == i as int);
                }
                Some(&self.snapshots[i])
            },
        }
    }

    /// Deletes the snapshot with the given id; an id not stored changes
    /// nothing.
    pub fn delete(&mut self, id: &str)
        requires
            old(self).well_formed(),
        ensures
            final(self).well_formed(),
            !old(self).ids().contains(id@) ==> final(self).entries() == old(self).entries(),
            old(self).ids().contains(id@) ==> final(self).entries() == old(self).entries().remove(
                old(self).ids().index_of(id@),
            ),
    {
        match self.position(id) {
            None => {},
            Some(i) => {
                let ghost before = self.entries();
                proof {
                    let k = self.ids().index_of(id@);
                    assert(self.ids()[k] == id@);
                    assert(k == i as int);
                }
                let _removed = self.snapshots.remove(i);
                assert(self.ids() =~= snapshot_ids(before).remove(i as int));
            },
        }
    }

    /// Sets the favourite flag of the snapshot with the given id; an id not
    /// stored changes nothing.
    pub fn set_favorite(&mut self, id: &str, is_favorite: bool)
        requires
            old(self).well_formed(),
        ensures
            final(self).well_formed(),
            !old(self).ids().contains(id@) ==> final(self).entries() == old(self).entries(),
            old(self).ids().contains(id@) ==> {
                let k = old(self).ids().index_of(id@);
                final(self).entries() == old(self).entries().update(
                    k,
                    SnapshotInfo { is_favorite, ..old(self).entries()[k] },
                )
            },
    {
        self.set_flag(id, is_favorite, true);
    }

    /// Sets the archived flag of the snapshot with the given id; an id not
    /// stored changes nothing.
    pub fn set_archived(&mut self, id: &str, is_archived: bool)
        requires
            old(self).well_formed(),
        ensures
            final(self).well_formed(),
            !old(self).ids().contains(id@) ==> final(self).entries() == old(self).entries(),
            old(self).ids().contains(id@) ==> {
                let k = old(self).ids().index_of(id@);
                final(self).entries() == old(self).entries().update(
                    k,
                    SnapshotInfo { is_archived, ..old(self).entries()[k] },
                )
            },
    {
        self.set_flag(id, is_archived, false);
    }

    fn set_flag(&mut self, id: &str, value: bool, favorite: bool)
        requires
            old(self).well_formed(),
        ensures
            final(self).well_formed(),
            !old(self).ids().contains(id@) ==> final(self).entries() == old(self).entries(),
            old(self).ids().contains(id@) ==> {
                let k = old(self).ids().index_of(id@);
                let s = old(self).entries()[k];
                final(self).entries() == old(self).entries().update(
                    k,
                    if favorite {
                        SnapshotInfo { is_favorite: value, ..s }
                    } else {
                        SnapshotInfo { is_archived: value, ..s }
                    },
                )
            },
    {
        match self.position(id) {
            None => {},
            Some(i) => {
                let ghost before = self.entries();
                proof {
                    let k = self.ids().index_of(id@);
                    assert(self.ids()[k] == id@);
                    assert(k == i as int);
                }
                let mut s = self.snapshots.remove(i);
                if favorite {
                    s.is_favorite = value;
                } else {
                    s.is_archived = value;
                }
                self.snapshots.insert(i, s);
                assert(self.entries() =~= before.update(
                    i as int,
                    if favorite {
                        SnapshotInfo { is_favorite: value, ..before[i as int] }
                    } else {
                        SnapshotInfo { is_archived: value, ..before[i as int] }
                    },
                ));
                assert(self.ids() =~= snapshot_ids(before));
            },
        }
    }

    /// Evicts the least recently accessed snapshots while more than
    /// `max_snapshots` are stored (as `snapshots_to_evict` chooses them);
    /// the others stay in order. Returns how many were evicted.
    pub fn cleanup_old_snapshots(&mut self, max_snapshots: usize) -> (n: usize)
        requires
            old(self).well_formed(),
        ensures
            final(self).well_formed(),
            evicted(old(self).entries(), final(self).entries(), n as nat, max_snapshots as nat),
    {
        let ghost before = self.entries();
        let mut times: Vec<i64> = Vec::new();
        let mut i: usize = 0;
        while i < self.snapshots.len()
            invariant
                i <= self.snapshots@.len(),
                self.snapshots@ == before,
                times@.len() == i,
                forall|k: int| 0 <= k < i ==> #[trigger] times@[k] == before[k].last_accessed,
            decreases self.snapshots@.len() - i,
        {
            times.push(self.snapshots[i].last_accessed);
            i = i + 1;
        }
        let gone = snapshots_to_evict(times.as_slice(), max_snapshots);
        let mut old_list: Vec<SnapshotInfo> = Vec::new();
        std::mem::swap(&mut old_list, &mut self.snapshots);
        let mut kept: Vec<SnapshotInfo> = Vec::new();
        let mut j: usize = 0;
        let n = old_list.len();
        while j < n
            invariant
                n == before.len(),
                j <= n,
                old_list@.len() == before.len() - j,
                forall|k: int| 0 <= k < old_list@.len() ==> #[trigger] old_list@[k] == before[k + j],
                kept@ == kept_snapshots(before, gone@, j as nat),
            decreases n - j,
        {
            let s = old_list.remove(0);
            let mut hit = false;
            let mut t: usize = 0;
            while t < gone.len()
                invariant
                    t <= gone@.len(),
                    hit == exists|x: int| 0 <= x < t && gone@[x] == j,
                decreases gone@.len() - t,
            {
                if gone[t] == j {
                    hit = true;
                }
                t = t + 1;
            }
            assert(s == before[j as int]);
            if !hit {
                kept.push(s);
            }
            assert(kept@ =~= kept_snapshots(before, gone@, (j + 1) as nat));
            j = j + 1;
        }
        self.snapshots = kept;
        proof {
            lemma_kept_ids(before, gone@, before.len());
            assert(times@ =~= before.map_values(|s: SnapshotInfo| s.last_accessed));
            if before.len() <= max_snapshots {
                lemma_kept_all(before, gone@, before.len());
                assert(before.take(before.len() as int) =~= before);
            }
            let g = gone@;
            assert(self.entries() == kept_snapshots(before, g, before.len()));
            assert forall|k: int, d: int|
                #![trigger g[k], before[d]]
                0 <= k < g.len() && 0 <= d < before.len() && !g.contains(d as usize)
                    implies before[g[k] as int].last_accessed <= before[d].last_accessed by {
                assert(times@[g[k] as int] == before[g[k] as int].last_accessed);
                assert(times@[d] == before[d].last_accessed);
            }
        }
        gone.len()
    }
}

impl SnapshotStore {
    /// Saves a snapshot under a fresh id (`snapshot_<seconds>_<8 hex digits>`)
    /// and then evicts the least recently accessed snapshots over
    /// `max_snapshots`. Returns the id.
    pub fn save_snapshot(&mut self, snapshot: SnapshotInfo, max_snapshots: usize) -> (id: String)
        requires
            old(self).well_formed(),
        ensures
            final(self).well_formed(),
            crate::utils::is_timestamped_id(id@, Some("snapshot"@)),
            exists|named: SnapshotInfo, n: nat|
                named.id@ == id@ && named == (SnapshotInfo { id: named.id, ..snapshot })
                    && #[trigger] evicted(with_snapshot(old(self).entries(), named), final(self).entries(), n, max_snapshots as nat),
    {
        let id = new_snapshot_id();
        let mut s = snapshot;
        s.id = id.clone();
        let ghost named = s;
        self.insert(s);
        let ghost mid = self.entries();
        let n = self.cleanup_old_snapshots(max_snapshots);
        proof {
            assert(mid == with_snapshot(old(self).entries(), named));
            assert(evicted(with_snapshot(old(self).entries(), named), self.entries(), n as nat, max_snapshots as nat));
        }
        id
    }
}

proof fn lemma_kept_all(v: Seq<SnapshotInfo>, gone: Seq<usize>, n: nat)
    requires
        gone.len() == 0,
        n <= v.len(),
    ensures
        kept_snapshots(v, gone, n) == v.take(n as int),
    decreases n,
{
    if n > 0 {
        lemma_kept_all(v, gone, (n - 1) as nat);
        assert(v.take(n as int) =~= v.take(n - 1) + seq![v[n - 1]]);
    } else {
        assert(v.take(0) =~= Seq::<SnapshotInfo>::empty());
    }
}

proof fn lemma_kept_ids(v: Seq<SnapshotInfo>, gone: Seq<usize>, n: nat)
    requires
        snapshot_ids(v).no_duplicates(),
        n <= v.len(),
    ensures
        snapshot_ids(kept_snapshots(v, gone, n)).no_duplicates(),
        forall|k: int| 0 <= k < kept_snapshots(v, gone, n).len() ==> exists|d: int|
            0 <= d < n && #[trigger] kept_snapshots(v, gone, n)[k] == v[d],
    decreases n,
{
    if n > 0 {
        lemma_kept_ids(v, gone, (n - 1) as nat);
        let p = kept_snapshots(v, gone, (n - 1) as nat);
        let q = kept_snapshots(v, gone, n);
        assert forall|k: int| 0 <= k < q.len() implies exists|d: int| 0 <= d < n && #[trigger] q[k] == v[d] by {
            if k < p.len() {
                assert(q[k] == p[k]);
            } else {
                assert(q[k] == v[n - 1]);
            }
        }
        if !gone.contains((n - 1) as usize) {
            assert forall|a: int, b: int| 0 <= a < b < q.len() implies snapshot_ids(q)[a] != snapshot_ids(q)[b] by {
                if b == p.len() {
                    assert(q[a] == p[a]);
                    let d = choose|d: int| 0 <= d < n - 1 && p[a] == v[d];
                    assert(snapshot_ids(v)[d] != snapshot_ids(v)[n - 1]);
                } else {
                    assert(q[a] == p[a] && q[b] == p[b]);
                    assert(snapshot_ids(p)[a] != snapshot_ids(p)[b]);
                }
            }
        }
    }
}

} // verus!

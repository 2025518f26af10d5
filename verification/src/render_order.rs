//! Which camera renders, and the order mesh bundles are drawn in.
use vstd::prelude::*;
use rayon::slice::ParallelSliceMut;

verus! {

// ---------------------------------------------------------------- highest priority

/// The index of the last entry with the greatest priority among the entries
/// that `eligible` admits; `None` when none is admitted. This is what std's
/// `max_by_key` picks: on ties, the last maximal element.
pub open spec fn is_last_max(eligible: Seq<bool>, priority: Seq<i32>, k: int) -> bool {
    &&& 0 <= k < priority.len()
    &&& eligible[k]
    &&& forall|i: int| 0 <= i < priority.len() && eligible[i] ==> priority[i] <= priority[k]
    &&& forall|i: int| k < i < priority.len() && eligible[i] ==> priority[i] < priority[k]
}

/// Picks, among the entries marked eligible, the last one with the greatest priority.
pub fn last_max_priority(eligible: &Vec<bool>, priority: &Vec<i32>) -> (r: Option<usize>)
    requires
        eligible.len() == priority.len(),
    ensures
        r is None <==> forall|i: int| 0 <= i < eligible.len() ==> !eligible[i],
        r matches Some(k) ==> is_last_max(eligible@, priority@, k as int),
{
    let mut best: Option<usize> = None;
    let mut i: usize = 0;
    while i < priority.len()
        invariant
            eligible.len() == priority.len(),
            i <= priority.len(),
            best is None <==> forall|q: int| 0 <= q < i ==> !eligible[q],
            best matches Some(k) ==> {
                &&& k < i
                &&& eligible[k as int]
                &&& forall|q: int| 0 <= q < i && eligible[q] ==> priority[q] <= priority[k as int]
                &&& forall|q: int| k < q < i && eligible[q] ==> priority[q] < priority[k as int]
            },
        decreases priority.len() - i,
    {
        if eligible[i] {
            match best {
                None => {
                    best = Some(i);
                },
                Some(k) => {
                    if priority[i] >= priority[k] {
                        best = Some(i);
                    }
                },
            }
        }
        i = i + 1;
    }
    best
}

/// What the renderer knows of a camera node when choosing the one to render from.
#[derive(Clone, Copy, Debug, PartialEq, Eq, Structural)]
pub struct CameraInfo {
    pub is_active: bool,
    pub priority: i32,
}

/// The camera the scene is rendered from: among the active cameras, the last
/// one with the greatest priority; `None` when no camera is active.
pub fn select_camera(cameras: &Vec<CameraInfo>) -> (r: Option<usize>)
    ensures
        r is None <==> forall|i: int| 0 <= i < cameras.len() ==> !cameras[i].is_active,
        r matches Some(k) ==> is_last_max(
            cameras@.map_values(|c: CameraInfo| c.is_active),
            cameras@.map_values(|c: CameraInfo| c.priority),
            k as int,
        ),
{
    let mut eligible: Vec<bool> = Vec::new();
    let mut priority: Vec<i32> = Vec::new();
    let mut i: usize = 0;
    while i < cameras.len()
        invariant
            i <= cameras.len(),
            eligible.len() == i,
            priority.len() == i,
            forall|q: int| 0 <= q < i ==> eligible[q] == cameras[q].is_active && priority[q] == cameras[q].priority,
        decreases cameras.len() - i,
    {
        eligible.push(cameras[i].is_active);
        priority.push(cameras[i].priority);
        i = i + 1;
    }
    assert(eligible@ =~= cameras@.map_values(|c: CameraInfo| c.is_active));
    assert(priority@ =~= cameras@.map_values(|c: CameraInfo| c.priority));
    let r = last_max_priority(&eligible, &priority);
    proof {
        if r is None {
            assert forall|q: int| 0 <= q < cameras.len() implies !cameras[q].is_active by {
                assert(!eligible[q]);
            }
        } else {
            let k = r->Some_0 as int;
            assert(eligible[k] == cameras[k].is_active);
        }
    }
    r
}

// ---------------------------------------------------------------- bundle order

/// What the mesh collection pass knows of a mesh bundle when ordering bundles
/// for batching: whether its material is opaque (opaque or masked) and the
/// ids of its pipeline, material and mesh.
#[derive(Clone, Copy, Debug, PartialEq, Eq, Structural)]
pub struct BatchEntry {
    pub is_opaque: bool,
    pub pipeline: u64,
    pub material: u64,
    pub mesh: u64,
}

/// The key bundles are sorted by.
pub open spec fn batch_key(e: BatchEntry) -> (u64, u64, u64) {
    (e.pipeline, e.material, e.mesh)
}

/// Lexicographic order on batch keys, as std orders tuples.
pub open spec fn key_le(a: (u64, u64, u64), b: (u64, u64, u64)) -> bool {
    a.0 < b.0 || (a.0 == b.0 && (a.1 < b.1 || (a.1 == b.1 && a.2 <= b.2)))
}

/// The key of a tagged entry: its first three components.
pub open spec fn tag_key(t: (u64, u64, u64, usize)) -> (u64, u64, u64) {
    (t.0, t.1, t.2)
}

/// The tagged entries are in non-decreasing key order.
pub open spec fn sorted_by_tag_key(s: Seq<(u64, u64, u64, usize)>) -> bool {
    forall|i: int, j: int| 0 <= i < j < s.len() ==> key_le(tag_key(#[trigger] s[i]), tag_key(#[trigger] s[j]))
}

/// Sorts tagged entries by key with rayon's parallel unstable sort
/// (`ParallelSliceMut::par_sort_unstable_by_key`). Claimed of it: the result
/// holds the same entries and is sorted by the key, which is what a sort
/// does. The order of entries with equal keys is not stated: the sort is
/// unstable.
#[verifier::external_body]
fn par_sort_by_batch_key(v: &mut Vec<(u64, u64, u64, usize)>)
    ensures
        final(v)@.to_multiset() == old(v)@.to_multiset(),
        sorted_by_tag_key(final(v)@),
{
    v.par_sort_unstable_by_key(|e| (e.0, e.1, e.2));
}

/// The entries among the first `n` whose opacity is `opaque`, tagged with their position.
pub open spec fn tagged(entries: Seq<BatchEntry>, opaque: bool, n: nat) -> Seq<(u64, u64, u64, usize)>
    decreases n,
{
    if n == 0 {
        Seq::empty()
    } else {
        let e = entries[n - 1];
        tagged(entries, opaque, (n - 1) as nat) + if e.is_opaque == opaque {
            seq![(e.pipeline, e.material, e.mesh, (n - 1) as usize)]
        } else {
            Seq::empty()
        }
    }
}

proof fn lemma_tagged(entries: Seq<BatchEntry>, opaque: bool, n: nat)
    requires
        n <= entries.len(),
        entries.len() <= usize::MAX,
    ensures
        forall|x: (u64, u64, u64, usize)| #[trigger] tagged(entries, opaque, n).contains(x) <==> {
            &&& x.3 < n
            &&& entries[x.3 as int].is_opaque == opaque
            &&& batch_key(entries[x.3 as int]) == tag_key(x)
        },
        forall|i: int| 0 <= i < tagged(entries, opaque, n).len() ==> (#[trigger] tagged(entries, opaque, n)[i]).3 < n,
        forall|i: int, j: int| 0 <= i < j < tagged(entries, opaque, n).len() ==> (#[trigger] tagged(entries, opaque, n)[i]).3 < (#[trigger] tagged(entries, opaque, n)[j]).3,
        tagged(entries, opaque, n).len() + tagged(entries, !opaque, n).len() == n,
    decreases n,
{
    if n > 0 {
        let m = (n - 1) as nat;
        lemma_tagged(entries, opaque, m);
        lemma_tagged(entries, !opaque, m);
        let prev = tagged(entries, opaque, m);
        let cur = tagged(entries, opaque, n);
        let e = entries[m as int];
        let t = (e.pipeline, e.material, e.mesh, m as usize);
        if e.is_opaque == opaque {
            assert(cur == prev.push(t));
        } else {
            assert(cur =~= prev);
        }
        assert forall|x: (u64, u64, u64, usize)| #[trigger] cur.contains(x) <==> {
            &&& x.3 < n
            &&& entries[x.3 as int].is_opaque == opaque
            &&& batch_key(entries[x.3 as int]) == tag_key(x)
        } by {
            if cur.contains(x) {
                let k = choose|k: int| 0 <= k < cur.len() && cur[k] == x;
                if k < prev.len() {
                    assert(prev[k] == x);
                    assert(prev.contains(x));
                }
            }
            if x.3 < n && entries[x.3 as int].is_opaque == opaque && batch_key(entries[x.3 as int]) == tag_key(x) {
                if x.3 < m {
                    assert(prev.contains(x));
                    let k = choose|k: int| 0 <= k < prev.len() && prev[k] == x;
                    assert(cur[k] == x);
                } else {
                    assert(x == t);
                    assert(cur[cur.len() - 1] == x);
                }
            }
        }
    }
}

/// Entries with no duplicates keep none, and keep their membership, through a
/// reordering that preserves the multiset.
proof fn lemma_reordered<A>(before: Seq<A>, after: Seq<A>)
    requires
        before.no_duplicates(),
        after.to_multiset() == before.to_multiset(),
    ensures
        after.no_duplicates(),
        after.len() == before.len(),
        forall|x: A| #[trigger] after.contains(x) <==> before.contains(x),
{
    broadcast use vstd::seq_lib::group_to_multiset_ensures;

    assert(after.to_multiset().len() == after.len());
    assert(before.to_multiset().len() == before.len());
    before.lemma_multiset_has_no_duplicates();
    after.lemma_multiset_has_no_duplicates_conv();
    assert forall|x: A| #[trigger] after.contains(x) <==> before.contains(x) by {
        assert(after.contains(x) <==> after.to_multiset().count(x) > 0);
        assert(before.contains(x) <==> before.to_multiset().count(x) > 0);
    }
}

/// The order mesh bundles are drawn in: all opaque bundles before all
/// transparent ones, each group sorted by (pipeline, material, mesh) so that
/// bundles sharing state are adjacent. The result is a permutation of the
/// bundle positions.
pub fn batch_order(entries: &Vec<BatchEntry>) -> (order: Vec<usize>)
    ensures
        order.len() == entries.len(),
        forall|i: int| 0 <= i < order.len() ==> order[i] < entries.len(),
        forall|i: int, j: int| 0 <= i < order.len() && 0 <= j < order.len() && i != j ==> order[i] != order[j],
        forall|b: usize| b < entries.len() ==> #[trigger] order@.contains(b),
        forall|i: int, j: int|
            0 <= i < j < order.len() && entries[order[j] as int].is_opaque ==> entries[order[i] as int].is_opaque,
        forall|i: int, j: int|
            0 <= i < j < order.len() && entries[order[i] as int].is_opaque == entries[order[j] as int].is_opaque
                ==> key_le(batch_key(entries[order[i] as int]), batch_key(entries[order[j] as int])),
{
    let ghost es = entries@;
    let mut opaque: Vec<(u64, u64, u64, usize)> = Vec::new();
    let mut transparent: Vec<(u64, u64, u64, usize)> = Vec::new();
    let mut i: usize = 0;
    while i < entries.len()
        invariant
            es == entries@,
            i <= entries.len(),
            opaque@ == tagged(es, true, i as nat),
            transparent@ == tagged(es, false, i as nat),
        decreases entries.len() - i,
    {
        let e = entries[i];
        let t = (e.pipeline, e.material, e.mesh, i);
        if e.is_opaque {
            opaque.push(t);
        } else {
            transparent.push(t);
        }
        proof {
            assert(opaque@ =~= tagged(es, true, (i + 1) as nat));
            assert(transparent@ =~= tagged(es, false, (i + 1) as nat));
        }
        i = i + 1;
    }
    let ghost n = entries.len() as nat;
    let ghost o0 = opaque@;
    let ghost t0 = transparent@;
    proof {
        lemma_tagged(es, true, n);
        lemma_tagged(es, false, n);
        assert(o0.no_duplicates());
        assert(t0.no_duplicates());
    }
    par_sort_by_batch_key(&mut opaque);
    par_sort_by_batch_key(&mut transparent);
    proof {
        lemma_reordered(o0, opaque@);
        lemma_reordered(t0, transparent@);
    }
    let ghost so = opaque@;
    let ghost st = transparent@;
    // a sorted entry is determined by its position tag
    assert forall|i: int| 0 <= i < so.len() implies {
        &&& (#[trigger] so[i]).3 < n
        &&& es[so[i].3 as int].is_opaque
        &&& batch_key(es[so[i].3 as int]) == tag_key(so[i])
    } by {
        assert(so.contains(so[i]));
        assert(o0.contains(so[i]));
    }
    assert forall|i: int| 0 <= i < st.len() implies {
        &&& (#[trigger] st[i]).3 < n
        &&& !es[st[i].3 as int].is_opaque
        &&& batch_key(es[st[i].3 as int]) == tag_key(st[i])
    } by {
        assert(st.contains(st[i]));
        assert(t0.contains(st[i]));
    }

    let mut order: Vec<usize> = Vec::new();
    let mut k: usize = 0;
    while k < opaque.len()
        invariant
            so == opaque@,
            k <= opaque.len(),
            order.len() == k,
            forall|q: int| 0 <= q < k ==> order[q] == so[q].3,
        decreases opaque.len() - k,
    {
        order.push(opaque[k].3);
        k = k + 1;
    }
    let mut k: usize = 0;
    while k < transparent.len()
        invariant
            so == opaque@,
            st == transparent@,
            k <= transparent.len(),
            order.len() == so.len() + k,
            forall|q: int| 0 <= q < so.len() ==> order[q] == so[q].3,
            forall|q: int| 0 <= q < k ==> order[so.len() + q] == st[q].3,
        decreases transparent.len() - k,
    {
        order.push(transparent[k].3);
        k = k + 1;
    }
    let ghost ol = so.len() as int;
    assert forall|i: int| 0 <= i < order.len() implies {
        &&& order[i] < n
        &&& (i < ol ==> order[i] == so[i].3 && es[order[i] as int].is_opaque && batch_key(es[order[i] as int]) == tag_key(so[i]))
        &&& (i >= ol ==> order[i] == st[i - ol].3 && !es[order[i] as int].is_opaque && batch_key(es[order[i] as int]) == tag_key(st[i - ol]))
    } by {
        if i < ol {
            assert(order[i] == so[i].3);
        } else {
            assert(order[ol + (i - ol)] == st[i - ol].3);
        }
    }
    assert forall|i: int, j: int| 0 <= i < order.len() && 0 <= j < order.len() && i != j implies order[i] != order[j] by {
        if i < ol && j < ol {
            if order[i] == order[j] {
                assert(so[i] == so[j]);
            }
        } else if i >= ol && j >= ol {
            if order[i] == order[j] {
                assert(st[i - ol] == st[j - ol]);
            }
        }
    }
    assert forall|b: usize| b < entries.len() implies #[trigger] order@.contains(b) by {
        let e = es[b as int];
        let t = (e.pipeline, e.material, e.mesh, b);
        if e.is_opaque {
            assert(o0.contains(t));
            assert(so.contains(t));
            let q = choose|q: int| 0 <= q < so.len() && so[q] == t;
            assert(order[q] == b);
        } else {
            assert(t0.contains(t));
            assert(st.contains(t));
            let q = choose|q: int| 0 <= q < st.len() && st[q] == t;
            assert(order[ol + q] == b);
        }
    }
    assert forall|i: int, j: int|
        0 <= i < j < order.len() && es[order[i] as int].is_opaque == es[order[j] as int].is_opaque implies key_le(
        batch_key(es[order[i] as int]),
        batch_key(es[order[j] as int]),
    ) by {
        if j < ol {
            assert(key_le(tag_key(so[i]), tag_key(so[j])));
        } else if i >= ol {
            assert(key_le(tag_key(st[i - ol]), tag_key(st[j - ol])));
        }
    }
    order
}

} // verus!

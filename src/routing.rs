use vstd::prelude::*;

use crate::clip::InstrumentRoute;

verus! {

/// `t` is among the tracks that `routes` gives for `inst`.
pub open spec fn routed(routes: Seq<InstrumentRoute>, inst: usize, t: usize) -> bool {
    exists|k: int| 0 <= k < routes.len() && routes[k].instrument == inst && #[trigger] routes[k].tracks@.contains(t)
}

/// `inst` has an entry in `routes`.
pub open spec fn has_entry(routes: Seq<InstrumentRoute>, inst: usize) -> bool {
    exists|k: int| 0 <= k < routes.len() && #[trigger] routes[k].instrument == inst
}

/// Each instrument has at most one entry, and no entry lists a track twice.
pub open spec fn routes_wf(routes: Seq<InstrumentRoute>) -> bool {
    &&& forall|a: int, b: int|
        0 <= a < b < routes.len() ==> #[trigger] routes[a].instrument != #[trigger] routes[b].instrument
    &&& forall|k: int| 0 <= k < routes.len() ==> (#[trigger] routes[k]).tracks@.no_duplicates()
}

/// Appends `t` unless `tracks` already holds it.
pub fn push_unique(tracks: &mut Vec<usize>, t: usize)
    requires
        old(tracks)@.no_duplicates(),
    ensures
        final(tracks)@.no_duplicates(),
        forall|x: usize| #[trigger] final(tracks)@.contains(x) <==> old(tracks)@.contains(x) || x == t,
{
    let mut k: usize = 0;
    while k < tracks.len() && tracks[k] != t
        invariant
            k <= tracks@.len(),
            tracks@ == old(tracks)@,
            forall|j: int| 0 <= j < k ==> tracks@[j] != t,
        decreases tracks@.len() - k,
    {
        k += 1;
    }
    if k < tracks.len() {
        assert(tracks@[k as int] == t);
        assert(tracks@.contains(t));
        assert(forall|x: usize| tracks@.contains(x) <==> old(tracks)@.contains(x) || x == t);
    } else {
        let ghost before = tracks@;
        tracks.push(t);
        assert(forall|x: usize| tracks@.contains(x) <==> before.contains(x) || x == t) by {
            assert forall|x: usize| tracks@.contains(x) implies before.contains(x) || x == t by {
                let j = choose|j: int| 0 <= j < tracks@.len() && tracks@[j] == x;
                if j < before.len() {
                    assert(before[j] == x);
                }
            }
            assert forall|x: usize| before.contains(x) || x == t implies tracks@.contains(x) by {
                if before.contains(x) {
                    let j = choose|j: int| 0 <= j < before.len() && before[j] == x;
                    assert(tracks@[j] == x);
                } else {
                    assert(tracks@[before.len() as int] == x);
                }
            }
        }
        assert forall|a: int, b: int| 0 <= a < b < tracks@.len() implies tracks@[a] != tracks@[b] by {
            if b == before.len() {
                assert(before[a] != t);
            }
        }
        assert(forall|x: usize| tracks@.contains(x) <==> old(tracks)@.contains(x) || x == t);
    }
}

/// Merges `tracks` into the entry of `inst`, creating the entry if there is none.
pub fn merge_route(routes: &mut Vec<InstrumentRoute>, inst: usize, tracks: &Vec<usize>)
    requires
        routes_wf(old(routes)@),
    ensures
        routes_wf(final(routes)@),
        forall|i: usize, t: usize|
            routed(final(routes)@, i, t) <==> routed(old(routes)@, i, t) || (i == inst && tracks@.contains(t)),
        forall|i: usize| has_entry(final(routes)@, i) <==> has_entry(old(routes)@, i) || i == inst,
{
    let ghost r0 = routes@;
    let mut k: usize = 0;
    while k < routes.len() && routes[k].instrument != inst
        invariant
            k <= routes@.len(),
            routes@ == r0,
            forall|j: int| 0 <= j < k ==> routes@[j].instrument != inst,
        decreases routes@.len() - k,
    {
        k += 1;
    }
    if k == routes.len() {
        routes.push(InstrumentRoute { instrument: inst, tracks: Vec::new() });
        assert forall|i: usize, t: usize| routed(routes@, i, t) <==> routed(r0, i, t) by {
            if routed(routes@, i, t) {
                let j = choose|j: int| 0 <= j < routes@.len() && routes@[j].instrument == i && #[trigger] routes@[j].tracks@.contains(t);
                assert(j < r0.len());
                assert(r0[j] == routes@[j]);
            }
            if routed(r0, i, t) {
                let j = choose|j: int| 0 <= j < r0.len() && r0[j].instrument == i && #[trigger] r0[j].tracks@.contains(t);
                assert(routes@[j] == r0[j]);
            }
        }
        assert forall|i: usize| has_entry(routes@, i) <==> has_entry(r0, i) || i == inst by {
            if has_entry(routes@, i) {
                let j = choose|j: int| 0 <= j < routes@.len() && #[trigger] routes@[j].instrument == i;
                if j < r0.len() { assert(r0[j] == routes@[j]); }
            }
            if has_entry(r0, i) {
                let j = choose|j: int| 0 <= j < r0.len() && #[trigger] r0[j].instrument == i;
                assert(routes@[j] == r0[j]);
            }
            if i == inst {
                assert(routes@[r0.len() as int].instrument == i);
            }
        }
    }
    let ghost r1 = routes@;
    let ghost kk = k as int;
    assert(r1[kk].instrument == inst);
    let mut entry = routes.remove(k);
    let ghost rest = routes@;
    let mut m: usize = 0;
    while m < tracks.len()
        invariant
            m <= tracks@.len(),
            entry.instrument == inst,
            entry.tracks@.no_duplicates(),
            forall|x: usize| #[trigger] entry.tracks@.contains(x) <==> r1[kk].tracks@.contains(x) || tracks@.subrange(0, m as int).contains(x),
        decreases tracks@.len() - m,
    {
        push_unique(&mut entry.tracks, tracks[m]);
        proof {
            assert forall|x: usize| #[trigger] tracks@.subrange(0, m + 1).contains(x) <==> tracks@.subrange(0, m as int).contains(x) || x == tracks@[m as int] by {
                if tracks@.subrange(0, m + 1).contains(x) {
                    let j = choose|j: int| 0 <= j < m + 1 && #[trigger] tracks@.subrange(0, m + 1)[j] == x;
                    if j < m { assert(tracks@.subrange(0, m as int)[j] == x); }
                }
                if tracks@.subrange(0, m as int).contains(x) {
                    let j = choose|j: int| 0 <= j < m && #[trigger] tracks@.subrange(0, m as int)[j] == x;
                    assert(tracks@.subrange(0, m + 1)[j] == x);
                }
                if x == tracks@[m as int] {
                    assert(tracks@.subrange(0, m + 1)[m as int] == x);
                }
            }
        }
        m += 1;
    }
    assert(tracks@.subrange(0, tracks@.len() as int) =~= tracks@);
    routes.insert(k, entry);
    assert forall|j: int| 0 <= j < routes@.len() && j != kk implies routes@[j] == r1[j] by {
        if j < kk { assert(routes@[j] == rest[j]); assert(rest[j] == r1[j]); }
        else { assert(routes@[j] == rest[j - 1]); assert(rest[j - 1] == r1[j]); }
    }
    assert forall|i: usize, t: usize| routed(routes@, i, t) <==> routed(r1, i, t) || (i == inst && tracks@.contains(t)) by {
        if routed(routes@, i, t) {
            let j = choose|j: int| 0 <= j < routes@.len() && routes@[j].instrument == i && #[trigger] routes@[j].tracks@.contains(t);
            if j != kk { assert(routes@[j] == r1[j]); } else {
                assert(entry.tracks@.contains(t));
            }
        }
        if routed(r1, i, t) {
            let j = choose|j: int| 0 <= j < r1.len() && r1[j].instrument == i && #[trigger] r1[j].tracks@.contains(t);
            if j != kk { assert(routes@[j] == r1[j]); } else {
                assert(routes@[kk].tracks@.contains(t));
            }
        }
        if i == inst && tracks@.contains(t) {
            assert(routes@[kk].tracks@.contains(t));
        }
    }
    assert forall|i: usize| has_entry(routes@, i) <==> has_entry(r1, i) by {
        if has_entry(routes@, i) {
            let j = choose|j: int| 0 <= j < routes@.len() && #[trigger] routes@[j].instrument == i;
            if j != kk { assert(routes@[j] == r1[j]); } else { assert(r1[kk].instrument == i); }
        }
        if has_entry(r1, i) {
            let j = choose|j: int| 0 <= j < r1.len() && #[trigger] r1[j].instrument == i;
            if j != kk { assert(routes@[j] == r1[j]); } else { assert(routes@[kk].instrument == i); }
        }
    }
    assert forall|a: int, b: int| 0 <= a < b < routes@.len() implies #[trigger] routes@[a].instrument != #[trigger] routes@[b].instrument by {
        assert(routes@[a].instrument == r1[a].instrument);
        assert(routes@[b].instrument == r1[b].instrument);
    }
}

} // verus!

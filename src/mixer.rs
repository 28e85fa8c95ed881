use vstd::prelude::*;

use crate::clip::InstrumentRoute;
use crate::events::{InstrumentEvent, NoteEvent};
use crate::routing::{routed, routes_wf};
use uuid::Uuid;

verus! {

#[verifier::external_type_specification]
#[verifier::external_body]
pub struct ExUuid(Uuid);

/// Relies on uuid's `Uuid::new_v4`: a fresh random identifier, of which nothing further is
/// promised.
#[verifier::external_body]
fn new_meter_id() -> (r: Uuid) {
    Uuid::new_v4()
}

/// The level-meter identity of a new track: the one given, or a fresh random one.
pub fn meter_id_for(given: Option<Uuid>) -> (r: Uuid)
    ensures
        given.is_some() ==> r == given.unwrap(),
{
    match given {
        Some(id) => id,
        None => new_meter_id(),
    }
}

/// The events of `es` addressed to instrument `inst`, in order.
pub open spec fn events_for(es: Seq<InstrumentEvent>, inst: usize) -> Seq<NoteEvent>
    decreases es.len(),
{
    if es.len() == 0 {
        seq![]
    } else {
        events_for(es.drop_last(), inst) + if es.last().instrument == inst {
            seq![es.last().event]
        } else {
            seq![]
        }
    }
}

/// One instrument's share of a block: the note events it receives and the tracks its
/// output is summed into.
pub struct InstrumentPlan {
    pub instrument: usize,
    pub events: Vec<NoteEvent>,
    pub tracks: Vec<usize>,
}

/// Collects the events of `es` for `inst`.
fn collect_events(es: &Vec<InstrumentEvent>, inst: usize) -> (r: Vec<NoteEvent>)
    ensures
        r@ == events_for(es@, inst),
{
    let mut r: Vec<NoteEvent> = Vec::new();
    let mut k: usize = 0;
    while k < es.len()
        invariant
            k <= es@.len(),
            r@ == events_for(es@.subrange(0, k as int), inst),
        decreases es@.len() - k,
    {
        let e = es[k];
        assert(es@.subrange(0, k + 1).drop_last() =~= es@.subrange(0, k as int));
        if e.instrument == inst {
            r.push(e.event);
        }
        proof {
            assert(es@.subrange(0, k + 1).last() == e);
            assert(r@ =~= events_for(es@.subrange(0, k + 1), inst));
        }
        k += 1;
    }
    assert(es@.subrange(0, es@.len() as int) =~= es@);
    r
}

/// The tracks below `num_tracks` that `routes` gives for `inst`, each once.
fn collect_tracks(routes: &Vec<InstrumentRoute>, inst: usize, num_tracks: usize) -> (r: Vec<usize>)
    requires
        routes_wf(routes@),
    ensures
        r@.no_duplicates(),
        forall|t: usize| #[trigger] r@.contains(t) <==> t < num_tracks && routed(routes@, inst, t),
{
    let mut k: usize = 0;
    while k < routes.len() && routes[k].instrument != inst
        invariant
            k <= routes@.len(),
            forall|j: int| 0 <= j < k ==> routes@[j].instrument != inst,
        decreases routes@.len() - k,
    {
        k += 1;
    }
    let mut r: Vec<usize> = Vec::new();
    if k == routes.len() {
        assert forall|t: usize| #[trigger] r@.contains(t) <==> t < num_tracks && routed(routes@, inst, t) by {
            if routed(routes@, inst, t) {
                let j = choose|j: int| 0 <= j < routes@.len() && routes@[j].instrument == inst && #[trigger] routes@[j].tracks@.contains(t);
            }
        }
        return r;
    }
    let entry = &routes[k];
    assert(entry.tracks@.no_duplicates());
    let mut m: usize = 0;
    while m < entry.tracks.len()
        invariant
            m <= entry.tracks@.len(),
            entry.tracks@.no_duplicates(),
            r@.no_duplicates(),
            forall|t: usize| #[trigger] r@.contains(t) <==> t < num_tracks && exists|q: int| 0 <= q < m && entry.tracks@[q] == t,
        decreases entry.tracks@.len() - m,
    {
        let t = entry.tracks[m];
        if t < num_tracks {
            let ghost r0 = r@;
            r.push(t);
            proof {
                assert forall|a: int, b: int| 0 <= a < b < r@.len() implies r@[a] != r@[b] by {
                    if b == r0.len() {
                        assert(r0.contains(r0[a]));
                        let q = choose|q: int| 0 <= q < m && entry.tracks@[q] == r0[a];
                        assert(entry.tracks@[q] != entry.tracks@[m as int]);
                    }
                }
                assert forall|x: usize| #[trigger] r@.contains(x) <==> x < num_tracks && exists|q: int| 0 <= q < m + 1 && entry.tracks@[q] == x by {
                    if r@.contains(x) {
                        let j = choose|j: int| 0 <= j < r@.len() && r@[j] == x;
                        if j < r0.len() {
                            assert(r0.contains(x));
                        } else {
                            assert(entry.tracks@[m as int] == x);
                        }
                    }
                    if x < num_tracks && exists|q: int| 0 <= q < m + 1 && entry.tracks@[q] == x {
                        let q = choose|q: int| 0 <= q < m + 1 && entry.tracks@[q] == x;
                        if q < m {
                            assert(r0.contains(x));
                            let j = choose|j: int| 0 <= j < r0.len() && r0[j] == x;
                            assert(r@[j] == x);
                        } else {
                            assert(r@[r0.len() as int] == x);
                        }
                    }
                }
            }
        } else {
            assert forall|x: usize| #[trigger] r@.contains(x) <==> x < num_tracks && exists|q: int| 0 <= q < m + 1 && entry.tracks@[q] == x by {
                if x < num_tracks && exists|q: int| 0 <= q < m + 1 && entry.tracks@[q] == x {
                    let q = choose|q: int| 0 <= q < m + 1 && entry.tracks@[q] == x;
                    if q == m {
                        assert(false);
                    }
                }
            }
        }
        m += 1;
    }
    assert forall|t: usize| #[trigger] r@.contains(t) <==> t < num_tracks && routed(routes@, inst, t) by {
        if routed(routes@, inst, t) {
            let j = choose|j: int| 0 <= j < routes@.len() && routes@[j].instrument == inst && #[trigger] routes@[j].tracks@.contains(t);
            assert(j == k as int);
            if t < num_tracks {
                let q = choose|q: int| 0 <= q < entry.tracks@.len() && entry.tracks@[q] == t;
            }
        }
        if r@.contains(t) {
            let q = choose|q: int| 0 <= q < m && entry.tracks@[q] == t;
            assert(entry.tracks@.contains(t));
        }
    }
    r
}

/// The mixer's plan for one block: each instrument of the rack exactly once, in rack
/// order, with the sequencer's events for it and the existing tracks it is routed to.
pub fn plan_block(
    num_instruments: usize,
    num_tracks: usize,
    events: &Vec<InstrumentEvent>,
    routing: &Vec<InstrumentRoute>,
) -> (r: Vec<InstrumentPlan>)
    requires
        routes_wf(routing@),
    ensures
        r@.len() == num_instruments,
        forall|i: int| 0 <= i < num_instruments ==> {
            &&& (#[trigger] r@[i]).instrument == i
            &&& r@[i].events@ == events_for(events@, i as usize)
            &&& r@[i].tracks@.no_duplicates()
            &&& forall|t: usize| #[trigger] r@[i].tracks@.contains(t) <==> t < num_tracks && routed(routing@, i as usize, t)
        },
{
    let mut r: Vec<InstrumentPlan> = Vec::new();
    let mut i: usize = 0;
    while i < num_instruments
        invariant
            i <= num_instruments,
            routes_wf(routing@),
            r@.len() == i,
            forall|j: int| 0 <= j < i ==> {
                &&& (#[trigger] r@[j]).instrument == j
                &&& r@[j].events@ == events_for(events@, j as usize)
                &&& r@[j].tracks@.no_duplicates()
                &&& forall|t: usize| #[trigger] r@[j].tracks@.contains(t) <==> t < num_tracks && routed(routing@, j as usize, t)
            },
        decreases num_instruments - i,
    {
        let plan = InstrumentPlan {
            instrument: i,
            events: collect_events(events, i),
            tracks: collect_tracks(routing, i, num_tracks),
        };
        r.push(plan);
        i += 1;
    }
    r
}

} // verus!

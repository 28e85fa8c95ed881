use vstd::prelude::*;

verus! {

/// A note inside a clip; times are in sample frames.
#[derive(Clone, Debug)]
pub struct Note {
    /// Start relative to the clip's start.
    pub relative_start: u64,
    pub duration: u64,
    /// MIDI note number.
    pub note: u8,
    /// IEEE-754 bit pattern of the velocity (0.0 to 1.0), carried through unchanged.
    pub velocity_bits: u32,
}

/// An explicit instrument-to-tracks routing override of a clip.
#[derive(Clone, Debug)]
pub struct InstrumentRoute {
    pub instrument: usize,
    pub tracks: Vec<usize>,
}

/// A region of the timeline that drives instruments; times are in sample frames.
#[derive(Clone, Debug)]
pub struct Clip {
    pub id: String,
    pub name: String,
    pub start_time: u64,
    pub duration: u64,
    pub instrument_ids: Vec<usize>,
    pub instrument_routes: Vec<InstrumentRoute>,
    pub notes: Vec<Note>,
}

impl Clip {
    pub open spec fn end_spec(&self) -> int {
        self.start_time + self.duration
    }

    /// Absolute start of the `k`-th note.
    pub open spec fn note_start(&self, k: int) -> int {
        self.start_time + self.notes@[k].relative_start
    }

    /// Absolute end of the `k`-th note.
    pub open spec fn note_end(&self, k: int) -> int {
        self.note_start(k) + self.notes@[k].duration
    }

    /// Every time the clip speaks of fits in a `u64`.
    pub open spec fn fits(&self) -> bool {
        &&& self.end_spec() <= u64::MAX
        &&& forall|k: int| 0 <= k < self.notes@.len() ==> #[trigger] self.note_end(k) <= u64::MAX
    }

    /// Tells whether every time the clip speaks of fits in a `u64`.
    pub fn times_fit(&self) -> (r: bool)
        ensures
            r == self.fits(),
    {
        if self.start_time > u64::MAX - self.duration {
            return false;
        }
        let mut k: usize = 0;
        while k < self.notes.len()
            invariant
                k <= self.notes@.len(),
                self.end_spec() <= u64::MAX,
                forall|j: int| 0 <= j < k ==> #[trigger] self.note_end(j) <= u64::MAX,
            decreases self.notes@.len() - k,
        {
            let n = &self.notes[k];
            if self.start_time > u64::MAX - n.relative_start {
                assert(self.note_end(k as int) > u64::MAX);
                return false;
            }
            let s = self.start_time + n.relative_start;
            if s > u64::MAX - n.duration {
                assert(self.note_end(k as int) > u64::MAX);
                return false;
            }
            k += 1;
        }
        true
    }

    /// `k` is the first routing override of the clip that names `inst`.
    pub open spec fn is_first_route(&self, inst: usize, k: int) -> bool {
        let rs = self.instrument_routes@;
        &&& 0 <= k < rs.len()
        &&& rs[k].instrument == inst
        &&& forall|j: int| 0 <= j < k ==> rs[j].instrument != inst
    }

    /// Finds the routing override for `inst`: the first entry that names it.
    pub fn find_route(&self, inst: usize) -> (r: Option<&Vec<usize>>)
        ensures
            match r {
                Some(v) => exists|k: int| #[trigger] self.is_first_route(inst, k)
                    && v@ == self.instrument_routes@[k].tracks@,
                None => forall|k: int|
                    0 <= k < self.instrument_routes@.len() ==> #[trigger] self.instrument_routes@[k].instrument != inst,
            },
    {
        let rs = &self.instrument_routes;
        let mut k: usize = 0;
        while k < rs.len()
            invariant
                k <= rs@.len(),
                rs == &self.instrument_routes,
                forall|j: int| 0 <= j < k ==> rs@[j].instrument != inst,
            decreases rs@.len() - k,
        {
            if rs[k].instrument == inst {
                assert(self.is_first_route(inst, k as int));
                return Some(&rs[k].tracks);
            }
            k += 1;
        }
        None
    }
}

} // verus!

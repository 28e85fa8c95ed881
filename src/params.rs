use vstd::prelude::*;

verus! {

/// Where an external parameter ID of a container leads: a child and its own ID.
#[derive(Clone, Copy, Debug, PartialEq, Eq, Structural)]
pub struct ParamMapping {
    pub external_id: u32,
    pub child: usize,
    pub internal_id: u32,
}

/// A container's map from external parameter ID to (child index, internal ID).
pub struct ParamMap {
    entries: Vec<ParamMapping>,
}

impl ParamMap {
    pub closed spec fn view(&self) -> Map<u32, (usize, u32)> {
        Map::new(
            |id: u32| exists|k: int| 0 <= k < self.entries@.len() && #[trigger] self.entries@[k].external_id == id,
            |id: u32| {
                let k = choose|k: int| 0 <= k < self.entries@.len() && #[trigger] self.entries@[k].external_id == id;
                (self.entries@[k].child, self.entries@[k].internal_id)
            },
        )
    }

    /// No external ID has two entries.
    pub closed spec fn wf(&self) -> bool {
        forall|a: int, b: int|
            0 <= a < b < self.entries@.len() ==> #[trigger] self.entries@[a].external_id != #[trigger] self.entries@[b].external_id
    }

    pub fn new() -> (r: ParamMap)
        ensures
            r.wf(),
            r@ == Map::<u32, (usize, u32)>::empty(),
    {
        let r = ParamMap { entries: Vec::new() };
        assert(r@ =~= Map::<u32, (usize, u32)>::empty());
        r
    }

    fn find(&self, external_id: u32) -> (r: Option<usize>)
        requires
            self.wf(),
        ensures
            match r {
                Some(k) => k < self.entries@.len() && self.entries@[k as int].external_id == external_id,
                None => !self@.contains_key(external_id),
            },
    {
        let mut k: usize = 0;
        while k < self.entries.len()
            invariant
                k <= self.entries@.len(),
                forall|j: int| 0 <= j < k ==> self.entries@[j].external_id != external_id,
            decreases self.entries@.len() - k,
        {
            if self.entries[k].external_id == external_id {
                return Some(k);
            }
            k += 1;
        }
        None
    }

    /// The child and internal ID that `external_id` leads to, if it is mapped.
    pub fn lookup(&self, external_id: u32) -> (r: Option<(usize, u32)>)
        requires
            self.wf(),
        ensures
            r == (if self@.contains_key(external_id) { Some(self@[external_id]) } else { None::<(usize, u32)> }),
    {
        match self.find(external_id) {
            Some(k) => {
                assert(self@.contains_key(external_id));
                let ghost c = choose|c: int| 0 <= c < self.entries@.len() && #[trigger] self.entries@[c].external_id == external_id;
                assert(c == k as int) by {
                    if c != k as int {
                        if c < k as int {
                        } else {
                        }
                    }
                }
                Some((self.entries[k].child, self.entries[k].internal_id))
            },
            None => None,
        }
    }

    /// Maps `external_id` to the parameter `internal_id` of child `child`, replacing an
    /// earlier mapping of the same ID.
    pub fn map_param(&mut self, external_id: u32, child: usize, internal_id: u32)
        requires
            old(self).wf(),
        ensures
            final(self).wf(),
            final(self)@ == old(self)@.insert(external_id, (child, internal_id)),
    {
        let m = ParamMapping { external_id, child, internal_id };
        let ghost e0 = self.entries@;
        match self.find(external_id) {
            Some(k) => {
                self.entries.set(k, m);
                proof {
                    let e1 = self.entries@;
                    assert forall|id: u32| #[trigger] self@.contains_key(id) <==> old(self)@.insert(external_id, (child, internal_id)).contains_key(id) by {
                        if self@.contains_key(id) {
                            let c = choose|c: int| 0 <= c < e1.len() && #[trigger] e1[c].external_id == id;
                            if c != k as int { assert(e0[c].external_id == id); }
                        }
                        if old(self)@.contains_key(id) {
                            let c = choose|c: int| 0 <= c < e0.len() && #[trigger] e0[c].external_id == id;
                            if c != k as int { assert(e1[c].external_id == id); } else { assert(e1[k as int].external_id == id); }
                        }
                        if id == external_id { assert(e1[k as int].external_id == id); }
                    }
                    assert forall|id: u32| #[trigger] self@.contains_key(id) implies self@[id] == old(self)@.insert(external_id, (child, internal_id))[id] by {
                        let c = choose|c: int| 0 <= c < e1.len() && #[trigger] e1[c].external_id == id;
                        if id != external_id {
                            assert(e0[c].external_id == id);
                            let c0 = choose|c0: int| 0 <= c0 < e0.len() && #[trigger] e0[c0].external_id == id;
                            assert(c0 == c);
                        } else {
                            assert(c == k as int);
                        }
                    }
                    assert(self@ =~= old(self)@.insert(external_id, (child, internal_id)));
                }
            },
            None => {
                self.entries.push(m);
                proof {
                    let e1 = self.entries@;
                    assert forall|id: u32| #[trigger] self@.contains_key(id) <==> old(self)@.insert(external_id, (child, internal_id)).contains_key(id) by {
                        if self@.contains_key(id) {
                            let c = choose|c: int| 0 <= c < e1.len() && #[trigger] e1[c].external_id == id;
                            if c < e0.len() { assert(e0[c].external_id == id); }
                        }
                        if old(self)@.contains_key(id) {
                            let c = choose|c: int| 0 <= c < e0.len() && #[trigger] e0[c].external_id == id;
                            assert(e1[c].external_id == id);
                        }
                        if id == external_id { assert(e1[e0.len() as int].external_id == id); }
                    }
                    assert forall|id: u32| #[trigger] self@.contains_key(id) implies self@[id] == old(self)@.insert(external_id, (child, internal_id))[id] by {
                        let c = choose|c: int| 0 <= c < e1.len() && #[trigger] e1[c].external_id == id;
                        if id != external_id {
                            assert(e0[c].external_id == id);
                            let c0 = choose|c0: int| 0 <= c0 < e0.len() && #[trigger] e0[c0].external_id == id;
                            assert(c0 == c);
                        } else {
                            assert(c == e0.len() as int);
                        }
                    }
                    assert(self@ =~= old(self)@.insert(external_id, (child, internal_id)));
                }
            },
        }
    }

    /// The mapped external IDs in ascending order, each with its child and internal ID.
    pub fn sorted_mappings(&self) -> (r: Vec<ParamMapping>)
        requires
            self.wf(),
        ensures
            sorted_by_external(r@),
            forall|k: int| 0 <= k < r@.len() ==> #[trigger] self@.contains_key(r@[k].external_id)
                && self@[r@[k].external_id] == (r@[k].child, r@[k].internal_id),
            forall|id: u32| #[trigger] self@.contains_key(id) ==> exists|k: int| 0 <= k < r@.len() && #[trigger] r@[k].external_id == id,
    {
        let mut r: Vec<ParamMapping> = Vec::new();
        let mut i: usize = 0;
        while i < self.entries.len()
            invariant
                self.wf(),
                i <= self.entries@.len(),
                sorted_by_external(r@),
                forall|x: ParamMapping| #[trigger] r@.contains(x) <==> exists|c: int| 0 <= c < i && self.entries@[c] == x,
            decreases self.entries@.len() - i,
        {
            let m = self.entries[i];
            proof {
                assert forall|q: int| 0 <= q < r@.len() implies r@[q].external_id != m.external_id by {
                    assert(r@.contains(r@[q]));
                    let c = choose|c: int| 0 <= c < i && self.entries@[c] == r@[q];
                    assert(self.entries@[c].external_id != self.entries@[i as int].external_id);
                }
            }
            insert_sorted(&mut r, m);
            proof {
                assert forall|x: ParamMapping| #[trigger] r@.contains(x) <==> exists|c: int| 0 <= c < i + 1 && self.entries@[c] == x by {
                    if exists|c: int| 0 <= c < i + 1 && self.entries@[c] == x {
                        let c = choose|c: int| 0 <= c < i + 1 && self.entries@[c] == x;
                        if c < i {
                            assert(exists|c: int| 0 <= c < i && self.entries@[c] == x);
                        }
                    }
                }
            }
            i += 1;
        }
        proof {
            assert forall|k: int| 0 <= k < r@.len() implies #[trigger] self@.contains_key(r@[k].external_id)
                && self@[r@[k].external_id] == (r@[k].child, r@[k].internal_id) by {
                assert(r@.contains(r@[k]));
                let c = choose|c: int| 0 <= c < self.entries@.len() && self.entries@[c] == r@[k];
                let id = r@[k].external_id;
                assert(self.entries@[c].external_id == id);
                let c0 = choose|c0: int| 0 <= c0 < self.entries@.len() && #[trigger] self.entries@[c0].external_id == id;
                assert(c0 == c);
            }
            assert forall|id: u32| #[trigger] self@.contains_key(id) implies exists|k: int| 0 <= k < r@.len() && #[trigger] r@[k].external_id == id by {
                let c = choose|c: int| 0 <= c < self.entries@.len() && #[trigger] self.entries@[c].external_id == id;
                assert(r@.contains(self.entries@[c]));
                let k = choose|k: int| 0 <= k < r@.len() && r@[k] == self.entries@[c];
            }
        }
        r
    }
}

/// External IDs strictly ascend along `s`.
pub open spec fn sorted_by_external(s: Seq<ParamMapping>) -> bool {
    forall|a: int, b: int| 0 <= a < b < s.len() ==> #[trigger] s[a].external_id < #[trigger] s[b].external_id
}

/// Inserts `m` at its place in the ascending `r`.
fn insert_sorted(r: &mut Vec<ParamMapping>, m: ParamMapping)
    requires
        sorted_by_external(old(r)@),
        forall|q: int| 0 <= q < old(r)@.len() ==> old(r)@[q].external_id != m.external_id,
    ensures
        sorted_by_external(final(r)@),
        forall|x: ParamMapping| #[trigger] final(r)@.contains(x) <==> old(r)@.contains(x) || x == m,
{
    let mut p: usize = 0;
    while p < r.len() && r[p].external_id < m.external_id
        invariant
            p <= r@.len(),
            r@ == old(r)@,
            forall|q: int| 0 <= q < p ==> r@[q].external_id < m.external_id,
        decreases r@.len() - p,
    {
        p += 1;
    }
    let ghost r0 = r@;
    assert forall|q: int| p <= q < r0.len() implies r0[q].external_id > m.external_id by {
        if q > p {
            assert(r0[p as int].external_id < r0[q].external_id);
        }
    }
    r.insert(p, m);
    assert(r@ == r0.insert(p as int, m));
    assert forall|a: int, b: int| 0 <= a < b < r@.len() implies #[trigger] r@[a].external_id < #[trigger] r@[b].external_id by {
        if b < p {
            assert(r@[a] == r0[a] && r@[b] == r0[b]);
        } else if b == p {
            assert(r@[a] == r0[a]);
        } else if a < p {
            assert(r@[a] == r0[a] && r@[b] == r0[b - 1]);
        } else if a == p {
            assert(r@[b] == r0[b - 1]);
        } else {
            assert(r@[a] == r0[a - 1] && r@[b] == r0[b - 1]);
        }
    }
    assert forall|x: ParamMapping| #[trigger] r@.contains(x) <==> r0.contains(x) || x == m by {
        if r@.contains(x) {
            let k = choose|k: int| 0 <= k < r@.len() && r@[k] == x;
            if k < p { assert(r0[k] == x); } else if k > p { assert(r0[k - 1] == x); }
        }
        if r0.contains(x) {
            let k = choose|k: int| 0 <= k < r0.len() && r0[k] == x;
            if k < p { assert(r@[k] == x); } else { assert(r@[k + 1] == x); }
        }
        if x == m {
            assert(r@[p as int] == x);
        }
    }
}

/// The value read back for `id`: the stored one, or zero bits for an unknown ID.
pub open spec fn param_read(m: Map<u32, u32>, id: u32) -> u32 {
    if m.contains_key(id) { m[id] } else { 0 }
}

/// The table after writing `v` to `id`: unknown IDs leave it as it was.
pub open spec fn param_write(m: Map<u32, u32>, id: u32, v: u32) -> Map<u32, u32> {
    if m.contains_key(id) { m.insert(id, v) } else { m }
}

/// Writing a declared parameter and reading it back gives the value written; an unknown
/// parameter reads as zero and ignores writes.
pub proof fn lemma_param_round_trip(m: Map<u32, u32>, id: u32, v: u32)
    ensures
        m.contains_key(id) ==> param_read(param_write(m, id, v), id) == v,
        !m.contains_key(id) ==> param_read(m, id) == 0 && param_write(m, id, v) == m,
        forall|other: u32| other != id ==> param_read(param_write(m, id, v), other) == param_read(m, other),
{
}

/// A parameter and its current value, as the IEEE-754 bits of a 32-bit float.
#[derive(Clone, Copy, Debug, PartialEq, Eq, Structural)]
pub struct ParamSlot {
    pub id: u32,
    pub value_bits: u32,
}

/// The parameter values of a unit, keyed by parameter ID.
pub struct ParamBank {
    slots: Vec<ParamSlot>,
}

/// The values that a run of slots holds, keyed by ID.
pub closed spec fn slots_view(s: Seq<ParamSlot>) -> Map<u32, u32> {
    Map::new(
        |id: u32| exists|k: int| 0 <= k < s.len() && #[trigger] s[k].id == id,
        |id: u32| {
            let k = choose|k: int| 0 <= k < s.len() && #[trigger] s[k].id == id;
            s[k].value_bits
        },
    )
}

impl ParamBank {
    pub closed spec fn view(&self) -> Map<u32, u32> {
        slots_view(self.slots@)
    }

    /// No parameter ID has two slots.
    pub closed spec fn wf(&self) -> bool {
        forall|a: int, b: int| 0 <= a < b < self.slots@.len() ==> #[trigger] self.slots@[a].id != #[trigger] self.slots@[b].id
    }

    pub fn new() -> (r: ParamBank)
        ensures
            r.wf(),
            r@ == Map::<u32, u32>::empty(),
    {
        let r = ParamBank { slots: Vec::new() };
        assert(r@ =~= Map::<u32, u32>::empty());
        r
    }

    fn find(&self, id: u32) -> (r: Option<usize>)
        requires
            self.wf(),
        ensures
            match r {
                Some(k) => k < self.slots@.len() && self.slots@[k as int].id == id && self@.contains_key(id)
                    && self@[id] == self.slots@[k as int].value_bits,
                None => !self@.contains_key(id),
            },
    {
        let mut k: usize = 0;
        while k < self.slots.len()
            invariant
                self.wf(),
                k <= self.slots@.len(),
                forall|j: int| 0 <= j < k ==> self.slots@[j].id != id,
            decreases self.slots@.len() - k,
        {
            if self.slots[k].id == id {
                assert(self@.contains_key(id));
                let ghost c = choose|c: int| 0 <= c < self.slots@.len() && #[trigger] self.slots@[c].id == id;
                assert(c == k as int);
                return Some(k);
            }
            k += 1;
        }
        None
    }

    /// Declares parameter `id` with value `value_bits`; an ID already declared takes the
    /// new value.
    pub fn declare(&mut self, id: u32, value_bits: u32)
        requires
            old(self).wf(),
        ensures
            final(self).wf(),
            final(self)@ == old(self)@.insert(id, value_bits),
    {
        let ghost e0 = self.slots@;
        let slot = ParamSlot { id, value_bits };
        match self.find(id) {
            Some(k) => {
                self.slots.set(k, slot);
                proof { self.lemma_after_update(e0, k as int, slot); }
            },
            None => {
                self.slots.push(slot);
                proof {
                    let e1 = self.slots@;
                    assert forall|x: u32| #[trigger] self@.contains_key(x) <==> old(self)@.insert(id, value_bits).contains_key(x) by {
                        if self@.contains_key(x) {
                            let c = choose|c: int| 0 <= c < e1.len() && #[trigger] e1[c].id == x;
                            if c < e0.len() { assert(e0[c].id == x); }
                        }
                        if old(self)@.contains_key(x) {
                            let c = choose|c: int| 0 <= c < e0.len() && #[trigger] e0[c].id == x;
                            assert(e1[c].id == x);
                        }
                        if x == id { assert(e1[e0.len() as int].id == x); }
                    }
                    assert forall|x: u32| #[trigger] self@.contains_key(x) implies self@[x] == old(self)@.insert(id, value_bits)[x] by {
                        let c = choose|c: int| 0 <= c < e1.len() && #[trigger] e1[c].id == x;
                        if x != id {
                            assert(e0[c].id == x);
                            let c0 = choose|c0: int| 0 <= c0 < e0.len() && #[trigger] e0[c0].id == x;
                            assert(c0 == c);
                        } else {
                            assert(c == e0.len() as int);
                        }
                    }
                    assert(self@ =~= old(self)@.insert(id, value_bits));
                }
            },
        }
    }

    proof fn lemma_after_update(&self, e0: Seq<ParamSlot>, k: int, slot: ParamSlot)
        requires
            0 <= k < e0.len(),
            e0[k].id == slot.id,
            self.slots@ == e0.update(k, slot),
            forall|a: int, b: int| 0 <= a < b < e0.len() ==> #[trigger] e0[a].id != #[trigger] e0[b].id,
        ensures
            self.wf(),
            self@ == slots_view(e0).insert(slot.id, slot.value_bits),
    {
        let e1 = self.slots@;
        let m0 = slots_view(e0);
        assert forall|x: u32| #[trigger] self@.contains_key(x) <==> m0.insert(slot.id, slot.value_bits).contains_key(x) by {
            if self@.contains_key(x) {
                let c = choose|c: int| 0 <= c < e1.len() && #[trigger] e1[c].id == x;
                assert(e0[c].id == x);
            }
            if m0.contains_key(x) {
                let c = choose|c: int| 0 <= c < e0.len() && #[trigger] e0[c].id == x;
                assert(e1[c].id == x);
            }
            if x == slot.id { assert(e1[k].id == x); }
        }
        assert forall|x: u32| #[trigger] self@.contains_key(x) implies self@[x] == m0.insert(slot.id, slot.value_bits)[x] by {
            let c = choose|c: int| 0 <= c < e1.len() && #[trigger] e1[c].id == x;
            if x != slot.id {
                assert(e0[c].id == x);
                let c0 = choose|c0: int| 0 <= c0 < e0.len() && #[trigger] e0[c0].id == x;
                assert(c0 == c);
            } else {
                assert(c == k);
            }
        }
        assert(self@ =~= m0.insert(slot.id, slot.value_bits));
        assert forall|a: int, b: int| 0 <= a < b < e1.len() implies #[trigger] e1[a].id != #[trigger] e1[b].id by {
            assert(e1[a].id == e0[a].id && e1[b].id == e0[b].id);
        }
    }

    /// The value of parameter `id`; zero bits for an unknown ID.
    pub fn get_param(&self, id: u32) -> (r: u32)
        requires
            self.wf(),
        ensures
            r == param_read(self@, id),
    {
        match self.find(id) {
            Some(k) => self.slots[k].value_bits,
            None => 0,
        }
    }

    /// Sets parameter `id` to `value_bits`; an unknown ID is ignored.
    pub fn set_param(&mut self, id: u32, value_bits: u32)
        requires
            old(self).wf(),
        ensures
            final(self).wf(),
            final(self)@ == param_write(old(self)@, id, value_bits),
    {
        let ghost e0 = self.slots@;
        match self.find(id) {
            Some(k) => {
                let slot = ParamSlot { id, value_bits };
                self.slots.set(k, slot);
                proof { self.lemma_after_update(e0, k as int, slot); }
            },
            None => {},
        }
    }
}

} // verus!

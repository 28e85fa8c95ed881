use vstd::prelude::*;

verus! {

/// A note boundary sent to an instrument.
#[derive(Clone, Copy, Debug, PartialEq, Eq, Structural)]
pub enum NoteEvent {
    NoteOn { note: u8, velocity_bits: u32 },
    NoteOff { note: u8 },
}

/// A note event addressed to one instrument of the rack.
#[derive(Clone, Copy, Debug, PartialEq, Eq, Structural)]
pub struct InstrumentEvent {
    pub instrument: usize,
    pub event: NoteEvent,
}

/// A note that an instrument is currently sounding.
#[derive(Clone, Copy, Debug, PartialEq, Eq, Structural)]
pub struct ActiveNote {
    pub instrument: usize,
    pub note: u8,
}

/// `s` without its first occurrence of `x`.
pub open spec fn remove_first(s: Seq<ActiveNote>, x: ActiveNote) -> Seq<ActiveNote>
    decreases s.len(),
{
    if s.len() == 0 {
        s
    } else if s[0] == x {
        s.drop_first()
    } else {
        seq![s[0]] + remove_first(s.drop_first(), x)
    }
}

/// The table of sounding notes after one event: a note-on adds the note, a note-off
/// takes out its first entry.
pub open spec fn apply_event(t: Seq<ActiveNote>, e: InstrumentEvent) -> Seq<ActiveNote> {
    match e.event {
        NoteEvent::NoteOn { note, .. } => t.push(ActiveNote { instrument: e.instrument, note }),
        NoteEvent::NoteOff { note } => remove_first(t, ActiveNote { instrument: e.instrument, note }),
    }
}

/// The table of sounding notes after a run of events, in order.
pub open spec fn apply_events(t: Seq<ActiveNote>, es: Seq<InstrumentEvent>) -> Seq<ActiveNote>
    decreases es.len(),
{
    if es.len() == 0 {
        t
    } else {
        apply_event(apply_events(t, es.drop_last()), es.last())
    }
}

/// A note-off for every entry of the table, in table order.
pub open spec fn release_events(t: Seq<ActiveNote>) -> Seq<InstrumentEvent> {
    t.map_values(|a: ActiveNote| InstrumentEvent { instrument: a.instrument, event: NoteEvent::NoteOff { note: a.note } })
}

pub proof fn lemma_apply_push(t: Seq<ActiveNote>, es: Seq<InstrumentEvent>, e: InstrumentEvent)
    ensures
        apply_events(t, es.push(e)) == apply_event(apply_events(t, es), e),
{
    assert(es.push(e).drop_last() =~= es);
}

pub proof fn lemma_apply_concat(t: Seq<ActiveNote>, a: Seq<InstrumentEvent>, b: Seq<InstrumentEvent>)
    ensures
        apply_events(t, a + b) == apply_events(apply_events(t, a), b),
    decreases b.len(),
{
    if b.len() == 0 {
        assert(a + b =~= a);
    } else {
        assert((a + b).drop_last() =~= a + b.drop_last());
        assert((a + b).last() == b.last());
        lemma_apply_concat(t, a, b.drop_last());
    }
}

proof fn lemma_remove_at_first(s: Seq<ActiveNote>, x: ActiveNote, i: int)
    requires
        0 <= i < s.len(),
        s[i] == x,
        forall|j: int| 0 <= j < i ==> s[j] != x,
    ensures
        remove_first(s, x) == s.remove(i),
    decreases i,
{
    if i == 0 {
        assert(s.drop_first() =~= s.remove(0));
    } else {
        lemma_remove_at_first(s.drop_first(), x, i - 1);
        assert(seq![s[0]] + s.drop_first().remove(i - 1) =~= s.remove(i));
    }
}

proof fn lemma_remove_absent(s: Seq<ActiveNote>, x: ActiveNote)
    requires
        forall|j: int| 0 <= j < s.len() ==> s[j] != x,
    ensures
        remove_first(s, x) == s,
    decreases s.len(),
{
    if s.len() > 0 {
        lemma_remove_absent(s.drop_first(), x);
        assert(seq![s[0]] + s.drop_first() =~= s);
    }
}

/// Releasing every sounding note, in table order, empties the table: each note-off
/// finds its own entry first.
pub proof fn lemma_release_empties_table(t: Seq<ActiveNote>)
    ensures
        apply_events(t, release_events(t)) == Seq::<ActiveNote>::empty(),
{
    lemma_release_prefix(t, t.len() as int);
    assert(t.subrange(t.len() as int, t.len() as int) =~= Seq::<ActiveNote>::empty());
    assert(release_events(t).take(t.len() as int) =~= release_events(t));
}

proof fn lemma_release_prefix(t: Seq<ActiveNote>, i: int)
    requires
        0 <= i <= t.len(),
    ensures
        apply_events(t, release_events(t).take(i)) == t.subrange(i, t.len() as int),
    decreases i,
{
    if i == 0 {
        assert(release_events(t).take(0) =~= Seq::<InstrumentEvent>::empty());
        assert(t.subrange(0, t.len() as int) =~= t);
    } else {
        lemma_release_prefix(t, i - 1);
        let r = release_events(t);
        assert(r.take(i).drop_last() =~= r.take(i - 1));
        assert(r.take(i).last() == r[i - 1]);
        let rest = t.subrange(i - 1, t.len() as int);
        assert(rest[0] == t[i - 1]);
        assert(rest.drop_first() =~= t.subrange(i, t.len() as int));
    }
}

/// Takes the first entry equal to `x` out of the table, if there is one.
pub fn release_note(table: &mut Vec<ActiveNote>, x: ActiveNote)
    ensures
        final(table)@ == remove_first(old(table)@, x),
{
    let mut k: usize = 0;
    while k < table.len() && table[k] != x
        invariant
            k <= table@.len(),
            table@ == old(table)@,
            forall|j: int| 0 <= j < k ==> table@[j] != x,
        decreases table@.len() - k,
    {
        k += 1;
    }
    if k < table.len() {
        proof {
            lemma_remove_at_first(table@, x, k as int);
        }
        table.remove(k);
    } else {
        proof {
            lemma_remove_absent(table@, x);
        }
    }
}

/// Sends `e` and keeps the table of sounding notes in step with it.
pub fn record_event(events: &mut Vec<InstrumentEvent>, table: &mut Vec<ActiveNote>, e: InstrumentEvent)
    ensures
        final(events)@ == old(events)@.push(e),
        final(table)@ == apply_event(old(table)@, e),
{
    events.push(e);
    match e.event {
        NoteEvent::NoteOn { note, .. } => {
            table.push(ActiveNote { instrument: e.instrument, note });
        },
        NoteEvent::NoteOff { note } => {
            release_note(table, ActiveNote { instrument: e.instrument, note });
        },
    }
}

/// Sends a note-off for every sounding note and empties the table.
pub fn release_all(events: &mut Vec<InstrumentEvent>, table: &mut Vec<ActiveNote>)
    ensures
        final(events)@ == old(events)@ + release_events(old(table)@),
        final(table)@.len() == 0,
{
    let ghost e0 = events@;
    let mut k: usize = 0;
    while k < table.len()
        invariant
            k <= table@.len(),
            table@ == old(table)@,
            events@ == e0 + release_events(table@.subrange(0, k as int)),
        decreases table@.len() - k,
    {
        let a = table[k];
        events.push(InstrumentEvent { instrument: a.instrument, event: NoteEvent::NoteOff { note: a.note } });
        assert(release_events(table@.subrange(0, k + 1)) =~= release_events(table@.subrange(0, k as int)).push(
            InstrumentEvent { instrument: a.instrument, event: NoteEvent::NoteOff { note: a.note } },
        ));
        k += 1;
    }
    assert(table@.subrange(0, table@.len() as int) =~= table@);
    table.clear();
}

} // verus!

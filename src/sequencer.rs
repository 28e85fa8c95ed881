use vstd::prelude::*;

use crate::clip::{Clip, InstrumentRoute};
use crate::events::{
    apply_events, lemma_apply_concat, lemma_apply_push, record_event, release_all, release_events, ActiveNote,
    InstrumentEvent, NoteEvent,
};
use crate::routing::{merge_route, routed, routes_wf};

verus! {

/// Beats in the shortest loop: eight bars of four beats.
pub const MIN_LOOP_BEATS: u64 = 32;

/// The shortest loop, in frames: eight bars at `tempo` beats per minute. A tempo of
/// zero never reaches its end.
pub open spec fn min_loop_frames(tempo: u32, sample_rate: u32) -> int {
    if tempo == 0 {
        u64::MAX as int
    } else {
        (MIN_LOOP_BEATS * 60 * sample_rate) as int / tempo as int
    }
}

/// The furthest end of the first `n` clips (zero without clips).
pub open spec fn max_clip_end(clips: Seq<Clip>, n: int) -> int
    decreases n,
{
    if n <= 0 {
        0
    } else {
        let m = max_clip_end(clips, n - 1);
        let e = clips[n - 1].end_spec();
        if e > m { e } else { m }
    }
}

/// Where playback wraps: the furthest clip end, or eight bars if that is longer.
pub open spec fn loop_length_spec(clips: Seq<Clip>, tempo: u32, sample_rate: u32) -> int {
    let m = max_clip_end(clips, clips.len() as int);
    let l = min_loop_frames(tempo, sample_rate);
    if m > l { m } else { l }
}

/// A clip takes part in the block `[cur, end)` while playing, or holds the instant `cur`
/// while stopped.
pub open spec fn clip_active(c: Clip, cur: int, end: int, playing: bool) -> bool {
    if playing {
        c.start_time < end && c.end_spec() > cur
    } else {
        cur >= c.start_time && cur < c.end_spec()
    }
}

/// The events of the `k`-th note of `c` for `inst` in the block `[cur, end)`: a note-on if
/// it starts there, a note-off if it ends there, and a forced note-off if the block ends at
/// the loop boundary while the note still sounds.
pub open spec fn note_events(c: Clip, k: int, inst: usize, cur: int, end: int, looped: bool) -> Seq<InstrumentEvent> {
    let s = c.note_start(k);
    let e = c.note_end(k);
    let n = c.notes@[k];
    let on = if cur <= s && s < end {
        seq![InstrumentEvent { instrument: inst, event: NoteEvent::NoteOn { note: n.note, velocity_bits: n.velocity_bits } }]
    } else {
        seq![]
    };
    let off = if cur <= e && e < end {
        seq![InstrumentEvent { instrument: inst, event: NoteEvent::NoteOff { note: n.note } }]
    } else {
        seq![]
    };
    let forced = if looped && s < end && e >= end {
        seq![InstrumentEvent { instrument: inst, event: NoteEvent::NoteOff { note: n.note } }]
    } else {
        seq![]
    };
    on + off + forced
}

/// In a block that ends at the loop boundary, a note that starts before the boundary and
/// has not ended before it gets a note-off as its last event of the block.
pub proof fn lemma_loop_wrap_releases(c: Clip, k: int, inst: usize, cur: int, end: int)
    requires
        0 <= k < c.notes@.len(),
        c.note_start(k) < end,
        c.note_end(k) >= end,
    ensures
        note_events(c, k, inst, cur, end, true).len() > 0,
        note_events(c, k, inst, cur, end, true).last() == (InstrumentEvent {
            instrument: inst,
            event: NoteEvent::NoteOff { note: c.notes@[k].note },
        }),
{
}

/// The events of the first `n` notes of `c` for `inst`, in note order.
pub open spec fn notes_events(c: Clip, n: int, inst: usize, cur: int, end: int, looped: bool) -> Seq<InstrumentEvent>
    decreases n,
{
    if n <= 0 {
        seq![]
    } else {
        notes_events(c, n - 1, inst, cur, end, looped) + note_events(c, n - 1, inst, cur, end, looped)
    }
}

/// The events of `c` for its first `m` instruments, instrument by instrument.
pub open spec fn clip_events(c: Clip, m: int, cur: int, end: int, looped: bool) -> Seq<InstrumentEvent>
    decreases m,
{
    if m <= 0 {
        seq![]
    } else {
        clip_events(c, m - 1, cur, end, looped) + notes_events(
            c,
            c.notes@.len() as int,
            c.instrument_ids@[m - 1],
            cur,
            end,
            looped,
        )
    }
}

/// The events of the first `n` clips during a playing block, clip by clip; inactive clips
/// send nothing.
pub open spec fn clips_events(clips: Seq<Clip>, n: int, cur: int, end: int, looped: bool) -> Seq<InstrumentEvent>
    decreases n,
{
    if n <= 0 {
        seq![]
    } else {
        clips_events(clips, n - 1, cur, end, looped) + if clip_active(clips[n - 1], cur, end, true) {
            clip_events(clips[n - 1], clips[n - 1].instrument_ids@.len() as int, cur, end, looped)
        } else {
            seq![]
        }
    }
}

/// One of the first `m` instrument slots of `c` names `inst`, and the clip's override for
/// `inst` lists `t`.
pub open spec fn clip_routes_upto(c: Clip, m: int, inst: usize, t: usize) -> bool {
    exists|m2: int, k: int|
        #![trigger c.instrument_ids@[m2], c.is_first_route(inst, k)]
        0 <= m2 < m && c.instrument_ids@[m2] == inst && c.is_first_route(inst, k)
            && c.instrument_routes@[k].tracks@.contains(t)
}

/// Clip `c` routes `inst` to track `t`: it drives `inst` and its override for `inst`
/// lists `t`.
pub open spec fn clip_routes(c: Clip, inst: usize, t: usize) -> bool {
    clip_routes_upto(c, c.instrument_ids@.len() as int, inst, t)
}

/// Some active clip among the first `n` routes `inst` to `t`.
pub open spec fn block_routes(clips: Seq<Clip>, n: int, inst: usize, t: usize, cur: int, end: int, playing: bool) -> bool {
    exists|j: int| 0 <= j < n && clip_active(clips[j], cur, end, playing) && #[trigger] clip_routes(clips[j], inst, t)
}

/// Transport state and timeline of the sequencer; times are in sample frames.
pub struct Sequencer {
    pub clips: Vec<Clip>,
    pub sample_rate: u32,
    pub current_time: u64,
    pub tempo: u32,
    pub playing: bool,
    /// Notes sounding now, each with the instrument that plays it.
    pub active_notes: Vec<ActiveNote>,
}

proof fn lemma_first_route_unique(c: Clip, inst: usize, k1: int, k2: int)
    requires
        c.is_first_route(inst, k1),
        c.is_first_route(inst, k2),
    ensures
        k1 == k2,
{
}

/// Sends the events of the `k`-th note of `c` for `inst`.
fn emit_note(
    c: &Clip,
    k: usize,
    inst: usize,
    cur: u64,
    end: u64,
    looped: bool,
    events: &mut Vec<InstrumentEvent>,
    table: &mut Vec<ActiveNote>,
)
    requires
        c.fits(),
        k < c.notes@.len(),
    ensures
        final(events)@ == old(events)@ + note_events(*c, k as int, inst, cur as int, end as int, looped),
        final(table)@ == apply_events(old(table)@, note_events(*c, k as int, inst, cur as int, end as int, looped)),
{
    let ghost e0 = events@;
    let ghost t0 = table@;
    let n = &c.notes[k];
    assert(c.note_end(k as int) <= u64::MAX);
    let s = c.start_time + n.relative_start;
    let e = s + n.duration;
    let on = InstrumentEvent { instrument: inst, event: NoteEvent::NoteOn { note: n.note, velocity_bits: n.velocity_bits } };
    let off = InstrumentEvent { instrument: inst, event: NoteEvent::NoteOff { note: n.note } };
    let ghost part: Seq<InstrumentEvent> = seq![];
    assert(apply_events(t0, part) == t0);
    if cur <= s && s < end {
        record_event(events, table, on);
        proof {
            lemma_apply_push(t0, part, on);
            part = part.push(on);
        }
    }
    if cur <= e && e < end {
        record_event(events, table, off);
        proof {
            lemma_apply_push(t0, part, off);
            part = part.push(off);
        }
    }
    if looped && s < end && e >= end {
        record_event(events, table, off);
        proof {
            lemma_apply_push(t0, part, off);
            part = part.push(off);
        }
    }
    assert(part =~= note_events(*c, k as int, inst, cur as int, end as int, looped));
    assert(events@ =~= e0 + part);
}

/// Sends the events of every note of `c` for `inst`, in note order.
fn emit_notes(
    c: &Clip,
    inst: usize,
    cur: u64,
    end: u64,
    looped: bool,
    events: &mut Vec<InstrumentEvent>,
    table: &mut Vec<ActiveNote>,
)
    requires
        c.fits(),
    ensures
        final(events)@ == old(events)@ + notes_events(*c, c.notes@.len() as int, inst, cur as int, end as int, looped),
        final(table)@ == apply_events(old(table)@, notes_events(*c, c.notes@.len() as int, inst, cur as int, end as int, looped)),
{
    let ghost e0 = events@;
    let ghost t0 = table@;
    let mut k: usize = 0;
    assert(e0 + notes_events(*c, 0, inst, cur as int, end as int, looped) =~= e0);
    while k < c.notes.len()
        invariant
            c.fits(),
            k <= c.notes@.len(),
            events@ == e0 + notes_events(*c, k as int, inst, cur as int, end as int, looped),
            table@ == apply_events(t0, notes_events(*c, k as int, inst, cur as int, end as int, looped)),
        decreases c.notes@.len() - k,
    {
        let ghost before = notes_events(*c, k as int, inst, cur as int, end as int, looped);
        let ghost ne = note_events(*c, k as int, inst, cur as int, end as int, looped);
        emit_note(c, k, inst, cur, end, looped, events, table);
        proof {
            lemma_apply_concat(t0, before, ne);
            assert(notes_events(*c, k + 1, inst, cur as int, end as int, looped) == before + ne);
            assert(events@ =~= e0 + (before + ne));
        }
        k += 1;
    }
}

/// Sends the events of `c` for each instrument it drives, instrument by instrument.
fn emit_clip(
    c: &Clip,
    cur: u64,
    end: u64,
    looped: bool,
    events: &mut Vec<InstrumentEvent>,
    table: &mut Vec<ActiveNote>,
)
    requires
        c.fits(),
    ensures
        final(events)@ == old(events)@ + clip_events(*c, c.instrument_ids@.len() as int, cur as int, end as int, looped),
        final(table)@ == apply_events(old(table)@, clip_events(*c, c.instrument_ids@.len() as int, cur as int, end as int, looped)),
{
    let ghost e0 = events@;
    let ghost t0 = table@;
    let mut m: usize = 0;
    assert(e0 + clip_events(*c, 0, cur as int, end as int, looped) =~= e0);
    while m < c.instrument_ids.len()
        invariant
            c.fits(),
            m <= c.instrument_ids@.len(),
            events@ == e0 + clip_events(*c, m as int, cur as int, end as int, looped),
            table@ == apply_events(t0, clip_events(*c, m as int, cur as int, end as int, looped)),
        decreases c.instrument_ids@.len() - m,
    {
        let ghost before = clip_events(*c, m as int, cur as int, end as int, looped);
        let inst = c.instrument_ids[m];
        let ghost ne = notes_events(*c, c.notes@.len() as int, inst, cur as int, end as int, looped);
        emit_notes(c, inst, cur, end, looped, events, table);
        proof {
            lemma_apply_concat(t0, before, ne);
            assert(clip_events(*c, m + 1, cur as int, end as int, looped) == before + ne);
            assert(events@ =~= e0 + (before + ne));
        }
        m += 1;
    }
}

/// Merges the routing overrides of `c` into `routes`.
fn merge_clip_routes(c: &Clip, routes: &mut Vec<InstrumentRoute>)
    requires
        routes_wf(old(routes)@),
    ensures
        routes_wf(final(routes)@),
        forall|i: usize, t: usize|
            #[trigger] routed(final(routes)@, i, t) <==> routed(old(routes)@, i, t) || clip_routes(*c, i, t),
{
    let ghost r0 = routes@;
    let mut m: usize = 0;
    while m < c.instrument_ids.len()
        invariant
            m <= c.instrument_ids@.len(),
            routes_wf(routes@),
            forall|i: usize, t: usize|
                #[trigger] routed(routes@, i, t) <==> routed(r0, i, t) || clip_routes_upto(*c, m as int, i, t),
        decreases c.instrument_ids@.len() - m,
    {
        let inst = c.instrument_ids[m];
        let ghost r1 = routes@;
        match c.find_route(inst) {
            Some(tracks) => {
                merge_route(routes, inst, tracks);
                proof {
                    let kw = choose|k: int| #[trigger] c.is_first_route(inst, k) && tracks@ == c.instrument_routes@[k].tracks@;
                    assert forall|i: usize, t: usize| #[trigger] routed(routes@, i, t) <==> routed(r0, i, t) || clip_routes_upto(*c, m + 1, i, t) by {
                        if clip_routes_upto(*c, m + 1, i, t) {
                            let (m2, k) = choose|m2: int, k: int|
                                #![trigger c.instrument_ids@[m2], c.is_first_route(i, k)]
                                0 <= m2 < m + 1 && c.instrument_ids@[m2] == i && c.is_first_route(i, k)
                                    && c.instrument_routes@[k].tracks@.contains(t);
                            if m2 == m {
                                lemma_first_route_unique(*c, inst, k, kw);
                            } else {
                                assert(clip_routes_upto(*c, m as int, i, t));
                            }
                        }
                        if i == inst && tracks@.contains(t) {
                            assert(c.instrument_routes@[kw].tracks@.contains(t));
                            assert(clip_routes_upto(*c, m + 1, i, t));
                        }
                        if clip_routes_upto(*c, m as int, i, t) {
                            let (m2, k) = choose|m2: int, k: int|
                                #![trigger c.instrument_ids@[m2], c.is_first_route(i, k)]
                                0 <= m2 < m && c.instrument_ids@[m2] == i && c.is_first_route(i, k)
                                    && c.instrument_routes@[k].tracks@.contains(t);
                            assert(clip_routes_upto(*c, m + 1, i, t));
                        }
                    }
                }
            },
            None => {
                proof {
                    assert forall|i: usize, t: usize| #[trigger] routed(routes@, i, t) <==> routed(r0, i, t) || clip_routes_upto(*c, m + 1, i, t) by {
                        if clip_routes_upto(*c, m + 1, i, t) {
                            let (m2, k) = choose|m2: int, k: int|
                                #![trigger c.instrument_ids@[m2], c.is_first_route(i, k)]
                                0 <= m2 < m + 1 && c.instrument_ids@[m2] == i && c.is_first_route(i, k)
                                    && c.instrument_routes@[k].tracks@.contains(t);
                            if m2 == m {
                                assert(c.instrument_routes@[k].instrument != inst);
                            } else {
                                assert(clip_routes_upto(*c, m as int, i, t));
                            }
                        }
                        if clip_routes_upto(*c, m as int, i, t) {
                            let (m2, k) = choose|m2: int, k: int|
                                #![trigger c.instrument_ids@[m2], c.is_first_route(i, k)]
                                0 <= m2 < m && c.instrument_ids@[m2] == i && c.is_first_route(i, k)
                                    && c.instrument_routes@[k].tracks@.contains(t);
                            assert(clip_routes_upto(*c, m + 1, i, t));
                        }
                    }
                }
            },
        }
        m += 1;
    }
}

impl Sequencer {
    /// Every clip's times fit in a `u64`.
    pub open spec fn wf(&self) -> bool {
        forall|j: int| 0 <= j < self.clips@.len() ==> (#[trigger] self.clips@[j]).fits()
    }

    /// Where the block that starts now ends, and whether it reaches the loop boundary.
    pub open spec fn block_window(&self, frames: u64) -> (int, bool) {
        let cur = self.current_time as int;
        let len = loop_length_spec(self.clips@, self.tempo, self.sample_rate);
        if !self.playing {
            (cur, false)
        } else if cur + frames >= len {
            (len, true)
        } else {
            (cur + frames, false)
        }
    }

    pub fn new() -> (r: Sequencer)
        ensures
            r.wf(),
            r.clips@.len() == 0,
            r.sample_rate == 44100,
            r.current_time == 0,
            r.tempo == 120,
            !r.playing,
            r.active_notes@.len() == 0,
    {
        Sequencer {
            clips: Vec::new(),
            sample_rate: 44100,
            current_time: 0,
            tempo: 120,
            playing: false,
            active_notes: Vec::new(),
        }
    }

    /// Sets the playing flag, and the position and tempo where given.
    pub fn set_transport(&mut self, playing: bool, position: Option<u64>, tempo: Option<u32>)
        ensures
            final(self).playing == playing,
            final(self).current_time == match position { Some(p) => p, None => old(self).current_time },
            final(self).tempo == match tempo { Some(t) => t, None => old(self).tempo },
            final(self).clips == old(self).clips,
            final(self).sample_rate == old(self).sample_rate,
            final(self).active_notes == old(self).active_notes,
    {
        self.playing = playing;
        if let Some(p) = position {
            self.current_time = p;
        }
        if let Some(t) = tempo {
            self.tempo = t;
        }
    }

    pub fn add_clip(&mut self, clip: Clip)
        requires
            old(self).wf(),
            clip.fits(),
        ensures
            final(self).wf(),
            final(self).clips@ == old(self).clips@.push(clip),
            final(self).current_time == old(self).current_time,
            final(self).tempo == old(self).tempo,
            final(self).playing == old(self).playing,
            final(self).sample_rate == old(self).sample_rate,
            final(self).active_notes == old(self).active_notes,
    {
        self.clips.push(clip);
        assert(self.clips@.last().fits());
    }

    /// The loop length in frames.
    pub fn loop_length(&self) -> (r: u64)
        requires
            self.wf(),
        ensures
            r == loop_length_spec(self.clips@, self.tempo, self.sample_rate),
    {
        let mut m: u64 = 0;
        let mut j: usize = 0;
        while j < self.clips.len()
            invariant
                self.wf(),
                j <= self.clips@.len(),
                m == max_clip_end(self.clips@, j as int),
            decreases self.clips@.len() - j,
        {
            let c = &self.clips[j];
            assert(self.clips@[j as int].fits());
            let e = c.start_time + c.duration;
            if e > m {
                m = e;
            }
            j += 1;
        }
        let l: u64 = if self.tempo == 0 {
            u64::MAX
        } else {
            MIN_LOOP_BEATS * 60 * (self.sample_rate as u64) / (self.tempo as u64)
        };
        if m > l { m } else { l }
    }

    /// The end of the block that starts now.
    pub open spec fn block_end(&self, frames: u64) -> int {
        self.block_window(frames).0
    }

    /// The block that starts now reaches the loop boundary.
    pub open spec fn block_loops(&self, frames: u64) -> bool {
        self.block_window(frames).1
    }

    /// Computes the note events and the instrument routing of the next block of `frames`
    /// frames, and advances the transport.
    ///
    /// While stopped, every sounding note is released. While playing, each active clip sends
    /// the note boundaries that fall in the block, and a note still sounding at the loop
    /// boundary gets a forced note-off there. Routing is the union of the overrides of the
    /// active clips.
    pub fn process(&mut self, frames: u64) -> (r: (Vec<InstrumentEvent>, Vec<InstrumentRoute>))
        requires
            old(self).wf(),
        ensures
            final(self).wf(),
            final(self).clips@ == old(self).clips@,
            final(self).tempo == old(self).tempo,
            final(self).sample_rate == old(self).sample_rate,
            final(self).playing == old(self).playing,
            final(self).current_time == if !old(self).playing {
                old(self).current_time as int
            } else if old(self).block_loops(frames) {
                0
            } else {
                old(self).block_end(frames)
            },
            r.0@ == if old(self).playing {
                clips_events(
                    old(self).clips@,
                    old(self).clips@.len() as int,
                    old(self).current_time as int,
                    old(self).block_end(frames),
                    old(self).block_loops(frames),
                )
            } else {
                release_events(old(self).active_notes@)
            },
            final(self).active_notes@ == if old(self).playing {
                apply_events(old(self).active_notes@, r.0@)
            } else {
                Seq::<ActiveNote>::empty()
            },
            routes_wf(r.1@),
            forall|i: usize, t: usize|
                #[trigger] routed(r.1@, i, t) <==> block_routes(
                    old(self).clips@,
                    old(self).clips@.len() as int,
                    i,
                    t,
                    old(self).current_time as int,
                    old(self).block_end(frames),
                    old(self).playing,
                ),
    {
        let cur = self.current_time;
        let len = self.loop_length();
        let playing = self.playing;
        let (end, looped) = if !playing {
            (cur, false)
        } else if frames >= len || cur >= len - frames {
            (len, true)
        } else {
            (cur + frames, false)
        };
        assert(end == old(self).block_end(frames) && looped == old(self).block_loops(frames));
        let ghost t0 = self.active_notes@;
        let ghost clips0 = self.clips@;
        let mut events: Vec<InstrumentEvent> = Vec::new();
        let mut routing: Vec<InstrumentRoute> = Vec::new();
        if !playing {
            release_all(&mut events, &mut self.active_notes);
            assert(events@ =~= release_events(t0));
        }
        let mut j: usize = 0;
        while j < self.clips.len()
            invariant
                self.wf(),
                self.clips@ == clips0,
                self.playing == playing,
                self.current_time == cur,
                self.tempo == old(self).tempo,
                self.sample_rate == old(self).sample_rate,
                j <= clips0.len(),
                routes_wf(routing@),
                forall|i: usize, t: usize|
                    #[trigger] routed(routing@, i, t) <==> block_routes(clips0, j as int, i, t, cur as int, end as int, playing),
                playing ==> events@ == clips_events(clips0, j as int, cur as int, end as int, looped),
                playing ==> self.active_notes@ == apply_events(t0, events@),
                !playing ==> events@ == release_events(t0),
                !playing ==> self.active_notes@.len() == 0,
            decreases clips0.len() - j,
        {
            let c = &self.clips[j];
            assert(clips0[j as int].fits());
            let active = if playing {
                c.start_time < end && c.start_time + c.duration > cur
            } else {
                cur >= c.start_time && cur < c.start_time + c.duration
            };
            let ghost r1 = routing@;
            let ghost ev1 = events@;
            if active {
                merge_clip_routes(c, &mut routing);
                if playing {
                    emit_clip(&self.clips[j], cur, end, looped, &mut events, &mut self.active_notes);
                    proof {
                        let ce = clip_events(clips0[j as int], clips0[j as int].instrument_ids@.len() as int, cur as int, end as int, looped);
                        lemma_apply_concat(t0, ev1, ce);
                    }
                }
            }
            proof {
                assert forall|i: usize, t: usize|
                    #[trigger] routed(routing@, i, t) <==> block_routes(clips0, j + 1, i, t, cur as int, end as int, playing) by {
                    if block_routes(clips0, j + 1, i, t, cur as int, end as int, playing) {
                        let jj = choose|jj: int| 0 <= jj < j + 1 && clip_active(clips0[jj], cur as int, end as int, playing)
                            && #[trigger] clip_routes(clips0[jj], i, t);
                        if jj < j {
                            assert(block_routes(clips0, j as int, i, t, cur as int, end as int, playing));
                        }
                    }
                    if block_routes(clips0, j as int, i, t, cur as int, end as int, playing) {
                        let jj = choose|jj: int| 0 <= jj < j && clip_active(clips0[jj], cur as int, end as int, playing)
                            && #[trigger] clip_routes(clips0[jj], i, t);
                        assert(block_routes(clips0, j + 1, i, t, cur as int, end as int, playing));
                    }
                    if active && clip_routes(clips0[j as int], i, t) {
                        assert(block_routes(clips0, j + 1, i, t, cur as int, end as int, playing));
                    }
                }
            }
            j += 1;
        }
        if playing {
            if looped {
                self.current_time = 0;
            } else {
                self.current_time = end;
            }
        }
        (events, routing)
    }
}

} // verus!

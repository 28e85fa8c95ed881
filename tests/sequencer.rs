use my_daw_lib::clip::{Clip, InstrumentRoute, Note};
use my_daw_lib::events::{ActiveNote, InstrumentEvent, NoteEvent};
use my_daw_lib::sequencer::Sequencer;

const SR: u64 = 44100;

fn secs_tenths(t: u64) -> u64 {
    t * SR / 10
}

fn clip(id: &str, start: u64, duration: u64, instruments: Vec<usize>, routes: Vec<InstrumentRoute>, notes: Vec<Note>) -> Clip {
    Clip {
        id: id.to_string(),
        name: id.to_string(),
        start_time: start,
        duration,
        instrument_ids: instruments,
        instrument_routes: routes,
        notes,
    }
}

fn note(start: u64, duration: u64, n: u8) -> Note {
    Note { relative_start: start, duration, note: n, velocity_bits: 0.8f32.to_bits() }
}

#[test]
fn new_sequencer_defaults() {
    let s = Sequencer::new();
    assert_eq!(s.sample_rate, 44100);
    assert_eq!(s.tempo, 120);
    assert_eq!(s.current_time, 0);
    assert!(!s.playing);
    assert!(s.active_notes.is_empty());
}

#[test]
fn loop_length_is_eight_bars_without_clips() {
    let s = Sequencer::new();
    assert_eq!(s.loop_length(), 16 * SR);
}

#[test]
fn loop_length_follows_the_furthest_clip() {
    let mut s = Sequencer::new();
    s.add_clip(clip("a", 10 * SR, 10 * SR, vec![0], vec![], vec![]));
    assert_eq!(s.loop_length(), 20 * SR);
    s.set_transport(false, None, Some(60));
    assert_eq!(s.loop_length(), 32 * SR);
}

#[test]
fn zero_tempo_never_wraps_on_its_own() {
    let mut s = Sequencer::new();
    s.set_transport(true, Some(0), Some(0));
    assert_eq!(s.loop_length(), u64::MAX);
    let (events, _) = s.process(512);
    assert!(events.is_empty());
    assert_eq!(s.current_time, 512);
}

#[test]
fn set_transport_keeps_what_is_not_given() {
    let mut s = Sequencer::new();
    s.set_transport(true, Some(1000), None);
    assert!(s.playing);
    assert_eq!(s.current_time, 1000);
    assert_eq!(s.tempo, 120);
    s.set_transport(false, None, Some(90));
    assert_eq!(s.current_time, 1000);
    assert_eq!(s.tempo, 90);
}

#[test]
fn playing_block_emits_note_on_and_off_inside_it() {
    let mut s = Sequencer::new();
    s.add_clip(clip("a", 0, 4 * SR, vec![1], vec![], vec![note(100, 200, 60)]));
    s.set_transport(true, Some(0), None);
    let (events, _) = s.process(512);
    assert_eq!(
        events,
        vec![
            InstrumentEvent { instrument: 1, event: NoteEvent::NoteOn { note: 60, velocity_bits: 0.8f32.to_bits() } },
            InstrumentEvent { instrument: 1, event: NoteEvent::NoteOff { note: 60 } },
        ]
    );
    assert!(s.active_notes.is_empty());
    assert_eq!(s.current_time, 512);
}

#[test]
fn stopping_releases_the_sounding_note_once() {
    let mut s = Sequencer::new();
    s.add_clip(clip("a", 0, 4 * SR, vec![0], vec![], vec![note(0, 2 * SR, 64)]));
    s.set_transport(true, Some(0), None);
    let (events, _) = s.process(256);
    assert_eq!(events.len(), 1);
    assert_eq!(s.active_notes, vec![ActiveNote { instrument: 0, note: 64 }]);

    s.set_transport(false, None, None);
    let (events, _) = s.process(256);
    assert_eq!(events, vec![InstrumentEvent { instrument: 0, event: NoteEvent::NoteOff { note: 64 } }]);
    assert!(s.active_notes.iter().all(|a| a.instrument != 0));
    assert!(s.active_notes.is_empty());
    assert_eq!(s.current_time, 256);

    let (events, _) = s.process(256);
    assert!(events.is_empty());
}

#[test]
fn loop_boundary_forces_note_off_without_duplicate() {
    let mut s = Sequencer::new();
    s.add_clip(clip("a", 0, 16 * SR, vec![0], vec![], vec![note(secs_tenths(159), secs_tenths(5), 72)]));
    assert_eq!(s.loop_length(), 16 * SR);
    s.set_transport(true, Some(secs_tenths(158)), None);
    let (events, _) = s.process(secs_tenths(2));
    assert_eq!(
        events,
        vec![
            InstrumentEvent { instrument: 0, event: NoteEvent::NoteOn { note: 72, velocity_bits: 0.8f32.to_bits() } },
            InstrumentEvent { instrument: 0, event: NoteEvent::NoteOff { note: 72 } },
        ]
    );
    assert!(s.active_notes.is_empty());
    assert_eq!(s.current_time, 0);

    let (events, _) = s.process(secs_tenths(2));
    assert!(events.is_empty());
    assert_eq!(s.current_time, secs_tenths(2));
}

#[test]
fn routing_is_the_union_of_active_clips() {
    let mut s = Sequencer::new();
    s.add_clip(clip("a", 0, 4 * SR, vec![7], vec![InstrumentRoute { instrument: 7, tracks: vec![2] }], vec![]));
    s.add_clip(clip("b", 0, 4 * SR, vec![7], vec![InstrumentRoute { instrument: 7, tracks: vec![2, 3] }], vec![]));
    s.set_transport(true, Some(0), None);
    let (_, routing) = s.process(512);
    assert_eq!(routing.len(), 1);
    assert_eq!(routing[0].instrument, 7);
    let mut tracks = routing[0].tracks.clone();
    tracks.sort();
    assert_eq!(tracks, vec![2, 3]);
}

#[test]
fn stopped_routing_uses_clips_under_the_playhead() {
    let mut s = Sequencer::new();
    s.add_clip(clip("a", 0, SR, vec![0], vec![InstrumentRoute { instrument: 0, tracks: vec![1] }], vec![note(0, 10, 60)]));
    s.add_clip(clip("b", 2 * SR, SR, vec![0], vec![InstrumentRoute { instrument: 0, tracks: vec![4] }], vec![]));
    s.set_transport(false, Some(2 * SR), None);
    let (events, routing) = s.process(512);
    assert!(events.is_empty());
    assert_eq!(routing.len(), 1);
    assert_eq!(routing[0].tracks, vec![4]);
    assert_eq!(s.current_time, 2 * SR);
}

#[test]
fn instrument_without_override_has_no_routing() {
    let mut s = Sequencer::new();
    s.add_clip(clip("a", 0, SR, vec![0, 1], vec![InstrumentRoute { instrument: 1, tracks: vec![0] }], vec![]));
    s.set_transport(true, Some(0), None);
    let (_, routing) = s.process(64);
    assert_eq!(routing.len(), 1);
    assert_eq!(routing[0].instrument, 1);
}

#[test]
fn clip_route_lookup_takes_first_entry() {
    let c = clip(
        "a",
        0,
        SR,
        vec![3],
        vec![InstrumentRoute { instrument: 3, tracks: vec![1] }, InstrumentRoute { instrument: 3, tracks: vec![9] }],
        vec![],
    );
    assert_eq!(c.find_route(3), Some(&vec![1]));
    assert_eq!(c.find_route(4), None);
}

#[test]
fn clip_times_must_fit() {
    assert!(clip("a", 10, 20, vec![], vec![], vec![note(5, 5, 60)]).times_fit());
    assert!(!clip("a", u64::MAX - 5, 10, vec![], vec![], vec![]).times_fit());
    assert!(clip("a", 10, 20, vec![], vec![], vec![note(u64::MAX - 12, 1, 60)]).times_fit());
    assert!(!clip("a", 10, 20, vec![], vec![], vec![note(u64::MAX - 10, 1, 60)]).times_fit());
    assert!(!clip("a", 10, 20, vec![], vec![], vec![note(5, u64::MAX - 14, 60)]).times_fit());
}

use my_daw_lib::clip::InstrumentRoute;
use my_daw_lib::events::{InstrumentEvent, NoteEvent};
use my_daw_lib::mixer::{meter_id_for, plan_block};
use uuid::Uuid;

#[test]
fn each_instrument_runs_once_per_block() {
    let routing = vec![InstrumentRoute { instrument: 0, tracks: vec![0, 1] }];
    let mut calls = 0usize;
    let blocks = 5;
    for _ in 0..blocks {
        let plan = plan_block(1, 2, &vec![], &routing);
        for p in &plan {
            if p.instrument == 0 {
                calls += 1;
            }
        }
        assert_eq!(plan[0].tracks, vec![0, 1]);
    }
    assert_eq!(calls, blocks);
}

#[test]
fn plan_splits_events_and_drops_missing_tracks() {
    let events = vec![
        InstrumentEvent { instrument: 1, event: NoteEvent::NoteOn { note: 60, velocity_bits: 0 } },
        InstrumentEvent { instrument: 0, event: NoteEvent::NoteOff { note: 61 } },
        InstrumentEvent { instrument: 1, event: NoteEvent::NoteOff { note: 60 } },
    ];
    let routing = vec![
        InstrumentRoute { instrument: 1, tracks: vec![3, 0] },
        InstrumentRoute { instrument: 0, tracks: vec![1] },
    ];
    let plan = plan_block(3, 2, &events, &routing);
    assert_eq!(plan.len(), 3);
    assert_eq!(plan[0].events, vec![NoteEvent::NoteOff { note: 61 }]);
    assert_eq!(plan[0].tracks, vec![1]);
    assert_eq!(plan[1].events, vec![NoteEvent::NoteOn { note: 60, velocity_bits: 0 }, NoteEvent::NoteOff { note: 60 }]);
    assert_eq!(plan[1].tracks, vec![0]);
    assert!(plan[2].events.is_empty());
    assert!(plan[2].tracks.is_empty());
}

#[test]
fn meter_identity_is_kept_or_freshly_drawn() {
    let given = Uuid::from_u128(0x1234);
    assert_eq!(meter_id_for(Some(given)), given);
    let a = meter_id_for(None);
    let b = meter_id_for(None);
    assert_eq!(a.get_version_num(), 4);
    assert_ne!(a, b);
    assert_ne!(a, Uuid::nil());
}

use my_daw_lib::param_address::{instrument_param_id, resolve_param, track_param_id, ParamTarget};
use my_daw_lib::params::{ParamBank, ParamMap, ParamMapping};

#[test]
fn mixer_ids_split_into_tracks_and_instruments() {
    assert_eq!(resolve_param(0), ParamTarget::Track { index: 0, local_id: 0 });
    assert_eq!(resolve_param(205), ParamTarget::Track { index: 2, local_id: 5 });
    assert_eq!(resolve_param(9999), ParamTarget::Track { index: 99, local_id: 99 });
    assert_eq!(resolve_param(10000), ParamTarget::Instrument { index: 0, local_id: 0 });
    assert_eq!(resolve_param(10301), ParamTarget::Instrument { index: 3, local_id: 1 });
    assert_eq!(track_param_id(2, 5), 205);
    assert_eq!(instrument_param_id(3, 1), 10301);
}

#[test]
fn bank_round_trip_and_unknown_ids() {
    let mut b = ParamBank::new();
    b.declare(0, 1.0f32.to_bits());
    b.declare(1, 0.0f32.to_bits());
    b.set_param(0, 0.25f32.to_bits());
    assert_eq!(f32::from_bits(b.get_param(0)), 0.25);
    b.set_param(1, 2.0f32.to_bits());
    assert_eq!(f32::from_bits(b.get_param(1)), 2.0);
    assert_eq!(f32::from_bits(b.get_param(0)), 0.25);
    assert_eq!(b.get_param(7), 0);
    b.set_param(7, 3.0f32.to_bits());
    assert_eq!(b.get_param(7), 0);
}

#[test]
fn container_mapping_reaches_only_the_mapped_child() {
    let mut map = ParamMap::new();
    map.map_param(0, 0, 0);
    map.map_param(1, 1, 1);
    let mut children = vec![ParamBank::new(), ParamBank::new()];
    children[0].declare(0, 1.0f32.to_bits());
    children[1].declare(0, 0.5f32.to_bits());
    children[1].declare(1, 0.0f32.to_bits());

    if let Some((child, internal)) = map.lookup(0) {
        children[child].set_param(internal, 0.7f32.to_bits());
    }
    let (child, internal) = map.lookup(0).unwrap();
    assert_eq!(f32::from_bits(children[child].get_param(internal)), 0.7);
    assert_eq!(f32::from_bits(children[1].get_param(0)), 0.5);
    assert_eq!(map.lookup(1), Some((1, 1)));
    assert_eq!(map.lookup(2), None);
}

#[test]
fn remapping_replaces_and_lists_in_id_order() {
    let mut map = ParamMap::new();
    map.map_param(5, 1, 0);
    map.map_param(2, 0, 3);
    map.map_param(5, 0, 1);
    assert_eq!(map.lookup(5), Some((0, 1)));
    assert_eq!(
        map.sorted_mappings(),
        vec![
            ParamMapping { external_id: 2, child: 0, internal_id: 3 },
            ParamMapping { external_id: 5, child: 0, internal_id: 1 },
        ]
    );
}

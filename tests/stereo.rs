use my_daw_lib::plugin::{IOConfig, Waveform};
use my_daw_lib::stereo::StereoScratch;

#[test]
fn oversized_block_becomes_exact_silence() {
    let mut s = StereoScratch::new(4, 0.0f32);
    let mut buf = vec![1.0f32; 20];
    assert_eq!(s.prepare_block(&mut buf, 0.0), None);
    assert_eq!(buf.len(), 20);
    assert!(buf.iter().all(|x| x.to_bits() == 0.0f32.to_bits()));
}

#[test]
fn block_within_capacity_round_trips_through_channels() {
    let mut s = StereoScratch::new(4, 0.0f32);
    s.left[0] = 9.0;
    let mut buf = vec![0.5f32; 6];
    assert_eq!(s.prepare_block(&mut buf, 0.0), Some(3));
    assert_eq!(buf, vec![0.5f32; 6]);
    assert_eq!(s.left[0], 0.0);
    for i in 0..3 {
        s.left[i] = i as f32;
        s.right[i] = -(i as f32);
    }
    s.interleave_into(&mut buf, 3);
    assert_eq!(buf, vec![0.0, -0.0, 1.0, -1.0, 2.0, -2.0]);
}

#[test]
fn io_config_defaults_to_stereo() {
    let c = IOConfig::default();
    assert_eq!(c, IOConfig { inputs: 2, outputs: 2 });
}

#[test]
fn waveform_indices() {
    assert_eq!(Waveform::from_index(0), Waveform::Sine);
    assert_eq!(Waveform::from_index(1), Waveform::Square);
    assert_eq!(Waveform::from_index(2), Waveform::Sawtooth);
    assert_eq!(Waveform::from_index(3), Waveform::Triangle);
    assert_eq!(Waveform::from_index(17), Waveform::Sine);
    assert_eq!(Waveform::Triangle.index(), 3);
}

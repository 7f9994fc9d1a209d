use olivia::midi::TimedMidi;
use olivia::plugin::PluginInstance;
use olivia::processor::{Processor, Track};

#[derive(Debug, Clone, Copy)]
struct OnePluginInstance;

impl PluginInstance for OnePluginInstance {
    fn process(&mut self, _midi: &[TimedMidi], out_left: &mut Vec<u32>, out_right: &mut Vec<u32>) {
        fill_buffer(out_left, 1.0);
        fill_buffer(out_right, 1.0);
    }
}

fn fill_buffer(b: &mut Vec<u32>, scalar: f32) {
    for o in b.iter_mut() {
        *o = scalar.to_bits();
    }
}

fn bits_of(samples: &[f32]) -> Vec<u32> {
    samples.iter().map(|s| s.to_bits()).collect()
}

fn floats_of(bits: &[u32]) -> Vec<f32> {
    bits.iter().map(|b| f32::from_bits(*b)).collect()
}

fn new_track(volume: f32) -> Track<OnePluginInstance> {
    let mut t = Track::new(1024, volume.to_bits());
    t.add_plugin(OnePluginInstance);
    t
}

#[test]
fn outputs_are_cleared() {
    let mut left = bits_of(&[1.0, 2.0]);
    let mut right = bits_of(&[3.0, 4.0]);

    let mut p: Processor<OnePluginInstance> = Processor::new();
    assert_ne!(
        [floats_of(&left), floats_of(&right)],
        [vec![0.0, 0.0], vec![0.0, 0.0]]
    );
    p.process(&[], &mut left, &mut right);
    assert_eq!(
        [floats_of(&left), floats_of(&right)],
        [vec![0.0, 0.0], vec![0.0, 0.0]]
    );
}

#[test]
fn tracks_are_played() {
    let mut p = Processor::new();
    p.add_track(new_track(0.5));
    p.add_track(new_track(0.25));

    let mut left = bits_of(&[0.0; 2]);
    let mut right = bits_of(&[0.0; 2]);
    p.process(&[], &mut left, &mut right);

    assert_eq!(
        [floats_of(&left), floats_of(&right)],
        [vec![0.75, 0.75], vec![0.75, 0.75]]
    )
}

#[test]
fn tracks_are_removed() {
    let mut p = Processor::new();
    p.add_track(new_track(0.5));
    p.add_track(new_track(0.25));
    p.remove_track(0);

    let mut left = bits_of(&[0.0; 2]);
    let mut right = bits_of(&[0.0; 2]);
    p.process(&[], &mut left, &mut right);

    assert_eq!(
        [floats_of(&left), floats_of(&right)],
        [vec![0.25, 0.25], vec![0.25, 0.25]]
    )
}

#[test]
fn tracks_can_set_volume() {
    let mut p = Processor::new();
    let mut t = new_track(1.0);
    t.set_volume(0.5f32.to_bits());
    p.add_track(t);

    let mut left = bits_of(&[0.0; 2]);
    let mut right = bits_of(&[0.0; 2]);
    p.process(&[], &mut left, &mut right);

    assert_eq!(
        [floats_of(&left), floats_of(&right)],
        [vec![0.5, 0.5], vec![0.5, 0.5]]
    )
}

#[test]
fn processor_can_set_volume() {
    let mut p = Processor::new();
    p.add_track(new_track(1.0));
    p.set_volume(2.0f32.to_bits());

    let mut left = bits_of(&[0.0; 2]);
    let mut right = bits_of(&[0.0; 2]);
    p.process(&[], &mut left, &mut right);

    assert_eq!(
        [floats_of(&left), floats_of(&right)],
        [vec![2.0, 2.0], vec![2.0, 2.0]]
    )
}

#[test]
fn processor_outputs_are_cleared() {
    let mut left = bits_of(&[1.0, 2.0]);
    let mut right = bits_of(&[3.0, 4.0]);

    let mut p: Processor<OnePluginInstance> = Processor::new();
    p.process(&[], &mut left, &mut right);
    assert_eq!(
        [floats_of(&left), floats_of(&right)],
        [vec![0.0, 0.0], vec![0.0, 0.0]]
    );
}

#[test]
fn processor_tracks_are_played() {
    let mut p = Processor::new();
    p.add_track(new_track(0.5));
    p.add_track(new_track(0.25));

    let mut left = bits_of(&[0.0; 2]);
    let mut right = bits_of(&[0.0; 2]);
    p.process(&[], &mut left, &mut right);

    assert_eq!(
        [floats_of(&left), floats_of(&right)],
        [vec![0.75, 0.75], vec![0.75, 0.75]]
    )
}

#[test]
fn processor_tracks_are_removed() {
    let mut p = Processor::new();
    p.add_track(new_track(0.5));
    p.add_track(new_track(0.25));
    p.remove_track(0);

    let mut left = bits_of(&[0.0; 2]);
    let mut right = bits_of(&[0.0; 2]);
    p.process(&[], &mut left, &mut right);

    assert_eq!(
        [floats_of(&left), floats_of(&right)],
        [vec![0.25, 0.25], vec![0.25, 0.25]]
    )
}

#[test]
fn processor_tracks_can_set_volume() {
    let mut p = Processor::new();
    let mut t = new_track(1.0);
    t.set_volume(0.5f32.to_bits());
    p.add_track(t);

    let mut left = bits_of(&[0.0; 2]);
    let mut right = bits_of(&[0.0; 2]);
    p.process(&[], &mut left, &mut right);

    assert_eq!(
        [floats_of(&left), floats_of(&right)],
        [vec![0.5, 0.5], vec![0.5, 0.5]]
    )
}

#[test]
fn processor_processor_can_set_volume() {
    let mut p = Processor::new();
    p.add_track(new_track(1.0));
    p.set_volume(2.0f32.to_bits());

    let mut left = bits_of(&[0.0; 2]);
    let mut right = bits_of(&[0.0; 2]);
    p.process(&[], &mut left, &mut right);

    assert_eq!(
        [floats_of(&left), floats_of(&right)],
        [vec![2.0, 2.0], vec![2.0, 2.0]]
    )
}

#[test]
fn silence_plugin_writes_zeros() {
    let mut p: Processor<olivia::plugin::Silence> = Processor::new();
    let mut t = Track::new(2, 1.0f32.to_bits());
    t.add_plugin(olivia::plugin::Silence);
    p.add_track(t);

    let mut left = bits_of(&[7.0, 8.0]);
    let mut right = bits_of(&[9.0, 10.0]);
    p.process(&[], &mut left, &mut right);

    assert_eq!(floats_of(&left), vec![0.0, 0.0]);
    assert_eq!(floats_of(&right), vec![0.0, 0.0]);
}

#[test]
fn mixing_indexes_only_the_shared_prefix() {
    // A track with a short scratch buffer contributes only to the frames it
    // rendered; later frames of the outputs stay silent.
    let mut p = Processor::new();
    let mut t = Track::new(1, 1.0f32.to_bits());
    t.add_plugin(OnePluginInstance);
    p.add_track(t);

    let mut left = bits_of(&[5.0, 6.0, 7.0]);
    let mut right = bits_of(&[5.0, 6.0, 7.0]);
    p.process(&[], &mut left, &mut right);

    assert_eq!(floats_of(&left), vec![1.0, 0.0, 0.0]);
    assert_eq!(floats_of(&right), vec![1.0, 0.0, 0.0]);
}

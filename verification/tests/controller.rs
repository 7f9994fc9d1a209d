use olivia::controller::{Controller, ControllerError, IntId, PluginInstance, Track};
use olivia::midi::TimedMidi;
use olivia::plugin_factory::{PluginBuilderError, PluginFactory, PluginMetadata};
use olivia::plugin_registry::CloneablePluginBuilder;

#[derive(Debug, Clone, Copy)]
struct OnePluginInstance;

impl olivia::plugin::PluginInstance for OnePluginInstance {
    fn process(&mut self, _midi: &[TimedMidi], out_left: &mut Vec<u32>, out_right: &mut Vec<u32>) {
        for o in out_left.iter_mut() {
            *o = 1.0f32.to_bits();
        }
        for o in out_right.iter_mut() {
            *o = 1.0f32.to_bits();
        }
    }
}

type OneBuilder = CloneablePluginBuilder<OnePluginInstance>;

fn new_controller() -> (Controller<OneBuilder>, olivia::controller::Processor<OnePluginInstance>) {
    let mut factory: PluginFactory<OneBuilder> = PluginFactory::new();
    factory
        .register(CloneablePluginBuilder::new(
            PluginMetadata {
                id: "test_one".to_string(),
                display_name: "Writes one".to_string(),
            },
            OnePluginInstance,
        ))
        .unwrap();
    Controller::new(factory)
}

fn instance(id: usize) -> PluginInstance {
    PluginInstance {
        id: IntId(id),
        plugin_id: "test_one".to_string(),
    }
}

fn track(id: usize, plugin_instances: Vec<IntId>) -> Track {
    Track {
        id: IntId(id),
        name: format!("Track {}", id),
        volume: 1.0f32.to_bits(),
        plugin_instances,
    }
}

fn floats_of(bits: &[u32]) -> Vec<f32> {
    bits.iter().map(|b| f32::from_bits(*b)).collect()
}

#[test]
fn add_track_requires_buffer_size() {
    let (mut controller, _audio) = new_controller();
    let r = controller.add_track(track(0, vec![]));
    assert!(matches!(r, Err(ControllerError::BufferSizeHasNotBeenSet)));
    assert_eq!(controller.tracks().len(), 0);
}

#[test]
fn add_track_rejects_duplicate_id() {
    let (mut controller, _audio) = new_controller();
    controller.set_buffer_size(4);
    controller.add_track(track(3, vec![])).unwrap();
    let r = controller.add_track(track(3, vec![]));
    assert!(matches!(
        r,
        Err(ControllerError::TrackAlreadyExists(id, _)) if id == IntId(3)
    ));
    assert_eq!(controller.tracks().len(), 1);
}

#[test]
fn add_track_rejects_unknown_plugin_instance() {
    let (mut controller, _audio) = new_controller();
    controller.set_buffer_size(4);
    let r = controller.add_track(track(0, vec![IntId(42)]));
    assert!(matches!(
        r,
        Err(ControllerError::TrackReferencesNonExistantPluginInstance {
            track_id: IntId(0),
            plugin_instance_id: IntId(42),
        })
    ));
}

#[test]
fn add_track_rejects_moving_a_plugin_instance() {
    let (mut controller, _audio) = new_controller();
    controller.set_buffer_size(4);
    controller.create_plugin_instance(instance(1)).unwrap();
    controller.add_track(track(10, vec![IntId(1)])).unwrap();
    let r = controller.add_track(track(11, vec![IntId(1)]));
    assert!(matches!(
        r,
        Err(ControllerError::MovingPluginInstancesBetweenTracksNotImplemented {
            new_track_id: IntId(11),
            current_track_id: IntId(10),
            plugin_instance_id: IntId(1),
        })
    ));
}

#[test]
fn create_plugin_instance_rejects_duplicate_id() {
    let (mut controller, _audio) = new_controller();
    controller.create_plugin_instance(instance(5)).unwrap();
    let r = controller.create_plugin_instance(instance(5));
    assert!(matches!(
        r,
        Err(ControllerError::PluginInstanceAlreadyExists(id, _)) if id == IntId(5)
    ));
    assert_eq!(controller.plugin_instances().len(), 1);
}

#[test]
fn create_plugin_instance_rejects_unknown_plugin() {
    let (mut controller, _audio) = new_controller();
    let r = controller.create_plugin_instance(PluginInstance {
        id: IntId(0),
        plugin_id: "no_such_plugin".to_string(),
    });
    assert!(matches!(
        r,
        Err(ControllerError::FailedToBuildPlugin(PluginBuilderError::PluginDoesNotExist(id)))
            if id == "no_such_plugin"
    ));
    assert_eq!(controller.plugin_instances().len(), 0);
}

#[test]
fn delete_track_rejects_unknown_id() {
    let (mut controller, _audio) = new_controller();
    let r = controller.delete_track(IntId(9));
    assert!(matches!(r, Err(ControllerError::TrackDoesNotExist(IntId(9)))));
}

#[test]
fn delete_track_drops_referenced_plugin_instances() {
    let (mut controller, _audio) = new_controller();
    controller.set_buffer_size(4);
    controller.create_plugin_instance(instance(1)).unwrap();
    controller.create_plugin_instance(instance(2)).unwrap();
    controller.add_track(track(0, vec![IntId(1)])).unwrap();
    controller.delete_track(IntId(0)).unwrap();
    assert_eq!(controller.tracks().len(), 0);
    let remaining: Vec<usize> = controller.plugin_instances().iter().map(|p| p.id.0).collect();
    assert_eq!(remaining, vec![2]);
    assert!(controller.track_by_id(IntId(0)).is_none());
    assert!(controller.plugin_instance_by_id(IntId(2)).is_some());
}

#[test]
fn added_tracks_become_audible_on_the_next_drain() {
    let (mut controller, mut audio) = new_controller();
    controller.set_buffer_size(2);
    controller.create_plugin_instance(instance(1)).unwrap();
    controller.add_track(track(0, vec![IntId(1)])).unwrap();

    let mut left = vec![0u32; 2];
    let mut right = vec![0u32; 2];
    audio.process(&[], &mut left, &mut right);
    // One track carrying the writes-one plugin, at unit track and master
    // gain.
    assert_eq!(floats_of(&left), vec![1.0, 1.0]);
    assert_eq!(floats_of(&right), vec![1.0, 1.0]);
}

#[test]
fn deleted_tracks_fall_silent_on_the_next_drain() {
    let (mut controller, mut audio) = new_controller();
    controller.set_buffer_size(2);
    controller.create_plugin_instance(instance(1)).unwrap();
    controller.add_track(track(0, vec![IntId(1)])).unwrap();
    controller.delete_track(IntId(0)).unwrap();

    let mut left = vec![5.0f32.to_bits(); 2];
    let mut right = vec![5.0f32.to_bits(); 2];
    audio.process(&[], &mut left, &mut right);
    assert_eq!(floats_of(&left), vec![0.0, 0.0]);
    assert_eq!(floats_of(&right), vec![0.0, 0.0]);
}

#[test]
fn commands_are_drained_in_send_order() {
    let (mut controller, mut audio) = new_controller();
    controller.set_buffer_size(2);
    controller.create_plugin_instance(instance(1)).unwrap();
    controller.create_plugin_instance(instance(2)).unwrap();
    controller.add_track(track(0, vec![IntId(1)])).unwrap();
    controller.add_track(track(1, vec![IntId(2)])).unwrap();
    controller.delete_track(IntId(0)).unwrap();

    // Two adds then one delete: one track remains on the audio side.
    let mut left = vec![0u32; 2];
    let mut right = vec![0u32; 2];
    audio.process(&[], &mut left, &mut right);
    assert_eq!(floats_of(&left), vec![1.0, 1.0]);
    assert_eq!(floats_of(&right), vec![1.0, 1.0]);
}

#[test]
fn reading_back_tracks_and_instances() {
    let (mut controller, _audio) = new_controller();
    controller.set_buffer_size(8);
    controller.create_plugin_instance(instance(1)).unwrap();
    controller.add_track(track(2, vec![IntId(1)])).unwrap();

    let t = controller.track_by_id(IntId(2)).unwrap();
    assert_eq!(t.id, IntId(2));
    assert_eq!(t.name, "Track 2");
    assert_eq!(t.plugin_instances, vec![IntId(1)]);

    let p = controller.plugin_instance_by_id(IntId(1)).unwrap();
    assert_eq!(p.id, IntId(1));
    assert_eq!(p.plugin_id, "test_one");

    assert!(controller.track_by_id(IntId(99)).is_none());
    assert_eq!(controller.plugin_factory().metadata().len(), 1);
}

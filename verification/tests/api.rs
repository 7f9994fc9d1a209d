use olivia::api;
use olivia::controller::{Controller, IntId, PluginInstance, Track};
use olivia::midi::{MidiMessage, TimedMidi};
use olivia::plugin_factory::{PluginFactory, PluginMetadata};
use olivia::plugin_registry::CloneablePluginBuilder;

/// A monophonic last-note-wins sine voice, as a host would register it.
#[derive(Debug, Clone, Copy)]
struct SineVoice {
    sample_rate: f32,
    note: Option<u8>,
    t: f32,
    delta_t: f32,
}

impl SineVoice {
    fn new(sample_rate: f32) -> SineVoice {
        SineVoice {
            sample_rate,
            note: None,
            t: 0.0,
            delta_t: 0.0,
        }
    }
}

impl olivia::plugin::PluginInstance for SineVoice {
    fn process(&mut self, midi: &[TimedMidi], out_left: &mut Vec<u32>, out_right: &mut Vec<u32>) {
        let frames = out_left.len().min(out_right.len());
        let mut midi_iter = midi.iter().peekable();
        for frame in 0..frames {
            while midi_iter.peek().map(|m| m.frame <= frame).unwrap_or(false) {
                match midi_iter.next().unwrap().message {
                    MidiMessage::NoteOn(n) => {
                        self.note = Some(n);
                        let frequency =
                            440.0 * 2.0f32.powf((n as f32 - 69.0) / 12.0);
                        self.delta_t =
                            2.0 * std::f32::consts::PI * frequency / self.sample_rate;
                    }
                    MidiMessage::NoteOff(n) => {
                        if Some(n) == self.note {
                            self.note = None;
                            self.delta_t = 0.0;
                            self.t = 0.0;
                        }
                    }
                    MidiMessage::Other => {}
                }
            }
            out_left[frame] = self.t.sin().to_bits();
            self.t += self.delta_t;
            if self.t > 2.0 * std::f32::consts::PI {
                self.t -= 2.0 * std::f32::consts::PI;
            }
        }
        for frame in 0..frames {
            out_right[frame] = out_left[frame];
        }
    }
}

type HostBuilder = CloneablePluginBuilder<SineVoice>;

fn new_controller() -> (Controller<HostBuilder>, olivia::controller::Processor<SineVoice>) {
    let mut factory: PluginFactory<HostBuilder> = PluginFactory::new();
    factory
        .register(CloneablePluginBuilder::new(
            PluginMetadata {
                id: "builtin_sine".to_string(),
                display_name: "Sine".to_string(),
            },
            SineVoice::new(44100.0),
        ))
        .unwrap();
    Controller::new(factory)
}

#[test]
fn get_track_on_empty_controller_is_not_found() {
    let (controller, _audio) = new_controller();
    let r = api::get_track(&controller, IntId(999));
    match r {
        Err(e) => {
            assert!(matches!(e, api::Error::TrackNotFound(IntId(999))));
            assert_eq!(e.status_code(), 404);
        }
        Ok(_) => panic!("an empty controller has no track 999"),
    }
}

#[test]
fn put_plugin_instance_then_track_then_track_again() {
    let (mut controller, _audio) = new_controller();
    controller.set_buffer_size(16);

    let body = PluginInstance {
        id: IntId(0),
        plugin_id: "builtin_sine".to_string(),
    };
    let created = api::put_plugin_instance(&mut controller, IntId(0), body).unwrap();
    assert_eq!(created.id, IntId(0));
    assert_eq!(created.plugin_id, "builtin_sine");

    let track_body = Track {
        id: IntId(1),
        name: "T".to_string(),
        volume: 0.5f32.to_bits(),
        plugin_instances: vec![IntId(0)],
    };
    let echoed = api::put_track(&mut controller, IntId(1), track_body.clone()).unwrap();
    assert_eq!(echoed.id, IntId(1));
    assert_eq!(echoed.name, "T");

    let again = api::put_track(&mut controller, IntId(1), track_body);
    match again {
        Err(e) => {
            assert!(matches!(e, api::Error::UpdatingTrackNotImplemented));
            assert_eq!(e.status_code(), 501);
        }
        Ok(_) => panic!("updating an existing track is not implemented"),
    }
}

#[test]
fn put_plugin_instance_twice_is_not_implemented() {
    let (mut controller, _audio) = new_controller();
    let body = PluginInstance {
        id: IntId(3),
        plugin_id: "builtin_sine".to_string(),
    };
    api::put_plugin_instance(&mut controller, IntId(3), body.clone()).unwrap();
    let r = api::put_plugin_instance(&mut controller, IntId(3), body);
    match r {
        Err(e) => {
            assert!(matches!(e, api::Error::PluginInstanceUpdateNotImplemented));
            assert_eq!(e.status_code(), 501);
        }
        Ok(_) => panic!("re-issuing a plugin instance id is not implemented"),
    }
}

#[test]
fn put_plugin_instance_sets_id_from_path() {
    let (mut controller, _audio) = new_controller();
    let body = PluginInstance {
        id: IntId(99),
        plugin_id: "builtin_sine".to_string(),
    };
    let created = api::put_plugin_instance(&mut controller, IntId(4), body).unwrap();
    assert_eq!(created.id, IntId(4));
    assert!(controller.plugin_instance_by_id(IntId(4)).is_some());
    assert!(controller.plugin_instance_by_id(IntId(99)).is_none());
}

#[test]
fn put_plugin_instance_with_unknown_plugin_is_a_server_error() {
    let (mut controller, _audio) = new_controller();
    let body = PluginInstance {
        id: IntId(0),
        plugin_id: "no_such_plugin".to_string(),
    };
    let r = api::put_plugin_instance(&mut controller, IntId(0), body);
    match r {
        Err(e) => {
            assert!(matches!(e, api::Error::GenericController(_)));
            assert_eq!(e.status_code(), 500);
        }
        Ok(_) => panic!("an unknown plugin id cannot be instantiated"),
    }
}

#[test]
fn put_track_referencing_an_owned_instance_is_not_implemented() {
    let (mut controller, _audio) = new_controller();
    controller.set_buffer_size(8);
    let body = PluginInstance {
        id: IntId(0),
        plugin_id: "builtin_sine".to_string(),
    };
    api::put_plugin_instance(&mut controller, IntId(0), body).unwrap();
    let first = Track {
        id: IntId(1),
        name: "A".to_string(),
        volume: 1.0f32.to_bits(),
        plugin_instances: vec![IntId(0)],
    };
    api::put_track(&mut controller, IntId(1), first).unwrap();
    let second = Track {
        id: IntId(2),
        name: "B".to_string(),
        volume: 1.0f32.to_bits(),
        plugin_instances: vec![IntId(0)],
    };
    let r = api::put_track(&mut controller, IntId(2), second);
    match r {
        Err(e) => {
            assert_eq!(e.status_code(), 501);
        }
        Ok(_) => panic!("moving plugin instances between tracks is not implemented"),
    }
}

#[test]
fn put_track_stores_under_the_path_id() {
    let (mut controller, _audio) = new_controller();
    controller.set_buffer_size(8);
    let body = Track {
        id: IntId(9),
        name: "T".to_string(),
        volume: 1.0f32.to_bits(),
        plugin_instances: vec![],
    };
    let echoed = api::put_track(&mut controller, IntId(2), body).unwrap();
    assert_eq!(echoed.id, IntId(2));
    assert!(controller.track_by_id(IntId(2)).is_some());
    assert!(controller.track_by_id(IntId(9)).is_none());
}

#[test]
fn delete_track_route_answers_not_found_then_ok() {
    let (mut controller, _audio) = new_controller();
    controller.set_buffer_size(8);
    let r = api::delete_track(&mut controller, IntId(1));
    match r {
        Err(e) => assert_eq!(e.status_code(), 404),
        Ok(()) => panic!("there is no track to delete yet"),
    }
    let track_body = Track {
        id: IntId(1),
        name: "T".to_string(),
        volume: 1.0f32.to_bits(),
        plugin_instances: vec![],
    };
    api::put_track(&mut controller, IntId(1), track_body).unwrap();
    assert!(api::delete_track(&mut controller, IntId(1)).is_ok());
    assert_eq!(api::get_tracks(&controller).len(), 0);
}

#[test]
fn listing_routes_echo_controller_state() {
    let (mut controller, _audio) = new_controller();
    controller.set_buffer_size(8);
    assert_eq!(api::get_plugins(&controller).len(), 1);
    assert_eq!(api::get_plugins(&controller)[0].id, "builtin_sine");
    assert_eq!(api::get_plugin_instances(&controller).len(), 0);

    let body = PluginInstance {
        id: IntId(0),
        plugin_id: "builtin_sine".to_string(),
    };
    api::put_plugin_instance(&mut controller, IntId(0), body).unwrap();
    let instances = api::get_plugin_instances(&controller);
    assert_eq!(instances.len(), 1);
    assert_eq!(instances[0].id, IntId(0));
    let got = api::get_plugin_instance(&controller, IntId(0)).unwrap();
    assert_eq!(got.plugin_id, "builtin_sine");
    let missing = api::get_plugin_instance(&controller, IntId(1));
    match missing {
        Err(e) => assert_eq!(e.status_code(), 404),
        Ok(_) => panic!("instance 1 was never created"),
    }
}

#[test]
fn sine_track_renders_through_the_drain() {
    // A note-on at frame zero makes the sine voice audible on both
    // channels from the second frame on; the first sample is sin(0) = 0.
    let (mut controller, mut audio) = new_controller();
    controller.set_buffer_size(4);
    let body = PluginInstance {
        id: IntId(0),
        plugin_id: "builtin_sine".to_string(),
    };
    api::put_plugin_instance(&mut controller, IntId(0), body).unwrap();
    let track_body = Track {
        id: IntId(1),
        name: "T".to_string(),
        volume: 1.0f32.to_bits(),
        plugin_instances: vec![IntId(0)],
    };
    api::put_track(&mut controller, IntId(1), track_body).unwrap();

    let midi = [TimedMidi {
        frame: 0,
        message: MidiMessage::NoteOn(69),
    }];
    let mut left = vec![0u32; 4];
    let mut right = vec![0u32; 4];
    audio.process(&midi, &mut left, &mut right);

    let delta = 2.0 * std::f32::consts::PI * 440.0 / 44100.0;
    let left_f: Vec<f32> = left.iter().map(|b| f32::from_bits(*b)).collect();
    let right_f: Vec<f32> = right.iter().map(|b| f32::from_bits(*b)).collect();
    assert_eq!(left_f[0], 0.0);
    assert_eq!(left_f, right_f);
    for k in 1..4 {
        assert!((left_f[k] - (delta * k as f32).sin()).abs() < 1e-4);
    }
}

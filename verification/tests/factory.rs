use olivia::midi::TimedMidi;
use olivia::plugin::{PluginInstance, Silence};
use olivia::plugin_factory::{
    MetadataError, PluginBuilderError, PluginFactory, PluginMetadata, PluginRegistrationError,
};
use olivia::plugin_registry::{new_plugin_factory, CloneablePluginBuilder};

#[derive(Debug, Clone, Copy)]
struct OnePluginInstance;

impl PluginInstance for OnePluginInstance {
    fn process(&mut self, _midi: &[TimedMidi], out_left: &mut Vec<u32>, out_right: &mut Vec<u32>) {
        for o in out_left.iter_mut() {
            *o = 1.0f32.to_bits();
        }
        for o in out_right.iter_mut() {
            *o = 1.0f32.to_bits();
        }
    }
}

fn metadata(id: &str, display_name: &str) -> PluginMetadata {
    PluginMetadata {
        id: id.to_string(),
        display_name: display_name.to_string(),
    }
}

#[test]
fn validate_accepts_lowercase_alphanumeric_and_underscore() {
    assert!(metadata("builtin_sine", "Sine").validate().is_ok());
    assert!(metadata("a", "").validate().is_ok());
    assert!(metadata("x9_z", "").validate().is_ok());
}

#[test]
fn validate_rejects_uppercase() {
    let r = metadata("BuiltinSine", "Sine").validate();
    assert!(matches!(r, Err(MetadataError::IdContainsUpperCase(id)) if id == "BuiltinSine"));
}

#[test]
fn validate_rejects_empty_and_other_characters() {
    assert!(matches!(
        metadata("", "").validate(),
        Err(MetadataError::IdContainsNonAlphaNumericOrUnderscore(_))
    ));
    assert!(matches!(
        metadata("my-plugin", "").validate(),
        Err(MetadataError::IdContainsNonAlphaNumericOrUnderscore(_))
    ));
    assert!(matches!(
        metadata("sine!", "").validate(),
        Err(MetadataError::IdContainsNonAlphaNumericOrUnderscore(_))
    ));
}

#[test]
fn validate_is_idempotent() {
    for id in ["builtin_sine", "BuiltinSine", "", "my-plugin"] {
        let first = metadata(id, "").validate();
        let second = metadata(id, "").validate();
        assert_eq!(first.is_ok(), second.is_ok());
        match (first, second) {
            (Ok(()), Ok(())) => {}
            (
                Err(MetadataError::IdContainsUpperCase(a)),
                Err(MetadataError::IdContainsUpperCase(b)),
            ) => assert_eq!(a, b),
            (
                Err(MetadataError::IdContainsNonAlphaNumericOrUnderscore(a)),
                Err(MetadataError::IdContainsNonAlphaNumericOrUnderscore(b)),
            ) => assert_eq!(a, b),
            _ => panic!("the two validations disagree"),
        }
    }
}

#[test]
fn register_rejects_duplicate_ids() {
    let mut factory = PluginFactory::new();
    let first = CloneablePluginBuilder::new(metadata("one", "First"), OnePluginInstance);
    assert!(factory.register(first).is_ok());
    let second = CloneablePluginBuilder::new(metadata("one", "Second"), OnePluginInstance);
    let r = factory.register(second);
    assert!(matches!(
        r,
        Err(PluginRegistrationError::PluginAlreadyRegistered(id, _)) if id == "one"
    ));
    assert_eq!(factory.metadata().len(), 1);
}

#[test]
fn register_rejects_invalid_metadata() {
    let mut factory = PluginFactory::new();
    let builder = CloneablePluginBuilder::new(metadata("Bad Id", "Oops"), OnePluginInstance);
    let r = factory.register(builder);
    assert!(matches!(
        r,
        Err(PluginRegistrationError::InvalidMetadata(m, _)) if m.id == "Bad Id"
    ));
    assert_eq!(factory.metadata().len(), 0);
}

#[test]
fn metadata_lists_plugins_in_registration_order() {
    let mut factory = PluginFactory::new();
    factory
        .register(CloneablePluginBuilder::new(metadata("one", "First"), OnePluginInstance))
        .unwrap();
    factory
        .register(CloneablePluginBuilder::new(metadata("two", "Second"), OnePluginInstance))
        .unwrap();
    let listed = factory.metadata();
    assert_eq!(listed.len(), 2);
    assert_eq!(listed[0].id, "one");
    assert_eq!(listed[0].display_name, "First");
    assert_eq!(listed[1].id, "two");
    assert_eq!(listed[1].display_name, "Second");
}

#[test]
fn build_fails_for_unknown_plugin() {
    let factory: PluginFactory<CloneablePluginBuilder<Silence>> = PluginFactory::new();
    let r = factory.build("nope");
    assert!(matches!(
        r,
        Err(PluginBuilderError::PluginDoesNotExist(id)) if id == "nope"
    ));
}

#[test]
fn bootstrap_registers_builtin_silence() {
    let factory = new_plugin_factory();
    let listed = factory.metadata();
    assert_eq!(listed.len(), 1);
    assert_eq!(listed[0].id, "builtin_silence");
    assert_eq!(listed[0].display_name, "Empty");
    assert!(factory.build("builtin_silence").is_ok());
}

#[test]
fn built_silence_writes_zeros() {
    let factory = new_plugin_factory();
    let mut silence = factory.build("builtin_silence").unwrap();
    let mut left = vec![1.0f32.to_bits(); 3];
    let mut right = vec![2.0f32.to_bits(); 3];
    silence.process(&[], &mut left, &mut right);
    assert!(left.iter().all(|b| f32::from_bits(*b) == 0.0));
    assert!(right.iter().all(|b| f32::from_bits(*b) == 0.0));
}

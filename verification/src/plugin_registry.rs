//! Startup registration of the built-in plugins.
use crate::plugin::{PluginInstance, Silence};
use crate::plugin_factory::{
    valid_plugin_id, PluginBuilder, PluginBuilderError, PluginFactory, PluginMetadata,
};
use vstd::prelude::*;

verus! {

/// A builder that keeps one prototype instance and builds by cloning it.
pub struct CloneablePluginBuilder<P: PluginInstance + Clone> {
    metadata: PluginMetadata,
    plugin_instance: P,
}

impl<P: PluginInstance + Clone> CloneablePluginBuilder<P> {
    /// A builder that clones `plugin_instance` under `metadata`.
    pub fn new(metadata: PluginMetadata, plugin_instance: P) -> (b: CloneablePluginBuilder<P>)
        ensures
            b.metadata_value() == metadata,
    {
        CloneablePluginBuilder { metadata, plugin_instance }
    }

    /// The metadata this builder registers under.
    pub closed spec fn metadata_value(&self) -> PluginMetadata {
        self.metadata
    }
}

impl<P: PluginInstance + Clone> PluginBuilder for CloneablePluginBuilder<P> {
    type Instance = P;

    fn metadata(&self) -> PluginMetadata {
        self.metadata.duplicate()
    }

    fn build(&self) -> Result<P, PluginBuilderError> {
        Ok(self.plugin_instance.clone())
    }
}

/// The factory every session starts from: the built-in silence plugin is
/// registered under the id `builtin_silence`. Further builders — such as a
/// host's synthesizer voices or dynamically discovered plugins — are
/// registered by the embedding program on its own factory type.
pub fn new_plugin_factory() -> (f: PluginFactory<CloneablePluginBuilder<Silence>>)
    ensures
        f.wf(),
        f.ids().len() == 1,
        f.ids()[0] == "builtin_silence"@,
        f.entries()[0].0.display_name@ == "Empty"@,
{
    let mut factory: PluginFactory<CloneablePluginBuilder<Silence>> = PluginFactory::new();
    let metadata = PluginMetadata {
        id: "builtin_silence".to_owned(),
        display_name: "Empty".to_owned(),
    };
    proof {
        reveal_strlit("builtin_silence");
        assert(valid_plugin_id("builtin_silence"@));
    }
    let registered = metadata.duplicate();
    let builder = CloneablePluginBuilder::new(metadata, Silence);
    let r = factory.register_with_metadata(registered, builder);
    proof {
        assert(r is Ok);
    }
    factory
}

} // verus!

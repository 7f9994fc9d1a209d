//! The plugin factory: a registry of plugin builders keyed by plugin id.
use crate::plugin::PluginInstance;
use vstd::prelude::*;

verus! {

/// A lowercase ASCII letter, a digit, or an underscore: the only characters
/// a plugin id may contain.
pub open spec fn is_valid_id_char(c: char) -> bool {
    ||| ('a' as u32) <= (c as u32) && (c as u32) <= ('z' as u32)
    ||| ('0' as u32) <= (c as u32) && (c as u32) <= ('9' as u32)
    ||| c == '_'
}

/// A plugin id is valid when it is non-empty and every character is a
/// lowercase ASCII letter, a digit, or an underscore.
pub open spec fn valid_plugin_id(s: Seq<char>) -> bool {
    &&& s.len() > 0
    &&& forall|i: int| 0 <= i < s.len() ==> is_valid_id_char(#[trigger] s[i])
}

/// Whether the id holds an uppercase ASCII letter, the first fault
/// `validate` reports.
pub open spec fn has_uppercase(s: Seq<char>) -> bool {
    exists|i: int|
        0 <= i < s.len() && ('A' as u32) <= (#[trigger] s[i] as u32) && (s[i] as u32) <= (
        'Z' as u32)
}

/// What a plugin offers, fixed at registration.
#[derive(Clone, Debug)]
pub struct PluginMetadata {
    /// Globally unique across the registry; see [`valid_plugin_id`].
    pub id: String,
    /// Arbitrary UTF-8, shown to users.
    pub display_name: String,
}

/// What `validate` answers for an id with text `id`: acceptance exactly for
/// valid ids, an `IdContainsUpperCase` fault when an uppercase ASCII letter
/// is present, and an `IdContainsNonAlphaNumericOrUnderscore` fault for
/// every other invalid id; a reported fault always carries the id's text.
pub open spec fn validate_verdict(id: Seq<char>, r: Result<(), MetadataError>) -> bool {
    &&& (r is Ok <==> valid_plugin_id(id))
    &&& (valid_plugin_id(id) ==> r == Result::<(), MetadataError>::Ok(()))
    &&& (!valid_plugin_id(id) && has_uppercase(id) ==> (r matches Err(
        MetadataError::IdContainsUpperCase(s),
    ) && s@ == id))
    &&& (!valid_plugin_id(id) && !has_uppercase(id) ==> (r matches Err(
        MetadataError::IdContainsNonAlphaNumericOrUnderscore(s),
    ) && s@ == id))
}

/// Plugin-id validation is idempotent: the verdict is a function of the
/// id's characters alone, so any two validations of the same text accept
/// the same ids, report the same kind of fault, and carry the same text.
pub proof fn lemma_validate_idempotent(
    id: Seq<char>,
    r1: Result<(), MetadataError>,
    r2: Result<(), MetadataError>,
)
    requires
        validate_verdict(id, r1),
        validate_verdict(id, r2),
    ensures
        r1 is Ok <==> r2 is Ok,
        r1 matches Err(MetadataError::IdContainsUpperCase(a)) ==> (r2 matches Err(
            MetadataError::IdContainsUpperCase(b),
        ) && a@ == b@),
        r1 matches Err(MetadataError::IdContainsNonAlphaNumericOrUnderscore(a)) ==> (r2 matches Err(
            MetadataError::IdContainsNonAlphaNumericOrUnderscore(b),
        ) && a@ == b@),
{
}

impl PluginMetadata {
    /// Checks the id character rules: the id must be non-empty and consist
    /// of lowercase ASCII letters, digits and underscores only.
    pub fn validate(&self) -> (r: Result<(), MetadataError>)
        ensures
            validate_verdict(self.id@, r),
    {
        let id = self.id.as_str();
        let n = id.unicode_len();
        let mut i: usize = 0;
        let mut saw_upper: bool = false;
        let mut all_valid: bool = n > 0;
        while i < n
            invariant
                i <= n,
                n == id@.len(),
                id@ == self.id@,
                saw_upper == exists|j: int|
                    0 <= j < i && ('A' as u32) <= (#[trigger] id@[j] as u32) && (id@[j] as u32)
                        <= ('Z' as u32),
                all_valid == (n > 0 && forall|j: int|
                    0 <= j < i ==> is_valid_id_char(#[trigger] id@[j])),
            decreases n - i,
        {
            let c = id.get_char(i);
            let u = c as u32;
            if ('A' as u32) <= u && u <= ('Z' as u32) {
                saw_upper = true;
            }
            let ok = (('a' as u32) <= u && u <= ('z' as u32)) || (('0' as u32) <= u && u <= (
            '9' as u32)) || c == '_';
            if !ok {
                all_valid = false;
            }
            i = i + 1;
        }
        if all_valid {
            Ok(())
        } else if saw_upper {
            Err(MetadataError::IdContainsUpperCase(self.id.clone()))
        } else {
            Err(MetadataError::IdContainsNonAlphaNumericOrUnderscore(self.id.clone()))
        }
    }

    /// A field-wise copy whose strings are known to match the original.
    pub fn duplicate(&self) -> (r: PluginMetadata)
        ensures
            r.id@ == self.id@,
            r.display_name@ == self.display_name@,
    {
        PluginMetadata { id: self.id.clone(), display_name: self.display_name.clone() }
    }
}

/// Why a plugin id was rejected; each variant carries the offending id.
#[derive(Clone, Debug)]
pub enum MetadataError {
    IdContainsUpperCase(String),
    IdContainsNonAlphaNumericOrUnderscore(String),
}

/// Why a builder was not added to the registry.
#[derive(Clone, Debug)]
pub enum PluginRegistrationError {
    PluginAlreadyRegistered(String, PluginMetadata),
    InvalidMetadata(PluginMetadata, MetadataError),
}

/// Why a plugin instance could not be built.
#[derive(Clone, Debug)]
pub enum PluginBuilderError {
    PluginDoesNotExist(String),
    GenericError(&'static str),
}

/// Builds fresh realtime plugin instances and names what it builds.
pub trait PluginBuilder: Sized {
    /// The concrete plugin type this builder produces.
    type Instance: PluginInstance;

    /// The metadata under which the builder is registered.
    fn metadata(&self) -> PluginMetadata;

    /// A new instance honoring the realtime plugin contract.
    fn build(&self) -> Result<Self::Instance, PluginBuilderError>;
}

/// A registry mapping plugin ids to their metadata and builder, in
/// registration order. Ids are unique and valid; the registry is meant to be
/// filled once at startup and read afterwards.
pub struct PluginFactory<B: PluginBuilder> {
    builders: Vec<(PluginMetadata, B)>,
}

impl<B: PluginBuilder> PluginFactory<B> {
    /// The registered entries, in registration order.
    pub closed spec fn entries(&self) -> Seq<(PluginMetadata, B)> {
        self.builders@
    }

    /// The registered ids, in registration order.
    pub open spec fn ids(&self) -> Seq<Seq<char>> {
        Seq::new(self.entries().len(), |i: int| self.entries()[i].0.id@)
    }

    /// Whether some entry is registered under `id`.
    pub open spec fn has_id(&self, id: Seq<char>) -> bool {
        exists|i: int| 0 <= i < self.ids().len() && self.ids()[i] == id
    }

    /// Every registered id is valid and no id occurs twice.
    pub open spec fn wf(&self) -> bool {
        &&& forall|i: int| 0 <= i < self.ids().len() ==> valid_plugin_id(#[trigger] self.ids()[i])
        &&& forall|i: int, j: int|
            0 <= i < j < self.ids().len() ==> self.ids()[i] != self.ids()[j]
    }

    /// An empty registry.
    pub fn new() -> (f: PluginFactory<B>)
        ensures
            f.entries() == Seq::<(PluginMetadata, B)>::empty(),
            f.wf(),
    {
        let f = PluginFactory { builders: Vec::new() };
        proof {
            assert(f.entries() =~= Seq::<(PluginMetadata, B)>::empty());
        }
        f
    }

    /// Whether `id` is already registered.
    fn contains_id(&self, id: &String) -> (b: bool)
        ensures
            b == self.has_id(id@),
    {
        let n = self.builders.len();
        let mut i: usize = 0;
        while i < n
            invariant
                i <= n,
                n == self.entries().len(),
                forall|j: int| 0 <= j < i ==> self.ids()[j] != id@,
            decreases n - i,
        {
            if self.builders[i].0.id == *id {
                assert(self.ids()[i as int] == id@);
                return true;
            }
            i = i + 1;
        }
        false
    }

    /// Asks the builder for its metadata and registers it; see
    /// [`Self::register_with_metadata`] for the registration rules.
    pub fn register(&mut self, builder: B) -> (r: Result<(), PluginRegistrationError>)
        requires
            old(self).wf(),
        ensures
            final(self).wf(),
            r is Ok ==> exists|m: PluginMetadata|
                {
                    &&& valid_plugin_id(m.id@)
                    &&& !old(self).has_id(m.id@)
                    &&& final(self).entries() == old(self).entries().push((m, builder))
                },
            r is Err ==> final(self).entries() == old(self).entries(),
            r matches Err(PluginRegistrationError::PluginAlreadyRegistered(id, m)) ==> old(
                self,
            ).has_id(id@) && m.id@ == id@,
            r matches Err(PluginRegistrationError::InvalidMetadata(m, e)) ==> !valid_plugin_id(
                m.id@,
            ),
    {
        let metadata = builder.metadata();
        self.register_with_metadata(metadata, builder)
    }

    /// Registers `builder` under `metadata`: succeeds exactly when the id is
    /// valid and not yet taken, and then appends the entry; otherwise the
    /// registry is unchanged and the error names the fault.
    pub fn register_with_metadata(&mut self, metadata: PluginMetadata, builder: B) -> (r: Result<
        (),
        PluginRegistrationError,
    >)
        requires
            old(self).wf(),
        ensures
            final(self).wf(),
            r is Ok <==> valid_plugin_id(metadata.id@) && !old(self).has_id(metadata.id@),
            r is Ok ==> final(self).entries() == old(self).entries().push((metadata, builder)),
            r is Err ==> final(self).entries() == old(self).entries(),
            !valid_plugin_id(metadata.id@) ==> (r matches Err(
                PluginRegistrationError::InvalidMetadata(m, _e),
            ) && m == metadata),
            valid_plugin_id(metadata.id@) && old(self).has_id(metadata.id@) ==> (r matches Err(
                PluginRegistrationError::PluginAlreadyRegistered(id, m),
            ) && id@ == metadata.id@ && m == metadata),
    {
        match metadata.validate() {
            Err(e) => {
                return Err(PluginRegistrationError::InvalidMetadata(metadata, e));
            },
            Ok(()) => {},
        }
        if self.contains_id(&metadata.id) {
            let id = metadata.id.clone();
            return Err(PluginRegistrationError::PluginAlreadyRegistered(id, metadata));
        }
        let ghost pre = self.builders@;
        let ghost m = metadata;
        self.builders.push((metadata, builder));
        proof {
            assert(self.entries() == pre.push((m, builder)));
            assert forall|i: int| 0 <= i < self.ids().len() implies valid_plugin_id(
                #[trigger] self.ids()[i],
            ) by {
                if i < pre.len() {
                    assert(old(self).ids()[i] == self.ids()[i]);
                }
            }
            assert forall|i: int, j: int|
                0 <= i < j < self.ids().len() implies self.ids()[i] != self.ids()[j] by {
                if j < pre.len() {
                    assert(old(self).ids()[i] == self.ids()[i]);
                    assert(old(self).ids()[j] == self.ids()[j]);
                } else {
                    assert(self.ids()[j] == m.id@);
                    assert(old(self).ids()[i] == self.ids()[i]);
                    assert(!old(self).has_id(m.id@));
                }
            }
        }
        Ok(())
    }

    /// The metadata of every registered plugin, in registration order.
    pub fn metadata(&self) -> (r: Vec<PluginMetadata>)
        ensures
            r@.len() == self.entries().len(),
            forall|i: int|
                0 <= i < r@.len() ==> (#[trigger] r@[i]).id@ == self.entries()[i].0.id@
                    && r@[i].display_name@ == self.entries()[i].0.display_name@,
    {
        let n = self.builders.len();
        let mut r: Vec<PluginMetadata> = Vec::new();
        let mut i: usize = 0;
        while i < n
            invariant
                i <= n,
                n == self.entries().len(),
                r@.len() == i,
                forall|j: int|
                    0 <= j < i ==> (#[trigger] r@[j]).id@ == self.entries()[j].0.id@
                        && r@[j].display_name@ == self.entries()[j].0.display_name@,
            decreases n - i,
        {
            r.push(self.builders[i].0.duplicate());
            i = i + 1;
        }
        r
    }

    /// Builds a new instance of the plugin registered under `plugin_id`;
    /// an unknown id yields `PluginDoesNotExist`, a known id whatever its
    /// builder returns.
    pub fn build(&self, plugin_id: &str) -> (r: Result<B::Instance, PluginBuilderError>)
        ensures
            !self.has_id(plugin_id@) ==> (r matches Err(
                PluginBuilderError::PluginDoesNotExist(s),
            ) && s@ == plugin_id@),
    {
        let want: String = plugin_id.to_owned();
        let n = self.builders.len();
        let mut i: usize = 0;
        while i < n
            invariant
                i <= n,
                n == self.entries().len(),
                want@ == plugin_id@,
                forall|j: int| 0 <= j < i ==> self.ids()[j] != plugin_id@,
            decreases n - i,
        {
            if self.builders[i].0.id == want {
                assert(self.ids()[i as int] == plugin_id@);
                return self.builders[i].1.build();
            }
            i = i + 1;
        }
        Err(PluginBuilderError::PluginDoesNotExist(want))
    }
}

} // verus!

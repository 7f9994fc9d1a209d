//! The non-realtime controller: the authoritative store of user-visible
//! track and plugin-instance metadata, and the single producer that feeds
//! the audio thread through the command queue.
use crate::command_queue::{
    apply_command_shapes, command_shape, lemma_apply_shapes_push, send_command, shapes_of,
    try_recv_command, Command, CommandShape, TrackShape,
};
use crate::midi::TimedMidi;
use crate::plugin_factory::{PluginBuilder, PluginBuilderError, PluginFactory};
use crate::processor;
use crate::processor::{mixdown_left, mixdown_right, ProcessorView};
use crate::sample::UNIT_GAIN_BITS;
use vstd::prelude::*;

verus! {

/// A non-negative integer identifier, client-assigned, unique within its
/// entity kind; ordered and compared by value.
#[derive(Clone, Copy, Debug, PartialEq, Eq, Hash, PartialOrd, Ord, Structural)]
pub struct IntId(pub usize);

/// Metadata for one plugin instance: its id and the plugin it instantiates.
/// Never mutated after creation.
#[derive(Clone, Debug)]
pub struct PluginInstance {
    pub id: IntId,
    pub plugin_id: String,
}

impl PluginInstance {
    /// A field-wise copy whose fields are known to match the original.
    pub fn duplicate(&self) -> (r: PluginInstance)
        ensures
            r.id == self.id,
            r.plugin_id@ == self.plugin_id@,
    {
        PluginInstance { id: self.id, plugin_id: self.plugin_id.clone() }
    }
}

/// Metadata for one track: its id, name, gain (a binary32 bit pattern), and
/// the ordered plugin instances of its chain. Never mutated after creation.
#[derive(Clone, Debug)]
pub struct Track {
    pub id: IntId,
    pub name: String,
    pub volume: u32,
    pub plugin_instances: Vec<IntId>,
}

impl Track {
    /// A field-wise copy whose fields are known to match the original.
    pub fn duplicate(&self) -> (r: Track)
        ensures
            r.id == self.id,
            r.name@ == self.name@,
            r.volume == self.volume,
            r.plugin_instances@ == self.plugin_instances@,
    {
        let mut plugin_instances: Vec<IntId> = Vec::new();
        let n = self.plugin_instances.len();
        let mut i: usize = 0;
        while i < n
            invariant
                i <= n,
                n == self.plugin_instances@.len(),
                plugin_instances@ == self.plugin_instances@.take(i as int),
            decreases n - i,
        {
            plugin_instances.push(self.plugin_instances[i]);
            proof {
                assert(plugin_instances@ =~= self.plugin_instances@.take(i + 1));
            }
            i = i + 1;
        }
        proof {
            assert(self.plugin_instances@.take(n as int) =~= self.plugin_instances@);
        }
        Track {
            id: self.id,
            name: self.name.clone(),
            volume: self.volume,
            plugin_instances,
        }
    }
}

/// Why a controller operation was rejected.
#[derive(Clone, Debug)]
pub enum ControllerError {
    BufferSizeHasNotBeenSet,
    PluginInstanceAlreadyExists(IntId, PluginInstance),
    FailedToBuildPlugin(PluginBuilderError),
    TrackAlreadyExists(IntId, Track),
    TrackDoesNotExist(IntId),
    TrackReferencesNonExistantPluginInstance { track_id: IntId, plugin_instance_id: IntId },
    MovingPluginInstancesBetweenTracksNotImplemented {
        new_track_id: IntId,
        current_track_id: IntId,
        plugin_instance_id: IntId,
    },
}

/// Whether some track in `ts` has id `id`.
pub open spec fn has_track_id(ts: Seq<Track>, id: IntId) -> bool {
    exists|i: int| 0 <= i < ts.len() && ts[i].id == id
}

/// Whether some plugin-instance metadata in `ps` has id `id`.
pub open spec fn has_instance_id(ps: Seq<PluginInstance>, id: IntId) -> bool {
    exists|i: int| 0 <= i < ps.len() && ps[i].id == id
}

/// Whether some track in `ts` references the plugin instance `pid`.
pub open spec fn some_track_references(ts: Seq<Track>, pid: IntId) -> bool {
    exists|i: int| 0 <= i < ts.len() && ts[i].plugin_instances@.contains(pid)
}

/// The authoritative owner of user-visible metadata. It builds plugin
/// instances on the control side, stores the ones not yet assigned to a
/// track, and sends ownership-transferring commands to the audio thread.
pub struct Controller<B: PluginBuilder> {
    // Metadata for all tracks.
    tracks: Vec<Track>,
    // Metadata for all plugin instances.
    plugin_instances: Vec<PluginInstance>,
    // Realtime plugin instances that do not belong to any track yet.
    unowned_plugin_instances: Vec<(IntId, B::Instance)>,
    // Plugin metadata and builders for instantiating plugins.
    plugin_factory: PluginFactory<B>,
    // Frames per audio callback; must be set before any track is added.
    buffer_size: usize,
    // Channel to send commands to the audio processor.
    commands: crossbeam::channel::Sender<Command<B::Instance>>,
    // The history of commands sent, oldest first.
    sent: Ghost<Seq<CommandShape<B::Instance>>>,
}

impl<B: PluginBuilder> Controller<B> {
    /// The track metadata, in creation order.
    pub closed spec fn tracks_spec(&self) -> Seq<Track> {
        self.tracks@
    }

    /// The plugin-instance metadata, in creation order.
    pub closed spec fn instances_spec(&self) -> Seq<PluginInstance> {
        self.plugin_instances@
    }

    /// The built-but-unassigned realtime plugin instances, keyed by id.
    pub closed spec fn unowned_spec(&self) -> Seq<(IntId, B::Instance)> {
        self.unowned_plugin_instances@
    }

    /// The plugin factory.
    pub closed spec fn factory_spec(&self) -> PluginFactory<B> {
        self.plugin_factory
    }

    /// The negotiated buffer size; zero while unset.
    pub closed spec fn buffer_size_spec(&self) -> usize {
        self.buffer_size
    }

    /// The history of command shapes sent to the audio thread.
    pub closed spec fn sent_spec(&self) -> Seq<CommandShape<B::Instance>> {
        self.sent@
    }

    /// Whether an unassigned realtime instance is stored under `pid`.
    pub open spec fn unowned_contains(&self, pid: IntId) -> bool {
        exists|i: int| 0 <= i < self.unowned_spec().len() && self.unowned_spec()[i].0 == pid
    }

    /// The controller's invariant.
    ///
    /// Track ids are unique; plugin-instance ids are unique; every id a
    /// track references resolves to plugin-instance metadata and is
    /// referenced by exactly one chain position of exactly one track; a
    /// plugin instance is stored in the unassigned map exactly while no
    /// track references it; and replaying the sent command history yields
    /// one audio-side track per controller-side track, with the chain
    /// length the controller assembled and unit gain.
    pub open spec fn wf(&self) -> bool {
        &&& forall|i: int, j: int|
            0 <= i < j < self.tracks_spec().len() ==> self.tracks_spec()[i].id
                != self.tracks_spec()[j].id
        &&& forall|i: int, j: int|
            0 <= i < j < self.instances_spec().len() ==> self.instances_spec()[i].id
                != self.instances_spec()[j].id
        &&& forall|i: int, j: int|
            0 <= i < j < self.unowned_spec().len() ==> self.unowned_spec()[i].0
                != self.unowned_spec()[j].0
        &&& forall|i: int|
            0 <= i < self.unowned_spec().len() ==> has_instance_id(
                self.instances_spec(),
                (#[trigger] self.unowned_spec()[i]).0,
            )
        &&& forall|t: int, k: int|
            0 <= t < self.tracks_spec().len() && 0 <= k
                < self.tracks_spec()[t].plugin_instances@.len() ==> has_instance_id(
                self.instances_spec(),
                #[trigger] self.tracks_spec()[t].plugin_instances@[k],
            )
        &&& forall|t: int, u: int, k: int, l: int|
            0 <= t < self.tracks_spec().len() && 0 <= u < self.tracks_spec().len() && 0 <= k
                < self.tracks_spec()[t].plugin_instances@.len() && 0 <= l
                < self.tracks_spec()[u].plugin_instances@.len() && (t != u || k != l)
                ==> #[trigger] self.tracks_spec()[t].plugin_instances@[k]
                != #[trigger] self.tracks_spec()[u].plugin_instances@[l]
        &&& forall|i: int|
            0 <= i < self.instances_spec().len() ==> (self.unowned_contains(
                (#[trigger] self.instances_spec()[i]).id,
            ) <==> !some_track_references(self.tracks_spec(), self.instances_spec()[i].id))
        &&& self.factory_spec().wf()
        &&& {
            let audio = apply_command_shapes(Seq::empty(), self.sent_spec());
            &&& audio.len() == self.tracks_spec().len()
            &&& forall|i: int|
                0 <= i < audio.len() ==> (#[trigger] audio[i]).chain_len
                    == self.tracks_spec()[i].plugin_instances@.len() && audio[i].volume
                    == UNIT_GAIN_BITS
        }
    }

    /// A controller with no state beyond its factory, paired with the
    /// audio-side processor that will drain its commands.
    pub fn new(plugin_factory: PluginFactory<B>) -> (r: (Controller<B>, Processor<B::Instance>))
        requires
            plugin_factory.wf(),
        ensures
            r.0.wf(),
            r.0.tracks_spec() == Seq::<Track>::empty(),
            r.0.instances_spec() == Seq::<PluginInstance>::empty(),
            r.0.unowned_spec() == Seq::<(IntId, B::Instance)>::empty(),
            r.0.factory_spec() == plugin_factory,
            r.0.buffer_size_spec() == 0usize,
            r.0.sent_spec() == Seq::<CommandShape<B::Instance>>::empty(),
            r.1.wf(),
            r.1.applied_spec() == Seq::<CommandShape<B::Instance>>::empty(),
            r.1.audio().tracks == Seq::<crate::processor::TrackView<B::Instance>>::empty(),
            r.1.audio().volume == UNIT_GAIN_BITS,
    {
        let command_queue_size: usize = 1_000_000;
        let (tx, rx) = crate::command_queue::command_channel(command_queue_size);
        let controller = Controller {
            tracks: Vec::new(),
            plugin_instances: Vec::new(),
            unowned_plugin_instances: Vec::new(),
            plugin_factory,
            buffer_size: 0,
            commands: tx,
            sent: Ghost(Seq::empty()),
        };
        let audio_processor = Processor {
            inner: processor::Processor::new(),
            commands: rx,
            applied: Ghost(Seq::empty()),
        };
        proof {
            assert(controller.tracks_spec() =~= Seq::<Track>::empty());
            assert(controller.instances_spec() =~= Seq::<PluginInstance>::empty());
            assert(controller.unowned_spec() =~= Seq::<(IntId, B::Instance)>::empty());
            assert(shapes_of(audio_processor.audio().tracks) =~= Seq::<TrackShape>::empty());
        }
        (controller, audio_processor)
    }

    /// Records the buffer size tracks will be allocated with. Required once
    /// before the first `add_track`.
    pub fn set_buffer_size(&mut self, buffer_size: usize)
        requires
            old(self).wf(),
        ensures
            final(self).wf(),
            final(self).buffer_size_spec() == buffer_size,
            final(self).tracks_spec() == old(self).tracks_spec(),
            final(self).instances_spec() == old(self).instances_spec(),
            final(self).unowned_spec() == old(self).unowned_spec(),
            final(self).factory_spec() == old(self).factory_spec(),
            final(self).sent_spec() == old(self).sent_spec(),
    {
        self.buffer_size = buffer_size;
        proof {
            assert(self.tracks_spec() == old(self).tracks_spec());
            assert(self.instances_spec() == old(self).instances_spec());
            assert(self.unowned_spec() == old(self).unowned_spec());
            assert(self.sent_spec() == old(self).sent_spec());
            assert(self.wf());
        }
    }

    /// The track metadata, in creation order.
    pub fn tracks(&self) -> (r: &Vec<Track>)
        ensures
            r@ == self.tracks_spec(),
    {
        &self.tracks
    }

    /// The track with id `id`, if any.
    pub fn track_by_id(&self, id: IntId) -> (r: Option<&Track>)
        ensures
            r is Some <==> has_track_id(self.tracks_spec(), id),
            r matches Some(t) ==> t.id == id && self.tracks_spec().contains(*t),
    {
        let n = self.tracks.len();
        let mut i: usize = 0;
        while i < n
            invariant
                i <= n,
                n == self.tracks_spec().len(),
                forall|j: int| 0 <= j < i ==> self.tracks_spec()[j].id != id,
            decreases n - i,
        {
            if self.tracks[i].id == id {
                return Some(&self.tracks[i]);
            }
            i = i + 1;
        }
        None
    }

    /// The plugin factory the controller builds instances with.
    pub fn plugin_factory(&self) -> (r: &PluginFactory<B>)
        ensures
            *r == self.factory_spec(),
    {
        &self.plugin_factory
    }

    /// The plugin-instance metadata, in creation order.
    pub fn plugin_instances(&self) -> (r: &Vec<PluginInstance>)
        ensures
            r@ == self.instances_spec(),
    {
        &self.plugin_instances
    }

    /// The plugin-instance metadata with id `id`, if any.
    pub fn plugin_instance_by_id(&self, id: IntId) -> (r: Option<&PluginInstance>)
        ensures
            r is Some <==> has_instance_id(self.instances_spec(), id),
            r matches Some(p) ==> p.id == id && self.instances_spec().contains(*p),
    {
        let n = self.plugin_instances.len();
        let mut i: usize = 0;
        while i < n
            invariant
                i <= n,
                n == self.instances_spec().len(),
                forall|j: int| 0 <= j < i ==> self.instances_spec()[j].id != id,
            decreases n - i,
    {
            if self.plugin_instances[i].id == id {
                return Some(&self.plugin_instances[i]);
            }
            i = i + 1;
        }
        None
    }
}

/// Every id in the prefix `pids[..k]` resolves to plugin-instance metadata
/// and is referenced by no track.
pub open spec fn clean_prefix(
    tracks: Seq<Track>,
    instances: Seq<PluginInstance>,
    pids: Seq<IntId>,
    k: int,
) -> bool {
    forall|j: int|
        0 <= j < k ==> has_instance_id(instances, #[trigger] pids[j]) && !some_track_references(
            tracks,
            pids[j],
        )
}

impl<B: PluginBuilder> Controller<B> {
    /// Adds a track: validates its plugin-instance references, assembles
    /// the realtime track from the stashed instances, sends it to the audio
    /// thread, and appends the metadata.
    ///
    /// Requires the buffer size to be set and the track id to be fresh;
    /// every referenced plugin instance must exist and be owned by no other
    /// track. References are checked in chain order and the first faulty
    /// one is reported. Every failure leaves the controller unchanged. The
    /// realtime track is sent with unit gain and scratch buffers of the
    /// negotiated size; a caller may not reference the same plugin instance
    /// twice in one chain.
    #[verifier::loop_isolation(false)]
    pub fn add_track(&mut self, track: Track) -> (r: Result<(), ControllerError>)
        requires
            old(self).wf(),
            forall|a: int, b: int|
                0 <= a < b < track.plugin_instances@.len() ==> track.plugin_instances@[a]
                    != track.plugin_instances@[b],
        ensures
            final(self).wf(),
            r is Ok <==> {
                &&& old(self).buffer_size_spec() != 0
                &&& !has_track_id(old(self).tracks_spec(), track.id)
                &&& clean_prefix(
                    old(self).tracks_spec(),
                    old(self).instances_spec(),
                    track.plugin_instances@,
                    track.plugin_instances@.len() as int,
                )
            },
            old(self).buffer_size_spec() == 0 ==> r == Result::<(), ControllerError>::Err(
                ControllerError::BufferSizeHasNotBeenSet,
            ),
            r matches Err(ControllerError::TrackAlreadyExists(id, t)) ==> has_track_id(
                old(self).tracks_spec(),
                track.id,
            ) && id == track.id && t.id == track.id,
            old(self).buffer_size_spec() != 0 && has_track_id(old(self).tracks_spec(), track.id)
                ==> r matches Err(ControllerError::TrackAlreadyExists(_, _)),
            r matches Err(
                ControllerError::TrackReferencesNonExistantPluginInstance {
                    track_id,
                    plugin_instance_id,
                },
            ) ==> track_id == track.id && exists|k: int|
                {
                    &&& 0 <= k < track.plugin_instances@.len()
                    &&& track.plugin_instances@[k] == plugin_instance_id
                    &&& !has_instance_id(old(self).instances_spec(), plugin_instance_id)
                    &&& clean_prefix(
                        old(self).tracks_spec(),
                        old(self).instances_spec(),
                        track.plugin_instances@,
                        k,
                    )
                },
            r matches Err(
                ControllerError::MovingPluginInstancesBetweenTracksNotImplemented {
                    new_track_id,
                    current_track_id,
                    plugin_instance_id,
                },
            ) ==> new_track_id == track.id && exists|k: int, t: int|
                {
                    &&& 0 <= k < track.plugin_instances@.len()
                    &&& track.plugin_instances@[k] == plugin_instance_id
                    &&& clean_prefix(
                        old(self).tracks_spec(),
                        old(self).instances_spec(),
                        track.plugin_instances@,
                        k,
                    )
                    &&& 0 <= t < old(self).tracks_spec().len()
                    &&& old(self).tracks_spec()[t].plugin_instances@.contains(plugin_instance_id)
                    &&& old(self).tracks_spec()[t].id == current_track_id
                },
            old(self).buffer_size_spec() != 0 && !has_track_id(old(self).tracks_spec(), track.id)
                && !clean_prefix(
                old(self).tracks_spec(),
                old(self).instances_spec(),
                track.plugin_instances@,
                track.plugin_instances@.len() as int,
            ) ==> ((r matches Err(
                ControllerError::TrackReferencesNonExistantPluginInstance { .. },
            )) || (r matches Err(
                ControllerError::MovingPluginInstancesBetweenTracksNotImplemented { .. },
            ))),
            r is Ok ==> {
                &&& final(self).tracks_spec() == old(self).tracks_spec().push(track)
                &&& final(self).sent_spec() == old(self).sent_spec().push(
                    CommandShape::AddTrack(
                        TrackShape {
                            volume: UNIT_GAIN_BITS,
                            buffer_size: old(self).buffer_size_spec() as nat,
                            chain_len: track.plugin_instances@.len() as nat,
                        },
                        stashed_chain(old(self).unowned_spec(), track.plugin_instances@),
                    ),
                )
                &&& forall|pid: IntId|
                    final(self).unowned_contains(pid) <==> old(self).unowned_contains(pid)
                        && !track.plugin_instances@.contains(pid)
                &&& final(self).unowned_spec().len() + track.plugin_instances@.len() == old(
                    self,
                ).unowned_spec().len()
            },
            r is Err ==> {
                &&& final(self).tracks_spec() == old(self).tracks_spec()
                &&& final(self).unowned_spec() == old(self).unowned_spec()
                &&& final(self).sent_spec() == old(self).sent_spec()
            },
            final(self).instances_spec() == old(self).instances_spec(),
            final(self).factory_spec() == old(self).factory_spec(),
            final(self).buffer_size_spec() == old(self).buffer_size_spec(),
    {
        if self.buffer_size == 0 {
            return Err(ControllerError::BufferSizeHasNotBeenSet);
        }
        match self.track_by_id(track.id) {
            Some(t) => {
                let copy = t.duplicate();
                return Err(ControllerError::TrackAlreadyExists(copy.id, copy));
            },
            None => {},
        }
        let num_pids = track.plugin_instances.len();
        let mut k: usize = 0;
        while k < num_pids
            invariant
                k <= num_pids,
                num_pids == track.plugin_instances@.len(),
                clean_prefix(
                    self.tracks_spec(),
                    self.instances_spec(),
                    track.plugin_instances@,
                    k as int,
                ),
            decreases num_pids - k,
        {
            let pid = track.plugin_instances[k];
            if self.plugin_instance_by_id(pid).is_none() {
                return Err(
                    ControllerError::TrackReferencesNonExistantPluginInstance {
                        track_id: track.id,
                        plugin_instance_id: pid,
                    },
                );
            }
            let num_tracks = self.tracks.len();
            let mut t: usize = 0;
            while t < num_tracks
                invariant
                    t <= num_tracks,
                    num_tracks == self.tracks_spec().len(),
                    forall|j: int|
                        0 <= j < t ==> !self.tracks_spec()[j].plugin_instances@.contains(pid),
                decreases num_tracks - t,
            {
                if contains_id(&self.tracks[t].plugin_instances, pid) {
                    return Err(
                        ControllerError::MovingPluginInstancesBetweenTracksNotImplemented {
                            new_track_id: track.id,
                            current_track_id: self.tracks[t].id,
                            plugin_instance_id: pid,
                        },
                    );
                }
                t = t + 1;
            }
            assert(!some_track_references(self.tracks_spec(), pid));
            k = k + 1;
        }

        let ghost pre = *self;
        let mut core_track: processor::Track<B::Instance> = processor::Track::new(
            self.buffer_size,
            UNIT_GAIN_BITS,
        );
        let mut k: usize = 0;
        while k < num_pids
            invariant
                k <= num_pids,
                num_pids == track.plugin_instances@.len(),
                pre.wf(),
                clean_prefix(
                    pre.tracks_spec(),
                    pre.instances_spec(),
                    track.plugin_instances@,
                    num_pids as int,
                ),
                forall|a: int, b: int|
                    0 <= a < b < track.plugin_instances@.len() ==> track.plugin_instances@[a]
                        != track.plugin_instances@[b],
                self.tracks_spec() == pre.tracks_spec(),
                self.instances_spec() == pre.instances_spec(),
                self.factory_spec() == pre.factory_spec(),
                self.buffer_size_spec() == pre.buffer_size_spec(),
                self.sent_spec() == pre.sent_spec(),
                self.unowned_spec().len() + k == pre.unowned_spec().len(),
                forall|i: int, j: int|
                    0 <= i < j < self.unowned_spec().len() ==> self.unowned_spec()[i].0
                        != self.unowned_spec()[j].0,
                forall|pid: IntId|
                    self.unowned_contains(pid) <==> pre.unowned_contains(pid)
                        && !track.plugin_instances@.take(k as int).contains(pid),
                forall|i: int|
                    0 <= i < self.unowned_spec().len() ==> pre.unowned_spec().contains(
                        #[trigger] self.unowned_spec()[i],
                    ),
                forall|j: int|
                    0 <= j < k ==> pre.unowned_spec().contains(
                        (track.plugin_instances@[j], #[trigger] core_track@.plugins[j]),
                    ),
                core_track@.volume == UNIT_GAIN_BITS,
                core_track@.plugins.len() == k,
                core_track@.out_left.len() == pre.buffer_size_spec(),
                core_track@.out_right.len() == pre.buffer_size_spec(),
            decreases num_pids - k,
        {
            let pid = track.plugin_instances[k];
            proof {
                // The instance is stashed: it resolves and no track owns it.
                assert(has_instance_id(pre.instances_spec(), pid));
                assert(!some_track_references(pre.tracks_spec(), pid));
                let i = choose|i: int|
                    0 <= i < pre.instances_spec().len() && pre.instances_spec()[i].id == pid;
                assert(pre.instances_spec()[i].id == pid);
                assert(pre.unowned_contains(pid));
                assert(!track.plugin_instances@.take(k as int).contains(pid)) by {
                    if track.plugin_instances@.take(k as int).contains(pid) {
                        let a = choose|a: int|
                            0 <= a < k && #[trigger] track.plugin_instances@.take(k as int)[a] == pid;
                        assert(track.plugin_instances@[a] == track.plugin_instances@[k as int]);
                    }
                }
                assert(self.unowned_contains(pid));
            }
            let ghost before = self.unowned_plugin_instances@;
            let instance = remove_entry(&mut self.unowned_plugin_instances, pid);
            core_track.add_plugin(instance);
            k = k + 1;
            proof {
                let removed_at = choose|i: int|
                    0 <= i < before.len() && before[i].0 == pid && before[i].1 == instance
                        && self.unowned_spec() == before.remove(i);
                before.remove_ensures(removed_at);
                // The consumed entry stood in the map as it was before the
                // loop, so the chain position just filled is the stashed
                // instance for its id.
                assert(pre.unowned_spec().contains(before[removed_at]));
                assert(core_track@.plugins[k - 1] == instance);
                assert(before[removed_at] == (pid, instance));
                // Every remaining entry stood in the map before the removal.
                assert forall|i: int|
                    0 <= i < self.unowned_spec().len() implies #[trigger] before.contains(
                    self.unowned_spec()[i],
                ) by {
                    if i < removed_at {
                        assert(self.unowned_spec()[i] == before[i]);
                    } else {
                        assert(self.unowned_spec()[i] == before[i + 1]);
                    }
                }
                // Keys stay unique.
                assert forall|a: int, b: int|
                    0 <= a < b < self.unowned_spec().len() implies self.unowned_spec()[a].0
                    != self.unowned_spec()[b].0 by {
                    let a0: int = if a < removed_at {
                        a
                    } else {
                        a + 1
                    };
                    let b0: int = if b < removed_at {
                        b
                    } else {
                        b + 1
                    };
                    assert(self.unowned_spec()[a] == before[a0]);
                    assert(self.unowned_spec()[b] == before[b0]);
                }
                // Entries still come from the map as it was before the loop.
                assert forall|i: int|
                    0 <= i < self.unowned_spec().len() implies pre.unowned_spec().contains(
                    #[trigger] self.unowned_spec()[i],
                ) by {
                    let j = choose|j: int|
                        0 <= j < before.len() && before[j] == self.unowned_spec()[i];
                    assert(pre.unowned_spec().contains(before[j]));
                }
                // Membership: exactly the consumed prefix has left the map.
                assert forall|q: IntId| self.unowned_contains(q) implies pre.unowned_contains(q)
                    && !track.plugin_instances@.take(k as int).contains(q) by {
                    let i = choose|i: int|
                        0 <= i < self.unowned_spec().len() && self.unowned_spec()[i].0 == q;
                    let i0: int = if i < removed_at {
                        i
                    } else {
                        i + 1
                    };
                    assert(self.unowned_spec()[i] == before[i0]);
                    assert(before[i0].0 == q);
                    assert(entries_contain(before, q));
                    assert(q != pid) by {
                        assert(i0 != removed_at);
                        if q == pid {
                            if i0 < removed_at {
                                assert(before[i0].0 != before[removed_at].0);
                            } else {
                                assert(before[removed_at].0 != before[i0].0);
                            }
                        }
                    }
                    if track.plugin_instances@.take(k as int).contains(q) {
                        let a = choose|a: int|
                            0 <= a < k && #[trigger] track.plugin_instances@.take(k as int)[a]
                                == q;
                        if a < k - 1 {
                            assert(track.plugin_instances@.take(k - 1).contains(q)) by {
                                assert(track.plugin_instances@.take(k - 1)[a] == q);
                            }
                            assert(false);
                        } else {
                            assert(q == pid);
                        }
                    }
                }
                assert forall|q: IntId|
                    pre.unowned_contains(q) && !track.plugin_instances@.take(
                        k as int,
                    ).contains(q) implies self.unowned_contains(q) by {
                    assert(!track.plugin_instances@.take(k - 1).contains(q)) by {
                        if track.plugin_instances@.take(k - 1).contains(q) {
                            let a = choose|a: int|
                                0 <= a < k - 1 && #[trigger] track.plugin_instances@.take(k - 1)[a]
                                    == q;
                            assert(track.plugin_instances@.take(k as int)[a] == q);
                        }
                    }
                    assert(q != pid) by {
                        assert(track.plugin_instances@.take(k as int)[k - 1] == pid);
                    }
                    // q was in the map at the start of this iteration.
                    let j = choose|j: int| 0 <= j < before.len() && before[j].0 == q;
                    assert(j != removed_at);
                    if j < removed_at {
                        assert(self.unowned_spec()[j] == before[j]);
                    } else {
                        assert(self.unowned_spec()[j - 1] == before[j]);
                    }
                }
            }
        }
        proof {
            assert(track.plugin_instances@.take(num_pids as int) =~= track.plugin_instances@);
        }

        let ghost shape = TrackShape {
            volume: UNIT_GAIN_BITS,
            buffer_size: pre.buffer_size_spec() as nat,
            chain_len: track.plugin_instances@.len() as nat,
        };
        let ghost chain = stashed_chain(pre.unowned_spec(), track.plugin_instances@);
        proof {
            assert(crate::command_queue::shape_of(core_track@) == shape);
            // The assembled chain is exactly the instances stashed under
            // the track's ids, in reference order.
            assert forall|j: int|
                0 <= j < num_pids implies core_track@.plugins[j] == stashed_instance(
                pre.unowned_spec(),
                track.plugin_instances@[j],
            ) by {
                assert(pre.unowned_spec().contains(
                    (track.plugin_instances@[j], core_track@.plugins[j]),
                ));
                let w = choose|w: int|
                    0 <= w < pre.unowned_spec().len() && pre.unowned_spec()[w] == (
                    track.plugin_instances@[j],
                    core_track@.plugins[j],
                );
                assert(pre.unowned_spec()[w].0 == track.plugin_instances@[j]);
                let i0 = choose|i: int|
                    0 <= i < pre.unowned_spec().len() && pre.unowned_spec()[i].0
                        == track.plugin_instances@[j];
                assert(pre.unowned_spec()[i0].0 == track.plugin_instances@[j]);
                if w < i0 {
                    assert(pre.unowned_spec()[w].0 != pre.unowned_spec()[i0].0);
                } else if i0 < w {
                    assert(pre.unowned_spec()[i0].0 != pre.unowned_spec()[w].0);
                }
                assert(w == i0);
            }
            assert(core_track@.plugins =~= chain);
        }
        send_command(&self.commands, Command::AddTrack(core_track));
        proof {
            self.sent@ = self.sent@.push(CommandShape::AddTrack(shape, chain));
        }
        self.tracks.push(track);
        proof {
            self.lemma_add_track_preserves_wf(pre, track, shape, chain);
        }
        Ok(())
    }

    /// Appending validated track metadata, consuming its stashed instances,
    /// and recording the matching `AddTrack` command preserves the
    /// controller invariant.
    proof fn lemma_add_track_preserves_wf(
        &self,
        pre: Controller<B>,
        track: Track,
        shape: TrackShape,
        chain: Seq<B::Instance>,
    )
        requires
            pre.wf(),
            pre.buffer_size_spec() != 0,
            !has_track_id(pre.tracks_spec(), track.id),
            clean_prefix(
                pre.tracks_spec(),
                pre.instances_spec(),
                track.plugin_instances@,
                track.plugin_instances@.len() as int,
            ),
            forall|a: int, b: int|
                0 <= a < b < track.plugin_instances@.len() ==> track.plugin_instances@[a]
                    != track.plugin_instances@[b],
            shape == (TrackShape {
                volume: UNIT_GAIN_BITS,
                buffer_size: pre.buffer_size_spec() as nat,
                chain_len: track.plugin_instances@.len() as nat,
            }),
            self.tracks_spec() == pre.tracks_spec().push(track),
            self.instances_spec() == pre.instances_spec(),
            self.factory_spec() == pre.factory_spec(),
            self.sent_spec() == pre.sent_spec().push(CommandShape::AddTrack(shape, chain)),
            forall|i: int, j: int|
                0 <= i < j < self.unowned_spec().len() ==> self.unowned_spec()[i].0
                    != self.unowned_spec()[j].0,
            forall|pid: IntId|
                self.unowned_contains(pid) <==> pre.unowned_contains(pid)
                    && !track.plugin_instances@.contains(pid),
            forall|i: int|
                0 <= i < self.unowned_spec().len() ==> pre.unowned_spec().contains(
                    #[trigger] self.unowned_spec()[i],
                ),
        ensures
            self.wf(),
    {
        let ts = self.tracks_spec();
        let pre_ts = pre.tracks_spec();
        let n = pre_ts.len();
        // Unique track ids.
        assert forall|i: int, j: int| 0 <= i < j < ts.len() implies ts[i].id != ts[j].id by {
            if j < n {
                assert(pre_ts[i].id != pre_ts[j].id);
            } else {
                assert(ts[j] == track);
                if ts[i].id == track.id {
                    assert(has_track_id(pre_ts, track.id));
                }
            }
        }
        // Unassigned entries still resolve.
        assert forall|i: int|
            0 <= i < self.unowned_spec().len() implies has_instance_id(
            self.instances_spec(),
            (#[trigger] self.unowned_spec()[i]).0,
        ) by {
            assert(pre.unowned_spec().contains(self.unowned_spec()[i]));
            let j = choose|j: int|
                0 <= j < pre.unowned_spec().len() && pre.unowned_spec()[j]
                    == self.unowned_spec()[i];
            assert(has_instance_id(pre.instances_spec(), pre.unowned_spec()[j].0));
        }
        // Every reference of every track resolves.
        assert forall|t: int, k: int|
            0 <= t < ts.len() && 0 <= k < ts[t].plugin_instances@.len() implies has_instance_id(
            self.instances_spec(),
            #[trigger] ts[t].plugin_instances@[k],
        ) by {
            if t < n {
                assert(has_instance_id(pre.instances_spec(), pre_ts[t].plugin_instances@[k]));
            } else {
                assert(ts[t] == track);
                assert(has_instance_id(pre.instances_spec(), track.plugin_instances@[k]));
            }
        }
        // No plugin instance is referenced from two chain positions.
        assert forall|t: int, u: int, k: int, l: int|
            0 <= t < ts.len() && 0 <= u < ts.len() && 0 <= k < ts[t].plugin_instances@.len() && 0
                <= l < ts[u].plugin_instances@.len() && (t != u || k != l) implies #[trigger] ts[t].plugin_instances@[k]
            != #[trigger] ts[u].plugin_instances@[l] by {
            if t < n && u < n {
            } else if t == n && u == n {
                assert(ts[t] == track && ts[u] == track);
            } else if t == n && u < n {
                assert(ts[t] == track);
                if track.plugin_instances@[k] == ts[u].plugin_instances@[l] {
                    assert(pre_ts[u].plugin_instances@.contains(track.plugin_instances@[k]));
                    assert(!some_track_references(pre_ts, track.plugin_instances@[k]));
                }
            } else if u == n && t < n {
                assert(ts[u] == track);
                if track.plugin_instances@[l] == ts[t].plugin_instances@[k] {
                    assert(pre_ts[t].plugin_instances@.contains(track.plugin_instances@[l]));
                    assert(!some_track_references(pre_ts, track.plugin_instances@[l]));
                }
            }
        }
        // Stashed exactly while unreferenced.
        assert forall|i: int|
            0 <= i < self.instances_spec().len() implies (self.unowned_contains(
            (#[trigger] self.instances_spec()[i]).id,
        ) <==> !some_track_references(ts, self.instances_spec()[i].id)) by {
            let pid = self.instances_spec()[i].id;
            assert(pre.unowned_contains(pid) <==> !some_track_references(pre_ts, pid));
            if some_track_references(ts, pid) {
                let t = choose|t: int|
                    0 <= t < ts.len() && ts[t].plugin_instances@.contains(pid);
                if t < n {
                    assert(some_track_references(pre_ts, pid)) by {
                        assert(pre_ts[t].plugin_instances@.contains(pid));
                    }
                } else {
                    assert(ts[t] == track);
                    assert(track.plugin_instances@.contains(pid));
                }
            } else {
                assert(!some_track_references(pre_ts, pid)) by {
                    if some_track_references(pre_ts, pid) {
                        let t = choose|t: int|
                            0 <= t < pre_ts.len() && pre_ts[t].plugin_instances@.contains(pid);
                        assert(ts[t].plugin_instances@.contains(pid));
                    }
                }
                assert(!track.plugin_instances@.contains(pid)) by {
                    if track.plugin_instances@.contains(pid) {
                        assert(ts[n as int].plugin_instances@.contains(pid));
                    }
                }
            }
        }
        // The audio-side replay tracks the controller's vector.
        let pre_audio = apply_command_shapes(Seq::empty(), pre.sent_spec());
        let audio = apply_command_shapes(Seq::empty(), self.sent_spec());
        lemma_apply_shapes_push(Seq::empty(), pre.sent_spec(), CommandShape::AddTrack(shape, chain));
        assert(audio == pre_audio.push(shape));
        assert forall|i: int|
            0 <= i < audio.len() implies (#[trigger] audio[i]).chain_len
            == ts[i].plugin_instances@.len() && audio[i].volume == UNIT_GAIN_BITS by {
            if i < n {
                assert(pre_audio[i].chain_len == pre_ts[i].plugin_instances@.len());
                assert(ts[i] == pre_ts[i]);
            } else {
                assert(audio[i] == shape);
                assert(ts[i] == track);
            }
        }
    }
}

impl<B: PluginBuilder> Controller<B> {
    /// The position of the track with id `id`, if any.
    fn track_index_by_id(&self, id: IntId) -> (r: Option<usize>)
        ensures
            r is Some <==> has_track_id(self.tracks_spec(), id),
            r matches Some(i) ==> i < self.tracks_spec().len() && self.tracks_spec()[i as int].id
                == id,
    {
        let n = self.tracks.len();
        let mut i: usize = 0;
        while i < n
            invariant
                i <= n,
                n == self.tracks_spec().len(),
                forall|j: int| 0 <= j < i ==> self.tracks_spec()[j].id != id,
            decreases n - i,
        {
            if self.tracks[i].id == id {
                return Some(i);
            }
            i = i + 1;
        }
        None
    }

    /// Deletes the track with id `id`: drops the metadata of every plugin
    /// instance the track references, removes the track, and tells the
    /// audio thread to drop the track at the same position.
    ///
    /// Fails with `TrackDoesNotExist`, leaving the controller unchanged,
    /// exactly when no track has that id.
    #[verifier::loop_isolation(false)]
    pub fn delete_track(&mut self, id: IntId) -> (r: Result<(), ControllerError>)
        requires
            old(self).wf(),
        ensures
            final(self).wf(),
            r is Ok <==> has_track_id(old(self).tracks_spec(), id),
            !has_track_id(old(self).tracks_spec(), id) ==> r == Result::<(), ControllerError>::Err(
                ControllerError::TrackDoesNotExist(id),
            ),
            r is Ok ==> exists|i: int|
                {
                    &&& 0 <= i < old(self).tracks_spec().len()
                    &&& old(self).tracks_spec()[i].id == id
                    &&& final(self).tracks_spec() == old(self).tracks_spec().remove(i)
                    &&& final(self).sent_spec() == old(self).sent_spec().push(
                        CommandShape::DeleteTrack(i),
                    )
                    &&& forall|pid: IntId|
                        has_instance_id(final(self).instances_spec(), pid) <==> has_instance_id(
                            old(self).instances_spec(),
                            pid,
                        ) && !old(self).tracks_spec()[i].plugin_instances@.contains(pid)
                },
            r is Err ==> {
                &&& final(self).tracks_spec() == old(self).tracks_spec()
                &&& final(self).instances_spec() == old(self).instances_spec()
                &&& final(self).sent_spec() == old(self).sent_spec()
            },
            final(self).unowned_spec() == old(self).unowned_spec(),
            final(self).factory_spec() == old(self).factory_spec(),
            final(self).buffer_size_spec() == old(self).buffer_size_spec(),
    {
        let track_index = match self.track_index_by_id(id) {
            None => {
                return Err(ControllerError::TrackDoesNotExist(id));
            },
            Some(i) => i,
        };
        let ghost pre = *self;
        // The ids of the chain whose metadata is dropped with the track.
        let pids = copy_ids(&self.tracks[track_index].plugin_instances);
        let ghost dropped = pids@;

        // Drop the metadata of every plugin instance the track references.
        let ghost mut processed: int = 0;
        let mut j: usize = 0;
        while j < self.plugin_instances.len()
            invariant
                0 <= j <= self.plugin_instances@.len(),
                j <= processed <= pre.instances_spec().len(),
                self.plugin_instances@.len() - j == pre.instances_spec().len() - processed,
                forall|a: int| 0 <= a < j ==> !dropped.contains(
                    (#[trigger] self.plugin_instances@[a]).id,
                ),
                forall|a: int|
                    j <= a < self.plugin_instances@.len()
                        ==> #[trigger] self.plugin_instances@[a] == pre.instances_spec()[a - j
                        + processed],
                forall|pid: IntId|
                    has_instance_id(self.plugin_instances@.take(j as int), pid) <==> exists|q: int|
                        0 <= q < processed && (#[trigger] pre.instances_spec()[q]).id == pid
                            && !dropped.contains(pid),
                forall|a: int, b: int|
                    0 <= a < b < self.plugin_instances@.len() ==> self.plugin_instances@[a].id
                        != self.plugin_instances@[b].id,
                self.tracks_spec() == pre.tracks_spec(),
                self.unowned_spec() == pre.unowned_spec(),
                self.factory_spec() == pre.factory_spec(),
                self.buffer_size_spec() == pre.buffer_size_spec(),
                self.sent_spec() == pre.sent_spec(),
            decreases self.plugin_instances@.len() - j,
        {
            let ghost before = self.plugin_instances@;
            if contains_id(&pids, self.plugin_instances[j].id) {
                self.plugin_instances.remove(j);
                proof {
                    before.remove_ensures(j as int);
                    processed = processed + 1;
                    assert forall|pid: IntId|
                        has_instance_id(self.plugin_instances@.take(j as int), pid) implies exists|
                        q: int,
                    |
                        0 <= q < processed && (#[trigger] pre.instances_spec()[q]).id == pid
                            && !dropped.contains(pid) by {
                        assert(self.plugin_instances@.take(j as int) =~= before.take(j as int));
                        assert(has_instance_id(before.take(j as int), pid));
                    }
                    assert forall|pid: IntId|
                        exists|q: int|
                            0 <= q < processed && (#[trigger] pre.instances_spec()[q]).id == pid
                                && !dropped.contains(pid) implies has_instance_id(
                        self.plugin_instances@.take(j as int),
                        pid,
                    ) by {
                        let q = choose|q: int|
                            0 <= q < processed && (#[trigger] pre.instances_spec()[q]).id == pid
                                && !dropped.contains(pid);
                        assert(q != processed - 1) by {
                            assert(before[j as int] == pre.instances_spec()[processed - 1]);
                        }
                        assert(self.plugin_instances@.take(j as int) =~= before.take(j as int));
                        assert(has_instance_id(before.take(j as int), pid));
                    }
                }
            } else {
                j = j + 1;
                proof {
                    processed = processed + 1;
                    assert forall|pid: IntId|
                        has_instance_id(self.plugin_instances@.take(j as int), pid) implies exists|
                        q: int,
                    |
                        0 <= q < processed && (#[trigger] pre.instances_spec()[q]).id == pid
                            && !dropped.contains(pid) by {
                        let a = choose|a: int|
                            0 <= a < j && (#[trigger] self.plugin_instances@.take(j as int)[a]).id == pid;
                        if a < j - 1 {
                            assert(has_instance_id(self.plugin_instances@.take(j - 1), pid)) by {
                                assert(self.plugin_instances@.take(j - 1)[a].id == pid);
                            }
                        } else {
                            assert(self.plugin_instances@[j - 1] == pre.instances_spec()[processed
                                - 1]);
                        }
                    }
                    assert forall|pid: IntId|
                        exists|q: int|
                            0 <= q < processed && (#[trigger] pre.instances_spec()[q]).id == pid
                                && !dropped.contains(pid) implies has_instance_id(
                        self.plugin_instances@.take(j as int),
                        pid,
                    ) by {
                        let q = choose|q: int|
                            0 <= q < processed && (#[trigger] pre.instances_spec()[q]).id == pid
                                && !dropped.contains(pid);
                        if q < processed - 1 {
                            assert(has_instance_id(self.plugin_instances@.take(j - 1), pid));
                            let a = choose|a: int|
                                0 <= a < j - 1 && (#[trigger] self.plugin_instances@.take(j - 1)[a]).id == pid;
                            assert(self.plugin_instances@.take(j as int)[a].id == pid);
                        } else {
                            assert(self.plugin_instances@[j - 1] == pre.instances_spec()[processed
                                - 1]);
                            assert(self.plugin_instances@.take(j as int)[j - 1].id == pid);
                        }
                    }
                }
            }
        }
        proof {
            assert(self.plugin_instances@.take(self.plugin_instances@.len() as int)
                =~= self.plugin_instances@);
        }

        self.tracks.remove(track_index);
        send_command(&self.commands, Command::DeleteTrack(track_index));
        proof {
            self.sent@ = self.sent@.push(CommandShape::DeleteTrack(track_index as int));
            assert forall|a: int| 0 <= a < self.instances_spec().len() implies has_instance_id(
                pre.instances_spec(),
                (#[trigger] self.instances_spec()[a]).id,
            ) && !dropped.contains(self.instances_spec()[a].id) by {
                let pid = self.instances_spec()[a].id;
                assert(has_instance_id(self.instances_spec(), pid)) by {
                    assert(self.instances_spec()[a].id == pid);
                }
            }
            self.lemma_delete_track_preserves_wf(pre, id, track_index as int, dropped);
        }
        Ok(())
    }

    /// Removing a track, the metadata of the instances it referenced, and
    /// recording the matching `DeleteTrack` command preserves the
    /// controller invariant.
    proof fn lemma_delete_track_preserves_wf(
        &self,
        pre: Controller<B>,
        id: IntId,
        i: int,
        dropped: Seq<IntId>,
    )
        requires
            pre.wf(),
            0 <= i < pre.tracks_spec().len(),
            pre.tracks_spec()[i].id == id,
            dropped == pre.tracks_spec()[i].plugin_instances@,
            self.tracks_spec() == pre.tracks_spec().remove(i),
            forall|pid: IntId|
                has_instance_id(self.instances_spec(), pid) <==> has_instance_id(
                    pre.instances_spec(),
                    pid,
                ) && !dropped.contains(pid),
            forall|a: int, b: int|
                0 <= a < b < self.instances_spec().len() ==> self.instances_spec()[a].id
                    != self.instances_spec()[b].id,
            forall|a: int|
                0 <= a < self.instances_spec().len() ==> has_instance_id(
                    pre.instances_spec(),
                    (#[trigger] self.instances_spec()[a]).id,
                ) && !dropped.contains(self.instances_spec()[a].id),
            self.unowned_spec() == pre.unowned_spec(),
            self.factory_spec() == pre.factory_spec(),
            self.sent_spec() == pre.sent_spec().push(CommandShape::DeleteTrack(i)),
        ensures
            self.wf(),
    {
        let ts = self.tracks_spec();
        let pre_ts = pre.tracks_spec();
        pre_ts.remove_ensures(i);
        // Tracks keep unique ids and distinct references: each surviving
        // track is a pre-existing one.
        assert forall|a: int| 0 <= a < ts.len() implies #[trigger] ts[a] == (if a < i {
            pre_ts[a]
        } else {
            pre_ts[a + 1]
        }) by {}
        assert forall|a: int, b: int| 0 <= a < b < ts.len() implies ts[a].id != ts[b].id by {
            let a0: int = if a < i {
                a
            } else {
                a + 1
            };
            let b0: int = if b < i {
                b
            } else {
                b + 1
            };
            assert(pre_ts[a0].id != pre_ts[b0].id);
        }
        // A surviving track never references a dropped id.
        assert forall|t: int, k: int|
            0 <= t < ts.len() && 0 <= k < ts[t].plugin_instances@.len() implies !dropped.contains(
            #[trigger] ts[t].plugin_instances@[k],
        ) by {
            let t0: int = if t < i {
                t
            } else {
                t + 1
            };
            assert(ts[t] == pre_ts[t0]);
            if dropped.contains(ts[t].plugin_instances@[k]) {
                let l = choose|l: int|
                    0 <= l < dropped.len() && dropped[l] == ts[t].plugin_instances@[k];
                assert(pre_ts[i].plugin_instances@[l] == pre_ts[t0].plugin_instances@[k]);
                assert(t0 != i);
            }
        }
        // Every reference of every surviving track still resolves.
        assert forall|t: int, k: int|
            0 <= t < ts.len() && 0 <= k < ts[t].plugin_instances@.len() implies has_instance_id(
            self.instances_spec(),
            #[trigger] ts[t].plugin_instances@[k],
        ) by {
            let t0: int = if t < i {
                t
            } else {
                t + 1
            };
            assert(ts[t] == pre_ts[t0]);
            assert(has_instance_id(pre.instances_spec(), pre_ts[t0].plugin_instances@[k]));
        }
        // No id is referenced from two surviving chain positions.
        assert forall|t: int, u: int, k: int, l: int|
            0 <= t < ts.len() && 0 <= u < ts.len() && 0 <= k < ts[t].plugin_instances@.len() && 0
                <= l < ts[u].plugin_instances@.len() && (t != u || k != l) implies #[trigger] ts[t].plugin_instances@[k]
            != #[trigger] ts[u].plugin_instances@[l] by {
            let t0: int = if t < i {
                t
            } else {
                t + 1
            };
            let u0: int = if u < i {
                u
            } else {
                u + 1
            };
            assert(ts[t] == pre_ts[t0] && ts[u] == pre_ts[u0]);
        }
        // Unassigned entries still resolve and were never referenced.
        assert forall|a: int|
            0 <= a < self.unowned_spec().len() implies has_instance_id(
            self.instances_spec(),
            (#[trigger] self.unowned_spec()[a]).0,
        ) by {
            let pid = self.unowned_spec()[a].0;
            assert(pre.unowned_contains(pid)) by {
                assert(pre.unowned_spec()[a].0 == pid);
            }
            assert(has_instance_id(pre.instances_spec(), pid));
            let q = choose|q: int|
                0 <= q < pre.instances_spec().len() && pre.instances_spec()[q].id == pid;
            assert(!some_track_references(pre_ts, pid));
            assert(!dropped.contains(pid)) by {
                if dropped.contains(pid) {
                    let l = choose|l: int| 0 <= l < dropped.len() && dropped[l] == pid;
                    assert(pre_ts[i].plugin_instances@.contains(pid)) by {
                        assert(pre_ts[i].plugin_instances@[l] == pid);
                    }
                    assert(some_track_references(pre_ts, pid));
                }
            }
        }
        // Stashed exactly while unreferenced.
        assert forall|a: int|
            0 <= a < self.instances_spec().len() implies (self.unowned_contains(
            (#[trigger] self.instances_spec()[a]).id,
        ) <==> !some_track_references(ts, self.instances_spec()[a].id)) by {
            let pid = self.instances_spec()[a].id;
            assert(has_instance_id(pre.instances_spec(), pid) && !dropped.contains(pid));
            let q = choose|q: int|
                0 <= q < pre.instances_spec().len() && pre.instances_spec()[q].id == pid;
            assert(pre.unowned_contains(pid) <==> !some_track_references(pre_ts, pid)) by {
                assert(pre.instances_spec()[q].id == pid);
            }
            assert(self.unowned_contains(pid) <==> pre.unowned_contains(pid)) by {
                if pre.unowned_contains(pid) {
                    let w = choose|w: int|
                        0 <= w < pre.unowned_spec().len() && pre.unowned_spec()[w].0 == pid;
                    assert(self.unowned_spec()[w].0 == pid);
                }
                if self.unowned_contains(pid) {
                    let w = choose|w: int|
                        0 <= w < self.unowned_spec().len() && self.unowned_spec()[w].0 == pid;
                    assert(pre.unowned_spec()[w].0 == pid);
                }
            }
            if some_track_references(ts, pid) {
                let t = choose|t: int| 0 <= t < ts.len() && ts[t].plugin_instances@.contains(pid);
                let t0: int = if t < i {
                    t
                } else {
                    t + 1
                };
                assert(ts[t] == pre_ts[t0]);
                assert(some_track_references(pre_ts, pid)) by {
                    assert(pre_ts[t0].plugin_instances@.contains(pid));
                }
            } else {
                if some_track_references(pre_ts, pid) {
                    let t0 = choose|t0: int|
                        0 <= t0 < pre_ts.len() && pre_ts[t0].plugin_instances@.contains(pid);
                    assert(t0 != i) by {
                        if t0 == i {
                            let l = choose|l: int|
                                0 <= l < pre_ts[i].plugin_instances@.len()
                                    && pre_ts[i].plugin_instances@[l] == pid;
                            assert(dropped.contains(pid)) by {
                                assert(dropped[l] == pid);
                            }
                        }
                    }
                    let t: int = if t0 < i {
                        t0
                    } else {
                        t0 - 1
                    };
                    assert(ts[t] == pre_ts[t0]);
                    assert(some_track_references(ts, pid)) by {
                        assert(ts[t].plugin_instances@.contains(pid));
                    }
                }
            }
        }
        // The audio-side replay still tracks the controller's vector.
        let pre_audio = apply_command_shapes(Seq::empty(), pre.sent_spec());
        let audio = apply_command_shapes(Seq::empty(), self.sent_spec());
        lemma_apply_shapes_push(Seq::empty(), pre.sent_spec(), CommandShape::DeleteTrack(i));
        assert(audio == pre_audio.remove(i));
        pre_audio.remove_ensures(i);
        assert forall|a: int|
            0 <= a < audio.len() implies (#[trigger] audio[a]).chain_len
            == ts[a].plugin_instances@.len() && audio[a].volume == UNIT_GAIN_BITS by {
            let a0: int = if a < i {
                a
            } else {
                a + 1
            };
            assert(audio[a] == pre_audio[a0]);
            assert(ts[a] == pre_ts[a0]);
        }
    }
}

/// A copy of a vector of ids.
fn copy_ids(v: &Vec<IntId>) -> (r: Vec<IntId>)
    ensures
        r@ == v@,
{
    let n = v.len();
    let mut r: Vec<IntId> = Vec::new();
    let mut i: usize = 0;
    while i < n
        invariant
            i <= n,
            n == v@.len(),
            r@ == v@.take(i as int),
        decreases n - i,
    {
        r.push(v[i]);
        proof {
            assert(r@ =~= v@.take(i + 1));
        }
        i = i + 1;
    }
    proof {
        assert(v@.take(n as int) =~= v@);
    }
    r
}

/// Whether `v` holds `id`.
fn contains_id(v: &Vec<IntId>, id: IntId) -> (b: bool)
    ensures
        b == v@.contains(id),
{
    let n = v.len();
    let mut i: usize = 0;
    while i < n
        invariant
            i <= n,
            n == v@.len(),
            forall|j: int| 0 <= j < i ==> v@[j] != id,
        decreases n - i,
    {
        if v[i] == id {
            assert(v@[i as int] == id);
            return true;
        }
        i = i + 1;
    }
    false
}

/// The realtime instance stashed under `pid`; meaningful when exactly one
/// entry carries that key.
pub open spec fn stashed_instance<I>(entries: Seq<(IntId, I)>, pid: IntId) -> I {
    entries[choose|i: int| 0 <= i < entries.len() && entries[i].0 == pid].1
}

/// The realtime instances stashed under `pids`, in that order: element `j`
/// is the instance keyed `pids[j]`.
pub open spec fn stashed_chain<I>(entries: Seq<(IntId, I)>, pids: Seq<IntId>) -> Seq<I> {
    Seq::new(pids.len(), |j: int| stashed_instance(entries, pids[j]))
}

/// Whether the keyed entries hold `pid`.
pub open spec fn entries_contain<I>(es: Seq<(IntId, I)>, pid: IntId) -> bool {
    exists|i: int| 0 <= i < es.len() && es[i].0 == pid
}

/// Removes and returns the entry keyed `pid`; the other entries keep their
/// order.
fn remove_entry<I>(entries: &mut Vec<(IntId, I)>, pid: IntId) -> (r: I)
    requires
        entries_contain(old(entries)@, pid),
    ensures
        exists|i: int|
            {
                &&& 0 <= i < old(entries)@.len()
                &&& old(entries)@[i].0 == pid
                &&& old(entries)@[i].1 == r
                &&& final(entries)@ == old(entries)@.remove(i)
            },
{
    let n = entries.len();
    let mut i: usize = 0;
    while i < n
        invariant
            i <= n,
            n == entries@.len(),
            entries@ == old(entries)@,
            forall|j: int| 0 <= j < i ==> entries@[j].0 != pid,
        decreases n - i,
    {
        if entries[i].0 == pid {
            let entry = entries.remove(i);
            return entry.1;
        }
        i = i + 1;
    }
    proof {
        assert(false);
    }
    entries.remove(0).1
}

impl<B: PluginBuilder> Controller<B> {
    /// Builds a realtime instance for `metadata.plugin_id` and records the
    /// metadata.
    ///
    /// Fails with `PluginInstanceAlreadyExists` when the id is taken and
    /// with `FailedToBuildPlugin` when the factory fails — always so for an
    /// unregistered plugin id. On success the metadata is appended and the
    /// built instance is stashed, unassigned, under the new id; every
    /// failure leaves the controller unchanged.
    pub fn create_plugin_instance(&mut self, metadata: PluginInstance) -> (r: Result<
        (),
        ControllerError,
    >)
        requires
            old(self).wf(),
        ensures
            final(self).wf(),
            has_instance_id(old(self).instances_spec(), metadata.id) ==> (r matches Err(
                ControllerError::PluginInstanceAlreadyExists(id, p),
            ) && id == metadata.id && p.id == metadata.id),
            !has_instance_id(old(self).instances_spec(), metadata.id) && !old(
                self,
            ).factory_spec().has_id(metadata.plugin_id@) ==> (r matches Err(
                ControllerError::FailedToBuildPlugin(PluginBuilderError::PluginDoesNotExist(s)),
            ) && s@ == metadata.plugin_id@),
            !has_instance_id(old(self).instances_spec(), metadata.id) ==> (r is Ok || r matches Err(
                ControllerError::FailedToBuildPlugin(_),
            )),
            r is Ok ==> {
                &&& !has_instance_id(old(self).instances_spec(), metadata.id)
                &&& final(self).instances_spec() == old(self).instances_spec().push(metadata)
                &&& exists|p: B::Instance|
                    final(self).unowned_spec() == old(self).unowned_spec().push((metadata.id, p))
            },
            r is Err ==> {
                &&& final(self).instances_spec() == old(self).instances_spec()
                &&& final(self).unowned_spec() == old(self).unowned_spec()
            },
            final(self).tracks_spec() == old(self).tracks_spec(),
            final(self).factory_spec() == old(self).factory_spec(),
            final(self).buffer_size_spec() == old(self).buffer_size_spec(),
            final(self).sent_spec() == old(self).sent_spec(),
    {
        match self.plugin_instance_by_id(metadata.id) {
            Some(p) => {
                let copy = p.duplicate();
                return Err(ControllerError::PluginInstanceAlreadyExists(copy.id, copy));
            },
            None => {},
        }
        let built = self.plugin_factory.build(metadata.plugin_id.as_str());
        match built {
            Err(e) => Err(ControllerError::FailedToBuildPlugin(e)),
            Ok(instance) => {
                let ghost pre = *self;
                self.unowned_plugin_instances.push((metadata.id, instance));
                self.plugin_instances.push(metadata);
                proof {
                    self.lemma_create_preserves_wf(pre, metadata, instance);
                }
                Ok(())
            },
        }
    }

    /// Pushing fresh plugin-instance metadata and its unassigned instance
    /// preserves the controller invariant.
    proof fn lemma_create_preserves_wf(
        &self,
        pre: Controller<B>,
        metadata: PluginInstance,
        instance: B::Instance,
    )
        requires
            pre.wf(),
            !has_instance_id(pre.instances_spec(), metadata.id),
            self.instances_spec() == pre.instances_spec().push(metadata),
            self.unowned_spec() == pre.unowned_spec().push((metadata.id, instance)),
            self.tracks_spec() == pre.tracks_spec(),
            self.factory_spec() == pre.factory_spec(),
            self.sent_spec() == pre.sent_spec(),
        ensures
            self.wf(),
    {
        let n_inst = pre.instances_spec().len();
        let n_un = pre.unowned_spec().len();
        // The new id is not among the old unassigned entries.
        assert forall|i: int| 0 <= i < n_un implies pre.unowned_spec()[i].0 != metadata.id by {
            if pre.unowned_spec()[i].0 == metadata.id {
                assert(has_instance_id(pre.instances_spec(), metadata.id));
            }
        }
        // No track references the new id.
        assert(!some_track_references(pre.tracks_spec(), metadata.id)) by {
            if some_track_references(pre.tracks_spec(), metadata.id) {
                let t = choose|t: int|
                    0 <= t < pre.tracks_spec().len()
                        && pre.tracks_spec()[t].plugin_instances@.contains(metadata.id);
                let k = choose|k: int|
                    0 <= k < pre.tracks_spec()[t].plugin_instances@.len()
                        && pre.tracks_spec()[t].plugin_instances@[k] == metadata.id;
                assert(has_instance_id(
                    pre.instances_spec(),
                    pre.tracks_spec()[t].plugin_instances@[k],
                ));
            }
        }
        // Membership in the unassigned map changes only for the new id.
        assert forall|pid: IntId| pid != metadata.id implies (self.unowned_contains(pid)
            <==> pre.unowned_contains(pid)) by {
            if pre.unowned_contains(pid) {
                let i = choose|i: int| 0 <= i < n_un && pre.unowned_spec()[i].0 == pid;
                assert(self.unowned_spec()[i].0 == pid);
            }
            if self.unowned_contains(pid) {
                let i = choose|i: int|
                    0 <= i < self.unowned_spec().len() && self.unowned_spec()[i].0 == pid;
                assert(0 <= i < n_un);
                assert(pre.unowned_spec()[i].0 == pid);
            }
        }
        // Membership in the metadata list changes only for the new id.
        assert forall|pid: IntId| pid != metadata.id implies (has_instance_id(
            self.instances_spec(),
            pid,
        ) <==> has_instance_id(pre.instances_spec(), pid)) by {
            if has_instance_id(pre.instances_spec(), pid) {
                let i = choose|i: int| 0 <= i < n_inst && pre.instances_spec()[i].id == pid;
                assert(self.instances_spec()[i].id == pid);
            }
            if has_instance_id(self.instances_spec(), pid) {
                let i = choose|i: int|
                    0 <= i < self.instances_spec().len() && self.instances_spec()[i].id == pid;
                assert(0 <= i < n_inst);
            }
        }
        assert(self.unowned_contains(metadata.id)) by {
            assert(self.unowned_spec()[n_un as int].0 == metadata.id);
        }
        assert forall|i: int|
            0 <= i < self.unowned_spec().len() implies has_instance_id(
            self.instances_spec(),
            (#[trigger] self.unowned_spec()[i]).0,
        ) by {
            if i < n_un {
                assert(pre.unowned_spec()[i].0 == self.unowned_spec()[i].0);
                assert(has_instance_id(pre.instances_spec(), pre.unowned_spec()[i].0));
            } else {
                assert(self.instances_spec()[n_inst as int].id == metadata.id);
            }
        }
        assert forall|t: int, k: int|
            0 <= t < self.tracks_spec().len() && 0 <= k
                < self.tracks_spec()[t].plugin_instances@.len() implies has_instance_id(
            self.instances_spec(),
            #[trigger] self.tracks_spec()[t].plugin_instances@[k],
        ) by {
            assert(has_instance_id(pre.instances_spec(), pre.tracks_spec()[t].plugin_instances@[k]));
        }
    }
}

/// Controller-side track ids are unique and controller-side plugin-instance
/// ids are unique. Every controller operation that returns `Ok` establishes
/// `wf` again, so this holds after any sequence of successful operations on
/// a fresh controller.
pub proof fn lemma_controller_ids_unique<B: PluginBuilder>(c: &Controller<B>)
    requires
        c.wf(),
    ensures
        forall|i: int, j: int|
            0 <= i < j < c.tracks_spec().len() ==> c.tracks_spec()[i].id != c.tracks_spec()[j].id,
        forall|i: int, j: int|
            0 <= i < j < c.instances_spec().len() ==> c.instances_spec()[i].id
                != c.instances_spec()[j].id,
{
}

/// Every plugin-instance id a controller-held track references resolves to
/// exactly one plugin-instance metadata entry, and appears in the
/// `plugin_instances` chain of at most one track, at most once.
pub proof fn lemma_track_references_resolve_uniquely<B: PluginBuilder>(c: &Controller<B>)
    requires
        c.wf(),
    ensures
        forall|t: int, k: int|
            0 <= t < c.tracks_spec().len() && 0 <= k
                < c.tracks_spec()[t].plugin_instances@.len() ==> has_instance_id(
                c.instances_spec(),
                #[trigger] c.tracks_spec()[t].plugin_instances@[k],
            ),
        forall|t: int, u: int, k: int, l: int|
            0 <= t < c.tracks_spec().len() && 0 <= u < c.tracks_spec().len() && 0 <= k
                < c.tracks_spec()[t].plugin_instances@.len() && 0 <= l
                < c.tracks_spec()[u].plugin_instances@.len() && (t != u || k != l)
                ==> #[trigger] c.tracks_spec()[t].plugin_instances@[k]
                != #[trigger] c.tracks_spec()[u].plugin_instances@[l],
{
}

/// Once the audio side has drained exactly the commands the controller has
/// sent, its track vector has the controller's length, and the track at
/// every index — the trailing one a successful `add_track` just filled
/// included — carries the chain length the controller assembled for the
/// controller-side track at the same index, at unit gain.
pub proof fn lemma_drained_audio_matches_controller<B: PluginBuilder>(
    c: &Controller<B>,
    p: &Processor<B::Instance>,
)
    requires
        c.wf(),
        p.wf(),
        p.applied_spec() == c.sent_spec(),
    ensures
        p.audio().tracks.len() == c.tracks_spec().len(),
        forall|i: int|
            0 <= i < c.tracks_spec().len() ==> (#[trigger] p.audio().tracks[i]).plugins.len()
                == c.tracks_spec()[i].plugin_instances@.len() && p.audio().tracks[i].volume
                == UNIT_GAIN_BITS,
{
    let shapes = shapes_of(p.audio().tracks);
    let audio = apply_command_shapes(Seq::empty(), c.sent_spec());
    assert(shapes == audio);
    assert forall|i: int|
        0 <= i < c.tracks_spec().len() implies (#[trigger] p.audio().tracks[i]).plugins.len()
        == c.tracks_spec()[i].plugin_instances@.len() && p.audio().tracks[i].volume
        == UNIT_GAIN_BITS by {
        assert(shapes[i] == audio[i]);
        assert(shapes[i].chain_len == p.audio().tracks[i].plugins.len());
        assert(shapes[i].volume == p.audio().tracks[i].volume);
    }
}

/// The audio-side half: the mixing graph plus the receiving end of the
/// command queue. Drains all available commands at the start of every
/// callback, then renders.
#[verifier::reject_recursive_types(P)]
pub struct Processor<P: crate::plugin::PluginInstance> {
    inner: processor::Processor<P>,
    commands: crossbeam::channel::Receiver<Command<P>>,
    // The commands drained so far, oldest first.
    applied: Ghost<Seq<CommandShape<P>>>,
}

impl<P: crate::plugin::PluginInstance> Processor<P> {
    /// The mixing graph's state.
    pub closed spec fn audio(&self) -> ProcessorView<P> {
        self.inner@
    }

    /// The history of command shapes drained so far.
    pub closed spec fn applied_spec(&self) -> Seq<CommandShape<P>> {
        self.applied@
    }

    /// The audio side's invariant: its track vector is exactly the replay
    /// of the commands it has drained.
    pub open spec fn wf(&self) -> bool {
        shapes_of(self.audio().tracks) == apply_command_shapes(Seq::empty(), self.applied_spec())
    }

    /// One audio callback: drains every currently available command in send
    /// order, then renders all tracks into the two output buffers.
    pub fn process(&mut self, midi: &[TimedMidi], out_left: &mut Vec<u32>, out_right: &mut Vec<
        u32,
    >)
        requires
            old(self).wf(),
            old(out_left)@.len() == old(out_right)@.len(),
        ensures
            final(self).wf(),
            old(self).applied_spec().is_prefix_of(final(self).applied_spec()),
            final(self).audio().volume == old(self).audio().volume,
            final(out_left)@.len() == old(out_left)@.len(),
            final(out_right)@.len() == old(out_right)@.len(),
            final(out_left)@ == mixdown_left(
                final(self).audio().tracks,
                old(self).audio().volume,
                old(out_left)@.len(),
            ),
            final(out_right)@ == mixdown_right(
                final(self).audio().tracks,
                old(self).audio().volume,
                old(out_right)@.len(),
            ),
    {
        self.handle_commands();
        let ghost mid = self.inner@;
        self.inner.process(midi, out_left, out_right);
        proof {
            assert(shapes_of(self.inner@.tracks) =~= shapes_of(mid.tracks));
        }
    }

    /// Applies every command currently in the queue, in send order.
    fn handle_commands(&mut self)
        requires
            old(self).wf(),
        ensures
            final(self).wf(),
            old(self).applied_spec().is_prefix_of(final(self).applied_spec()),
            final(self).audio().volume == old(self).audio().volume,
    {
        // The queue holds at most its bounded capacity, far below this
        // budget; the budget only bounds the loop for the termination
        // checker.
        let mut budget: usize = usize::MAX;
        while budget > 0
            invariant
                self.wf(),
                old(self).applied_spec().is_prefix_of(self.applied_spec()),
                self.audio().volume == old(self).audio().volume,
            decreases budget,
        {
            match try_recv_command(&self.commands) {
                None => {
                    return ;
                },
                Some(c) => {
                    self.apply_command(c);
                },
            }
            budget = budget - 1;
        }
    }

    /// Applies one drained command to the mixing graph: an add appends the
    /// carried track; a delete removes the track at its index, or does
    /// nothing for an index out of range (the controller never sends one).
    fn apply_command(&mut self, c: Command<P>)
        requires
            old(self).wf(),
        ensures
            final(self).wf(),
            final(self).applied_spec() == old(self).applied_spec().push(command_shape(c)),
            final(self).audio().volume == old(self).audio().volume,
    {
        proof {
            lemma_apply_shapes_push(Seq::empty(), self.applied@, command_shape(c));
        }
        match c {
            Command::AddTrack(t) => {
                let ghost shape = command_shape(Command::<P>::AddTrack(t));
                proof {
                    self.applied@ = self.applied@.push(shape);
                }
                self.inner.add_track(t);
                proof {
                    assert(shapes_of(self.inner@.tracks) =~= apply_command_shapes(
                        Seq::empty(),
                        self.applied@,
                    ));
                }
            },
            Command::DeleteTrack(index) => {
                let ghost shape = command_shape(Command::<P>::DeleteTrack(index));
                proof {
                    self.applied@ = self.applied@.push(shape);
                }
                if index < self.inner.track_count() {
                    self.inner.remove_track(index);
                }
                proof {
                    assert(shapes_of(self.inner@.tracks) =~= apply_command_shapes(
                        Seq::empty(),
                        self.applied@,
                    ));
                }
            },
        }
    }
}

} // verus!

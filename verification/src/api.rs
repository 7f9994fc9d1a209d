//! The decision core of the REST control surface.
//!
//! Each route's behavior — which entity it reads or writes, when it answers
//! 404 or 501, and what body it echoes — is a plain function from controller
//! state and request values to a result. The embedding HTTP server only
//! extracts request values and serializes these results.
use crate::command_queue::{CommandShape, TrackShape};
use crate::controller::{
    clean_prefix, has_instance_id, has_track_id, stashed_chain, Controller, ControllerError,
    IntId, PluginInstance, Track,
};
use crate::plugin_factory::{PluginBuilder, PluginMetadata};
use crate::sample::UNIT_GAIN_BITS;
use vstd::prelude::*;

verus! {

/// Why a request failed; `status_of` gives the HTTP status it is answered
/// with.
#[derive(Clone, Debug)]
pub enum Error {
    GenericController(ControllerError),
    TrackNotFound(IntId),
    PluginInstanceNotFound(IntId),
    PluginInstanceUpdateNotImplemented,
    UpdatingTrackNotImplemented,
}

/// The HTTP status of each failure: a missing entity is 404, an
/// unimplemented update or move 501, anything else 500.
pub open spec fn status_of(e: Error) -> u16 {
    match e {
        Error::TrackNotFound(_) => 404,
        Error::PluginInstanceNotFound(_) => 404,
        Error::PluginInstanceUpdateNotImplemented => 501,
        Error::UpdatingTrackNotImplemented => 501,
        Error::GenericController(inner) => match inner {
            ControllerError::TrackDoesNotExist(_) => 404,
            ControllerError::MovingPluginInstancesBetweenTracksNotImplemented { .. } => 501,
            _ => 500,
        },
    }
}

impl Error {
    /// The HTTP status this failure is answered with.
    pub fn status_code(&self) -> (r: u16)
        ensures
            r == status_of(*self),
    {
        match self {
            Error::TrackNotFound(_) => 404,
            Error::PluginInstanceNotFound(_) => 404,
            Error::PluginInstanceUpdateNotImplemented => 501,
            Error::UpdatingTrackNotImplemented => 501,
            Error::GenericController(inner) => match inner {
                ControllerError::TrackDoesNotExist(_) => 404,
                ControllerError::MovingPluginInstancesBetweenTracksNotImplemented { .. } => 501,
                _ => 500,
            },
        }
    }
}

/// `GET /plugins`: the metadata of every registered plugin, in registration
/// order.
pub fn get_plugins<B: PluginBuilder>(controller: &Controller<B>) -> (r: Vec<PluginMetadata>)
    ensures
        r@.len() == controller.factory_spec().entries().len(),
        forall|i: int|
            0 <= i < r@.len() ==> (#[trigger] r@[i]).id@
                == controller.factory_spec().entries()[i].0.id@ && r@[i].display_name@
                == controller.factory_spec().entries()[i].0.display_name@,
{
    controller.plugin_factory().metadata()
}

/// `GET /tracks`: every track's metadata, in creation order.
pub fn get_tracks<B: PluginBuilder>(controller: &Controller<B>) -> (r: Vec<Track>)
    ensures
        r@.len() == controller.tracks_spec().len(),
        forall|i: int|
            0 <= i < r@.len() ==> {
                &&& (#[trigger] r@[i]).id == controller.tracks_spec()[i].id
                &&& r@[i].name@ == controller.tracks_spec()[i].name@
                &&& r@[i].volume == controller.tracks_spec()[i].volume
                &&& r@[i].plugin_instances@ == controller.tracks_spec()[i].plugin_instances@
            },
{
    let tracks = controller.tracks();
    let n = tracks.len();
    let mut r: Vec<Track> = Vec::new();
    let mut i: usize = 0;
    while i < n
        invariant
            i <= n,
            n == controller.tracks_spec().len(),
            tracks@ == controller.tracks_spec(),
            r@.len() == i,
            forall|j: int|
                0 <= j < i ==> {
                    &&& (#[trigger] r@[j]).id == controller.tracks_spec()[j].id
                    &&& r@[j].name@ == controller.tracks_spec()[j].name@
                    &&& r@[j].volume == controller.tracks_spec()[j].volume
                    &&& r@[j].plugin_instances@ == controller.tracks_spec()[j].plugin_instances@
                },
        decreases n - i,
    {
        r.push(tracks[i].duplicate());
        i = i + 1;
    }
    r
}

/// `GET /tracks/{id}`: the track's metadata, or 404 for an unknown id.
pub fn get_track<B: PluginBuilder>(controller: &Controller<B>, track_id: IntId) -> (r: Result<
    Track,
    Error,
>)
    ensures
        r is Ok <==> has_track_id(controller.tracks_spec(), track_id),
        r matches Ok(t) ==> t.id == track_id && exists|i: int|
            {
                &&& 0 <= i < controller.tracks_spec().len()
                &&& (#[trigger] controller.tracks_spec()[i]).id == track_id
                &&& t.name@ == controller.tracks_spec()[i].name@
                &&& t.volume == controller.tracks_spec()[i].volume
                &&& t.plugin_instances@ == controller.tracks_spec()[i].plugin_instances@
            },
        r matches Err(e) ==> e == Error::TrackNotFound(track_id),
{
    match controller.track_by_id(track_id) {
        Some(t) => {
            let ghost tracks = controller.tracks_spec();
            let copy = t.duplicate();
            proof {
                let i = choose|i: int| 0 <= i < tracks.len() && tracks[i] == *t;
                assert(tracks[i].id == track_id);
            }
            Ok(copy)
        },
        None => Err(Error::TrackNotFound(track_id)),
    }
}

/// `PUT /tracks/{id}`: adds the track carried in the body, stored under the
/// path's id; answers 501 when a track with that id already exists, and
/// echoes the stored track on success. Controller-side rejections are
/// passed through as `GenericController` failures, the controller
/// unchanged.
pub fn put_track<B: PluginBuilder>(
    controller: &mut Controller<B>,
    track_id: IntId,
    track: Track,
) -> (r: Result<Track, Error>)
    requires
        old(controller).wf(),
        forall|a: int, b: int|
            0 <= a < b < track.plugin_instances@.len() ==> track.plugin_instances@[a]
                != track.plugin_instances@[b],
    ensures
        final(controller).wf(),
        has_track_id(old(controller).tracks_spec(), track_id) ==> r == Result::<Track, Error>::Err(
            Error::UpdatingTrackNotImplemented,
        ) && final(controller).tracks_spec() == old(controller).tracks_spec(),
        r is Ok <==> {
            &&& !has_track_id(old(controller).tracks_spec(), track_id)
            &&& old(controller).buffer_size_spec() != 0
            &&& clean_prefix(
                old(controller).tracks_spec(),
                old(controller).instances_spec(),
                track.plugin_instances@,
                track.plugin_instances@.len() as int,
            )
        },
        r is Ok ==> exists|stored: Track|
            {
                &&& stored.id == track_id
                &&& stored.name@ == track.name@
                &&& stored.volume == track.volume
                &&& stored.plugin_instances@ == track.plugin_instances@
                &&& final(controller).tracks_spec() == old(controller).tracks_spec().push(stored)
            },
        r is Ok ==> final(controller).sent_spec() == old(controller).sent_spec().push(
            CommandShape::AddTrack(
                TrackShape {
                    volume: UNIT_GAIN_BITS,
                    buffer_size: old(controller).buffer_size_spec() as nat,
                    chain_len: track.plugin_instances@.len() as nat,
                },
                stashed_chain(old(controller).unowned_spec(), track.plugin_instances@),
            ),
        ),
        r is Ok ==> (forall|pid: IntId|
            final(controller).unowned_contains(pid) <==> old(controller).unowned_contains(pid)
                && !track.plugin_instances@.contains(pid)) && final(controller).unowned_spec().len()
            + track.plugin_instances@.len() == old(controller).unowned_spec().len(),
        r matches Ok(echoed) ==> echoed.id == track_id && echoed.name@ == track.name@
            && echoed.volume == track.volume && echoed.plugin_instances@
            == track.plugin_instances@,
        r is Err ==> final(controller).tracks_spec() == old(controller).tracks_spec()
            && final(controller).sent_spec() == old(controller).sent_spec()
            && final(controller).unowned_spec() == old(controller).unowned_spec(),
        !has_track_id(old(controller).tracks_spec(), track_id) ==> (r matches Err(e) ==> e matches Error::GenericController(_)),
        final(controller).instances_spec() == old(controller).instances_spec(),
        final(controller).factory_spec() == old(controller).factory_spec(),
        final(controller).buffer_size_spec() == old(controller).buffer_size_spec(),
{
    if controller.track_by_id(track_id).is_some() {
        return Err(Error::UpdatingTrackNotImplemented);
    }
    let mut stored = track;
    stored.id = track_id;
    let echoed = stored.duplicate();
    match controller.add_track(stored) {
        Ok(()) => Ok(echoed),
        Err(e) => Err(Error::GenericController(e)),
    }
}

/// `DELETE /tracks/{id}`: deletes the track, or 404 for an unknown id.
pub fn delete_track<B: PluginBuilder>(controller: &mut Controller<B>, track_id: IntId) -> (r:
    Result<(), Error>)
    requires
        old(controller).wf(),
    ensures
        final(controller).wf(),
        r is Ok <==> has_track_id(old(controller).tracks_spec(), track_id),
        r matches Err(e) ==> e == Error::TrackNotFound(track_id) && final(controller).tracks_spec()
            == old(controller).tracks_spec() && final(controller).instances_spec() == old(
            controller,
        ).instances_spec() && final(controller).sent_spec() == old(controller).sent_spec(),
        r is Ok ==> exists|i: int|
            {
                &&& 0 <= i < old(controller).tracks_spec().len()
                &&& (#[trigger] old(controller).tracks_spec()[i]).id == track_id
                &&& final(controller).tracks_spec() == old(controller).tracks_spec().remove(i)
                &&& final(controller).sent_spec() == old(controller).sent_spec().push(
                    CommandShape::DeleteTrack(i),
                )
                &&& forall|pid: IntId|
                    has_instance_id(final(controller).instances_spec(), pid) <==> has_instance_id(
                        old(controller).instances_spec(),
                        pid,
                    ) && !old(controller).tracks_spec()[i].plugin_instances@.contains(pid)
            },
        final(controller).unowned_spec() == old(controller).unowned_spec(),
        final(controller).factory_spec() == old(controller).factory_spec(),
        final(controller).buffer_size_spec() == old(controller).buffer_size_spec(),
{
    if controller.track_by_id(track_id).is_none() {
        return Err(Error::TrackNotFound(track_id));
    }
    match controller.delete_track(track_id) {
        Ok(()) => Ok(()),
        Err(e) => Err(Error::GenericController(e)),
    }
}

/// `GET /plugin_instances`: every plugin instance's metadata, in creation
/// order.
pub fn get_plugin_instances<B: PluginBuilder>(controller: &Controller<B>) -> (r: Vec<
    PluginInstance,
>)
    ensures
        r@.len() == controller.instances_spec().len(),
        forall|i: int|
            0 <= i < r@.len() ==> (#[trigger] r@[i]).id == controller.instances_spec()[i].id
                && r@[i].plugin_id@ == controller.instances_spec()[i].plugin_id@,
{
    let instances = controller.plugin_instances();
    let n = instances.len();
    let mut r: Vec<PluginInstance> = Vec::new();
    let mut i: usize = 0;
    while i < n
        invariant
            i <= n,
            n == controller.instances_spec().len(),
            instances@ == controller.instances_spec(),
            r@.len() == i,
            forall|j: int|
                0 <= j < i ==> (#[trigger] r@[j]).id == controller.instances_spec()[j].id
                    && r@[j].plugin_id@ == controller.instances_spec()[j].plugin_id@,
        decreases n - i,
    {
        r.push(instances[i].duplicate());
        i = i + 1;
    }
    r
}

/// `GET /plugin_instances/{id}`: the plugin instance's metadata, or 404 for
/// an unknown id.
pub fn get_plugin_instance<B: PluginBuilder>(
    controller: &Controller<B>,
    plugin_instance_id: IntId,
) -> (r: Result<PluginInstance, Error>)
    ensures
        r is Ok <==> has_instance_id(controller.instances_spec(), plugin_instance_id),
        r matches Ok(p) ==> p.id == plugin_instance_id && exists|i: int|
            {
                &&& 0 <= i < controller.instances_spec().len()
                &&& (#[trigger] controller.instances_spec()[i]).id == plugin_instance_id
                &&& p.plugin_id@ == controller.instances_spec()[i].plugin_id@
            },
        r matches Err(e) ==> e == Error::PluginInstanceNotFound(plugin_instance_id),
{
    match controller.plugin_instance_by_id(plugin_instance_id) {
        Some(p) => {
            let ghost instances = controller.instances_spec();
            let copy = p.duplicate();
            proof {
                let i = choose|i: int| 0 <= i < instances.len() && instances[i] == *p;
                assert(instances[i].id == plugin_instance_id);
            }
            Ok(copy)
        },
        None => Err(Error::PluginInstanceNotFound(plugin_instance_id)),
    }
}

/// `PUT /plugin_instances/{id}`: creates the plugin instance described by
/// the body, its id set from the path; answers 501 when the id already
/// exists, and echoes the stored metadata on success. A factory failure is
/// passed through as a `GenericController` failure, the controller
/// unchanged.
pub fn put_plugin_instance<B: PluginBuilder>(
    controller: &mut Controller<B>,
    plugin_instance_id: IntId,
    plugin_instance: PluginInstance,
) -> (r: Result<PluginInstance, Error>)
    requires
        old(controller).wf(),
    ensures
        final(controller).wf(),
        has_instance_id(old(controller).instances_spec(), plugin_instance_id) ==> r == Result::<
            PluginInstance,
            Error,
        >::Err(Error::PluginInstanceUpdateNotImplemented) && final(controller).instances_spec()
            == old(controller).instances_spec(),
        r matches Ok(p) ==> p.id == plugin_instance_id && p.plugin_id@
            == plugin_instance.plugin_id@,
        r is Ok ==> {
            &&& !has_instance_id(old(controller).instances_spec(), plugin_instance_id)
            &&& exists|m: PluginInstance|
                {
                    &&& m.id == plugin_instance_id
                    &&& m.plugin_id@ == plugin_instance.plugin_id@
                    &&& final(controller).instances_spec() == old(
                        controller,
                    ).instances_spec().push(m)
                }
        },
        r is Err ==> final(controller).instances_spec() == old(controller).instances_spec()
            && final(controller).unowned_spec() == old(controller).unowned_spec(),
        r is Ok ==> exists|p: B::Instance|
            final(controller).unowned_spec() == old(controller).unowned_spec().push(
                (plugin_instance_id, p),
            ),
        !has_instance_id(old(controller).instances_spec(), plugin_instance_id) ==> (r is Ok || (
        r matches Err(Error::GenericController(ControllerError::FailedToBuildPlugin(_))))),
        !has_instance_id(old(controller).instances_spec(), plugin_instance_id) && !old(
            controller,
        ).factory_spec().has_id(plugin_instance.plugin_id@) ==> (r matches Err(
            Error::GenericController(ControllerError::FailedToBuildPlugin(_)),
        )),
        final(controller).tracks_spec() == old(controller).tracks_spec(),
        final(controller).factory_spec() == old(controller).factory_spec(),
        final(controller).buffer_size_spec() == old(controller).buffer_size_spec(),
        final(controller).sent_spec() == old(controller).sent_spec(),
{
    let mut stored = plugin_instance;
    stored.id = plugin_instance_id;
    if controller.plugin_instance_by_id(plugin_instance_id).is_some() {
        return Err(Error::PluginInstanceUpdateNotImplemented);
    }
    let echoed = stored.duplicate();
    match controller.create_plugin_instance(stored) {
        Ok(()) => Ok(echoed),
        Err(e) => Err(Error::GenericController(e)),
    }
}

} // verus!

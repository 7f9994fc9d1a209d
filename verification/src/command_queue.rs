//! Commands from the controller to the audio thread, and the queue that
//! carries them.
//!
//! The queue is a bounded single-producer single-consumer channel. Commands
//! carry ownership of fully built audio tracks; once sent, the controller no
//! longer references them. The consumer drains all available commands at the
//! start of each audio callback, in send order.
use crate::plugin::PluginInstance;
use crate::processor::{Track, TrackView};
use vstd::prelude::*;

verus! {

/// An ownership-transferring instruction for the audio thread.
pub(crate) enum Command<P: PluginInstance> {
    /// Append this fully built track to the audio-side track vector.
    AddTrack(Track<P>),
    /// Remove the audio-side track at this index.
    DeleteTrack(usize),
}

/// The part of a track the command history tracks: gain, scratch length,
/// and chain length.
pub ghost struct TrackShape {
    pub volume: u32,
    pub buffer_size: nat,
    pub chain_len: nat,
}

/// The shape of one track view.
pub open spec fn shape_of<P>(t: TrackView<P>) -> TrackShape {
    TrackShape {
        volume: t.volume,
        buffer_size: t.out_left.len(),
        chain_len: t.plugins.len(),
    }
}

/// The shapes of a track vector, element-wise.
pub open spec fn shapes_of<P>(tracks: Seq<TrackView<P>>) -> Seq<TrackShape> {
    Seq::new(tracks.len(), |i: int| shape_of(tracks[i]))
}

/// The mathematical image of a command: an added track's shape together
/// with the realtime plugin instances it carries, in chain order, or the
/// index of a deleted track.
pub ghost enum CommandShape<P> {
    AddTrack(TrackShape, Seq<P>),
    DeleteTrack(int),
}

/// The shape of one command.
pub(crate) open spec fn command_shape<P: PluginInstance>(c: Command<P>) -> CommandShape<P> {
    match c {
        Command::AddTrack(t) => CommandShape::AddTrack(shape_of(t@), t@.plugins),
        Command::DeleteTrack(i) => CommandShape::DeleteTrack(i as int),
    }
}

/// Track shapes after one command: an add appends; a delete removes the
/// track at its index when that index is in range and changes nothing
/// otherwise.
pub open spec fn apply_command_shape<P>(ts: Seq<TrackShape>, c: CommandShape<P>) -> Seq<
    TrackShape,
> {
    match c {
        CommandShape::AddTrack(t, _chain) => ts.push(t),
        CommandShape::DeleteTrack(i) => if 0 <= i < ts.len() {
            ts.remove(i)
        } else {
            ts
        },
    }
}

/// Track shapes after applying a whole command history, oldest first.
pub open spec fn apply_command_shapes<P>(ts: Seq<TrackShape>, cmds: Seq<CommandShape<P>>) -> Seq<
    TrackShape,
>
    decreases cmds.len(),
{
    if cmds.len() == 0 {
        ts
    } else {
        apply_command_shapes(apply_command_shape(ts, cmds[0]), cmds.drop_first())
    }
}

/// Extending a command history by one command applies the history first,
/// then the new command.
pub proof fn lemma_apply_shapes_push<P>(
    ts: Seq<TrackShape>,
    cmds: Seq<CommandShape<P>>,
    c: CommandShape<P>,
)
    ensures
        apply_command_shapes(ts, cmds.push(c)) == apply_command_shape(
            apply_command_shapes(ts, cmds),
            c,
        ),
    decreases cmds.len(),
{
    let extended = cmds.push(c);
    if cmds.len() == 0 {
        assert(extended[0] == c);
        assert(extended.drop_first() =~= Seq::<CommandShape<P>>::empty());
        assert(apply_command_shapes(ts, extended) == apply_command_shapes(
            apply_command_shape(ts, c),
            extended.drop_first(),
        ));
        assert(apply_command_shapes(ts, cmds) == ts);
    } else {
        assert(extended[0] == cmds[0]);
        assert(extended.drop_first() =~= cmds.drop_first().push(c));
        assert(apply_command_shapes(ts, extended) == apply_command_shapes(
            apply_command_shape(ts, cmds[0]),
            extended.drop_first(),
        ));
        lemma_apply_shapes_push(apply_command_shape(ts, cmds[0]), cmds.drop_first(), c);
        assert(apply_command_shapes(ts, cmds) == apply_command_shapes(
            apply_command_shape(ts, cmds[0]),
            cmds.drop_first(),
        ));
    }
}

#[verifier::external_type_specification]
#[verifier::external_body]
#[verifier::reject_recursive_types(T)]
pub struct ExSender<T>(crossbeam::channel::Sender<T>);

#[verifier::external_type_specification]
#[verifier::external_body]
#[verifier::reject_recursive_types(T)]
pub struct ExReceiver<T>(crossbeam::channel::Receiver<T>);

/// Relies on `crossbeam_channel::bounded`: a connected queue of at most
/// `capacity` queued commands, empty at creation, wait-free while neither
/// full nor empty.
#[verifier::external_body]
pub(crate) fn command_channel<P: PluginInstance>(capacity: usize) -> (r: (
    crossbeam::channel::Sender<Command<P>>,
    crossbeam::channel::Receiver<Command<P>>,
)) {
    crossbeam::channel::bounded(capacity)
}

/// Relies on `crossbeam_channel::Sender::send`: queues the command for the
/// single consumer; commands are received in send order. Blocks while the
/// queue is full and panics only when the receiving side is gone; both are
/// treated as fatal host errors, since the audio thread is expected to
/// drain continuously.
#[verifier::external_body]
pub(crate) fn send_command<P: PluginInstance>(
    sender: &crossbeam::channel::Sender<Command<P>>,
    command: Command<P>,
) {
    sender.send(command).unwrap();
}

/// Relies on `crossbeam_channel::Receiver::try_recv`: takes the oldest
/// queued command without blocking, or yields nothing when the queue is
/// empty or the sending side is gone. What came back is not modeled here:
/// the caller states what holds of its state for every drained sequence.
#[verifier::external_body]
pub(crate) fn try_recv_command<P: PluginInstance>(
    receiver: &crossbeam::channel::Receiver<Command<P>>,
) -> (r: Option<Command<P>>) {
    receiver.try_recv().ok()
}

} // verus!

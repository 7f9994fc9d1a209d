//! The realtime mixing core: tracks, plugin chains, and the stereo master bus.
//!
//! Buffers hold samples as IEEE 754 binary32 bit patterns (see
//! [`crate::sample`]). Per buffer the processor zeroes both outputs, drives
//! every track's plugin chain into the track's pre-allocated scratch buffers,
//! and accumulates each track's scratch into the outputs with gain
//! `track volume · master volume`, in track order.
use crate::midi::TimedMidi;
use crate::plugin::{zero_buffer, PluginInstance};
use crate::sample::{add_samples, mul_samples, sample_add, sample_mul, SILENCE_BITS, UNIT_GAIN_BITS};
use vstd::prelude::*;

verus! {

/// The mathematical image of a [`Track`]: gain, plugin chain, scratch buffers.
pub ghost struct TrackView<P> {
    pub volume: u32,
    pub plugins: Seq<P>,
    pub out_left: Seq<u32>,
    pub out_right: Seq<u32>,
}

/// The mathematical image of a [`Processor`].
pub ghost struct ProcessorView<P> {
    pub tracks: Seq<TrackView<P>>,
    pub volume: u32,
}

/// An all-silent buffer of `n` frames.
pub open spec fn silence(n: nat) -> Seq<u32> {
    Seq::new(n, |i: int| SILENCE_BITS)
}

/// `dst` with `src · gain` accumulated element-wise onto its prefix of
/// length `min(|dst|, |src|)`; the rest of `dst` is untouched.
pub open spec fn mix_seq(dst: Seq<u32>, src: Seq<u32>, gain: u32) -> Seq<u32> {
    Seq::new(
        dst.len(),
        |i: int|
            if i < src.len() {
                sample_add(dst[i], sample_mul(src[i], gain))
            } else {
                dst[i]
            },
    )
}

/// The left master bus: every track's left scratch mixed, in track order,
/// with gain `track volume · master`, onto an `n`-frame silent buffer.
pub open spec fn mixdown_left<P>(tracks: Seq<TrackView<P>>, master: u32, n: nat) -> Seq<u32>
    decreases tracks.len(),
{
    if tracks.len() == 0 {
        silence(n)
    } else {
        mix_seq(
            mixdown_left(tracks.drop_last(), master, n),
            tracks.last().out_left,
            sample_mul(tracks.last().volume, master),
        )
    }
}

/// The right master bus, as [`mixdown_left`].
pub open spec fn mixdown_right<P>(tracks: Seq<TrackView<P>>, master: u32, n: nat) -> Seq<u32>
    decreases tracks.len(),
{
    if tracks.len() == 0 {
        silence(n)
    } else {
        mix_seq(
            mixdown_right(tracks.drop_last(), master, n),
            tracks.last().out_right,
            sample_mul(tracks.last().volume, master),
        )
    }
}

/// A processor with no tracks writes silence: the mixdown of an empty track
/// vector, over any master gain and any buffer length, is the all-zero
/// buffer — so `process` on an empty processor leaves both outputs all
/// zero, whatever they held before.
pub proof fn lemma_empty_mixdown_is_silence<P>(master: u32, n: nat)
    ensures
        mixdown_left(Seq::<TrackView<P>>::empty(), master, n) == silence(n),
        mixdown_right(Seq::<TrackView<P>>::empty(), master, n) == silence(n),
{
}

/// The mixer touches only the prefix both buffers share: the mix keeps the
/// destination's length, accumulates `src[i] · gain` onto `dst[i]` for
/// `i < min(|dst|, |src|)`, and returns every later element of `dst`
/// unchanged.
pub proof fn lemma_mix_seq_prefix_only(dst: Seq<u32>, src: Seq<u32>, gain: u32)
    ensures
        mix_seq(dst, src, gain).len() == dst.len(),
        forall|i: int|
            0 <= i < dst.len() && i < src.len() ==> mix_seq(dst, src, gain)[i] == sample_add(
                dst[i],
                sample_mul(src[i], gain),
            ),
        forall|i: int| src.len() <= i < dst.len() ==> mix_seq(dst, src, gain)[i] == dst[i],
{
}

/// The views of a sequence of tracks, element-wise.
pub open spec fn track_views<P: PluginInstance>(tracks: Seq<Track<P>>) -> Seq<TrackView<P>> {
    Seq::new(tracks.len(), |i: int| tracks[i]@)
}

/// An ordered chain of plugin instances, a gain, and two pre-allocated
/// scratch buffers the chain renders into.
pub struct Track<P: PluginInstance> {
    plugins: Vec<P>,
    volume: u32,
    out_left: Vec<u32>,
    out_right: Vec<u32>,
}

impl<P: PluginInstance> View for Track<P> {
    type V = TrackView<P>;

    closed spec fn view(&self) -> TrackView<P> {
        TrackView {
            volume: self.volume,
            plugins: self.plugins@,
            out_left: self.out_left@,
            out_right: self.out_right@,
        }
    }
}

impl<P: PluginInstance> Track<P> {
    /// A track with no plugins and all-silent scratch buffers of
    /// `buffer_size` frames; `volume` is a binary32 bit pattern.
    pub fn new(buffer_size: usize, volume: u32) -> (t: Track<P>)
        ensures
            t@.volume == volume,
            t@.plugins == Seq::<P>::empty(),
            t@.out_left == silence(buffer_size as nat),
            t@.out_right == silence(buffer_size as nat),
    {
        Track {
            // Pre-allocated so that growing a chain does not reallocate on
            // the first additions.
            plugins: Vec::with_capacity(128),
            volume,
            out_left: zeroed(buffer_size),
            out_right: zeroed(buffer_size),
        }
    }

    /// Appends a plugin to the end of the chain.
    pub fn add_plugin(&mut self, plugin: P)
        ensures
            final(self)@.plugins == old(self)@.plugins.push(plugin),
            final(self)@.volume == old(self)@.volume,
            final(self)@.out_left == old(self)@.out_left,
            final(self)@.out_right == old(self)@.out_right,
    {
        self.plugins.push(plugin)
    }

    /// Replaces the track gain; `volume` is a binary32 bit pattern.
    pub fn set_volume(&mut self, volume: u32)
        ensures
            final(self)@.volume == volume,
            final(self)@.plugins == old(self)@.plugins,
            final(self)@.out_left == old(self)@.out_left,
            final(self)@.out_right == old(self)@.out_right,
    {
        self.volume = volume;
    }

    /// Drives each plugin of the chain, in order, over the scratch buffers;
    /// a later plugin sees and overwrites the output of an earlier one.
    pub(crate) fn process(&mut self, midi: &[TimedMidi])
        ensures
            final(self)@.volume == old(self)@.volume,
            final(self)@.plugins.len() == old(self)@.plugins.len(),
            final(self)@.out_left.len() == old(self)@.out_left.len(),
            final(self)@.out_right.len() == old(self)@.out_right.len(),
    {
        let n = self.plugins.len();
        let mut i: usize = 0;
        while i < n
            invariant
                i <= n,
                n == self.plugins@.len(),
                self.plugins@.len() == old(self).plugins@.len(),
                self.volume == old(self).volume,
                self.out_left@.len() == old(self).out_left@.len(),
                self.out_right@.len() == old(self).out_right@.len(),
            decreases n - i,
        {
            let plugin = &mut self.plugins[i];
            plugin.process(midi, &mut self.out_left, &mut self.out_right);
            i = i + 1;
        }
    }
}

/// The realtime mixing graph: an ordered track vector and a master gain.
pub struct Processor<P: PluginInstance> {
    tracks: Vec<Track<P>>,
    volume: u32,
}

impl<P: PluginInstance> View for Processor<P> {
    type V = ProcessorView<P>;

    closed spec fn view(&self) -> ProcessorView<P> {
        ProcessorView { tracks: track_views(self.tracks@), volume: self.volume }
    }
}

impl<P: PluginInstance> Processor<P> {
    /// A processor with no tracks and unit master gain.
    pub fn new() -> (p: Processor<P>)
        ensures
            p@.tracks == Seq::<TrackView<P>>::empty(),
            p@.volume == UNIT_GAIN_BITS,
    {
        // Track capacity is pre-allocated at construction to bound
        // allocation behavior on the audio thread.
        let p = Processor { tracks: Vec::with_capacity(1024), volume: UNIT_GAIN_BITS };
        proof {
            assert(p@.tracks =~= Seq::<TrackView<P>>::empty());
        }
        p
    }

    /// One audio callback: zeroes both outputs, renders every track, and
    /// mixes each track's scratch into the outputs with gain
    /// `track volume · master volume`, in track order.
    pub fn process(&mut self, midi: &[TimedMidi], out_left: &mut Vec<u32>, out_right: &mut Vec<u32>)
        requires
            old(out_left)@.len() == old(out_right)@.len(),
        ensures
            final(self)@.volume == old(self)@.volume,
            final(self)@.tracks.len() == old(self)@.tracks.len(),
            forall|k: int|
                0 <= k < old(self)@.tracks.len() ==> {
                    &&& (#[trigger] final(self)@.tracks[k]).volume == old(self)@.tracks[k].volume
                    &&& final(self)@.tracks[k].plugins.len() == old(self)@.tracks[k].plugins.len()
                    &&& final(self)@.tracks[k].out_left.len() == old(
                        self,
                    )@.tracks[k].out_left.len()
                    &&& final(self)@.tracks[k].out_right.len() == old(
                        self,
                    )@.tracks[k].out_right.len()
                },
            final(out_left)@.len() == old(out_left)@.len(),
            final(out_right)@.len() == old(out_right)@.len(),
            final(out_left)@ == mixdown_left(
                final(self)@.tracks,
                old(self)@.volume,
                old(out_left)@.len(),
            ),
            final(out_right)@ == mixdown_right(
                final(self)@.tracks,
                old(self)@.volume,
                old(out_right)@.len(),
            ),
    {
        zero_buffer(out_left);
        zero_buffer(out_right);

        let ghost buf_len = old(out_left)@.len();
        let master_volume = self.volume;
        let n = self.tracks.len();
        let mut i: usize = 0;
        while i < n
            invariant
                i <= n,
                n == self.tracks@.len(),
                self.tracks@.len() == old(self).tracks@.len(),
                self.volume == old(self).volume,
                master_volume == self.volume,
                out_left@.len() == buf_len,
                out_right@.len() == buf_len,
                forall|k: int| i <= k < n ==> self.tracks@[k] == old(self).tracks@[k],
                forall|k: int|
                    0 <= k < i ==> {
                        &&& (#[trigger] self.tracks@[k]@).volume == old(self).tracks@[k]@.volume
                        &&& self.tracks@[k]@.plugins.len() == old(self).tracks@[k]@.plugins.len()
                        &&& self.tracks@[k]@.out_left.len() == old(
                            self,
                        ).tracks@[k]@.out_left.len()
                        &&& self.tracks@[k]@.out_right.len() == old(
                            self,
                        ).tracks@[k]@.out_right.len()
                    },
                out_left@ == mixdown_left(
                    track_views(self.tracks@).take(i as int),
                    master_volume,
                    buf_len,
                ),
                out_right@ == mixdown_right(
                    track_views(self.tracks@).take(i as int),
                    master_volume,
                    buf_len,
                ),
            decreases n - i,
        {
            let ghost tracks_before = self.tracks@;
            let track = &mut self.tracks[i];
            track.process(midi);
            let gain = mul_samples(track.volume_bits(), master_volume);
            mix_into(out_left, track.scratch_left(), gain);
            mix_into(out_right, track.scratch_right(), gain);
            i = i + 1;
            proof {
                let views = track_views(self.tracks@);
                assert(views.take(i as int).drop_last() =~= views.take(i - 1));
                assert(views.take(i as int).last() == self.tracks@[i - 1]@);
                assert(track_views(tracks_before).take(i - 1) =~= views.take(i - 1));
            }
        }
        proof {
            assert(track_views(self.tracks@).take(n as int) =~= track_views(self.tracks@));
        }
    }

    /// The number of tracks in the mixing graph.
    pub fn track_count(&self) -> (r: usize)
        ensures
            r == self@.tracks.len(),
    {
        self.tracks.len()
    }

    /// The track vector itself, for in-place adjustment of single tracks.
    pub fn tracks_mut(&mut self) -> (r: &mut Vec<Track<P>>)
        ensures
            track_views((*r)@) == old(self)@.tracks,
            final(self)@.tracks == track_views((*final(r))@),
            final(self)@.volume == old(self)@.volume,
    {
        &mut self.tracks
    }

    /// Appends a track; it is mixed after all existing tracks.
    pub fn add_track(&mut self, track: Track<P>)
        ensures
            final(self)@.tracks == old(self)@.tracks.push(track@),
            final(self)@.volume == old(self)@.volume,
    {
        self.tracks.push(track);
        proof {
            assert(self@.tracks =~= old(self)@.tracks.push(track@));
        }
    }

    /// Removes the track at `index`; later tracks shift down by one.
    pub fn remove_track(&mut self, index: usize)
        requires
            index < old(self)@.tracks.len(),
        ensures
            final(self)@.tracks == old(self)@.tracks.remove(index as int),
            final(self)@.volume == old(self)@.volume,
    {
        self.tracks.remove(index);
        proof {
            assert(self@.tracks =~= old(self)@.tracks.remove(index as int));
        }
    }

    /// Replaces the master gain; `volume` is a binary32 bit pattern.
    pub fn set_volume(&mut self, volume: u32)
        ensures
            final(self)@.tracks == old(self)@.tracks,
            final(self)@.volume == volume,
    {
        self.volume = volume;
    }
}

impl<P: PluginInstance> Default for Processor<P> {
    fn default() -> (p: Processor<P>)
        ensures
            p@.tracks == Seq::<TrackView<P>>::empty(),
            p@.volume == UNIT_GAIN_BITS,
    {
        Processor::new()
    }
}

impl<P: PluginInstance> Track<P> {
    /// The track gain as a binary32 bit pattern.
    pub fn volume_bits(&self) -> (r: u32)
        ensures
            r == self@.volume,
    {
        self.volume
    }

    /// The track's left scratch buffer, as last rendered.
    pub fn scratch_left(&self) -> (r: &Vec<u32>)
        ensures
            r@ == self@.out_left,
    {
        &self.out_left
    }

    /// The track's right scratch buffer, as last rendered.
    pub fn scratch_right(&self) -> (r: &Vec<u32>)
        ensures
            r@ == self@.out_right,
    {
        &self.out_right
    }
}

/// A vector of `n` silent samples.
fn zeroed(n: usize) -> (v: Vec<u32>)
    ensures
        v@ == silence(n as nat),
{
    let mut v: Vec<u32> = Vec::new();
    let mut i: usize = 0;
    while i < n
        invariant
            i <= n,
            v@.len() == i,
            forall|j: int| 0 <= j < i ==> v@[j] == SILENCE_BITS,
        decreases n - i,
    {
        v.push(SILENCE_BITS);
        i = i + 1;
    }
    proof {
        assert(v@ =~= silence(n as nat));
    }
    v
}

/// Accumulates `src · gain` element-wise onto the common prefix of `dst`
/// and `src`, leaving any tail of `dst` untouched.
fn mix_into(dst: &mut Vec<u32>, src: &Vec<u32>, gain: u32)
    ensures
        final(dst)@ == mix_seq(old(dst)@, src@, gain),
{
    let n = if dst.len() < src.len() {
        dst.len()
    } else {
        src.len()
    };
    let mut i: usize = 0;
    while i < n
        invariant
            i <= n,
            n <= dst@.len(),
            n <= src@.len(),
            dst@.len() == old(dst)@.len(),
            n == if old(dst)@.len() < src@.len() {
                old(dst)@.len()
            } else {
                src@.len()
            },
            forall|j: int|
                0 <= j < i ==> dst@[j] == sample_add(
                    old(dst)@[j],
                    sample_mul(src@[j], gain),
                ),
            forall|j: int| i <= j < dst@.len() ==> dst@[j] == old(dst)@[j],
        decreases n - i,
    {
        let v = add_samples(dst[i], mul_samples(src[i], gain));
        dst.set(i, v);
        i = i + 1;
    }
    proof {
        assert(dst@ =~= mix_seq(old(dst)@, src@, gain));
    }
}

} // verus!

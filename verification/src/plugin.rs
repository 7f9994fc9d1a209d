//! The contract a plugin instance honors on the audio thread.
use crate::midi::TimedMidi;
use vstd::prelude::*;

verus! {

/// One live plugin voice, driven once per audio buffer.
///
/// `process` receives the buffer's MIDI events, sorted by frame, and two
/// stereo output buffers of equal length which it overwrites. A plugin must
/// accept any input defensively: it may not shrink or grow the buffers, and
/// it must ignore MIDI entries whose frame lies beyond the buffer end.
pub trait PluginInstance: Sized {
    fn process(
        &mut self,
        midi: &[TimedMidi],
        out_left: &mut Vec<u32>,
        out_right: &mut Vec<u32>,
    )
        ensures
            final(out_left)@.len() == old(out_left)@.len(),
            final(out_right)@.len() == old(out_right)@.len(),
    ;
}

/// Writes silence: both output buffers become all zero, MIDI is ignored.
#[derive(Clone, Copy, Debug)]
pub struct Silence;

impl PluginInstance for Silence {
    fn process(
        &mut self,
        _midi: &[TimedMidi],
        out_left: &mut Vec<u32>,
        out_right: &mut Vec<u32>,
    )
        ensures
            final(out_left)@ == Seq::new(old(out_left)@.len(), |i: int| crate::sample::SILENCE_BITS),
            final(out_right)@ == Seq::new(
                old(out_right)@.len(),
                |i: int| crate::sample::SILENCE_BITS,
            ),
            *final(self) == *old(self),
    {
        zero_buffer(out_left);
        zero_buffer(out_right);
    }
}

/// Overwrites every sample of the buffer with the silent bit pattern.
pub fn zero_buffer(b: &mut Vec<u32>)
    ensures
        final(b)@ == Seq::new(old(b)@.len(), |i: int| crate::sample::SILENCE_BITS),
{
    let n = b.len();
    let mut i: usize = 0;
    while i < n
        invariant
            n == b@.len(),
            i <= n,
            forall|j: int| 0 <= j < i ==> b@[j] == crate::sample::SILENCE_BITS,
        decreases n - i,
    {
        b.set(i, crate::sample::SILENCE_BITS);
        i = i + 1;
    }
    assert(b@ =~= Seq::new(b@.len(), |i: int| crate::sample::SILENCE_BITS));
}

} // verus!

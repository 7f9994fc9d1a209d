//! Timestamped MIDI events as the audio thread sees them.
use vstd::prelude::*;

verus! {

/// The parts of a MIDI channel message that the engine's plugins read.
///
/// Messages other than note on and note off are carried as `Other` so that a
/// plugin can skip them without inspecting raw bytes.
#[derive(Clone, Copy, Debug, PartialEq, Eq, Structural)]
pub enum MidiMessage {
    /// A key was pressed; the payload is the MIDI note number.
    NoteOn(u8),
    /// A key was released; the payload is the MIDI note number.
    NoteOff(u8),
    /// Any other message; the engine's built-in plugins ignore these.
    Other,
}

/// A MIDI message stamped with its frame offset into the current buffer.
///
/// A slice of these passed to a plugin is sorted by `frame`, non-decreasing;
/// plugins must ignore entries whose frame lies at or beyond the buffer end.
#[derive(Clone, Copy, Debug, PartialEq, Eq, Structural)]
pub struct TimedMidi {
    pub frame: usize,
    pub message: MidiMessage,
}

} // verus!

use vstd::prelude::*;

use crate::error::Error;
use crate::utils::adsr_envelope::State;

verus! {

/// A playing note. `F` is the type of the audio quantities (frequency in Hz,
/// velocity as a gain, and the time the note has played in seconds).
#[derive(Debug, Copy, Clone)]
pub struct Note<F> {
    /// The MIDI key of the note.
    pub note: u32,
    pub frequency: F,
    pub velocity: F,
    pub play_time: F,
    /// The envelope stage at which the note holds while its key is down;
    /// `State::Idle` once the key is released.
    pub hold_on: State,
    pub state: State,
}

/// Something that plays notes on and off.
pub trait NoteEventReceiver<F> {
    fn note_on(&mut self, note: Note<F>) -> Result<(), Error>;

    fn note_off(&mut self, note: u32) -> Result<(), Error>;

    fn release_all(&mut self);
}

} // verus!

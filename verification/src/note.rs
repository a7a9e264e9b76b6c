use vstd::prelude::*;
use vstd::std_specs::convert::FromSpec;

use crate::{DEFAULT_DELAY, DEFAULT_FREQ, DEFAULT_LEN, DEFAULT_REPEATS};

verus! {

/// A note of a certain frequency and length that may be repeated with a
/// delay.  All durations are in milliseconds.  Every combination of field
/// values is legal: a frequency of `0` means silence, and `0` repeats mean
/// the note plays nothing at all.
#[derive(Clone, Copy, Debug, PartialEq, Eq, Structural)]
pub struct Note {
    /// Frequency of the tone in Hertz; `0` means silence.
    pub frequency: u16,
    /// How long the tone sounds on each repeat, in milliseconds.
    pub length: u64,
    /// How many times the tone is sounded; `0` means the note plays nothing.
    pub repeats: u16,
    /// Silence between successive repeats, in milliseconds; not applied
    /// before the first repeat or after the last.
    pub delay: u64,
}

impl Note {
    /// The note the default constants describe: the default frequency,
    /// length, repeats and delay.
    pub open spec fn default_spec() -> Note {
        Note {
            frequency: DEFAULT_FREQ,
            length: DEFAULT_LEN,
            repeats: DEFAULT_REPEATS,
            delay: DEFAULT_DELAY,
        }
    }

    /// Create a new note.
    pub fn new(frequency: u16, length: u64, repeats: u16, delay: u64) -> (note: Self)
        ensures
            note == (Note { frequency, length, repeats, delay }),
    {
        Self { frequency, length, repeats, delay }
    }

    /// Returns the frequency in Hertz.
    pub fn frequency(&self) -> (frequency: u16)
        ensures
            frequency == self.frequency,
    {
        self.frequency
    }

    /// Returns the length in milliseconds.
    pub fn length(&self) -> (length: u64)
        ensures
            length == self.length,
    {
        self.length
    }

    /// Returns the amount of repeats.
    pub fn repeats(&self) -> (repeats: u16)
        ensures
            repeats == self.repeats,
    {
        self.repeats
    }

    /// Returns the delay in milliseconds.
    pub fn delay(&self) -> (delay: u64)
        ensures
            delay == self.delay,
    {
        self.delay
    }
}

impl Default for Note {
    /// The default note: the default frequency, length, repeats and delay.
    fn default() -> (note: Self)
        ensures
            note == Note::default_spec(),
    {
        Self::new(DEFAULT_FREQ, DEFAULT_LEN, DEFAULT_REPEATS, DEFAULT_DELAY)
    }
}

impl From<(u16, u64)> for Note {
    /// Creates a note from a `(frequency, length)` pair with default
    /// repeats and delay.
    fn from(pair: (u16, u64)) -> (note: Self) {
        Self::new(pair.0, pair.1, DEFAULT_REPEATS, DEFAULT_DELAY)
    }
}

impl vstd::std_specs::convert::FromSpecImpl<(u16, u64)> for Note {
    open spec fn obeys_from_spec() -> bool {
        true
    }

    open spec fn from_spec(pair: (u16, u64)) -> Note {
        Note {
            frequency: pair.0,
            length: pair.1,
            repeats: DEFAULT_REPEATS,
            delay: DEFAULT_DELAY,
        }
    }
}

/// A note built from the `(frequency, length)` shorthand equals the note
/// built explicitly with one repeat and the default delay.
pub proof fn lemma_shorthand_note(frequency: u16, length: u64)
    ensures
        Note::from_spec((frequency, length)) == (Note {
            frequency,
            length,
            repeats: 1u16,
            delay: DEFAULT_DELAY,
        }),
{
}

} // verus!

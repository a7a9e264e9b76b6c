//! Play notes and melodies on the PC speaker, or any device that accepts
//! tone events.
//!
//! A [`Note`] describes one tone: its frequency in Hertz, how long it
//! sounds, how often it repeats, and the silence between repeats.  A
//! [`Melody`] is an ordered sequence of notes.  The [`Beep`] trait stands
//! for a device that accepts tone events and blocking waits; its provided
//! methods play notes and melodies on any such device, and their contracts
//! pin down exactly which events reach the device and in which order.

use vstd::prelude::*;

mod beep;
mod melody;
mod note;
mod recorder;
pub mod trace;

pub use beep::Beep;
pub use melody::Melody;
pub use note::Note;
pub use note::lemma_shorthand_note;
pub use recorder::Recorder;
pub use trace::Action;
pub use trace::cycle_trace;
pub use trace::extends_by_prefix_of;
pub use trace::extra_cycles_trace;
pub use trace::melody_trace;
pub use trace::note_trace;
pub use trace::writes_of;

verus! {

/// Default delay between successive repeats of a note, in milliseconds.
pub const DEFAULT_DELAY: u64 = 100;

/// Default frequency of a note in Hertz.
pub const DEFAULT_FREQ: u16 = 440;

/// Default length of a note, in milliseconds.
pub const DEFAULT_LEN: u64 = 200;

/// Default repeats of a note.
pub const DEFAULT_REPEATS: u16 = 1;

/// Default pcspkr device path.
pub const DEFAULT_FILE: &'static str = "/dev/input/by-path/platform-pcspkr-event-spkr";

} // verus!

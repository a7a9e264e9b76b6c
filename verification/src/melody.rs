use vstd::prelude::*;

use crate::note::Note;

verus! {

/// An ordered sequence of notes, played back to back.  Order is
/// meaningful (it is the playback order), duplicates are kept, and the
/// empty melody is legal and plays nothing.
#[derive(Clone, Debug, PartialEq, Eq)]
pub struct Melody {
    /// The notes of the melody, in playback order.
    pub notes: Vec<Note>,
}

impl View for Melody {
    type V = Seq<Note>;

    open spec fn view(&self) -> Seq<Note> {
        self.notes@
    }
}

impl Melody {
    /// Wraps a sequence of notes as-is: order and duplicates are kept,
    /// nothing is validated.
    pub fn new(notes: Vec<Note>) -> (melody: Self)
        ensures
            melody == (Melody { notes }),
            melody@ == notes@,
    {
        Self { notes }
    }

    /// Returns how many notes the melody holds.
    pub fn len(&self) -> (n: usize)
        ensures
            n == self@.len(),
    {
        self.notes.len()
    }

    /// Returns whether the melody holds no notes.
    pub fn is_empty(&self) -> (empty: bool)
        ensures
            empty == (self@.len() == 0),
    {
        self.notes.len() == 0
    }

    /// Returns the note at the given position.
    pub fn get(&self, index: usize) -> (note: &Note)
        requires
            index < self@.len(),
        ensures
            *note == self@[index as int],
    {
        &self.notes[index]
    }
}

impl Default for Melody {
    /// The default melody: a single default note.
    fn default() -> (melody: Self)
        ensures
            melody@ =~= seq![Note::default_spec()],
    {
        Self::new(vec![Note::default()])
    }
}

impl From<Vec<Note>> for Melody {
    /// Wraps a vector of notes as a melody, keeping their order.
    fn from(notes: Vec<Note>) -> (melody: Self) {
        Self::new(notes)
    }
}

impl vstd::std_specs::convert::FromSpecImpl<Vec<Note>> for Melody {
    open spec fn obeys_from_spec() -> bool {
        true
    }

    open spec fn from_spec(notes: Vec<Note>) -> Melody {
        Melody { notes }
    }
}

} // verus!

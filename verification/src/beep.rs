use vstd::prelude::*;

use crate::melody::Melody;
use crate::note::Note;
use crate::trace::Action;
use crate::trace::cycle_trace;
use crate::trace::extends_by_prefix_of;
use crate::trace::extra_cycles_trace;
use crate::trace::lemma_extra_cycles_partial_prefix;
use crate::trace::lemma_extra_cycles_snoc;
use crate::trace::lemma_melody_trace_snoc;
use crate::trace::lemma_prefix_of_concat;
use crate::trace::lemma_prefix_prepend;
use crate::trace::lemma_prefix_take;
use crate::trace::melody_trace;
use crate::trace::note_trace;

verus! {

/// The error a device write surfaces.  Relies on std::io::Error being an
/// ordinary owned type; values of it are only carried through to the
/// caller, never inspected.
#[verifier::external_type_specification]
#[verifier::external_body]
pub struct ExIoError(std::io::Error);

/// A trace grew by a known extension that is a prefix of `full`, so it
/// grew by a prefix of `full`.
proof fn lemma_exit(
    old_trace: Seq<Action>,
    new_trace: Seq<Action>,
    extension: Seq<Action>,
    full: Seq<Action>,
)
    requires
        new_trace == old_trace + extension,
        extension.is_prefix_of(full),
    ensures
        extends_by_prefix_of(new_trace, old_trace, full),
{
    lemma_prefix_take(extension, full);
    assert(new_trace == old_trace + full.take(extension.len() as int));
}

/// An error during the first sound cycle of a note leaves the trace
/// grown by a prefix of the note's trace.
proof fn lemma_first_cycle_exit(
    old_trace: Seq<Action>,
    new_trace: Seq<Action>,
    note: Note,
    steps: int,
)
    requires
        note.repeats > 0,
        0 <= steps <= 3,
        new_trace == old_trace + cycle_trace(note).take(steps),
    ensures
        extends_by_prefix_of(new_trace, old_trace, note_trace(note)),
{
    let cycle = cycle_trace(note);
    let partial = cycle.take(steps);
    assert(partial.is_prefix_of(cycle));
    lemma_prefix_of_concat(partial, cycle, extra_cycles_trace(note, (note.repeats - 1) as nat));
    lemma_exit(old_trace, new_trace, partial, note_trace(note));
}

/// An error during a later sound cycle of a note — after `done` complete
/// cycles and `steps` actions of the next delay-and-cycle block — leaves
/// the trace grown by a prefix of the note's trace.
proof fn lemma_later_cycle_exit(
    old_trace: Seq<Action>,
    new_trace: Seq<Action>,
    note: Note,
    done: nat,
    steps: int,
)
    requires
        1 <= done < note.repeats,
        0 <= steps <= 4,
        new_trace == old_trace + cycle_trace(note) + extra_cycles_trace(note, (done - 1) as nat)
            + (seq![Action::Wait(note.delay)] + cycle_trace(note)).take(steps),
    ensures
        extends_by_prefix_of(new_trace, old_trace, note_trace(note)),
{
    let cycle = cycle_trace(note);
    let rest = extra_cycles_trace(note, (done - 1) as nat);
    let block = seq![Action::Wait(note.delay)] + cycle;
    let partial = block.take(steps);
    assert(partial.is_prefix_of(block));
    lemma_extra_cycles_partial_prefix(
        note,
        (done - 1) as nat,
        (note.repeats - 1) as nat,
        partial,
    );
    lemma_prefix_prepend(
        cycle,
        rest + partial,
        extra_cycles_trace(note, (note.repeats - 1) as nat),
    );
    let extension = cycle + (rest + partial);
    assert(new_trace =~= old_trace + extension);
    lemma_exit(old_trace, new_trace, extension, note_trace(note));
}

/// A device that can sound tones: anything that accepts tone events and
/// blocking waits.  The ghost trace records every action the device has
/// performed, oldest first; the contracts of [`Beep::note`] and
/// [`Beep::play`] say exactly which actions playback appends to it, in
/// which order.
pub trait Beep {
    /// The actions this device has performed so far, oldest first.
    /// Every impl verified against this trait gives it a body of its
    /// own; the default — no action is ever tracked — is for impls
    /// outside the reach of verification.
    open spec fn trace(&self) -> Seq<Action> {
        Seq::empty()
    }

    /// Beep the device at the given frequency: write one tone event
    /// (`0` turns the tone off).  On success exactly that event has been
    /// appended to the trace, whatever came before; on an I/O error the
    /// event may or may not have reached the device, and nothing else
    /// has happened.
    fn beep(&mut self, hertz: u16) -> (result: Result<(), std::io::Error>)
        ensures
            result is Ok ==> final(self).trace() == old(self).trace().push(Action::Tone(hertz)),
            result is Err ==> final(self).trace() == old(self).trace() || final(self).trace()
                == old(self).trace().push(Action::Tone(hertz)),
    ;

    /// Block for the given number of milliseconds.
    fn pause(&mut self, millis: u64)
        ensures
            final(self).trace() == old(self).trace().push(Action::Wait(millis)),
    ;

    /// Play the given note: sound one cycle — tone on, wait the note's
    /// length, tone off — then repeat it `repeats - 1` further times,
    /// each further cycle preceded by a wait of the note's delay.  Zero
    /// repeats touch the device not at all and always succeed.  The
    /// first I/O error aborts the remaining repeats and is returned
    /// as-is, without silencing the device; the trace has then grown by
    /// a prefix of the note's trace.
    fn note(&mut self, note: &Note) -> (result: Result<(), std::io::Error>)
        ensures
            result is Ok ==> final(self).trace() == old(self).trace() + note_trace(*note),
            result is Err ==> extends_by_prefix_of(
                final(self).trace(),
                old(self).trace(),
                note_trace(*note),
            ),
            note.repeats == 0 ==> result is Ok,
    {
        if note.repeats() > 0 {
            match self.beep(note.frequency()) {
                Ok(()) => {}
                Err(error) => {
                    proof {
                        if self.trace() == old(self).trace() {
                            assert(self.trace() =~= old(self).trace()
                                + cycle_trace(*note).take(0));
                            lemma_first_cycle_exit(old(self).trace(), self.trace(), *note, 0);
                        } else {
                            assert(self.trace() =~= old(self).trace()
                                + cycle_trace(*note).take(1));
                            lemma_first_cycle_exit(old(self).trace(), self.trace(), *note, 1);
                        }
                    }
                    return Err(error);
                }
            }
            self.pause(note.length());
            match self.beep(0) {
                Ok(()) => {}
                Err(error) => {
                    proof {
                        if self.trace() == old(self).trace().push(Action::Tone(note.frequency))
                            .push(Action::Wait(note.length)) {
                            assert(self.trace() =~= old(self).trace()
                                + cycle_trace(*note).take(2));
                            lemma_first_cycle_exit(old(self).trace(), self.trace(), *note, 2);
                        } else {
                            assert(self.trace() =~= old(self).trace()
                                + cycle_trace(*note).take(3));
                            lemma_first_cycle_exit(old(self).trace(), self.trace(), *note, 3);
                        }
                    }
                    return Err(error);
                }
            }
        }
        let mut done: u16 = 1;
        proof {
            if note.repeats > 0 {
                assert(self.trace() =~= old(self).trace() + cycle_trace(*note)
                    + extra_cycles_trace(*note, 0));
            }
        }
        while done < note.repeats()
            invariant
                note.repeats == 0 ==> done == 1 && self.trace() == old(self).trace(),
                note.repeats > 0 ==> 1 <= done <= note.repeats && self.trace() == old(
                    self,
                ).trace() + cycle_trace(*note) + extra_cycles_trace(*note, (done - 1) as nat),
            decreases note.repeats - done,
        {
            let ghost block = seq![Action::Wait(note.delay)] + cycle_trace(*note);
            let ghost before = self.trace();
            self.pause(note.delay());
            match self.beep(note.frequency()) {
                Ok(()) => {}
                Err(error) => {
                    proof {
                        if self.trace() == before.push(Action::Wait(note.delay)) {
                            assert(self.trace() =~= old(self).trace() + cycle_trace(*note)
                                + extra_cycles_trace(*note, (done - 1) as nat) + block.take(1));
                            lemma_later_cycle_exit(
                                old(self).trace(),
                                self.trace(),
                                *note,
                                done as nat,
                                1,
                            );
                        } else {
                            assert(self.trace() =~= old(self).trace() + cycle_trace(*note)
                                + extra_cycles_trace(*note, (done - 1) as nat) + block.take(2));
                            lemma_later_cycle_exit(
                                old(self).trace(),
                                self.trace(),
                                *note,
                                done as nat,
                                2,
                            );
                        }
                    }
                    return Err(error);
                }
            }
            self.pause(note.length());
            match self.beep(0) {
                Ok(()) => {}
                Err(error) => {
                    proof {
                        if self.trace() == before.push(Action::Wait(note.delay)).push(
                            Action::Tone(note.frequency),
                        ).push(Action::Wait(note.length)) {
                            assert(self.trace() =~= old(self).trace() + cycle_trace(*note)
                                + extra_cycles_trace(*note, (done - 1) as nat) + block.take(3));
                            lemma_later_cycle_exit(
                                old(self).trace(),
                                self.trace(),
                                *note,
                                done as nat,
                                3,
                            );
                        } else {
                            assert(self.trace() =~= old(self).trace() + cycle_trace(*note)
                                + extra_cycles_trace(*note, (done - 1) as nat) + block.take(4));
                            lemma_later_cycle_exit(
                                old(self).trace(),
                                self.trace(),
                                *note,
                                done as nat,
                                4,
                            );
                        }
                    }
                    return Err(error);
                }
            }
            proof {
                lemma_extra_cycles_snoc(*note, (done - 1) as nat);
                assert(self.trace() =~= old(self).trace() + cycle_trace(*note)
                    + extra_cycles_trace(*note, done as nat));
            }
            done = done + 1;
        }
        proof {
            if note.repeats > 0 {
                assert(old(self).trace() + cycle_trace(*note) + extra_cycles_trace(
                    *note,
                    (note.repeats - 1) as nat,
                ) =~= old(self).trace() + note_trace(*note));
            } else {
                assert(old(self).trace() + note_trace(*note) =~= old(self).trace());
            }
        }
        Ok(())
    }

    /// Play the given melody: play its notes one after another, in
    /// melody order.  A melody that would perform no action — empty, or
    /// of zero-repeat notes only — touches the device not at all and
    /// always succeeds.  The first I/O error aborts the melody and is
    /// returned as-is: notes after the failing one are never played, so
    /// the trace has grown by the traces of the notes before it and a
    /// prefix of the failing note's trace.
    fn play(&mut self, melody: &Melody) -> (result: Result<(), std::io::Error>)
        ensures
            result is Ok ==> final(self).trace() == old(self).trace() + melody_trace(melody@),
            result is Err ==> exists|k: int, partial: Seq<Action>|
                0 <= k < melody@.len() && partial.is_prefix_of(note_trace(melody@[k]))
                    && final(self).trace() == old(self).trace() + melody_trace(melody@.take(k))
                    + partial,
            melody_trace(melody@).len() == 0 ==> result is Ok,
    {
        let count = melody.len();
        let mut index: usize = 0;
        proof {
            assert(melody@.take(0) =~= Seq::<Note>::empty());
            assert(old(self).trace() + melody_trace(melody@.take(0)) =~= old(self).trace());
        }
        while index < count
            invariant
                index <= melody@.len(),
                count == melody@.len(),
                self.trace() == old(self).trace() + melody_trace(melody@.take(index as int)),
            decreases melody@.len() - index,
        {
            let ghost before = self.trace();
            match self.note(melody.get(index)) {
                Ok(()) => {}
                Err(error) => {
                    proof {
                        let full = note_trace(melody@[index as int]);
                        let cut = choose|cut: int|
                            0 <= cut <= full.len() && self.trace() == before + full.take(cut);
                        assert(full.take(cut).is_prefix_of(full));
                        assert(self.trace() == old(self).trace() + melody_trace(
                            melody@.take(index as int),
                        ) + full.take(cut));
                        // only a note that sounds can fail, so the
                        // melody's trace is not empty
                        assert(melody@[index as int].repeats > 0);
                        crate::trace::lemma_melody_trace_contains_note(melody@, index as int);
                    }
                    return Err(error);
                }
            }
            proof {
                lemma_melody_trace_snoc(melody@, index as int);
            }
            index = index + 1;
        }
        proof {
            assert(melody@.take(melody@.len() as int) =~= melody@);
        }
        Ok(())
    }
}

} // verus!

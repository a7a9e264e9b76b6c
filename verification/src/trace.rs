use vstd::prelude::*;

use crate::note::Note;

verus! {

/// One observable step of playback on a device: a tone event carrying a
/// frequency in Hertz (`0` means tone off), or a blocking wait in
/// milliseconds.
#[derive(Clone, Copy, Debug, PartialEq, Eq, Structural)]
pub enum Action {
    /// A tone event was written to the device.
    Tone(u16),
    /// Playback paused for the given number of milliseconds.
    Wait(u64),
}

/// The actions of one sound cycle of a note: tone on, wait for its
/// length, tone off.
pub open spec fn cycle_trace(note: Note) -> Seq<Action> {
    seq![
        Action::Tone(note.frequency),
        Action::Wait(note.length),
        Action::Tone(0u16),
    ]
}

/// The actions of `extra` further sound cycles of a note, each preceded by
/// a wait of the note's delay.
pub open spec fn extra_cycles_trace(note: Note, extra: nat) -> Seq<Action>
    decreases extra,
{
    if extra == 0 {
        Seq::empty()
    } else {
        seq![Action::Wait(note.delay)] + cycle_trace(note)
            + extra_cycles_trace(note, (extra - 1) as nat)
    }
}

/// All actions playing a note produces: nothing at all for zero repeats,
/// and otherwise one sound cycle followed by the remaining cycles, each of
/// those preceded by a delay wait.
pub open spec fn note_trace(note: Note) -> Seq<Action> {
    if note.repeats == 0 {
        Seq::empty()
    } else {
        cycle_trace(note) + extra_cycles_trace(note, (note.repeats - 1) as nat)
    }
}

/// All actions playing a melody produces: the notes' traces, one after
/// another, in melody order.
pub open spec fn melody_trace(notes: Seq<Note>) -> Seq<Action>
    decreases notes.len(),
{
    if notes.len() == 0 {
        Seq::empty()
    } else {
        note_trace(notes[0]) + melody_trace(notes.skip(1))
    }
}

/// The tone events of a trace, in order, without the waits.
pub open spec fn writes_of(trace: Seq<Action>) -> Seq<u16>
    decreases trace.len(),
{
    if trace.len() == 0 {
        Seq::empty()
    } else {
        match trace[0] {
            Action::Tone(hertz) => seq![hertz] + writes_of(trace.skip(1)),
            Action::Wait(_) => writes_of(trace.skip(1)),
        }
    }
}

/// A trace extends another by a prefix of `full` (possibly empty,
/// possibly all of it).
pub open spec fn extends_by_prefix_of(
    new_trace: Seq<Action>,
    old_trace: Seq<Action>,
    full: Seq<Action>,
) -> bool {
    exists|cut: int|
        0 <= cut <= full.len() && new_trace == old_trace + full.take(cut)
}

/// A prefix of a sequence is also a prefix of any extension of it.
pub proof fn lemma_prefix_of_concat<A>(p: Seq<A>, a: Seq<A>, b: Seq<A>)
    requires
        p.is_prefix_of(a),
    ensures
        p.is_prefix_of(a + b),
{
    assert(p =~= (a + b).subrange(0, p.len() as int));
}

/// Prepending the same sequence to a prefix and to its whole keeps the
/// prefix relation.
pub proof fn lemma_prefix_prepend<A>(a: Seq<A>, p: Seq<A>, b: Seq<A>)
    requires
        p.is_prefix_of(b),
    ensures
        (a + p).is_prefix_of(a + b),
{
    assert((a + p) =~= (a + b).subrange(0, a.len() as int + p.len() as int));
}

/// Taking the length of a prefix out of the whole gives back the prefix.
pub proof fn lemma_prefix_take<A>(p: Seq<A>, full: Seq<A>)
    requires
        p.is_prefix_of(full),
    ensures
        full.take(p.len() as int) == p,
{
    assert(full.take(p.len() as int) =~= p);
}

/// The trace of one further sound cycle can be peeled off the back as
/// well as off the front: `extra + 1` further cycles are `extra` further
/// cycles followed by one delay wait and one sound cycle.
pub proof fn lemma_extra_cycles_snoc(note: Note, extra: nat)
    ensures
        extra_cycles_trace(note, (extra + 1) as nat) == extra_cycles_trace(note, extra)
            + seq![Action::Wait(note.delay)] + cycle_trace(note),
    decreases extra,
{
    if extra == 0 {
        assert(extra_cycles_trace(note, 1) =~= extra_cycles_trace(note, 0)
            + seq![Action::Wait(note.delay)] + cycle_trace(note));
    } else {
        lemma_extra_cycles_snoc(note, (extra - 1) as nat);
        assert(extra_cycles_trace(note, (extra + 1) as nat) =~= extra_cycles_trace(note, extra)
            + seq![Action::Wait(note.delay)] + cycle_trace(note));
    }
}

/// `done` further cycles followed by part of the next further cycle form
/// a prefix of any larger number of further cycles.
pub proof fn lemma_extra_cycles_partial_prefix(
    note: Note,
    done: nat,
    total: nat,
    partial: Seq<Action>,
)
    requires
        done < total,
        partial.is_prefix_of(seq![Action::Wait(note.delay)] + cycle_trace(note)),
    ensures
        (extra_cycles_trace(note, done) + partial).is_prefix_of(extra_cycles_trace(note, total)),
    decreases done,
{
    let block = seq![Action::Wait(note.delay)] + cycle_trace(note);
    if done == 0 {
        assert(extra_cycles_trace(note, 0) + partial =~= partial);
        assert(extra_cycles_trace(note, total) == block
            + extra_cycles_trace(note, (total - 1) as nat));
        lemma_prefix_of_concat(partial, block, extra_cycles_trace(note, (total - 1) as nat));
    } else {
        lemma_extra_cycles_partial_prefix(note, (done - 1) as nat, (total - 1) as nat, partial);
        lemma_prefix_prepend(
            block,
            extra_cycles_trace(note, (done - 1) as nat) + partial,
            extra_cycles_trace(note, (total - 1) as nat),
        );
        assert(extra_cycles_trace(note, done) + partial
            =~= block + (extra_cycles_trace(note, (done - 1) as nat) + partial));
    }
}

/// The tone events of traces laid end to end are the tone events of
/// each, in order.
pub proof fn lemma_writes_of_concat(a: Seq<Action>, b: Seq<Action>)
    ensures
        writes_of(a + b) == writes_of(a) + writes_of(b),
    decreases a.len(),
{
    if a.len() == 0 {
        assert(a + b =~= b);
        assert(writes_of(a) + writes_of(b) =~= writes_of(b));
    } else {
        assert((a + b).skip(1) =~= a.skip(1) + b);
        lemma_writes_of_concat(a.skip(1), b);
        assert(writes_of(a + b) =~= writes_of(a) + writes_of(b));
    }
}

/// Extending a trace by one action appends that action's tone event, if
/// it is one, to the trace's tone events.
pub proof fn lemma_writes_of_snoc(trace: Seq<Action>, k: int)
    requires
        0 <= k < trace.len(),
    ensures
        trace[k] matches Action::Tone(hertz) ==> writes_of(trace.take(k + 1)) == writes_of(
            trace.take(k),
        ).push(hertz),
        trace[k] is Wait ==> writes_of(trace.take(k + 1)) == writes_of(trace.take(k)),
{
    let single = seq![trace[k]];
    assert(trace.take(k + 1) =~= trace.take(k) + single);
    lemma_writes_of_concat(trace.take(k), single);
    assert(single.skip(1) =~= Seq::<Action>::empty());
    match trace[k] {
        Action::Tone(hertz) => {
            assert(writes_of(single) == seq![hertz] + writes_of(single.skip(1)));
            assert(writes_of(trace.take(k)) + writes_of(single) =~= writes_of(
                trace.take(k),
            ).push(hertz));
        }
        Action::Wait(_) => {
            assert(writes_of(single) == writes_of(single.skip(1)));
            assert(writes_of(trace.take(k)) + writes_of(single) =~= writes_of(trace.take(k)));
        }
    }
}

/// A note with zero repeats plays nothing at all: its trace is empty,
/// so playing it writes no tone event and performs no wait.
pub proof fn lemma_silent_note(note: Note)
    requires
        note.repeats == 0,
    ensures
        note_trace(note) == Seq::<Action>::empty(),
        writes_of(note_trace(note)) == Seq::<u16>::empty(),
{
}

/// An empty melody plays nothing at all: its trace is empty, so playing
/// it writes no tone event and performs no wait.
pub proof fn lemma_empty_melody_trace()
    ensures
        melody_trace(Seq::<Note>::empty()) == Seq::<Action>::empty(),
        writes_of(melody_trace(Seq::<Note>::empty())) == Seq::<u16>::empty(),
{
}

/// One sound cycle writes exactly the tone-on event and the tone-off
/// event, in that order.
pub proof fn lemma_cycle_writes(note: Note)
    ensures
        writes_of(cycle_trace(note)) == seq![note.frequency, 0u16],
{
    let tail2 = seq![Action::Wait(note.length), Action::Tone(0u16)];
    let tail1 = seq![Action::Tone(0u16)];
    assert(cycle_trace(note).skip(1) =~= tail2);
    assert(tail2.skip(1) =~= tail1);
    assert(tail1.skip(1) =~= Seq::<Action>::empty());
    assert(writes_of(Seq::<Action>::empty()) =~= Seq::<u16>::empty());
    assert(writes_of(tail1) =~= seq![0u16]);
    assert(writes_of(tail2) =~= seq![0u16]);
    assert(writes_of(cycle_trace(note)) =~= seq![note.frequency, 0u16]);
}

/// The shape of any number of further sound cycles: four actions per
/// cycle — delay wait, tone on, length wait, tone off — and two tone
/// events per cycle.
pub proof fn lemma_extra_cycles_shape(note: Note, extra: nat)
    ensures
        extra_cycles_trace(note, extra).len() == 4 * extra,
        writes_of(extra_cycles_trace(note, extra)).len() == 2 * extra,
        forall|i: int|
            0 <= i < 4 * extra ==> #[trigger] extra_cycles_trace(note, extra)[i] == (if i % 4
                == 0 {
                Action::Wait(note.delay)
            } else if i % 4 == 1 {
                Action::Tone(note.frequency)
            } else if i % 4 == 2 {
                Action::Wait(note.length)
            } else {
                Action::Tone(0u16)
            }),
    decreases extra,
{
    if extra > 0 {
        lemma_extra_cycles_shape(note, (extra - 1) as nat);
        let block = seq![Action::Wait(note.delay)] + cycle_trace(note);
        let rest = extra_cycles_trace(note, (extra - 1) as nat);
        let whole = extra_cycles_trace(note, extra);
        assert(whole == block + rest);
        assert(block.skip(1) =~= cycle_trace(note));
        lemma_cycle_writes(note);
        lemma_writes_of_concat(block, rest);
        assert(writes_of(block) =~= seq![note.frequency, 0u16]);
        assert forall|i: int| 0 <= i < 4 * extra implies #[trigger] whole[i] == (if i % 4 == 0 {
            Action::Wait(note.delay)
        } else if i % 4 == 1 {
            Action::Tone(note.frequency)
        } else if i % 4 == 2 {
            Action::Wait(note.length)
        } else {
            Action::Tone(0u16)
        }) by {
            if i < 4 {
                assert(whole[i] == block[i]);
            } else {
                assert(whole[i] == rest[i - 4]);
                assert((i - 4) % 4 == i % 4);
            }
        }
    }
}

/// Playing a note with `R >= 1` repeats produces exactly `2 R` tone
/// events and `R - 1` delay waits: the trace holds `4 R - 1` actions,
/// and the action at position `i` is the tone-on event when `i % 4 == 0`,
/// the length wait when `i % 4 == 1`, the tone-off event when
/// `i % 4 == 2`, and the delay wait when `i % 4 == 3` — so each of the
/// `R - 1` delay waits stands between two cycles, never before the
/// first cycle or after the last.
pub proof fn lemma_note_trace_shape(note: Note)
    requires
        note.repeats >= 1,
    ensures
        note_trace(note).len() == 4 * note.repeats - 1,
        writes_of(note_trace(note)).len() == 2 * note.repeats,
        forall|i: int|
            0 <= i < note_trace(note).len() ==> #[trigger] note_trace(note)[i] == (if i % 4
                == 0 {
                Action::Tone(note.frequency)
            } else if i % 4 == 1 {
                Action::Wait(note.length)
            } else if i % 4 == 2 {
                Action::Tone(0u16)
            } else {
                Action::Wait(note.delay)
            }),
{
    let cycle = cycle_trace(note);
    let rest = extra_cycles_trace(note, (note.repeats - 1) as nat);
    let whole = note_trace(note);
    assert(whole == cycle + rest);
    lemma_extra_cycles_shape(note, (note.repeats - 1) as nat);
    lemma_cycle_writes(note);
    lemma_writes_of_concat(cycle, rest);
    assert forall|i: int| 0 <= i < whole.len() implies #[trigger] whole[i] == (if i % 4 == 0 {
        Action::Tone(note.frequency)
    } else if i % 4 == 1 {
        Action::Wait(note.length)
    } else if i % 4 == 2 {
        Action::Tone(0u16)
    } else {
        Action::Wait(note.delay)
    }) by {
        if i < 3 {
            assert(whole[i] == cycle[i]);
        } else {
            assert(whole[i] == rest[i - 3]);
            assert((i - 3) % 4 == (i + 1) % 4);
        }
    }
}

/// Playing melodies one after another plays their notes' traces one
/// after another: the trace of a concatenation of melodies is the
/// concatenation of their traces, in order.
pub proof fn lemma_melody_trace_concat(a: Seq<Note>, b: Seq<Note>)
    ensures
        melody_trace(a + b) == melody_trace(a) + melody_trace(b),
    decreases a.len(),
{
    if a.len() == 0 {
        assert(a + b =~= b);
        assert(melody_trace(a) + melody_trace(b) =~= melody_trace(b));
    } else {
        assert((a + b).skip(1) =~= a.skip(1) + b);
        lemma_melody_trace_concat(a.skip(1), b);
        assert(melody_trace(a + b) =~= melody_trace(a) + melody_trace(b));
    }
}

/// A melody's trace is at least as long as the trace of any one of its
/// notes: a note that performs actions makes the whole melody perform
/// actions.
pub proof fn lemma_melody_trace_contains_note(notes: Seq<Note>, k: int)
    requires
        0 <= k < notes.len(),
    ensures
        melody_trace(notes).len() >= note_trace(notes[k]).len(),
{
    assert(notes =~= notes.take(k + 1) + notes.skip(k + 1));
    lemma_melody_trace_concat(notes.take(k + 1), notes.skip(k + 1));
    lemma_melody_trace_snoc(notes, k);
}

/// The device writes of melodies played one after another are the
/// writes of each, in order: playback never reorders notes' tone events.
pub proof fn lemma_melody_writes_concat(a: Seq<Note>, b: Seq<Note>)
    ensures
        writes_of(melody_trace(a + b)) == writes_of(melody_trace(a)) + writes_of(melody_trace(b)),
{
    lemma_melody_trace_concat(a, b);
    lemma_writes_of_concat(melody_trace(a), melody_trace(b));
}

/// Extending a melody by one note appends exactly that note's trace.
pub proof fn lemma_melody_trace_snoc(notes: Seq<Note>, k: int)
    requires
        0 <= k < notes.len(),
    ensures
        melody_trace(notes.take(k + 1)) == melody_trace(notes.take(k)) + note_trace(notes[k]),
{
    let single = seq![notes[k]];
    assert(notes.take(k + 1) =~= notes.take(k) + single);
    lemma_melody_trace_concat(notes.take(k), single);
    assert(single.skip(1) =~= Seq::<Note>::empty());
    assert(melody_trace(single) == note_trace(notes[k]) + melody_trace(single.skip(1)));
    assert(note_trace(notes[k]) + melody_trace(Seq::<Note>::empty()) =~= note_trace(notes[k]));
}

} // verus!

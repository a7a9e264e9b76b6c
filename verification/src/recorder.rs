use vstd::prelude::*;

use crate::beep::Beep;
use crate::trace::Action;
use crate::trace::writes_of;

verus! {

/// A device for tests and dry runs: it performs no I/O and records every
/// action it is asked to perform.  It can be told to start failing after
/// a number of successful tone events, to exercise error handling.
pub struct Recorder {
    /// Every action performed so far, oldest first.
    pub log: Vec<Action>,
    /// How many more tone events succeed; `None` means all succeed.  A
    /// failing tone event records nothing.
    pub tones_left: Option<u64>,
}

impl Recorder {
    /// A recorder on which every tone event succeeds.
    pub fn new() -> (recorder: Self)
        ensures
            recorder.log@ == Seq::<Action>::empty(),
            recorder.tones_left is None,
    {
        Self { log: Vec::new(), tones_left: None }
    }

    /// A recorder on which the first `tones` tone events succeed and
    /// every later one fails.
    pub fn failing_after(tones: u64) -> (recorder: Self)
        ensures
            recorder.log@ == Seq::<Action>::empty(),
            recorder.tones_left == Some(tones),
    {
        Self { log: Vec::new(), tones_left: Some(tones) }
    }

    /// The frequencies of the tone events performed so far, in order,
    /// without the waits.
    pub fn writes(&self) -> (writes: Vec<u16>)
        ensures
            writes@ == writes_of(self.log@),
    {
        let mut writes: Vec<u16> = Vec::new();
        let mut index: usize = 0;
        proof {
            assert(self.log@.take(0) =~= Seq::<Action>::empty());
        }
        while index < self.log.len()
            invariant
                index <= self.log@.len(),
                writes@ == writes_of(self.log@.take(index as int)),
            decreases self.log@.len() - index,
        {
            match self.log[index] {
                Action::Tone(hertz) => {
                    writes.push(hertz);
                }
                Action::Wait(_) => {}
            }
            proof {
                crate::trace::lemma_writes_of_snoc(self.log@, index as int);
            }
            index = index + 1;
        }
        proof {
            assert(self.log@.take(self.log@.len() as int) =~= self.log@);
        }
        writes
    }
}

/// Relies on std::io::Error::new for the error a failed simulated tone
/// event returns.
#[verifier::external_body]
fn simulated_failure() -> std::io::Error {
    std::io::Error::new(std::io::ErrorKind::BrokenPipe, "simulated device failure")
}

impl Beep for Recorder {
    open spec fn trace(&self) -> Seq<Action> {
        self.log@
    }

    fn beep(&mut self, hertz: u16) -> (result: Result<(), std::io::Error>)
        ensures
            (result is Ok) == (old(self).tones_left != Some(0u64)),
            result is Ok ==> final(self).log@ == old(self).log@.push(Action::Tone(hertz)),
            result is Err ==> *final(self) == *old(self),
            old(self).tones_left is None ==> final(self).tones_left is None,
            old(self).tones_left matches Some(left) ==> (left > 0 ==> final(self).tones_left
                == Some((left - 1) as u64)),
    {
        match self.tones_left {
            Some(0) => Err(simulated_failure()),
            Some(left) => {
                self.tones_left = Some(left - 1);
                self.log.push(Action::Tone(hertz));
                Ok(())
            }
            None => {
                self.log.push(Action::Tone(hertz));
                Ok(())
            }
        }
    }

    fn pause(&mut self, millis: u64)
        ensures
            final(self).log@ == old(self).log@.push(Action::Wait(millis)),
            final(self).tones_left == old(self).tones_left,
    {
        self.log.push(Action::Wait(millis));
    }
}

} // verus!

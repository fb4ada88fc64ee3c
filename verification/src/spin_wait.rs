//! A spin of six rounds.
use vstd::arithmetic::power2::pow2;
use vstd::prelude::*;
use crate::kernel::cpu::{Hints, hints_are_powers, spec_hints, spin_round};

verus! {

/// A bounded spin: how many rounds were spun.
#[derive(Clone, Copy, PartialEq, Eq, Structural, Debug)]
pub struct SpinWait(pub u8);

impl SpinWait {
    pub open spec fn spec_yields(self) -> bool {
        self.0 <= 5
    }

    pub open spec fn spec_next(self) -> Self {
        if self.0 <= 5 {
            SpinWait((self.0 + 1) as u8)
        } else {
            self
        }
    }

    /// How many hints the next round makes.
    pub open spec fn hints(self) -> nat {
        if self.spec_yields() {
            spec_hints(self.0)
        } else {
            0
        }
    }

    pub open spec fn spec_new() -> Self {
        SpinWait(0)
    }

    #[verifier::when_used_as_spec(spec_new)]
    pub fn new() -> (spin: Self)
        ensures
            spin == Self::spec_new(),
    {
        SpinWait(0)
    }

    /// Starts over.
    pub fn reset(&mut self)
        ensures
            *final(self) == Self::spec_new(),
    {
        *self = SpinWait::new();
    }

    /// Spins for twice as long as the last time, unless six rounds were spun.
    /// Says whether it spun.
    pub fn yield_now(&mut self, made: &mut Hints) -> (spun: bool)
        ensures
            spun == old(self).spec_yields(),
            *final(self) == old(self).spec_next(),
            final(made).made() == old(made).made() + old(self).hints(),
    {
        if self.0 <= 5 {
            spin_round(self.0, made);
            self.0 = self.0 + 1;
            true
        } else {
            false
        }
    }
}

impl Default for SpinWait {
    fn default() -> (spin: Self)
        ensures
            spin == Self::spec_new(),
    {
        Self::new()
    }
}

/// The spin after a number of rounds.
pub open spec fn after_rounds(spin: SpinWait, rounds: nat) -> SpinWait
    decreases rounds,
{
    if rounds == 0 {
        spin
    } else {
        after_rounds(spin, (rounds - 1) as nat).spec_next()
    }
}

/// A fresh spin, or one that was reset, spins six times and no more. Its rounds
/// make one hint, two, four, and so on; once it has spun six times it makes none
/// and stays as it is.
pub proof fn six_rounds(rounds: nat)
    ensures
        ({
            let spin = after_rounds(SpinWait::spec_new(), rounds);
            &&& spin.spec_yields() <==> rounds < 6
            &&& rounds < 6 ==> spin.hints() == pow2(rounds)
            &&& rounds >= 6 ==> spin.hints() == 0 && spin.spec_next() == spin
        }),
{
    rounds_so_far(rounds);
    if rounds < 6 {
        hints_are_powers(rounds as u8);
    }
}

proof fn rounds_so_far(rounds: nat)
    ensures
        after_rounds(SpinWait::spec_new(), rounds).0 == if rounds < 6 {
            rounds
        } else {
            6
        },
    decreases rounds,
{
    if rounds > 0 {
        rounds_so_far((rounds - 1) as nat);
    }
}

} // verus!

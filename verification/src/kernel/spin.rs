//! A bounded spin whose bound depends on the processor.
use vstd::arithmetic::power2::pow2;
use vstd::prelude::*;
use crate::kernel::cpu::{Hints, hints_are_powers, spec_hints, spin_round};

verus! {

/// A bounded spin. The bound is settled by the first round.
#[derive(Clone, Copy, PartialEq, Eq, Structural, Debug)]
pub struct Spin {
    pub iter: u8,
    pub max: Option<u8>,
}

/// The last round that is spun.
pub open spec fn last_round(max: Option<u8>, intel: bool) -> u8 {
    match max {
        Some(max) => max,
        None => if intel {
            10
        } else {
            5
        },
    }
}

impl Spin {
    /// What holds of every spin.
    pub open spec fn wf(self) -> bool {
        &&& self.max is Some ==> self.max->0 == 5 || self.max->0 == 10
        &&& self.iter <= 11
    }

    pub open spec fn spec_yields(self, intel: bool) -> bool {
        self.iter <= last_round(self.max, intel)
    }

    pub open spec fn spec_next(self, intel: bool) -> Self {
        Spin {
            iter: if self.spec_yields(intel) {
                (self.iter + 1) as u8
            } else {
                self.iter
            },
            max: Some(last_round(self.max, intel)),
        }
    }

    /// How many hints the next round makes.
    pub open spec fn hints(self, intel: bool) -> nat {
        if self.spec_yields(intel) {
            spec_hints(self.iter)
        } else {
            0
        }
    }

    pub open spec fn spec_new() -> Self {
        Spin { iter: 0, max: None }
    }

    #[verifier::when_used_as_spec(spec_new)]
    pub fn new() -> (spin: Self)
        ensures
            spin == Self::spec_new(),
            spin.wf(),
    {
        Spin { iter: 0, max: None }
    }

    /// Starts over. The bound stays.
    pub fn reset(&mut self)
        ensures
            *final(self) == (Spin { iter: 0, max: old(self).max }),
            old(self).wf() ==> final(self).wf(),
    {
        self.iter = 0;
    }

    /// Spins for twice as long as the last time, unless the bound is reached.
    /// Says whether it spun.
    pub fn yield_now(&mut self, intel: bool, made: &mut Hints) -> (spun: bool)
        requires
            old(self).wf(),
        ensures
            spun == old(self).spec_yields(intel),
            *final(self) == old(self).spec_next(intel),
            final(made).made() == old(made).made() + old(self).hints(intel),
            final(self).wf(),
    {
        let max: u8 = match self.max {
            Some(max) => max,
            None => if intel {
                10
            } else {
                5
            },
        };
        self.max = Some(max);
        if self.iter > max {
            false
        } else {
            spin_round(self.iter, made);
            self.iter = self.iter + 1;
            true
        }
    }
}

impl Default for Spin {
    fn default() -> (spin: Self)
        ensures
            spin == Self::spec_new(),
    {
        Self::new()
    }
}

/// The spin after a number of rounds.
pub open spec fn after_rounds(spin: Spin, intel: bool, rounds: nat) -> Spin
    decreases rounds,
{
    if rounds == 0 {
        spin
    } else {
        after_rounds(spin, intel, (rounds - 1) as nat).spec_next(intel)
    }
}

/// A spin at its beginning, fresh or reset, spins as many times as its bound says
/// and once more. Its rounds make one hint, two, four, and so on; once the bound
/// is reached it makes none, and all but the settled bound stays as it is.
proof fn rounds_so_far(spin: Spin, intel: bool, rounds: nat)
    requires
        spin.wf(),
        spin.iter == 0,
    ensures
        ({
            let last = last_round(spin.max, intel);
            let now = after_rounds(spin, intel, rounds);
            &&& now.iter == if rounds <= last {
                rounds as int
            } else {
                last + 1
            }
            &&& last_round(now.max, intel) == last
            &&& rounds > 0 ==> now.max == Some(last)
            &&& rounds <= last ==> now.hints(intel) == pow2(rounds)
        }),
    decreases rounds,
{
    if rounds > 0 {
        rounds_so_far(spin, intel, (rounds - 1) as nat);
    }
    if rounds <= last_round(spin.max, intel) {
        hints_are_powers(rounds as u8);
    }
}

/// A fresh spin spins eleven times on an Intel processor and six times on any
/// other, and no more. Its rounds make one hint, two, four, and so on; after the
/// last one it makes none and stays as it is.
pub proof fn fresh_spin_is_bounded(intel: bool, rounds: nat)
    ensures
        ({
            let bound = if intel {
                11nat
            } else {
                6nat
            };
            let spin = after_rounds(Spin::spec_new(), intel, rounds);
            &&& spin.spec_yields(intel) <==> rounds < bound
            &&& rounds < bound ==> spin.hints(intel) == pow2(rounds)
            &&& rounds >= bound ==> spin.hints(intel) == 0 && spin.spec_next(intel) == spin
        }),
{
    rounds_so_far(Spin::spec_new(), intel, rounds);
}

/// A reset gives all rounds back, and keeps the bound that was settled: the spin
/// spins as many times more as the bound says and once more, and its rounds make
/// one hint, two, four, and so on. After the last one it makes none and stays as
/// it is.
pub proof fn reset_starts_over(spin: Spin, intel: bool, rounds: nat)
    requires
        spin.wf(),
    ensures
        ({
            let again = Spin { iter: 0, max: spin.max };
            let last = last_round(spin.max, intel);
            let now = after_rounds(again, intel, rounds);
            &&& now.spec_yields(intel) <==> rounds <= last
            &&& rounds <= last ==> now.hints(intel) == pow2(rounds)
            &&& rounds > last ==> now.hints(intel) == 0 && now.spec_next(intel) == now
            &&& spin.max is Some ==> now.max == spin.max
        }),
{
    rounds_so_far(Spin { iter: 0, max: spin.max }, intel, rounds);
}

} // verus!

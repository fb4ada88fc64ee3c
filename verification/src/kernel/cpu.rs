//! What the spin loops ask of the processor.
use vstd::arithmetic::power2::{lemma2_to64, lemma_pow2_unfold, pow2};
use vstd::prelude::*;

verus! {

/// `std::hint::spin_loop` tells the processor that the caller is in a spin
/// loop. Nothing is claimed of it beyond that it returns.
pub assume_specification[ std::hint::spin_loop ]()
;

/// How many hints were made to the processor. Only [`spin_loop_hint`] makes
/// one.
pub struct Hints {
    made: Ghost<nat>,
}

impl Hints {
    pub closed spec fn made(self) -> nat {
        self.made@
    }

    /// No hint was made yet.
    pub fn new() -> (hints: Self)
        ensures
            hints.made() == 0,
    {
        Hints { made: Ghost(0) }
    }
}

/// Tells the processor that the caller is in a spin loop.
pub fn spin_loop_hint(hints: &mut Hints)
    ensures
        final(hints).made() == old(hints).made() + 1,
{
    std::hint::spin_loop();
    hints.made = Ghost(hints.made@ + 1);
}

/// The number of hints a round of spinning makes: two to the power of the
/// round.
pub open spec fn spec_hints(round: u8) -> nat
    decreases round,
{
    if round == 0 {
        1
    } else {
        2 * spec_hints((round - 1) as u8)
    }
}

/// A round makes as many hints as the power of two of its number.
pub proof fn hints_are_powers(round: u8)
    ensures
        spec_hints(round) == pow2(round as nat),
    decreases round,
{
    if round == 0 {
        lemma2_to64();
    } else {
        hints_are_powers((round - 1) as u8);
        lemma_pow2_unfold(round as nat);
    }
}

proof fn lemma_hints_grow(round: u8, last: u8)
    requires
        round <= last,
    ensures
        spec_hints(round) <= spec_hints(last),
    decreases last,
{
    if round < last {
        lemma_hints_grow(round, (last - 1) as u8);
    }
}

/// The number of hints a round of spinning makes.
pub fn hints(round: u8) -> (count: u32)
    requires
        round < 32,
    ensures
        count == spec_hints(round),
{
    let mut count: u32 = 1;
    let mut i: u8 = 0;
    while i < round
        invariant
            i <= round < 32,
            count == spec_hints(i),
        decreases round - i,
    {
        i = i + 1;
        proof {
            lemma_hints_grow(i, 31);
            reveal_with_fuel(spec_hints, 32);
        }
        count = count * 2;
    }
    count
}

/// Spins for one round.
pub fn spin_round(round: u8, made: &mut Hints)
    requires
        round < 32,
    ensures
        final(made).made() == old(made).made() + spec_hints(round),
{
    let count: u32 = hints(round);
    let mut i: u32 = 0;
    while i < count
        invariant
            i <= count,
            made.made() == old(made).made() + i,
        decreases count - i,
    {
        spin_loop_hint(made);
        i = i + 1;
    }
}

/// The processor has not been asked for its vendor yet.
pub const IS_UNINIT: usize = 0;

/// The processor is made by Intel.
pub const IS_INTEL: usize = 1;

/// The processor is not made by Intel.
pub const IS_NOT_INTEL: usize = 2;

/// The three registers that hold the name of the vendor, in the order in
/// which they spell it.
#[derive(Clone, Copy, PartialEq, Eq, Structural, Debug)]
pub struct Vendor {
    pub ebx: u32,
    pub edx: u32,
    pub ecx: u32,
}

/// The four bytes of a register, the lowest first.
pub open spec fn register_bytes(register: u32) -> Seq<u8> {
    seq![
        (register % 0x100) as u8,
        (register / 0x100 % 0x100) as u8,
        (register / 0x1_0000 % 0x100) as u8,
        (register / 0x100_0000) as u8,
    ]
}

/// The name that the registers spell.
pub open spec fn vendor_name(vendor: Vendor) -> Seq<u8> {
    register_bytes(vendor.ebx) + register_bytes(vendor.edx) + register_bytes(vendor.ecx)
}

/// The letters of `GenuineIntel`.
pub open spec fn genuine_intel() -> Seq<u8> {
    seq![71u8, 101, 110, 117, 105, 110, 101, 73, 110, 116, 101, 108]
}

/// What was found out about the processor so far.
#[derive(Clone, Copy, PartialEq, Eq, Structural, Debug)]
pub struct IsIntel {
    pub state: usize,
}

proof fn lemma_register(register: u32, a: u8, b: u8, c: u8, d: u8, packed: u32)
    requires
        packed == a + 0x100 * b + 0x1_0000 * c + 0x100_0000 * d,
    ensures
        register_bytes(register) =~= seq![a, b, c, d] <==> register == packed,
{
    assert(packed == a + 0x100 * b + 0x1_0000 * c + 0x100_0000 * d ==> packed % 0x100 == a
        && packed / 0x100 % 0x100 == b && packed / 0x1_0000 % 0x100 == c && packed / 0x100_0000
        == d) by (bit_vector);
    assert(register == register % 0x100 + 0x100 * (register / 0x100 % 0x100) + 0x1_0000 * (register
        / 0x1_0000 % 0x100) + 0x100_0000 * (register / 0x100_0000)) by (bit_vector);
    let bytes = register_bytes(register);
    if bytes =~= seq![a, b, c, d] {
        assert(bytes[0] == a && bytes[1] == b && bytes[2] == c && bytes[3] == d);
        assert(register / 0x100_0000 <= 0xff) by (bit_vector);
    }
}

impl IsIntel {
    pub fn new() -> (this: Self)
        ensures
            this.state == IS_UNINIT,
    {
        IsIntel { state: IS_UNINIT }
    }

    /// Whether the processor is made by Intel. The vendor is looked at on the
    /// first call only; there is none on a processor of another family.
    pub fn get(&mut self, vendor: Option<Vendor>) -> (intel: bool)
        ensures
            old(self).state != IS_UNINIT ==> {
                &&& intel == (old(self).state == IS_INTEL)
                &&& *final(self) == *old(self)
            },
            old(self).state == IS_UNINIT ==> {
                &&& intel <==> vendor is Some && vendor_name(vendor->0) =~= genuine_intel()
                &&& final(self).state == if intel {
                    IS_INTEL
                } else {
                    IS_NOT_INTEL
                }
            },
    {
        let state: usize = if self.state == IS_UNINIT {
            self.get_slow(vendor)
        } else {
            self.state
        };
        state == IS_INTEL
    }

    /// Looks at the vendor and keeps what it says.
    pub fn get_slow(&mut self, vendor: Option<Vendor>) -> (state: usize)
        ensures
            state == IS_INTEL <==> vendor is Some && vendor_name(vendor->0) =~= genuine_intel(),
            state == IS_INTEL || state == IS_NOT_INTEL,
            final(self).state == state,
    {
        let state: usize = match vendor {
            None => IS_NOT_INTEL,
            Some(vendor) => {
                proof {
                    let name = vendor_name(vendor);
                    lemma_register(vendor.ebx, 71, 101, 110, 117, 0x756e_6547);
                    lemma_register(vendor.edx, 105, 110, 101, 73, 0x4965_6e69);
                    lemma_register(vendor.ecx, 110, 116, 101, 108, 0x6c65_746e);
                    let g = genuine_intel();
                    assert(g.subrange(0, 4) =~= seq![71u8, 101, 110, 117]);
                    assert(g.subrange(4, 8) =~= seq![105u8, 110, 101, 73]);
                    assert(g.subrange(8, 12) =~= seq![110u8, 116, 101, 108]);
                    assert(name.subrange(0, 4) =~= register_bytes(vendor.ebx));
                    assert(name.subrange(4, 8) =~= register_bytes(vendor.edx));
                    assert(name.subrange(8, 12) =~= register_bytes(vendor.ecx));
                    assert(name =~= name.subrange(0, 4) + name.subrange(4, 8) + name.subrange(
                        8,
                        12,
                    ));
                    assert(g =~= g.subrange(0, 4) + g.subrange(4, 8) + g.subrange(8, 12));
                }
                if vendor.ebx == 0x756e_6547 && vendor.edx == 0x4965_6e69 && vendor.ecx
                    == 0x6c65_746e {
                    IS_INTEL
                } else {
                    IS_NOT_INTEL
                }
            },
        };
        self.state = state;
        state
    }
}

/// Whether the processor is made by Intel, going by what is known of it.
pub fn is_intel(known: &mut IsIntel, vendor: Option<Vendor>) -> (intel: bool)
    ensures
        old(known).state != IS_UNINIT ==> {
            &&& intel == (old(known).state == IS_INTEL)
            &&& *final(known) == *old(known)
        },
        old(known).state == IS_UNINIT ==> {
            &&& intel <==> vendor is Some && vendor_name(vendor->0) =~= genuine_intel()
            &&& final(known).state == if intel {
                IS_INTEL
            } else {
                IS_NOT_INTEL
            }
        },
{
    known.get(vendor)
}

} // verus!

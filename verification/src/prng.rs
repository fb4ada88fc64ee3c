//! Small random numbers by shifting and mixing.
use vstd::prelude::*;

verus! {

/// The number that follows `x`.
pub open spec fn spec_xorshift(x: u16) -> u16 {
    let a = x ^ (x << 7);
    let b = a ^ (a >> 9);
    b ^ (b << 8)
}

/// The number that follows `x`.
#[verifier::when_used_as_spec(spec_xorshift)]
pub fn xorshift(x: u16) -> (next: u16)
    ensures
        next == spec_xorshift(x),
{
    let mut x: u16 = x;
    x = x ^ (x << 7);
    x = x ^ (x >> 9);
    x = x ^ (x << 8);
    x
}

/// Two halves of a larger number.
pub open spec fn spec_compose(high: u16, low: u16) -> u32 {
    (65536 * high + low) as u32
}

/// A larger number from its two halves.
#[verifier::when_used_as_spec(spec_compose)]
pub fn compose(high: u16, low: u16) -> (number: u32)
    ensures
        number == spec_compose(high, low),
{
    assert(((high as u32) << 16) | (low as u32) == (65536 * high + low) as u32) by (bit_vector);
    ((high as u32) << 16) | (low as u32)
}

/// A sequence of random numbers.
#[derive(Clone, Copy, PartialEq, Eq, Structural, Debug)]
pub struct Prng(pub u16);

impl Prng {
    /// Draws the next number.
    pub fn xorshift16(&mut self) -> (number: u16)
        ensures
            number == xorshift(old(self).0),
            final(self).0 == number,
    {
        self.0 = xorshift(self.0);
        self.0
    }

    /// Draws two numbers, and makes one of them.
    pub fn gen_u32(&mut self) -> (number: u32)
        ensures
            number == compose(xorshift(old(self).0), xorshift(xorshift(old(self).0))),
            final(self).0 == xorshift(xorshift(old(self).0)),
    {
        let a: u16 = self.xorshift16();
        let b: u16 = self.xorshift16();
        compose(a, b)
    }
}

impl Default for Prng {
    fn default() -> (prng: Self)
        ensures
            prng == Prng(0),
    {
        Prng(0)
    }
}

/// No two numbers are followed by the same one. In particular a sequence that
/// does not begin at zero never comes to zero, and one that begins there never
/// leaves it.
pub proof fn xorshift_is_injective(x: u16, y: u16)
    ensures
        xorshift(x) == xorshift(y) ==> x == y,
        xorshift(x) == 0 <==> x == 0,
{
    assert(({
        let a = x ^ (x << 7);
        let b = a ^ (a >> 9);
        b ^ (b << 8)
    }) == ({
        let a = y ^ (y << 7);
        let b = a ^ (a >> 9);
        b ^ (b << 8)
    }) ==> x == y) by (bit_vector);
    assert(({
        let a = x ^ (x << 7);
        let b = a ^ (a >> 9);
        b ^ (b << 8)
    }) == 0 <==> x == 0) by (bit_vector);
}

} // verus!

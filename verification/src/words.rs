//! How a lock packs its flags and the address of a waiter into one word.
//!
//! The functions are stated by arithmetic on the word. The held flag is its
//! lowest bit. In a bare word the rest is the address of a waiter. In
//! a tagged word the next bit is a second flag. In a byte word the held flag
//! has the lowest byte to itself, so that it can be written on its own, and
//! another flag stands above that byte.
use vstd::prelude::*;

verus! {

pub const UNLOCKED: usize = 0;

pub const LOCKED: usize = 1;

/// The second flag of a tagged word.
pub const SECOND: usize = 2;

/// The flag of a byte word.
pub const BYTE_FLAG: usize = 256;

/// The mask of both flags of a tagged word.
pub const FLAGS: usize = 3;

/// The mask of the address in a tagged word.
pub const WAITERS: usize = !3usize;

/// The mask of the address in a byte word.
pub const ABOVE_FLAG: usize = !511usize;

/// The mask of a byte word without its two flags.
pub const BESIDE_FLAGS: usize = !257usize;

/// The mask that clears the held flag.
pub const NOT_LOCKED: usize = !1usize;

/// The mask that clears the second flag of a tagged word.
pub const NOT_SECOND: usize = !2usize;

/// The mask that clears the flag of a byte word.
pub const NOT_BYTE_FLAG: usize = !256usize;

pub open spec fn spec_is_locked(word: usize) -> bool {
    word % 2 == 1
}

/// Whether the word says that the lock is held.
#[verifier::when_used_as_spec(spec_is_locked)]
pub fn is_locked(word: usize) -> (held: bool)
    ensures
        held == spec_is_locked(word),
{
    assert((word & 1 != 0) == (word % 2 == 1)) by (bit_vector);
    word & LOCKED != 0
}

pub open spec fn spec_set_locked(word: usize) -> usize {
    if word % 2 == 1 {
        word
    } else {
        (word + 1) as usize
    }
}

/// The word with the held flag set.
#[verifier::when_used_as_spec(spec_set_locked)]
pub fn set_locked(word: usize) -> (set: usize)
    ensures
        set == spec_set_locked(word),
{
    assert((word | 1) == if word % 2 == 1 { word } else { (word + 1) as usize }) by (bit_vector);
    word | LOCKED
}

pub open spec fn spec_has_second(word: usize) -> bool {
    word / 2 % 2 == 1
}

/// Whether the second flag of a tagged word is set.
#[verifier::when_used_as_spec(spec_has_second)]
pub fn has_second(word: usize) -> (set: bool)
    ensures
        set == spec_has_second(word),
{
    assert((word & 2 != 0) == (word / 2 % 2 == 1)) by (bit_vector);
    word & SECOND != 0
}

pub open spec fn spec_set_second(word: usize) -> usize {
    if word / 2 % 2 == 1 {
        word
    } else {
        (word + 2) as usize
    }
}

/// The tagged word with the second flag set.
#[verifier::when_used_as_spec(spec_set_second)]
pub fn set_second(word: usize) -> (set: usize)
    ensures
        set == spec_set_second(word),
{
    assert((word | 2) == if word / 2 % 2 == 1 { word } else { (word + 2) as usize })
        by (bit_vector);
    word | SECOND
}

pub open spec fn spec_clear_second(word: usize) -> usize {
    if word / 2 % 2 == 1 {
        (word - 2) as usize
    } else {
        word
    }
}

/// The tagged word with the second flag clear.
#[verifier::when_used_as_spec(spec_clear_second)]
pub fn clear_second(word: usize) -> (clear: usize)
    ensures
        clear == spec_clear_second(word),
{
    proof {
        lemma_clear_second(word);
    }
    word & NOT_SECOND
}

pub open spec fn spec_newest(word: usize) -> usize {
    (word - word % 4) as usize
}

/// The address of the newest waiter in a tagged word, or 0.
#[verifier::when_used_as_spec(spec_newest)]
pub fn newest(word: usize) -> (node: usize)
    ensures
        node == spec_newest(word),
{
    assert(word & !3usize == (word - word % 4) as usize) by (bit_vector);
    word & WAITERS
}

pub open spec fn spec_with_newest(word: usize, node: usize) -> usize {
    (node + word % 4) as usize
}

/// The tagged word with another newest waiter.
#[verifier::when_used_as_spec(spec_with_newest)]
pub fn with_newest(word: usize, node: usize) -> (new: usize)
    requires
        node % 4 == 0,
    ensures
        new == spec_with_newest(word, node),
{
    assert(node % 4 == 0 ==> (word & 3usize) | node == (node + word % 4) as usize)
        by (bit_vector);
    (word & FLAGS) | node
}

/// Clearing the held flag of a word takes its lowest bit away.
pub proof fn lemma_clear_locked(word: usize)
    ensures
        word & NOT_LOCKED == word - word % 2,
{
    assert(word & !1usize == word - word % 2) by (bit_vector);
}

/// Clearing the second flag of a tagged word leaves its other bits alone.
pub proof fn lemma_clear_second(word: usize)
    ensures
        word & NOT_SECOND == spec_clear_second(word),
{
    assert(word & !2usize == if word / 2 % 2 == 1 { (word - 2) as usize } else { word })
        by (bit_vector);
}

/// The mask that clears the held flag is a word without that flag, and the one
/// that clears the second flag is a word with the held flag.
pub proof fn lemma_masks()
    ensures
        !is_locked(NOT_LOCKED),
        is_locked(NOT_SECOND),
        has_second(NOT_LOCKED),
        !has_second(NOT_SECOND),
{
    assert(!1usize % 2 == 0) by (bit_vector);
    assert(!2usize % 2 == 1) by (bit_vector);
    assert(!1usize / 2 % 2 == 1) by (bit_vector);
    assert(!2usize / 2 % 2 == 0) by (bit_vector);
}

/// The mask that clears the flag of a byte word is a word with the held flag.
pub proof fn lemma_flag_masks()
    ensures
        is_locked(NOT_BYTE_FLAG),
{
    assert(!256usize % 2 == 1) by (bit_vector);
}

/// A tagged word whose two flags are known.
proof fn lemma_tagged_parts(word: usize, node: usize, low: usize)
    requires
        node % 4 == 0,
        low < 4,
        word == node + low,
    ensures
        newest(word) == node,
        has_second(word) == (low >= 2),
        is_locked(word) == (low == 1 || low == 3),
{
    assert(word % 4 == low);
    assert(word / 2 % 2 == word % 4 / 2);
    assert(word % 2 == word % 4 % 2);
}

/// Replacing the newest waiter of a tagged word leaves its flags alone, and
/// changing a flag leaves the newest waiter and the other flag alone.
#[verifier::spinoff_prover]
pub proof fn lemma_tagged_word(word: usize, node: usize)
    requires
        node % 4 == 0,
    ensures
        newest(with_newest(word, node)) == node,
        has_second(with_newest(word, node)) == has_second(word),
        is_locked(with_newest(word, node)) == is_locked(word),
        newest(set_locked(word)) == newest(word),
        has_second(set_locked(word)) == has_second(word),
        newest(set_second(word)) == newest(word),
        has_second(set_second(word)),
        is_locked(set_second(word)) == is_locked(word),
        word & NOT_LOCKED == word - word % 2,
        newest(word & NOT_LOCKED) == newest(word),
        has_second(word & NOT_LOCKED) == has_second(word),
        word & NOT_SECOND == clear_second(word),
        newest(clear_second(word)) == newest(word),
        is_locked(clear_second(word)) == is_locked(word),
        !has_second(clear_second(word)),
        is_locked(word) ==> word.wrapping_sub(LOCKED) == word & NOT_LOCKED,
        word % 4 == (word % 2) + (if has_second(word) {
            2int
        } else {
            0
        }),
{
    let top = newest(word);
    let low = (word % 4) as usize;
    assert(top % 4 == 0 && top + low == word);
    assert(node + low <= usize::MAX && top + 3 <= usize::MAX) by {
        assert(usize::MAX % 4 == 3);
    }
    lemma_clear_locked(word);
    lemma_clear_second(word);
    lemma_tagged_parts(word, top, low);
    lemma_tagged_parts(with_newest(word, node), node, low);
    if low == 0 {
        lemma_tagged_parts(set_locked(word), top, 1);
        lemma_tagged_parts(set_second(word), top, 2);
        lemma_tagged_parts(word & NOT_LOCKED, top, 0);
        lemma_tagged_parts(clear_second(word), top, 0);
    } else if low == 1 {
        lemma_tagged_parts(set_locked(word), top, 1);
        lemma_tagged_parts(set_second(word), top, 3);
        lemma_tagged_parts(word & NOT_LOCKED, top, 0);
        lemma_tagged_parts(clear_second(word), top, 1);
    } else if low == 2 {
        lemma_tagged_parts(set_locked(word), top, 3);
        lemma_tagged_parts(set_second(word), top, 2);
        lemma_tagged_parts(word & NOT_LOCKED, top, 2);
        lemma_tagged_parts(clear_second(word), top, 0);
    } else {
        lemma_tagged_parts(set_locked(word), top, 3);
        lemma_tagged_parts(set_second(word), top, 3);
        lemma_tagged_parts(word & NOT_LOCKED, top, 2);
        lemma_tagged_parts(clear_second(word), top, 1);
    }
}

pub open spec fn spec_has_flag(word: usize) -> bool {
    word / 256 % 2 == 1
}

/// Whether the flag of a byte word is set.
#[verifier::when_used_as_spec(spec_has_flag)]
pub fn has_flag(word: usize) -> (set: bool)
    ensures
        set == spec_has_flag(word),
{
    assert((word & 256 != 0) == (word / 256 % 2 == 1)) by (bit_vector);
    word & BYTE_FLAG != 0
}

pub open spec fn spec_set_flag(word: usize) -> usize {
    if word / 256 % 2 == 1 {
        word
    } else {
        (word + 256) as usize
    }
}

/// The byte word with its flag set.
#[verifier::when_used_as_spec(spec_set_flag)]
pub fn set_flag(word: usize) -> (set: usize)
    ensures
        set == spec_set_flag(word),
{
    assert((word | 256) == if word / 256 % 2 == 1 { word } else { (word + 256) as usize })
        by (bit_vector);
    word | BYTE_FLAG
}

pub open spec fn spec_clear_flag(word: usize) -> usize {
    if word / 256 % 2 == 1 {
        (word - 256) as usize
    } else {
        word
    }
}

/// The byte word with its flag clear.
#[verifier::when_used_as_spec(spec_clear_flag)]
pub fn clear_flag(word: usize) -> (clear: usize)
    ensures
        clear == spec_clear_flag(word),
{
    proof {
        lemma_clear_flag(word);
    }
    word & NOT_BYTE_FLAG
}

/// Clearing the flag of a byte word leaves its other bits alone.
pub proof fn lemma_clear_flag(word: usize)
    ensures
        word & NOT_BYTE_FLAG == spec_clear_flag(word),
{
    assert(word & !256usize == if word / 256 % 2 == 1 { (word - 256) as usize } else { word })
        by (bit_vector);
}

pub open spec fn spec_flag_only(word: usize) -> usize {
    if word / 256 % 2 == 1 {
        256
    } else {
        0
    }
}

/// The flag of a byte word by itself.
#[verifier::when_used_as_spec(spec_flag_only)]
pub fn flag_only(word: usize) -> (flag: usize)
    ensures
        flag == spec_flag_only(word),
{
    assert((word & 256) == if word / 256 % 2 == 1 { 256usize } else { 0 }) by (bit_vector);
    word & BYTE_FLAG
}

pub open spec fn spec_above_flag(word: usize) -> usize {
    (word - word % 512) as usize
}

/// The address of the newest waiter in a byte word: all that stands above the
/// flag.
#[verifier::when_used_as_spec(spec_above_flag)]
pub fn above_flag(word: usize) -> (node: usize)
    ensures
        node == spec_above_flag(word),
{
    assert(word & !511usize == (word - word % 512) as usize) by (bit_vector);
    word & ABOVE_FLAG
}

pub open spec fn spec_with_above_flag(word: usize, node: usize) -> usize {
    (node + word % 512) as usize
}

/// The byte word with another newest waiter, and all the rest of it kept.
#[verifier::when_used_as_spec(spec_with_above_flag)]
pub fn with_above_flag(word: usize, node: usize) -> (new: usize)
    requires
        node % 512 == 0,
    ensures
        new == spec_with_above_flag(word, node),
{
    assert(node % 512 == 0 ==> (word & 511usize) | node == (node + word % 512) as usize)
        by (bit_vector);
    (word & 511) | node
}

/// Replacing the newest waiter of a byte word leaves its held flag alone.
pub proof fn lemma_with_above_flag(word: usize, node: usize)
    requires
        node % 512 == 0,
    ensures
        is_locked(with_above_flag(word, node)) == is_locked(word),
{
    assert(node % 512 == 0 ==> ((node + word % 512) as usize) % 2 == word % 2) by (bit_vector);
}

/// The flag of a byte word is the upper half of its nine lowest bits.
proof fn lemma_flag_of(word: usize)
    ensures
        has_flag(word) == (word % 512 >= 256),
        word % 512 == word % 256 + (if has_flag(word) {
            256int
        } else {
            0
        }),
{
}

/// A byte word whose nine lowest bits are known.
proof fn lemma_from_parts(word: usize, node: usize, low: usize)
    requires
        node % 512 == 0,
        low < 512,
        word == node + low,
    ensures
        above_flag(word) == node,
        has_flag(word) == (low >= 256),
{
    assert(word % 512 == low);
    lemma_flag_of(word);
}

/// Replacing the newest waiter of a byte word leaves its flags alone, and
/// changing a flag leaves the newest waiter and the other flag alone.
#[verifier::spinoff_prover]
#[verifier::rlimit(60)]
pub proof fn lemma_byte_word(word: usize, node: usize, byte: usize)
    requires
        node % 512 == 0,
        byte <= 1,
    ensures
        above_flag(with_above_flag(word, node)) == node,
        has_flag(with_above_flag(word, node)) == has_flag(word),
        above_flag(set_flag(word)) == above_flag(word),
        has_flag(set_flag(word)),
        above_flag(clear_flag(word)) == above_flag(word),
        !has_flag(clear_flag(word)),
        above_flag(set_locked(word)) == above_flag(word),
        has_flag(set_locked(word)) == has_flag(word),
        above_flag((word - word % 256 + byte) as usize) == above_flag(word),
        has_flag((word - word % 256 + byte) as usize) == has_flag(word),
        above_flag(flag_only(word)) == 0,
        has_flag(flag_only(word)) == has_flag(word),
{
    let top = above_flag(word);
    let low = (word % 512) as usize;
    assert(top % 512 == 0 && top + low == word);
    lemma_flag_of(word);
    assert(node + low <= usize::MAX && top + 511 <= usize::MAX) by {
        assert(usize::MAX % 512 == 511);
    }
    lemma_from_parts(with_above_flag(word, node), node, low);
    lemma_from_parts(
        set_flag(word),
        top,
        if low >= 256 {
            low
        } else {
            (low + 256) as usize
        },
    );
    lemma_from_parts(
        clear_flag(word),
        top,
        if low >= 256 {
            (low - 256) as usize
        } else {
            low
        },
    );
    assert(word % 2 == low % 2);
    lemma_from_parts(
        set_locked(word),
        top,
        if low % 2 == 1 {
            low
        } else {
            (low + 1) as usize
        },
    );
    lemma_from_parts(
        (word - word % 256 + byte) as usize,
        top,
        (low - word % 256 + byte) as usize,
    );
    lemma_from_parts(flag_only(word), 0, flag_only(word));
}

pub open spec fn spec_beside_flags(word: usize) -> usize {
    (word - word % 2 - spec_flag_only(word)) as usize
}

/// A byte word without its two flags: the address of the newest waiter, as
/// long as the rest of the lowest byte is 0.
#[verifier::when_used_as_spec(spec_beside_flags)]
pub fn beside_flags(word: usize) -> (node: usize)
    ensures
        node == spec_beside_flags(word),
{
    assert(word & !257usize == (word - word % 2 - (if word / 256 % 2 == 1 { 256usize } else { 0 })) as usize)
        by (bit_vector);
    word & BESIDE_FLAGS
}

pub open spec fn spec_with_beside_flags(word: usize, node: usize) -> usize {
    (node + word % 2 + spec_flag_only(word)) as usize
}

/// The byte word with another newest waiter, and only its two flags kept.
#[verifier::when_used_as_spec(spec_with_beside_flags)]
pub fn with_beside_flags(word: usize, node: usize) -> (new: usize)
    requires
        node % 512 == 0,
    ensures
        new == spec_with_beside_flags(word, node),
{
    assert(node % 512 == 0 ==> (word & 257usize) | node == (node + word % 2 + (if word / 256 % 2
        == 1 { 256usize } else { 0 })) as usize) by (bit_vector);
    (word & 257) | node
}

/// Replacing the newest waiter of a byte word leaves its held flag alone.
pub proof fn lemma_with_beside_flags(word: usize, node: usize)
    requires
        node % 512 == 0,
    ensures
        is_locked(with_beside_flags(word, node)) == is_locked(word),
{
    let flag = spec_flag_only(word);
    assert(node % 512 == 0 && (flag == 0 || flag == 256) ==> ((node + word % 2 + flag) as usize) % 2
        == word % 2) by (bit_vector);
}

/// A byte word with nothing in its lowest byte but the held flag.
#[verifier::spinoff_prover]
pub proof fn lemma_clean_word(word: usize, node: usize)
    requires
        node % 512 == 0,
        word % 256 <= 1,
    ensures
        beside_flags(word) == above_flag(word),
        with_beside_flags(word, node) == with_above_flag(word, node),
        with_above_flag(word, node) % 256 == word % 256,
        set_locked(word) % 256 == 1,
        set_flag(word) % 256 == word % 256,
        clear_flag(word) % 256 == word % 256,
{
    let low = word % 512;
    lemma_flag_of(word);
    assert(low == 0 || low == 1 || low == 256 || low == 257);
    assert(word % 2 == low % 2);
    assert(low == word % 2 + flag_only(word));
    assert(node + low <= usize::MAX) by {
        assert(usize::MAX % 512 == 511);
    }
    let new = with_above_flag(word, node);
    assert(new == node + low);
    assert(new % 256 == low % 256);
    assert(word % 256 == low % 256);
}

/// Clearing the flag of a byte word leaves its held flag alone.
pub proof fn lemma_clear_flag_locked(word: usize)
    ensures
        is_locked(clear_flag(word)) == is_locked(word),
{
}

pub open spec fn spec_above_locked(word: usize) -> usize {
    (word - word % 2) as usize
}

/// All but the lowest bit of a word.
#[verifier::when_used_as_spec(spec_above_locked)]
pub fn above_locked(word: usize) -> (node: usize)
    ensures
        node == spec_above_locked(word),
{
    proof {
        lemma_clear_locked(word);
    }
    word & NOT_LOCKED
}

pub open spec fn spec_with_above_locked(word: usize, node: usize) -> usize {
    (node + word % 2) as usize
}

/// The word with its lowest bit kept and all other bits replaced.
#[verifier::when_used_as_spec(spec_with_above_locked)]
pub fn with_above_locked(word: usize, node: usize) -> (new: usize)
    requires
        node % 2 == 0,
    ensures
        new == spec_with_above_locked(word, node),
{
    assert(node % 2 == 0 ==> (word & 1usize) | node == (node + word % 2) as usize) by (bit_vector);
    (word & LOCKED) | node
}

} // verus!

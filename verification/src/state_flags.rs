//! Widget state flags (hovered, pressed, ...), a set of up to eight states
//! stored as the bits of one byte.

use vstd::prelude::*;

verus! {

/// Bit `i` (0 or 1) of a byte.
pub open spec fn bit(b: u8, i: u8) -> u8 {
    (b >> i) & 1u8
}

/// Number of set bits of a byte.
pub open spec fn popcount(b: u8) -> nat {
    (bit(b, 0) + bit(b, 1) + bit(b, 2) + bit(b, 3) + bit(b, 4) + bit(b, 5) + bit(b, 6) + bit(
        b,
        7,
    )) as nat
}

/// Every bit set in `f` is set in `s`.
pub open spec fn subset_bits(f: u8, s: u8) -> bool {
    f & s == f
}

/// A combination of widget states. Each state is one bit; `NORMAL` is the
/// empty combination.
#[derive(Clone, Copy, Debug, Default, PartialEq, Eq, Hash, Structural)]
pub struct StateFlags {
    bits: u8,
}

impl View for StateFlags {
    type V = u8;

    closed spec fn view(&self) -> u8 {
        self.bits
    }
}

/// Every state of `f` is also a state of `s` (`f` is a subset of `s`).
pub open spec fn flags_subset(f: StateFlags, s: StateFlags) -> bool {
    subset_bits(f@, s@)
}

/// Number of states in a combination (its specificity).
pub open spec fn specificity(f: StateFlags) -> nat {
    popcount(f@)
}

impl StateFlags {
    /// The pointer is over the widget.
    pub fn hovered() -> (r: StateFlags)
        ensures
            r@ == 0b0000_0001,
    {
        StateFlags { bits: 0b0000_0001 }
    }

    /// The widget is being pressed.
    pub fn pressed() -> (r: StateFlags)
        ensures
            r@ == 0b0000_0010,
    {
        StateFlags { bits: 0b0000_0010 }
    }

    /// The widget is selected.
    pub fn selected() -> (r: StateFlags)
        ensures
            r@ == 0b0000_0100,
    {
        StateFlags { bits: 0b0000_0100 }
    }

    /// The widget is disabled.
    pub fn disabled() -> (r: StateFlags)
        ensures
            r@ == 0b0000_1000,
    {
        StateFlags { bits: 0b0000_1000 }
    }

    /// The widget has keyboard focus.
    pub fn focused() -> (r: StateFlags)
        ensures
            r@ == 0b0001_0000,
    {
        StateFlags { bits: 0b0001_0000 }
    }

    /// The widget is checked.
    pub fn checked() -> (r: StateFlags)
        ensures
            r@ == 0b0010_0000,
    {
        StateFlags { bits: 0b0010_0000 }
    }

    /// The widget holds an invalid value.
    pub fn invalid() -> (r: StateFlags)
        ensures
            r@ == 0b0100_0000,
    {
        StateFlags { bits: 0b0100_0000 }
    }

    /// The widget is expanded.
    pub fn expanded() -> (r: StateFlags)
        ensures
            r@ == 0b1000_0000,
    {
        StateFlags { bits: 0b1000_0000 }
    }

    /// No state at all (the empty combination).
    pub fn normal() -> (r: StateFlags)
        ensures
            r@ == 0,
    {
        StateFlags { bits: 0 }
    }


    /// The empty combination (same as `NORMAL`).
    pub fn empty() -> (r: StateFlags)
        ensures
            r@ == 0,
    {
        StateFlags { bits: 0 }
    }

    /// The combination whose bits are `bits`.
    pub fn from_bits_retain(bits: u8) -> (r: StateFlags)
        ensures
            r@ == bits,
    {
        StateFlags { bits }
    }

    /// The raw bits of the combination.
    pub fn bits(&self) -> (r: u8)
        ensures
            r == self@,
    {
        self.bits
    }

    /// Whether no state is set.
    pub fn is_empty(&self) -> (r: bool)
        ensures
            r == (self@ == 0),
    {
        self.bits == 0
    }

    /// Whether every state of `other` is also set in `self`.
    pub fn contains(&self, other: StateFlags) -> (r: bool)
        ensures
            r == flags_subset(other, *self),
    {
        let (a, b) = (self.bits, other.bits);
        assert((a & b == b) == (b & a == b)) by (bit_vector);
        a & b == b
    }

    /// Union of two combinations.
    pub fn union(self, other: StateFlags) -> (r: StateFlags)
        ensures
            r@ == self@ | other@,
    {
        StateFlags { bits: self.bits | other.bits }
    }

    /// Intersection of two combinations.
    pub fn intersection(self, other: StateFlags) -> (r: StateFlags)
        ensures
            r@ == self@ & other@,
    {
        StateFlags { bits: self.bits & other.bits }
    }

    /// Add every state of `other` to `self`.
    pub fn insert(&mut self, other: StateFlags)
        ensures
            final(self)@ == old(self)@ | other@,
    {
        self.bits = self.bits | other.bits;
    }

    /// Number of states in the combination.
    pub fn count_ones(&self) -> (r: u32)
        ensures
            r == specificity(*self),
    {
        let b = self.bits;
        proof {
            lemma_bits_are_binary(b);
        }
        let c: u32 = ((b >> 0u8) & 1u8) as u32 + ((b >> 1u8) & 1u8) as u32 + ((b >> 2u8) & 1u8)
            as u32 + ((b >> 3u8) & 1u8) as u32 + ((b >> 4u8) & 1u8) as u32 + ((b >> 5u8) & 1u8)
            as u32 + ((b >> 6u8) & 1u8) as u32 + ((b >> 7u8) & 1u8) as u32;
        c
    }
}

/// Each bit of a byte is 0 or 1, and bit 0 is the byte masked by 1.
pub proof fn lemma_bits_are_binary(b: u8)
    ensures
        bit(b, 0) <= 1,
        bit(b, 1) <= 1,
        bit(b, 2) <= 1,
        bit(b, 3) <= 1,
        bit(b, 4) <= 1,
        bit(b, 5) <= 1,
        bit(b, 6) <= 1,
        bit(b, 7) <= 1,
{
    assert(((b >> 0u8) & 1u8) <= 1 && ((b >> 1u8) & 1u8) <= 1 && ((b >> 2u8) & 1u8) <= 1 && ((b
        >> 3u8) & 1u8) <= 1 && ((b >> 4u8) & 1u8) <= 1 && ((b >> 5u8) & 1u8) <= 1 && ((b >> 6u8)
        & 1u8) <= 1 && ((b >> 7u8) & 1u8) <= 1) by (bit_vector);
}

/// A subset has each bit at most the bit of its superset.
pub proof fn lemma_subset_bitwise(f: u8, s: u8)
    requires
        subset_bits(f, s),
    ensures
        bit(f, 0) <= bit(s, 0),
        bit(f, 1) <= bit(s, 1),
        bit(f, 2) <= bit(s, 2),
        bit(f, 3) <= bit(s, 3),
        bit(f, 4) <= bit(s, 4),
        bit(f, 5) <= bit(s, 5),
        bit(f, 6) <= bit(s, 6),
        bit(f, 7) <= bit(s, 7),
{
    assert(((f >> 0u8) & 1u8) <= ((s >> 0u8) & 1u8) && ((f >> 1u8) & 1u8) <= ((s >> 1u8) & 1u8)
        && ((f >> 2u8) & 1u8) <= ((s >> 2u8) & 1u8) && ((f >> 3u8) & 1u8) <= ((s >> 3u8) & 1u8)
        && ((f >> 4u8) & 1u8) <= ((s >> 4u8) & 1u8) && ((f >> 5u8) & 1u8) <= ((s >> 5u8) & 1u8)
        && ((f >> 6u8) & 1u8) <= ((s >> 6u8) & 1u8) && ((f >> 7u8) & 1u8) <= ((s >> 7u8) & 1u8))
        by (bit_vector)
        requires
            f & s == f,
    ;
}

/// Two bytes with the same eight bits are equal.
pub proof fn lemma_bits_equal(f: u8, s: u8)
    requires
        bit(f, 0) == bit(s, 0),
        bit(f, 1) == bit(s, 1),
        bit(f, 2) == bit(s, 2),
        bit(f, 3) == bit(s, 3),
        bit(f, 4) == bit(s, 4),
        bit(f, 5) == bit(s, 5),
        bit(f, 6) == bit(s, 6),
        bit(f, 7) == bit(s, 7),
    ensures
        f == s,
{
    assert(f == s) by (bit_vector)
        requires
            ((f >> 0u8) & 1u8) == ((s >> 0u8) & 1u8),
            ((f >> 1u8) & 1u8) == ((s >> 1u8) & 1u8),
            ((f >> 2u8) & 1u8) == ((s >> 2u8) & 1u8),
            ((f >> 3u8) & 1u8) == ((s >> 3u8) & 1u8),
            ((f >> 4u8) & 1u8) == ((s >> 4u8) & 1u8),
            ((f >> 5u8) & 1u8) == ((s >> 5u8) & 1u8),
            ((f >> 6u8) & 1u8) == ((s >> 6u8) & 1u8),
            ((f >> 7u8) & 1u8) == ((s >> 7u8) & 1u8),
    ;
}

/// A subset of a combination never has more states than the combination.
pub proof fn lemma_subset_specificity_le(f: StateFlags, s: StateFlags)
    requires
        flags_subset(f, s),
    ensures
        specificity(f) <= specificity(s),
{
    lemma_subset_bitwise(f@, s@);
}

/// A subset with as many states as its superset is the superset itself.
pub proof fn lemma_subset_same_specificity_eq(f: StateFlags, s: StateFlags)
    requires
        flags_subset(f, s),
        specificity(f) == specificity(s),
    ensures
        f == s,
{
    lemma_subset_bitwise(f@, s@);
    lemma_bits_are_binary(f@);
    lemma_bits_are_binary(s@);
    lemma_bits_equal(f@, s@);
}

/// Every combination is a subset of itself.
pub proof fn lemma_subset_refl(f: StateFlags)
    ensures
        flags_subset(f, f),
{
    let b = f@;
    assert(b & b == b) by (bit_vector);
}

} // verus!

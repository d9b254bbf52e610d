//! The 256-bit unsigned word: the only value type the interpreter and the
//! storage area manipulate. A word is held as two 128-bit limbs; its
//! mathematical value is the view.

use vstd::prelude::*;

verus! {

/// One limb's worth of values: 2^128, the weight of the high limb.
pub open spec fn limb_base() -> nat {
    0x100000000000000000000000000000000nat
}

/// A 256-bit unsigned word, split into a high and a low 128-bit limb.
#[derive(Clone, Copy, Debug, PartialEq, Eq, Structural)]
pub struct Word {
    hi: u128,
    lo: u128,
}

impl View for Word {
    type V = nat;

    closed spec fn view(&self) -> nat {
        (self.hi * limb_base() + self.lo) as nat
    }
}

impl Word {
    /// The word with value `hi * 2^128 + lo`.
    pub fn new(hi: u128, lo: u128) -> (r: Word)
        ensures
            r@ == hi * limb_base() + lo,
    {
        Word { hi, lo }
    }

    /// The zero word.
    pub fn zero() -> (r: Word)
        ensures
            r@ == 0,
    {
        Word { hi: 0, lo: 0 }
    }

    /// The word with value one.
    pub fn one() -> (r: Word)
        ensures
            r@ == 1,
    {
        Word { hi: 0, lo: 1 }
    }

    /// The word holding a single byte's value.
    pub fn from_byte(b: u8) -> (r: Word)
        ensures
            r@ == b,
    {
        Word { hi: 0, lo: b as u128 }
    }

    /// Whether this word is zero.
    pub fn is_zero(&self) -> (r: bool)
        ensures
            r == (self@ == 0),
    {
        proof {
            lemma_limbs_pin_value(*self);
        }
        self.hi == 0 && self.lo == 0
    }

    /// Whether this word is one.
    pub fn is_one(&self) -> (r: bool)
        ensures
            r == (self@ == 1),
    {
        proof {
            lemma_limbs_pin_value(*self);
        }
        self.hi == 0 && self.lo == 1
    }

    /// The word as a storage-slot index, when it is small enough to be one:
    /// `Some(i)` exactly when the word's value is below `bound`.
    pub fn slot_index(&self, bound: usize) -> (r: Option<usize>)
        ensures
            match r {
                Some(i) => self@ == i && i < bound,
                None => self@ >= bound,
            },
    {
        proof {
            lemma_limbs_pin_value(*self);
        }
        if self.hi == 0 && self.lo < bound as u128 {
            Some(self.lo as usize)
        } else {
            None
        }
    }
}

/// A word with a nonzero high limb is at least 2^128, so small values
/// determine both limbs.
proof fn lemma_limbs_pin_value(w: Word)
    ensures
        w.hi == 0 ==> w@ == w.lo,
        w.hi >= 1 ==> w@ >= limb_base(),
{
    if w.hi >= 1 {
        assert(w.hi * limb_base() >= limb_base()) by (nonlinear_arith)
            requires
                w.hi >= 1,
        ;
    }
}

} // verus!

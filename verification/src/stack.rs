//! The operand stack: a fixed-capacity sequence of 256-bit words with a
//! top-of-stack cursor. Its view is the sequence of word values, bottom
//! first; the top of the stack is the last element of the view. A type
//! invariant keeps every stack within its capacity.

use vstd::prelude::*;

use crate::fault::Fault;
use crate::word::Word;

verus! {

/// The greatest number of words the operand stack can hold.
pub open spec fn stack_capacity() -> nat {
    1024
}

/// The values of a sequence of words.
pub open spec fn word_values(s: Seq<Word>) -> Seq<nat> {
    s.map_values(|w: Word| w@)
}

/// A bounded last-in-first-out stack of words.
#[derive(Debug)]
pub struct Stack {
    slots: Vec<Word>,
}

impl View for Stack {
    type V = Seq<nat>;

    closed spec fn view(&self) -> Seq<nat> {
        word_values(self.slots@)
    }
}

impl Stack {
    /// Every stack ever constructed stays within capacity.
    #[verifier::type_invariant]
    closed spec fn bounded(self) -> bool {
        self.slots@.len() <= stack_capacity()
    }

    /// The empty stack.
    pub fn new() -> (r: Stack)
        ensures
            r@ == Seq::<nat>::empty(),
    {
        let r = Stack { slots: Vec::new() };
        proof {
            assert(r@ =~= Seq::<nat>::empty());
        }
        r
    }

    /// How many words the stack holds.
    pub fn depth(&self) -> (r: usize)
        ensures
            r == self@.len(),
    {
        self.slots.len()
    }

    /// Push a word on top of the stack; a push on a full stack is refused
    /// with a fault and the stack is left as it was.
    pub fn push32(&mut self, value: Word) -> (r: Result<(), Fault>)
        ensures
            old(self)@.len() < stack_capacity() ==> r == Ok::<(), Fault>(()) && final(self)@ == old(
                self,
            )@.push(value@),
            old(self)@.len() >= stack_capacity() ==> r == Err::<(), Fault>(Fault::StackOverflow)
                && final(self)@ == old(self)@,
    {
        proof {
            use_type_invariant(&*self);
        }
        if self.slots.len() < 1024 {
            let mut slots: Vec<Word> = Vec::new();
            core::mem::swap(&mut slots, &mut self.slots);
            slots.push(value);
            core::mem::swap(&mut slots, &mut self.slots);
            proof {
                assert(self@ =~= old(self)@.push(value@));
            }
            Ok(())
        } else {
            Err(Fault::StackOverflow)
        }
    }

    /// Push a single byte's value as a word.
    pub fn push1(&mut self, value: u8) -> (r: Result<(), Fault>)
        ensures
            old(self)@.len() < stack_capacity() ==> r == Ok::<(), Fault>(()) && final(self)@ == old(
                self,
            )@.push(value as nat),
            old(self)@.len() >= stack_capacity() ==> r == Err::<(), Fault>(Fault::StackOverflow)
                && final(self)@ == old(self)@,
    {
        self.push32(Word::from_byte(value))
    }

    /// Pop the top word, or nothing when the stack is empty.
    pub fn pop(&mut self) -> (r: Option<Word>)
        ensures
            old(self)@.len() <= stack_capacity(),
            old(self)@.len() == 0 ==> r is None && final(self)@ == old(self)@,
            old(self)@.len() > 0 ==> match r {
                Some(w) => w@ == old(self)@.last() && final(self)@ == old(self)@.drop_last(),
                None => false,
            },
    {
        proof {
            use_type_invariant(&*self);
        }
        let mut slots: Vec<Word> = Vec::new();
        core::mem::swap(&mut slots, &mut self.slots);
        let r = slots.pop();
        core::mem::swap(&mut slots, &mut self.slots);
        proof {
            if old(self)@.len() > 0 {
                assert(self@ =~= old(self)@.drop_last());
            }
        }
        r
    }

    /// Exchange the two topmost words; with fewer than two present the stack
    /// is left as it was and a fault is reported.
    pub fn swap(&mut self) -> (r: Result<(), Fault>)
        ensures
            old(self)@.len() >= 2 ==> r == Ok::<(), Fault>(()) && final(self)@ == old(
                self,
            )@.update(old(self)@.len() - 1, old(self)@[old(self)@.len() - 2]).update(
                old(self)@.len() - 2,
                old(self)@.last(),
            ),
            old(self)@.len() < 2 ==> r == Err::<(), Fault>(Fault::StackUnderflow) && final(self)@
                == old(self)@,
    {
        proof {
            use_type_invariant(&*self);
        }
        let n = self.slots.len();
        if n >= 2 {
            let a = self.slots[n - 1];
            let b = self.slots[n - 2];
            self.slots[n - 1] = b;
            self.slots[n - 2] = a;
            proof {
                assert(self@ =~= old(self)@.update(old(self)@.len() - 1, old(self)@[old(
                    self,
                )@.len() - 2]).update(old(self)@.len() - 2, old(self)@.last()));
            }
            Ok(())
        } else {
            Err(Fault::StackUnderflow)
        }
    }
}

/// Stack discipline round trip: a push followed immediately by a pop yields
/// the pushed word and leaves the stack exactly as it was, for every word
/// value and every stack.
pub proof fn lemma_push_pop_round_trip(s: Seq<nat>, w: nat)
    ensures
        s.push(w).last() == w,
        s.push(w).drop_last() =~= s,
        s.push(w).drop_last().len() == s.len(),
{
}

} // verus!

//! Contract storage: an ordered, append-only list of word slots, one per
//! declared state variable, addressed by slot index. Its view is the
//! sequence of the slots' values in declaration order.

use vstd::prelude::*;

use crate::word::Word;

verus! {

use crate::stack::word_values;

/// The persistent storage area of one contract.
#[derive(Debug)]
pub struct ContractStorage {
    slots: Vec<Word>,
}

impl View for ContractStorage {
    type V = Seq<nat>;

    closed spec fn view(&self) -> Seq<nat> {
        word_values(self.slots@)
    }
}

impl ContractStorage {
    /// Storage with no slots allocated.
    pub fn new() -> (r: ContractStorage)
        ensures
            r@ == Seq::<nat>::empty(),
    {
        let r = ContractStorage { slots: Vec::new() };
        proof {
            assert(r@ =~= Seq::<nat>::empty());
        }
        r
    }

    /// How many slots are allocated.
    pub fn len(&self) -> (r: usize)
        ensures
            r == self@.len(),
    {
        self.slots.len()
    }

    /// Append one zero-initialised slot; storage never shrinks.
    pub fn push_zero_slot(&mut self)
        ensures
            final(self)@ == old(self)@.push(0),
    {
        self.slots.push(Word::zero());
        proof {
            assert(self@ =~= old(self)@.push(0nat));
        }
    }

    /// Read the word in slot `key`.
    pub fn read(&self, key: usize) -> (r: Word)
        requires
            key < self@.len(),
        ensures
            r@ == self@[key as int],
    {
        self.slots[key]
    }

    /// Overwrite the word in slot `key`.
    pub fn write(&mut self, key: usize, value: Word)
        requires
            key < old(self)@.len(),
        ensures
            final(self)@ == old(self)@.update(key as int, value@),
    {
        self.slots[key] = value;
        proof {
            assert(self@ =~= old(self)@.update(key as int, value@));
        }
    }

    /// An identical snapshot of this storage.
    pub fn snapshot(&self) -> (r: ContractStorage)
        ensures
            r@ == self@,
    {
        let mut slots: Vec<Word> = Vec::new();
        let mut i: usize = 0;
        while i < self.slots.len()
            invariant
                i <= self.slots@.len(),
                slots@ == self.slots@.take(i as int),
            decreases self.slots@.len() - i,
        {
            slots.push(self.slots[i]);
            proof {
                assert(slots@ =~= self.slots@.take(i + 1 as int));
            }
            i = i + 1;
        }
        proof {
            assert(slots@ =~= self.slots@);
        }
        ContractStorage { slots }
    }
}

} // verus!

//! The opcode set and the interpreter: a fetch-execute loop over a
//! straight-line program, operating on an operand stack and a storage
//! snapshot. The meaning of a program is given by the specification
//! interpreter `run_from`; the executable loop is proved to agree with it.

use vstd::prelude::*;

use crate::fault::Fault;
use crate::stack::Stack;
use crate::storage::ContractStorage;
use crate::word::Word;

verus! {

use crate::stack::stack_capacity;

/// One instruction of the modeled machine.
#[derive(Clone, Copy, Debug, PartialEq, Eq, Structural)]
pub enum OP {
    /// Push a literal word.
    PUSH32(Word),
    /// Push a literal byte as a word.
    PUSH1(u8),
    /// Discard the top of the stack.
    POP,
    /// Duplicate the top of the stack.
    DUP1,
    /// Exchange the two topmost words.
    SWAP1,
    /// Pop a key and push the storage word it addresses.
    SLOAD,
    /// Pop a key, then a value, and write the value to the addressed slot.
    SSTORE,
    /// Pop a value and push one if it was zero, else zero.
    ISZERO,
    /// Halt; the remaining stack is the return buffer.
    RETURN,
}

/// Boolean-style negation over words: one for zero, zero for anything else.
pub open spec fn iszero_value(w: nat) -> nat {
    if w == 0 {
        1
    } else {
        0
    }
}

/// The effect of one non-halting instruction on the stack and the storage,
/// or the fault it raises.
pub open spec fn step(op: OP, stack: Seq<nat>, storage: Seq<nat>) -> Result<
    (Seq<nat>, Seq<nat>),
    Fault,
> {
    match op {
        OP::PUSH32(w) => if stack.len() < stack_capacity() {
            Ok((stack.push(w@), storage))
        } else {
            Err(Fault::StackOverflow)
        },
        OP::PUSH1(b) => if stack.len() < stack_capacity() {
            Ok((stack.push(b as nat), storage))
        } else {
            Err(Fault::StackOverflow)
        },
        OP::POP => if stack.len() == 0 {
            Err(Fault::StackUnderflow)
        } else {
            Ok((stack.drop_last(), storage))
        },
        OP::DUP1 => if stack.len() == 0 {
            Err(Fault::StackUnderflow)
        } else if stack.len() >= stack_capacity() {
            Err(Fault::StackOverflow)
        } else {
            Ok((stack.push(stack.last()), storage))
        },
        OP::SWAP1 => if stack.len() < 2 {
            Err(Fault::StackUnderflow)
        } else {
            Ok(
                (
                    stack.update(stack.len() - 1, stack[stack.len() - 2]).update(
                        stack.len() - 2,
                        stack.last(),
                    ),
                    storage,
                ),
            )
        },
        OP::SLOAD => if stack.len() == 0 {
            Err(Fault::StackUnderflow)
        } else if stack.last() >= storage.len() {
            Err(Fault::StorageAddressOutOfRange)
        } else {
            Ok((stack.drop_last().push(storage[stack.last() as int]), storage))
        },
        OP::SSTORE => if stack.len() < 2 {
            Err(Fault::StackUnderflow)
        } else if stack.last() >= storage.len() {
            Err(Fault::StorageAddressOutOfRange)
        } else {
            Ok(
                (
                    stack.drop_last().drop_last(),
                    storage.update(stack.last() as int, stack[stack.len() - 2]),
                ),
            )
        },
        OP::ISZERO => if stack.len() == 0 {
            Err(Fault::StackUnderflow)
        } else {
            Ok((stack.drop_last().push(iszero_value(stack.last())), storage))
        },
        OP::RETURN => Ok((stack, storage)),
    }
}

/// The result of running `prog` from instruction `pc` on the given stack and
/// storage: the final stack and storage, or the first fault raised. A
/// program halts when the counter leaves the program or a `RETURN` executes.
pub open spec fn run_from(prog: Seq<OP>, pc: int, stack: Seq<nat>, storage: Seq<nat>) -> Result<
    (Seq<nat>, Seq<nat>),
    Fault,
>
    decreases prog.len() - pc,
{
    if pc < 0 || pc >= prog.len() {
        Ok((stack, storage))
    } else if prog[pc] is RETURN {
        Ok((stack, storage))
    } else {
        match step(prog[pc], stack, storage) {
            Ok(next) => run_from(prog, pc + 1, next.0, next.1),
            Err(f) => Err(f),
        }
    }
}

/// The interpreter: a program, its counter, and the operand stack it works
/// on. It borrows no storage of its own; a run takes a storage snapshot and
/// yields the resulting one.
#[derive(Debug)]
pub struct VM {
    pub stack: Stack,
    pub program: Vec<OP>,
    pub pc: usize,
}

impl VM {
    /// A fresh interpreter over `program`, with an empty stack and the
    /// counter at the first instruction.
    pub fn new(program: Vec<OP>) -> (r: VM)
        ensures
            r.program@ == program@,
            r.pc == 0,
            r.stack@ == Seq::<nat>::empty(),
    {
        VM { stack: Stack::new(), program, pc: 0 }
    }

    /// Run the program to its end, a `RETURN`, or the first fault. The
    /// result is exactly what the specification interpreter gives for the
    /// initial state; the caller's storage snapshot is consumed and a new
    /// one handed back on success.
    #[verifier::loop_isolation(false)]
    pub fn run(&mut self, storage: ContractStorage) -> (r: Result<ContractStorage, Fault>)
        ensures
            final(self).program@ == old(self).program@,
            match r {
                Ok(sg) => run_from(
                    old(self).program@,
                    old(self).pc as int,
                    old(self).stack@,
                    storage@,
                ) == Ok::<(Seq<nat>, Seq<nat>), Fault>((final(self).stack@, sg@)),
                Err(f) => run_from(
                    old(self).program@,
                    old(self).pc as int,
                    old(self).stack@,
                    storage@,
                ) == Err::<(Seq<nat>, Seq<nat>), Fault>(f),
            },
    {
        let mut storage = storage;
        let ghost prog0 = self.program@;
        let ghost pc0 = self.pc as int;
        let ghost stack0 = self.stack@;
        let ghost storage0 = storage@;
        while self.pc < self.program.len()
            invariant
                self.program@ == prog0,
                run_from(prog0, pc0, stack0, storage0) == run_from(
                    prog0,
                    self.pc as int,
                    self.stack@,
                    storage@,
                ),
            decreases self.program@.len() - self.pc,
        {
            let ghost st = self.stack@;
            let ghost sg = storage@;
            let op = self.program[self.pc];
            match op {
                OP::PUSH32(word) => {
                    match self.stack.push32(word) {
                        Ok(_) => {},
                        Err(f) => {
                            return Err(f);
                        },
                    }
                    self.pc = self.pc + 1;
                },
                OP::PUSH1(value) => {
                    match self.stack.push1(value) {
                        Ok(_) => {},
                        Err(f) => {
                            return Err(f);
                        },
                    }
                    self.pc = self.pc + 1;
                },
                OP::POP => {
                    match self.stack.pop() {
                        Some(_) => {},
                        None => {
                            return Err(Fault::StackUnderflow);
                        },
                    }
                    self.pc = self.pc + 1;
                },
                OP::DUP1 => {
                    let value = match self.stack.pop() {
                        Some(v) => v,
                        None => {
                            return Err(Fault::StackUnderflow);
                        },
                    };
                    match self.stack.push32(value) {
                        Ok(_) => {},
                        Err(_) => {
                            proof {
                                assert(false);
                            }
                            return Err(Fault::StackOverflow);
                        },
                    }
                    match self.stack.push32(value) {
                        Ok(_) => {},
                        Err(f) => {
                            return Err(f);
                        },
                    }
                    proof {
                        assert(self.stack@ =~= st.push(st.last()));
                    }
                    self.pc = self.pc + 1;
                },
                OP::SWAP1 => {
                    match self.stack.swap() {
                        Ok(_) => {},
                        Err(f) => {
                            return Err(f);
                        },
                    }
                    self.pc = self.pc + 1;
                },
                OP::SLOAD => {
                    let key = match self.stack.pop() {
                        Some(v) => v,
                        None => {
                            return Err(Fault::StackUnderflow);
                        },
                    };
                    let i = match key.slot_index(storage.len()) {
                        Some(i) => i,
                        None => {
                            return Err(Fault::StorageAddressOutOfRange);
                        },
                    };
                    let val = storage.read(i);
                    match self.stack.push32(val) {
                        Ok(_) => {},
                        Err(_) => {
                            proof {
                                assert(false);
                            }
                            return Err(Fault::StackOverflow);
                        },
                    }
                    self.pc = self.pc + 1;
                },
                OP::SSTORE => {
                    let key = match self.stack.pop() {
                        Some(v) => v,
                        None => {
                            return Err(Fault::StackUnderflow);
                        },
                    };
                    let value = match self.stack.pop() {
                        Some(v) => v,
                        None => {
                            return Err(Fault::StackUnderflow);
                        },
                    };
                    let i = match key.slot_index(storage.len()) {
                        Some(i) => i,
                        None => {
                            return Err(Fault::StorageAddressOutOfRange);
                        },
                    };
                    storage.write(i, value);
                    self.pc = self.pc + 1;
                },
                OP::RETURN => {
                    self.pc = self.pc + 1;
                    return Ok(storage);
                },
                OP::ISZERO => {
                    let top = match self.stack.pop() {
                        Some(v) => v,
                        None => {
                            return Err(Fault::StackUnderflow);
                        },
                    };
                    let bit = if top.is_zero() {
                        Word::one()
                    } else {
                        Word::zero()
                    };
                    match self.stack.push32(bit) {
                        Ok(_) => {},
                        Err(_) => {
                            proof {
                                assert(false);
                            }
                            return Err(Fault::StackOverflow);
                        },
                    }
                    self.pc = self.pc + 1;
                },
            }
        }
        Ok(storage)
    }
}

/// `ISZERO` maps zero to one and every nonzero word to zero, and doing it
/// twice over the two-valued domain gives the word back.
pub proof fn lemma_iszero_involution(w: nat)
    ensures
        w == 0 ==> iszero_value(w) == 1,
        w != 0 ==> iszero_value(w) == 0,
        w == 0 || w == 1 ==> iszero_value(iszero_value(w)) == w,
{
}

/// Storage changes only through stores: every successful run keeps the
/// number of allocated slots, and a program with no store instruction from
/// `pc` on hands the storage back exactly as it was given.
pub proof fn lemma_storage_changes_only_by_stores(
    prog: Seq<OP>,
    pc: int,
    stack: Seq<nat>,
    storage: Seq<nat>,
)
    ensures
        run_from(prog, pc, stack, storage) matches Ok(r) ==> r.1.len() == storage.len(),
        (forall|i: int| pc <= i < prog.len() ==> !(prog[i] is SSTORE)) ==> (run_from(
            prog,
            pc,
            stack,
            storage,
        ) matches Ok(r) ==> r.1 == storage),
    decreases prog.len() - pc,
{
    if pc < 0 || pc >= prog.len() {
    } else if prog[pc] is RETURN {
    } else {
        match step(prog[pc], stack, storage) {
            Ok(next) => {
                lemma_storage_changes_only_by_stores(prog, pc + 1, next.0, next.1);
                if prog[pc] is SSTORE {
                    assert(next.1.len() == storage.len());
                } else {
                    assert(next.1 == storage);
                }
            },
            Err(_) => {},
        }
    }
}

/// One `SSTORE` step with key `k` and value `v` consumes both operands,
/// writes `v` to slot `k`, and leaves every other slot unchanged.
pub proof fn lemma_sstore_updates_one_slot(stack: Seq<nat>, storage: Seq<nat>)
    requires
        stack.len() >= 2,
        stack.last() < storage.len(),
    ensures
        step(OP::SSTORE, stack, storage) == Ok::<(Seq<nat>, Seq<nat>), Fault>(
            (
                stack.drop_last().drop_last(),
                storage.update(stack.last() as int, stack[stack.len() - 2]),
            ),
        ),
        storage.update(stack.last() as int, stack[stack.len() - 2])[stack.last() as int] == stack[
            stack.len() - 2
        ],
        forall|j: int|
            0 <= j < storage.len() && j != stack.last() ==> storage.update(
                stack.last() as int,
                stack[stack.len() - 2],
            )[j] == storage[j],
{
}

} // verus!

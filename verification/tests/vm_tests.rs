use tinyvm::fault::Fault;
use tinyvm::storage::ContractStorage;
use tinyvm::vm::{OP, VM};
use tinyvm::word::Word;

fn storage_with_slots(n: usize) -> ContractStorage {
    let mut storage = ContractStorage::new();
    for _ in 0..n {
        storage.push_zero_slot();
    }
    storage
}

#[test]
fn iszero_maps_zero_to_one_and_nonzero_to_zero() {
    let mut vm = VM::new(vec![OP::PUSH1(0), OP::ISZERO]);
    vm.run(storage_with_slots(0)).unwrap();
    assert_eq!(vm.stack.pop(), Some(Word::one()));

    let mut vm = VM::new(vec![OP::PUSH1(7), OP::ISZERO]);
    vm.run(storage_with_slots(0)).unwrap();
    assert_eq!(vm.stack.pop(), Some(Word::zero()));
}

#[test]
fn iszero_twice_is_identity_on_zero_and_one() {
    let mut vm = VM::new(vec![OP::PUSH1(0), OP::ISZERO, OP::ISZERO]);
    vm.run(storage_with_slots(0)).unwrap();
    assert_eq!(vm.stack.pop(), Some(Word::zero()));

    let mut vm = VM::new(vec![OP::PUSH1(1), OP::ISZERO, OP::ISZERO]);
    vm.run(storage_with_slots(0)).unwrap();
    assert_eq!(vm.stack.pop(), Some(Word::one()));
}

#[test]
fn sstore_writes_exactly_the_addressed_slot() {
    let value = Word::new(0, 99);
    let mut vm = VM::new(vec![OP::PUSH32(value), OP::PUSH1(1), OP::SSTORE]);
    let out = vm.run(storage_with_slots(3)).unwrap();
    assert_eq!(out.read(0), Word::zero());
    assert_eq!(out.read(1), value);
    assert_eq!(out.read(2), Word::zero());
}

#[test]
fn sload_pushes_the_stored_word() {
    let mut storage = storage_with_slots(2);
    storage.write(1, Word::new(0, 5));
    let mut vm = VM::new(vec![OP::PUSH1(1), OP::SLOAD]);
    vm.run(storage).unwrap();
    assert_eq!(vm.stack.pop(), Some(Word::new(0, 5)));
}

#[test]
fn sload_out_of_range_is_a_fault() {
    let mut vm = VM::new(vec![OP::PUSH1(5), OP::SLOAD]);
    assert_eq!(vm.run(storage_with_slots(1)).err(), Some(Fault::StorageAddressOutOfRange));
}

#[test]
fn pop_on_empty_stack_is_a_fault() {
    let mut vm = VM::new(vec![OP::POP]);
    assert_eq!(vm.run(storage_with_slots(0)).err(), Some(Fault::StackUnderflow));
}

#[test]
fn return_halts_the_program() {
    let mut vm = VM::new(vec![OP::PUSH1(1), OP::RETURN, OP::PUSH1(2)]);
    vm.run(storage_with_slots(0)).unwrap();
    assert_eq!(vm.stack.pop(), Some(Word::one()));
    assert_eq!(vm.stack.pop(), None);
}

#[test]
fn dup1_duplicates_the_top_word() {
    let mut vm = VM::new(vec![OP::PUSH1(1), OP::PUSH1(2), OP::DUP1]);
    vm.run(storage_with_slots(0)).unwrap();
    assert_eq!(vm.stack.pop(), Some(Word::new(0, 2)));
    assert_eq!(vm.stack.pop(), Some(Word::new(0, 2)));
    assert_eq!(vm.stack.pop(), Some(Word::new(0, 1)));
}

#[test]
fn swap1_exchanges_the_two_topmost_words() {
    let mut vm = VM::new(vec![OP::PUSH1(1), OP::PUSH1(2), OP::SWAP1]);
    vm.run(storage_with_slots(0)).unwrap();
    assert_eq!(vm.stack.pop(), Some(Word::new(0, 1)));
    assert_eq!(vm.stack.pop(), Some(Word::new(0, 2)));
}

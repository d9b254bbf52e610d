//! A compiler and stack-machine interpreter for a small contract-oriented
//! language: function bodies are lowered to straight-line opcode sequences,
//! executed against a snapshot of the contract's word-addressed storage, and
//! dispatched by a hashed signature selector.

pub mod ast;
pub mod codegen;
pub mod contract;
pub mod fault;
pub mod stack;
pub mod selector;
pub mod storage;
pub mod vm;
pub mod word;

//! Contracts and the call protocol: a contract owns its storage, a
//! compile-time variable-to-slot table, and a selector-keyed function table.
//! A call looks the selector up, runs the function's code on a storage
//! snapshot, commits or discards the candidate storage by the function's
//! mutability, and decodes the remaining stack into typed return values.

use vstd::prelude::*;

use crate::ast::{Expression, Parameter, Type};
use crate::fault::Fault;
use crate::storage::ContractStorage;
use crate::vm::{run_from, OP, VM};

verus! {

/// A compiled function's declared visibility.
#[derive(Clone, Copy, Debug, PartialEq, Eq, Structural)]
pub enum FuncVisibility {
    Public,
    Private,
    Internal,
    External,
}

/// A compiled function's declared mutability; `View` and `Pure` make the
/// call protocol discard the candidate storage.
#[derive(Clone, Copy, Debug, PartialEq, Eq, Structural)]
pub enum FuncMutability {
    Constant,
    Nonpayable,
    Payable,
    View,
    Pure,
}

/// Whether a function's storage writes are discarded at commit time.
pub open spec fn is_view_or_pure(m: FuncMutability) -> bool {
    m == FuncMutability::View || m == FuncMutability::Pure
}

/// One compiled function: its opcode sequence and its declared attributes
/// and return parameters.
#[derive(Debug)]
pub struct Function {
    pub program: Vec<OP>,
    pub visibility: FuncVisibility,
    pub mutability: FuncMutability,
    pub returns: Vec<Parameter>,
}

/// The first function stored under `key`, if any; entries are prepended, so
/// the first match is the latest definition.
pub open spec fn lookup_fn(fns: Seq<(String, Function)>, key: Seq<char>) -> Option<Function>
    decreases fns.len(),
{
    if fns.len() == 0 {
        None
    } else if fns[0].0@ == key {
        Some(fns[0].1)
    } else {
        lookup_fn(fns.drop_first(), key)
    }
}

/// The first slot stored under `key`, if any; as with functions, the first
/// match is the latest definition.
pub open spec fn lookup_var(vars: Seq<(String, usize)>, key: Seq<char>) -> Option<usize>
    decreases vars.len(),
{
    if vars.len() == 0 {
        None
    } else if vars[0].0@ == key {
        Some(vars[0].1)
    } else {
        lookup_var(vars.drop_first(), key)
    }
}

/// Prepending an entry shadows the old binding of its key and leaves every
/// other key's binding as it was.
pub proof fn lemma_lookup_fn_prepend(fns: Seq<(String, Function)>, entry: (String, Function), k: Seq<char>)
    ensures
        lookup_fn(seq![entry] + fns, k) == if k == entry.0@ {
            Some(entry.1)
        } else {
            lookup_fn(fns, k)
        },
{
    let s = seq![entry] + fns;
    assert(s[0] == entry);
    assert(s.drop_first() =~= fns);
}

/// Prepending a variable binding shadows the old slot of its name and
/// leaves every other name's slot as it was.
pub proof fn lemma_lookup_var_prepend(vars: Seq<(String, usize)>, entry: (String, usize), k: Seq<char>)
    ensures
        lookup_var(seq![entry] + vars, k) == if k == entry.0@ {
            Some(entry.1)
        } else {
            lookup_var(vars, k)
        },
{
    let s = seq![entry] + vars;
    assert(s[0] == entry);
    assert(s.drop_first() =~= vars);
}

/// The decoded return values for the declared return parameters, popping
/// one word from the stack per parameter in declared order. A word decodes
/// to a boolean literal — true exactly for the word one — when the
/// parameter's type is boolean; a parameter of any other type consumes its
/// word and yields nothing, and parameters beyond what the stack holds are
/// skipped.
pub open spec fn decode_returns(params: Seq<Parameter>, stack: Seq<nat>) -> Seq<Expression>
    decreases params.len(),
{
    if params.len() == 0 || stack.len() == 0 {
        Seq::empty()
    } else {
        let w = stack.last();
        let rest = decode_returns(params.drop_first(), stack.drop_last());
        if params[0].ty matches Expression::Type(Type::Bool) {
            seq![Expression::BoolLiteral(w == 1)] + rest
        } else {
            rest
        }
    }
}

/// What a call produces. A miss and a fault both hand the untouched
/// contract back, each observably distinct from a successful call.
#[derive(Debug)]
pub enum CallResult {
    /// No function matches the identifier; the contract is unchanged and no
    /// values are returned.
    NoMatch(Contract),
    /// The matched function ran to completion: the post-commit contract and
    /// the decoded return values.
    Executed(Contract, Vec<Expression>),
    /// The matched function faulted; the contract is unchanged and prior
    /// storage is untouched.
    Fault(Contract, Fault),
}

/// A compiled contract: its storage, its compile-time variable-to-slot
/// table, and its selector-keyed function table.
#[derive(Debug)]
pub struct Contract {
    pub name: String,
    pub functions: Vec<(String, Function)>,
    pub variable_map: Vec<(String, usize)>,
    pub storage: ContractStorage,
}

impl Contract {
    /// A fresh contract with the given name and nothing declared.
    pub fn new(name: String) -> (r: Contract)
        ensures
            r.name == name,
            r.functions@ == Seq::<(String, Function)>::empty(),
            r.variable_map@ == Seq::<(String, usize)>::empty(),
            r.storage@ == Seq::<nat>::empty(),
    {
        Contract {
            name,
            functions: Vec::new(),
            variable_map: Vec::new(),
            storage: ContractStorage::new(),
        }
    }

    /// Call the function stored under `calldata`. An unknown identifier is
    /// a silent miss: the contract comes back unchanged with no values. A
    /// match runs the function's code on a snapshot of storage; a faulting
    /// run hands the contract back unchanged, and a completed run commits
    /// the candidate storage unless the function is view or pure, whose
    /// writes are discarded. The words left on the stack decode to the
    /// declared return values.
    pub fn call(self, calldata: &str) -> (r: CallResult)
        ensures
            match lookup_fn(self.functions@, calldata@) {
                None => r == CallResult::NoMatch(self),
                Some(f) => match run_from(f.program@, 0, Seq::<nat>::empty(), self.storage@) {
                    Err(ft) => r == CallResult::Fault(self, ft),
                    Ok(end) => r matches CallResult::Executed(c, vals) && c.name == self.name
                        && c.functions == self.functions && c.variable_map == self.variable_map
                        && vals@ == decode_returns(f.returns@, end.0) && c.storage@ == (
                    if is_view_or_pure(f.mutability) {
                        self.storage@
                    } else {
                        end.1
                    }),
                },
            },
    {
        let key: String = calldata.to_owned();
        let found = find_index(&self.functions, &key);
        let at = match found {
            Some(at) => at,
            None => {
                return CallResult::NoMatch(self);
            },
        };
        let ghost f = lookup_fn(self.functions@, calldata@).unwrap();
        let program = clone_program(&self.functions[at].1.program);
        let mutability = self.functions[at].1.mutability;
        let mut vm = VM::new(program);
        let snapshot = self.storage.snapshot();
        let run_result = vm.run(snapshot);
        let candidate = match run_result {
            Ok(candidate) => candidate,
            Err(ft) => {
                return CallResult::Fault(self, ft);
            },
        };
        let ghost end_stack = vm.stack@;
        let rets = &self.functions[at].1.returns;
        let mut vals: Vec<Expression> = Vec::new();
        let mut j: usize = 0;
        proof {
            assert(rets@.skip(0) =~= rets@);
            assert(Seq::<Expression>::empty() + decode_returns(rets@, end_stack) =~= decode_returns(
                rets@,
                end_stack,
            ));
        }
        while j < rets.len()
            invariant
                j <= rets@.len(),
                rets@ == f.returns@,
                decode_returns(f.returns@, end_stack) == vals@ + decode_returns(
                    rets@.skip(j as int),
                    vm.stack@,
                ),
            decreases rets@.len() - j,
        {
            let ghost before = vm.stack@;
            match vm.stack.pop() {
                None => {
                    proof {
                        assert(decode_returns(rets@.skip(j as int), vm.stack@) =~= Seq::<
                            Expression,
                        >::empty());
                        assert(decode_returns(rets@.skip(j + 1 as int), vm.stack@) =~= Seq::<
                            Expression,
                        >::empty());
                    }
                    j = j + 1;
                },
                Some(w) => {
                    proof {
                        assert(rets@.skip(j as int)[0] == rets@[j as int]);
                        assert(rets@.skip(j as int).drop_first() =~= rets@.skip(j + 1 as int));
                    }
                    match &rets[j].ty {
                        Expression::Type(Type::Bool) => {
                            let decoded = Expression::BoolLiteral(w.is_one());
                            let ghost v0 = vals@;
                            vals.push(decoded);
                            proof {
                                assert(v0 + decode_returns(rets@.skip(j as int), before) =~= vals@
                                    + decode_returns(rets@.skip(j + 1 as int), vm.stack@));
                            }
                        },
                        _ => {},
                    }
                    j = j + 1;
                },
            }
        }
        proof {
            assert(rets@.skip(rets@.len() as int) =~= Seq::<Parameter>::empty());
            assert(vals@ + Seq::<Expression>::empty() =~= vals@);
        }
        let view_or_pure = match mutability {
            FuncMutability::View => true,
            FuncMutability::Pure => true,
            _ => false,
        };
        if view_or_pure {
            CallResult::Executed(self, vals)
        } else {
            let c = Contract { storage: candidate, ..self };
            CallResult::Executed(c, vals)
        }
    }
}

/// The position of the first entry stored under `key`, if any.
fn find_index(fns: &Vec<(String, Function)>, key: &String) -> (r: Option<usize>)
    ensures
        match r {
            Some(at) => at < fns@.len() && lookup_fn(fns@, key@) == Some(fns@[at as int].1),
            None => lookup_fn(fns@, key@) is None,
        },
{
    let n = fns.len();
    let mut i: usize = 0;
    proof {
        assert(fns@.skip(0) =~= fns@);
    }
    while i < n
        invariant
            n == fns@.len(),
            i <= n,
            lookup_fn(fns@, key@) == lookup_fn(fns@.skip(i as int), key@),
        decreases n - i,
    {
        let entry = &fns[i];
        if entry.0 == *key {
            proof {
                assert(fns@.skip(i as int)[0] == fns@[i as int]);
            }
            return Some(i);
        }
        proof {
            assert(fns@.skip(i as int)[0] == fns@[i as int]);
            assert(fns@.skip(i as int).drop_first() =~= fns@.skip(i + 1 as int));
        }
        i = i + 1;
    }
    proof {
        assert(fns@.skip(n as int) =~= Seq::<(String, Function)>::empty());
    }
    None
}

/// An identical copy of an opcode sequence.
fn clone_program(ops: &Vec<OP>) -> (r: Vec<OP>)
    ensures
        r@ == ops@,
{
    let mut r: Vec<OP> = Vec::new();
    let mut i: usize = 0;
    while i < ops.len()
        invariant
            i <= ops@.len(),
            r@ == ops@.take(i as int),
        decreases ops@.len() - i,
    {
        r.push(ops[i]);
        proof {
            assert(r@ =~= ops@.take(i + 1 as int));
        }
        i = i + 1;
    }
    proof {
        assert(r@ =~= ops@);
    }
    r
}

} // verus!

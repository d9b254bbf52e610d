//! The code generator: walks a source unit, lowers each function body into
//! an opcode sequence, allocates one storage slot per state variable, and
//! files each function in its contract's selector table. The meaning of
//! every step is given by the spec-level lowering functions and the
//! contract-model fold `compile_models`; the executable walk is proved to
//! agree with them.

use vstd::prelude::*;

use crate::ast::{
    ContractPart, Expression, FunctionAttribute, FunctionReturnParams, Mutability, Parameter,
    ParameterList, SourceUnit, SourceUnitPart, Statement, Type, Visibility,
};
use crate::contract::{
    lemma_lookup_fn_prepend, lemma_lookup_var_prepend, lookup_fn, lookup_var, Contract,
    FuncMutability, FuncVisibility, Function,
};
use crate::fault::Fault;
use crate::selector::{get_func_sig, selector_of};
use crate::vm::OP;

verus! {

use vstd::string::StringExecFns;

/// The opcodes that read the variable stored at the named slot, or the
/// fault when the name has no slot or its slot exceeds a one-byte push.
pub open spec fn lower_var_read(vars: Map<Seq<char>, nat>, name: Seq<char>) -> Result<
    Seq<OP>,
    Fault,
> {
    if !vars.contains_key(name) {
        Err(Fault::UnresolvedVariable)
    } else if vars[name] > 255 {
        Err(Fault::SlotOutOfRange)
    } else {
        Ok(seq![OP::PUSH1(vars[name] as u8), OP::SLOAD])
    }
}

/// The opcodes an expression lowers to, under a variable-to-slot table.
/// A variable read loads its slot; an assignment lowers its right-hand side
/// and then stores to the target's slot, the slot pushed after the value so
/// the store pops the slot first; negation appends `ISZERO`. A boolean
/// literal or bare type reference lowers to no opcodes: the generator does
/// not yet materialise literals onto the stack.
pub open spec fn lower_expr(e: Expression, vars: Map<Seq<char>, nat>) -> Result<Seq<OP>, Fault>
    decreases e,
{
    match e {
        Expression::BoolLiteral(_) => Ok(Seq::empty()),
        Expression::Variable(id) => lower_var_read(vars, id.name@),
        Expression::Assign(target, rhs) => match *target {
            Expression::Variable(id) => if !vars.contains_key(id.name@) {
                Err(Fault::UnresolvedVariable)
            } else if vars[id.name@] > 255 {
                Err(Fault::SlotOutOfRange)
            } else {
                match lower_expr(*rhs, vars) {
                    Ok(code) => Ok(code + seq![OP::PUSH1(vars[id.name@] as u8), OP::SSTORE]),
                    Err(f) => Err(f),
                }
            },
            _ => Err(Fault::UnsupportedType),
        },
        Expression::Not(inner) => match lower_expr(*inner, vars) {
            Ok(code) => Ok(code + seq![OP::ISZERO]),
            Err(f) => Err(f),
        },
        Expression::Type(_) => Ok(Seq::empty()),
    }
}

/// The opcodes a statement lowers to: a bare expression is lowered as it
/// stands; a return lowers its value, if any, and appends `RETURN`.
pub open spec fn lower_stmt(s: Statement, vars: Map<Seq<char>, nat>) -> Result<Seq<OP>, Fault> {
    match s {
        Statement::Expression(e) => lower_expr(e, vars),
        Statement::Return(oe) => match oe {
            Some(e) => match lower_expr(e, vars) {
                Ok(code) => Ok(code + seq![OP::RETURN]),
                Err(f) => Err(f),
            },
            None => Ok(seq![OP::RETURN]),
        },
    }
}

/// The visibility a keyword resolves to.
pub open spec fn visibility_of(v: Visibility) -> FuncVisibility {
    match v {
        Visibility::Public => FuncVisibility::Public,
        Visibility::Private => FuncVisibility::Private,
        Visibility::Internal => FuncVisibility::Internal,
        Visibility::External => FuncVisibility::External,
    }
}

/// The mutability a keyword resolves to.
pub open spec fn mutability_of(m: Mutability) -> FuncMutability {
    match m {
        Mutability::Constant => FuncMutability::Constant,
        Mutability::Payable => FuncMutability::Payable,
        Mutability::View => FuncMutability::View,
        Mutability::Pure => FuncMutability::Pure,
    }
}

/// The visibility and mutability an attribute list resolves to: internal
/// and nonpayable unless declared, and the last-seen attribute of each kind
/// wins.
pub open spec fn attrs_resolved(attrs: Seq<Option<FunctionAttribute>>) -> (
    FuncVisibility,
    FuncMutability,
)
    decreases attrs.len(),
{
    if attrs.len() == 0 {
        (FuncVisibility::Internal, FuncMutability::Nonpayable)
    } else {
        let prev = attrs_resolved(attrs.drop_last());
        match attrs.last() {
            Some(a) => match a {
                FunctionAttribute::Visibility(v) => (visibility_of(v), prev.1),
                FunctionAttribute::Mutability(m) => (prev.0, mutability_of(m)),
            },
            None => prev,
        }
    }
}

/// Whether a parameter's type has a code-generation and decoding rule;
/// only the boolean type does.
pub open spec fn param_supported(p: Parameter) -> bool {
    p.ty matches Expression::Type(Type::Bool)
}

/// Whether every parameter in the list is supported.
pub open spec fn params_supported(ps: Seq<Parameter>) -> bool {
    forall|i: int| 0 <= i < ps.len() ==> param_supported(ps[i])
}

/// The comma-joined type keywords of a supported parameter list.
pub open spec fn joined_types(ps: Seq<Parameter>) -> Seq<char>
    decreases ps.len(),
{
    if ps.len() == 0 {
        Seq::empty()
    } else if ps.len() == 1 {
        "bool"@
    } else {
        joined_types(ps.drop_last()) + ","@ + "bool"@
    }
}

/// The parameters a parameter list declares.
pub open spec fn list_params(pl: ParameterList) -> Seq<Parameter> {
    match pl {
        ParameterList::Params(op) => match op {
            Some(ps) => ps.params@,
            None => Seq::empty(),
        },
    }
}

/// The parameters a `returns` clause declares, none when it is absent.
pub open spec fn return_params(rets: Option<FunctionReturnParams>) -> Seq<Parameter> {
    match rets {
        Some(frp) => match frp {
            FunctionReturnParams::ParameterList(pl) => list_params(pl),
        },
        None => Seq::empty(),
    }
}

/// The canonical signature string of a function: its name, then its
/// parameter type keywords in declaration order, comma-joined in
/// parentheses — names play no part.
pub open spec fn canonical_signature(name: Seq<char>, pl: ParameterList) -> Seq<char> {
    name + "("@ + joined_types(list_params(pl)) + ")"@
}

/// The mathematical content of one compiled function.
#[verifier::ext_equal]
pub ghost struct FunctionModel {
    pub program: Seq<OP>,
    pub visibility: FuncVisibility,
    pub mutability: FuncMutability,
    pub returns: Seq<Parameter>,
}

/// The mathematical content of a contract under construction: its name,
/// its selector-keyed function table, its variable-to-slot table, and its
/// storage slots.
#[verifier::ext_equal]
pub ghost struct ContractModel {
    pub name: Seq<char>,
    pub functions: Map<Seq<char>, FunctionModel>,
    pub variables: Map<Seq<char>, nat>,
    pub storage: Seq<nat>,
}

impl Function {
    /// The model of this compiled function.
    pub open spec fn model(&self) -> FunctionModel {
        FunctionModel {
            program: self.program@,
            visibility: self.visibility,
            mutability: self.mutability,
            returns: self.returns@,
        }
    }
}

/// The function table a selector list denotes, selector by selector.
pub open spec fn fn_table(fns: Seq<(String, Function)>) -> Map<Seq<char>, FunctionModel> {
    Map::new(
        |k: Seq<char>| lookup_fn(fns, k) is Some,
        |k: Seq<char>| lookup_fn(fns, k).unwrap().model(),
    )
}

/// The variable-to-slot table a binding list denotes, name by name.
pub open spec fn var_table(vars: Seq<(String, usize)>) -> Map<Seq<char>, nat> {
    Map::new(
        |k: Seq<char>| lookup_var(vars, k) is Some,
        |k: Seq<char>| lookup_var(vars, k).unwrap() as nat,
    )
}

impl Contract {
    /// The model of this contract.
    pub open spec fn model(&self) -> ContractModel {
        ContractModel {
            name: self.name@,
            functions: fn_table(self.functions@),
            variables: var_table(self.variable_map@),
            storage: self.storage@,
        }
    }
}

/// The model of a contract that has just been named and holds nothing.
pub open spec fn initial_model(name: Seq<char>) -> ContractModel {
    ContractModel {
        name,
        functions: Map::empty(),
        variables: Map::empty(),
        storage: Seq::empty(),
    }
}

/// What one contract part contributes. A state variable binds its name to
/// the next slot, which is appended zero-initialised. A function with a
/// body has the body lowered, its attributes resolved, its parameter and
/// return types held to the support table, and is filed under its
/// signature's selector; one without a body contributes nothing. A
/// constructor's body is lowered only for its faults; its code is
/// discarded, never stored.
pub open spec fn compile_part(m: ContractModel, part: ContractPart) -> Result<
    ContractModel,
    Fault,
> {
    match part {
        ContractPart::VariableDefinition(_ty, _vis, name) => Ok(
            ContractModel {
                variables: m.variables.insert(name@, m.storage.len()),
                storage: m.storage.push(0),
                ..m
            },
        ),
        ContractPart::FunctionDefinition(name, params, attrs, rets, body) => match body {
            None => Ok(m),
            Some(stmt) => match lower_stmt(stmt, m.variables) {
                Err(f) => Err(f),
                Ok(code) => if !params_supported(list_params(params)) || !params_supported(
                    return_params(rets),
                ) {
                    Err(Fault::UnsupportedType)
                } else {
                    Ok(
                        ContractModel {
                            functions: m.functions.insert(
                                selector_of(canonical_signature(name@, params)),
                                FunctionModel {
                                    program: code,
                                    visibility: attrs_resolved(attrs@).0,
                                    mutability: attrs_resolved(attrs@).1,
                                    returns: return_params(rets),
                                },
                            ),
                            ..m
                        },
                    )
                },
            },
        },
        ContractPart::ConstructorDefinition(_params, _attrs, body) => match body {
            None => Ok(m),
            Some(stmt) => match lower_stmt(stmt, m.variables) {
                Ok(_) => Ok(m),
                Err(f) => Err(f),
            },
        },
    }
}

/// The fold of `compile_part` over a contract's parts, in source order,
/// stopping at the first fault.
pub open spec fn compile_parts(m: ContractModel, parts: Seq<ContractPart>) -> Result<
    ContractModel,
    Fault,
>
    decreases parts.len(),
{
    if parts.len() == 0 {
        Ok(m)
    } else {
        match compile_part(m, parts[0]) {
            Ok(m2) => compile_parts(m2, parts.drop_first()),
            Err(f) => Err(f),
        }
    }
}

/// The model of the contract one top-level part compiles to.
pub open spec fn compile_unit_part(p: SourceUnitPart) -> Result<ContractModel, Fault> {
    match p {
        SourceUnitPart::ContractDefinition(name, parts) => compile_parts(
            initial_model(name@),
            parts@,
        ),
    }
}

/// The models of the contracts a source unit compiles to, in source order,
/// stopping at the first fault.
pub open spec fn compile_models(parts: Seq<SourceUnitPart>) -> Result<Seq<ContractModel>, Fault>
    decreases parts.len(),
{
    if parts.len() == 0 {
        Ok(Seq::empty())
    } else {
        match compile_unit_part(parts[0]) {
            Err(f) => Err(f),
            Ok(m) => match compile_models(parts.drop_first()) {
                Ok(ms) => Ok(seq![m] + ms),
                Err(f) => Err(f),
            },
        }
    }
}

/// The slot assigned to a variable name, as the immediate of a one-byte
/// push; a name without a slot and a slot beyond one byte are faults.
fn get_variable_slot(name: &String, contract: &Contract) -> (r: Result<u8, Fault>)
    ensures
        match lookup_var(contract.variable_map@, name@) {
            Some(slot) => if slot <= 255 {
                r == Ok::<u8, Fault>(slot as u8)
            } else {
                r == Err::<u8, Fault>(Fault::SlotOutOfRange)
            },
            None => r == Err::<u8, Fault>(Fault::UnresolvedVariable),
        },
{
    let n = contract.variable_map.len();
    let mut i: usize = 0;
    proof {
        assert(contract.variable_map@.skip(0) =~= contract.variable_map@);
    }
    while i < n
        invariant
            n == contract.variable_map@.len(),
            i <= n,
            lookup_var(contract.variable_map@, name@) == lookup_var(
                contract.variable_map@.skip(i as int),
                name@,
            ),
        decreases n - i,
    {
        let entry = &contract.variable_map[i];
        proof {
            assert(contract.variable_map@.skip(i as int)[0] == contract.variable_map@[i as int]);
        }
        if entry.0 == *name {
            let slot = entry.1;
            if slot <= 255 {
                return Ok(slot as u8);
            } else {
                return Err(Fault::SlotOutOfRange);
            }
        }
        proof {
            assert(contract.variable_map@.skip(i as int).drop_first() =~= contract.variable_map@.skip(
                i + 1 as int,
            ));
        }
        i = i + 1;
    }
    proof {
        assert(contract.variable_map@.skip(n as int) =~= Seq::<(String, usize)>::empty());
    }
    Err(Fault::UnresolvedVariable)
}

/// Lower one expression against the contract's variable table.
fn handle_expression(expr: &Expression, contract: &Contract) -> (r: Result<Vec<OP>, Fault>)
    ensures
        match r {
            Ok(code) => lower_expr(*expr, var_table(contract.variable_map@)) == Ok::<
                Seq<OP>,
                Fault,
            >(code@),
            Err(f) => lower_expr(*expr, var_table(contract.variable_map@)) == Err::<
                Seq<OP>,
                Fault,
            >(f),
        },
    decreases *expr,
{
    match expr {
        Expression::BoolLiteral(_) => Ok(Vec::new()),
        Expression::Variable(identifier) => {
            let slot = match get_variable_slot(&identifier.name, contract) {
                Ok(s) => s,
                Err(f) => {
                    return Err(f);
                },
            };
            let mut code: Vec<OP> = Vec::new();
            code.push(OP::PUSH1(slot));
            code.push(OP::SLOAD);
            proof {
                assert(code@ =~= seq![OP::PUSH1(slot), OP::SLOAD]);
            }
            Ok(code)
        },
        Expression::Assign(target, rhs) => match &**target {
            Expression::Variable(identifier) => {
                let slot = match get_variable_slot(&identifier.name, contract) {
                    Ok(s) => s,
                    Err(f) => {
                        return Err(f);
                    },
                };
                let mut code = match handle_expression(&**rhs, contract) {
                    Ok(c) => c,
                    Err(f) => {
                        return Err(f);
                    },
                };
                let ghost lowered = code@;
                code.push(OP::PUSH1(slot));
                code.push(OP::SSTORE);
                proof {
                    assert(code@ =~= lowered + seq![OP::PUSH1(slot), OP::SSTORE]);
                }
                Ok(code)
            },
            _ => Err(Fault::UnsupportedType),
        },
        Expression::Not(inner) => {
            let mut code = match handle_expression(&**inner, contract) {
                Ok(c) => c,
                Err(f) => {
                    return Err(f);
                },
            };
            let ghost lowered = code@;
            code.push(OP::ISZERO);
            proof {
                assert(code@ =~= lowered + seq![OP::ISZERO]);
            }
            Ok(code)
        },
        Expression::Type(_) => Ok(Vec::new()),
    }
}

/// Lower one statement against the contract's variable table.
fn handle_statement(statement: &Statement, contract: &Contract) -> (r: Result<Vec<OP>, Fault>)
    ensures
        match r {
            Ok(code) => lower_stmt(*statement, var_table(contract.variable_map@)) == Ok::<
                Seq<OP>,
                Fault,
            >(code@),
            Err(f) => lower_stmt(*statement, var_table(contract.variable_map@)) == Err::<
                Seq<OP>,
                Fault,
            >(f),
        },
{
    match statement {
        Statement::Expression(expr) => handle_expression(expr, contract),
        Statement::Return(oe) => match oe {
            Some(expr) => {
                let mut code = match handle_expression(expr, contract) {
                    Ok(c) => c,
                    Err(f) => {
                        return Err(f);
                    },
                };
                let ghost lowered = code@;
                code.push(OP::RETURN);
                proof {
                    assert(code@ =~= lowered + seq![OP::RETURN]);
                }
                Ok(code)
            },
            None => {
                let mut code: Vec<OP> = Vec::new();
                code.push(OP::RETURN);
                proof {
                    assert(code@ =~= seq![OP::RETURN]);
                }
                Ok(code)
            },
        },
    }
}

/// Resolve an attribute list to a visibility and a mutability: the
/// defaults are internal and nonpayable, and the last-seen attribute of
/// each kind wins, with no duplicate diagnostic.
pub fn handle_attrs(attr_list: Vec<Option<FunctionAttribute>>) -> (r: (
    FuncVisibility,
    FuncMutability,
))
    ensures
        r == attrs_resolved(attr_list@),
{
    let mut visibility = FuncVisibility::Internal;
    let mut mutability = FuncMutability::Nonpayable;
    let mut i: usize = 0;
    proof {
        assert(attr_list@.take(0) =~= Seq::<Option<FunctionAttribute>>::empty());
    }
    while i < attr_list.len()
        invariant
            i <= attr_list@.len(),
            (visibility, mutability) == attrs_resolved(attr_list@.take(i as int)),
        decreases attr_list@.len() - i,
    {
        let attr = attr_list[i];
        match attr {
            Some(FunctionAttribute::Visibility(v)) => {
                visibility = match v {
                    Visibility::Public => FuncVisibility::Public,
                    Visibility::Private => FuncVisibility::Private,
                    Visibility::Internal => FuncVisibility::Internal,
                    Visibility::External => FuncVisibility::External,
                };
            },
            Some(FunctionAttribute::Mutability(m)) => {
                mutability = match m {
                    Mutability::Constant => FuncMutability::Constant,
                    Mutability::Payable => FuncMutability::Payable,
                    Mutability::View => FuncMutability::View,
                    Mutability::Pure => FuncMutability::Pure,
                };
            },
            None => {},
        }
        proof {
            assert(attr_list@.take(i + 1 as int).drop_last() =~= attr_list@.take(i as int));
            assert(attr_list@.take(i + 1 as int).last() == attr_list@[i as int]);
        }
        i = i + 1;
    }
    proof {
        assert(attr_list@.take(attr_list@.len() as int) =~= attr_list@);
    }
    (visibility, mutability)
}

/// The selector a function is filed under: its canonical signature hashed.
/// A parameter whose type is outside the support table is a fault, never
/// silently omitted from the signature.
#[verifier::loop_isolation(false)]
pub fn find_function_signature(name: String, params: ParameterList) -> (r: Result<String, Fault>)
    ensures
        params_supported(list_params(params)) ==> (r matches Ok(s) && s@ == selector_of(
            canonical_signature(name@, params),
        )),
        !params_supported(list_params(params)) ==> r == Err::<String, Fault>(
            Fault::UnsupportedType,
        ),
{
    let ghost pl = params;
    let mut sig = name;
    sig.append("(");
    proof {
        reveal_strlit("(");
    }
    match params {
        ParameterList::Params(op) => match op {
            Some(ps) => {
                let items = ps.params;
                let mut i: usize = 0;
                proof {
                    assert(items@.take(0) =~= Seq::<Parameter>::empty());
                    assert(sig@ =~= name@ + "("@ + joined_types(items@.take(0)));
                }
                while i < items.len()
                    invariant
                        i <= items@.len(),
                        forall|j: int| 0 <= j < i ==> param_supported(items@[j]),
                        sig@ == name@ + "("@ + joined_types(items@.take(i as int)),
                    decreases items@.len() - i,
                {
                    let p = &items[i];
                    match &p.ty {
                        Expression::Type(Type::Bool) => {},
                        _ => {
                            proof {
                                assert(list_params(pl) == items@);
                                assert(!param_supported(items@[i as int]));
                                assert(!params_supported(items@));
                            }
                            return Err(Fault::UnsupportedType);
                        },
                    }
                    let ghost before = sig@;
                    if i == 0 {
                        sig.append("bool");
                    } else {
                        sig.append(",");
                        sig.append("bool");
                    }
                    proof {
                        reveal_strlit("bool");
                        reveal_strlit(",");
                        assert(items@.take(i + 1 as int).drop_last() =~= items@.take(i as int));
                        if i == 0 {
                            assert(sig@ =~= name@ + "("@ + joined_types(items@.take(1)));
                        } else {
                            assert(sig@ =~= name@ + "("@ + (joined_types(items@.take(i as int))
                                + ","@ + "bool"@));
                        }
                    }
                    i = i + 1;
                }
                proof {
                    assert(items@.take(items@.len() as int) =~= items@);
                }
            },
            None => {
                proof {
                    assert(list_params(pl) =~= Seq::<Parameter>::empty());
                }
            },
        },
    }
    sig.append(")");
    proof {
        reveal_strlit(")");
        assert(sig@ =~= canonical_signature(name@, pl));
    }
    Ok(get_func_sig(sig))
}

/// The models of a sequence of compiled contracts, in order.
pub open spec fn models_of(cs: Seq<Contract>) -> Seq<ContractModel> {
    cs.map_values(|c: Contract| c.model())
}

/// Apply one contract part to a contract under construction; on a fault
/// the contract is left exactly as it was.
#[verifier::loop_isolation(false)]
fn handle_contract_part(part: ContractPart, contract: &mut Contract) -> (r: Result<(), Fault>)
    ensures
        match compile_part(old(contract).model(), part) {
            Ok(m) => r == Ok::<(), Fault>(()) && final(contract).model() == m,
            Err(f) => r == Err::<(), Fault>(f) && final(contract).model() == old(contract).model(),
        },
{
    match part {
        ContractPart::VariableDefinition(_ty, _vis, name) => {
            let ghost m0 = contract.model();
            let ghost name0 = name@;
            let slot = contract.storage.len();
            contract.variable_map.insert(0, (name, slot));
            contract.storage.push_zero_slot();
            proof {
                let vm_old = old(contract).variable_map@;
                let vm_new = contract.variable_map@;
                assert(vm_new =~= seq![(vm_new[0].0, vm_new[0].1)] + vm_old);
                assert(vm_new[0].0@ == name0);
                assert(vm_new[0].1 == slot);
                assert forall|k: Seq<char>|
                    lookup_var(vm_new, k) == (if k == name0 {
                        Some(slot)
                    } else {
                        lookup_var(vm_old, k)
                    }) by {
                    lemma_lookup_var_prepend(vm_old, (vm_new[0].0, vm_new[0].1), k);
                }
                assert(var_table(vm_new) =~= m0.variables.insert(name0, m0.storage.len()));
                assert(contract.model() =~~= (ContractModel {
                    variables: m0.variables.insert(name0, m0.storage.len()),
                    storage: m0.storage.push(0),
                    ..m0
                }));
            }
            Ok(())
        },
        ContractPart::FunctionDefinition(name, params, attrs, rets, body) => {
            let statement = match body {
                Some(s) => s,
                None => {
                    return Ok(());
                },
            };
            let program = match handle_statement(&statement, &*contract) {
                Ok(p) => p,
                Err(f) => {
                    return Err(f);
                },
            };
            let ghost prog0 = program@;
            let resolved = handle_attrs(attrs);
            let ret_list: Vec<Parameter> = match rets {
                Some(frp) => match frp {
                    FunctionReturnParams::ParameterList(pl) => match pl {
                        ParameterList::Params(op) => match op {
                            Some(ps) => ps.params,
                            None => Vec::new(),
                        },
                    },
                },
                None => Vec::new(),
            };
            proof {
                assert(ret_list@ == return_params(rets));
            }
            let mut k: usize = 0;
            while k < ret_list.len()
                invariant
                    k <= ret_list@.len(),
                    forall|j: int| 0 <= j < k ==> param_supported(ret_list@[j]),
                decreases ret_list@.len() - k,
            {
                let p = &ret_list[k];
                match &p.ty {
                    Expression::Type(Type::Bool) => {},
                    _ => {
                        proof {
                            assert(!param_supported(ret_list@[k as int]));
                            assert(!params_supported(return_params(rets)));
                        }
                        return Err(Fault::UnsupportedType);
                    },
                }
                k = k + 1;
            }
            let ghost rets0 = ret_list@;
            let selector = match find_function_signature(name, params) {
                Ok(s) => s,
                Err(f) => {
                    return Err(f);
                },
            };
            let ghost sel0 = selector@;
            let function = Function {
                program,
                visibility: resolved.0,
                mutability: resolved.1,
                returns: ret_list,
            };
            let ghost fm = FunctionModel {
                program: prog0,
                visibility: attrs_resolved(attrs@).0,
                mutability: attrs_resolved(attrs@).1,
                returns: return_params(rets),
            };
            proof {
                assert(function.model() == fm);
            }
            let ghost m0 = contract.model();
            contract.functions.insert(0, (selector, function));
            proof {
                let fns_old = old(contract).functions@;
                let fns_new = contract.functions@;
                assert(fns_new =~= seq![(fns_new[0].0, fns_new[0].1)] + fns_old);
                assert(fns_new[0].0@ == sel0);
                assert(fns_new[0].1.model() == fm);
                assert forall|kk: Seq<char>|
                    lookup_fn(fns_new, kk) == (if kk == sel0 {
                        Some(fns_new[0].1)
                    } else {
                        lookup_fn(fns_old, kk)
                    }) by {
                    lemma_lookup_fn_prepend(fns_old, (fns_new[0].0, fns_new[0].1), kk);
                }
                assert(fn_table(fns_new) =~= m0.functions.insert(sel0, fm));
                assert(sel0 == selector_of(canonical_signature(name@, params)));
                assert(contract.model() =~~= (ContractModel {
                    functions: m0.functions.insert(selector_of(canonical_signature(name@, params)), fm),
                    ..m0
                }));
            }
            Ok(())
        },
        ContractPart::ConstructorDefinition(_params, _attrs, body) => {
            match body {
                Some(statement) => match handle_statement(&statement, &*contract) {
                    Ok(_) => Ok(()),
                    Err(f) => Err(f),
                },
                None => Ok(()),
            }
        },
    }
}

/// Build one contract from its definition: name it, then apply its parts
/// in source order, stopping at the first fault.
#[verifier::loop_isolation(false)]
fn handle_source_unit_part(part: SourceUnitPart) -> (r: Result<Contract, Fault>)
    ensures
        match compile_unit_part(part) {
            Ok(m) => r matches Ok(c) && c.model() == m,
            Err(f) => r == Err::<Contract, Fault>(f),
        },
{
    match part {
        SourceUnitPart::ContractDefinition(name, parts) => {
            let ghost name0 = name@;
            let ghost parts0 = parts@;
            let mut contract = Contract::new(name);
            proof {
                assert forall|k: Seq<char>| lookup_fn(contract.functions@, k) is None by {}
                assert forall|k: Seq<char>| lookup_var(contract.variable_map@, k) is None by {}
                assert(fn_table(contract.functions@) =~= Map::<Seq<char>, FunctionModel>::empty());
                assert(var_table(contract.variable_map@) =~= Map::<Seq<char>, nat>::empty());
                assert(contract.model() =~~= initial_model(name0));
            }
            let mut remaining = parts;
            while remaining.len() > 0
                invariant
                    compile_parts(initial_model(name0), parts0) == compile_parts(
                        contract.model(),
                        remaining@,
                    ),
                decreases remaining@.len(),
            {
                let ghost rem0 = remaining@;
                let ghost m_before = contract.model();
                let p = remaining.remove(0);
                proof {
                    assert(rem0 =~= seq![rem0[0]] + rem0.drop_first());
                    assert(remaining@ =~= rem0.drop_first());
                }
                match handle_contract_part(p, &mut contract) {
                    Ok(_) => {},
                    Err(f) => {
                        return Err(f);
                    },
                }
            }
            proof {
                assert(remaining@ =~= Seq::<ContractPart>::empty());
            }
            Ok(contract)
        },
    }
}

/// Compile a source unit into its contracts, one per contract definition,
/// in source order, stopping at the first fault.
#[verifier::loop_isolation(false)]
fn handle_source_unit(source_unit: SourceUnit) -> (r: Result<Vec<Contract>, Fault>)
    ensures
        match compile_models(source_unit.parts@) {
            Ok(ms) => r matches Ok(cs) && models_of(cs@) == ms,
            Err(f) => r == Err::<Vec<Contract>, Fault>(f),
        },
{
    let ghost parts0 = source_unit.parts@;
    let mut remaining = source_unit.parts;
    let mut contracts: Vec<Contract> = Vec::new();
    proof {
        assert(models_of(contracts@) + Seq::<ContractModel>::empty() =~= models_of(contracts@));
    }
    while remaining.len() > 0
        invariant
            compile_models(parts0) == (match compile_models(remaining@) {
                Ok(ms) => Ok::<Seq<ContractModel>, Fault>(models_of(contracts@) + ms),
                Err(f) => Err::<Seq<ContractModel>, Fault>(f),
            }),
        decreases remaining@.len(),
    {
        let ghost rem0 = remaining@;
        let ghost done0 = contracts@;
        let p = remaining.remove(0);
        proof {
            assert(rem0 =~= seq![rem0[0]] + rem0.drop_first());
            assert(remaining@ =~= rem0.drop_first());
        }
        match handle_source_unit_part(p) {
            Ok(c) => {
                contracts.push(c);
                proof {
                    assert(models_of(contracts@) =~= models_of(done0) + seq![c.model()]);
                    if compile_models(remaining@) is Ok {
                        let ms = compile_models(remaining@).unwrap();
                        assert((models_of(done0) + seq![c.model()]) + ms =~= models_of(done0) + (
                        seq![c.model()] + ms));
                    }
                }
            },
            Err(f) => {
                return Err(f);
            },
        }
    }
    proof {
        assert(remaining@ =~= Seq::<SourceUnitPart>::empty());
        assert(models_of(contracts@) + Seq::<ContractModel>::empty() =~= models_of(contracts@));
    }
    Ok(contracts)
}

/// Compile a source unit: one contract per contract definition found, in
/// source order; the first generation fault, if any, is the result.
pub fn create_contracts(source_unit: SourceUnit) -> (r: Result<Vec<Contract>, Fault>)
    ensures
        match compile_models(source_unit.parts@) {
            Ok(ms) => r matches Ok(cs) && models_of(cs@) == ms,
            Err(f) => r == Err::<Vec<Contract>, Fault>(f),
        },
{
    handle_source_unit(source_unit)
}

} // verus!

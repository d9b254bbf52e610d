use tinyvm::ast::{
    ContractPart, Expression, FunctionAttribute, FunctionReturnParams, Identifier, Mutability,
    Parameter, ParameterList, Params, SourceUnit, SourceUnitPart, Statement, Type, Visibility,
};
use tinyvm::codegen::{create_contracts, handle_attrs};
use tinyvm::contract::{CallResult, Contract, FuncMutability, FuncVisibility};
use tinyvm::fault::Fault;
use tinyvm::selector::get_func_sig;

fn var(name: &str) -> Expression {
    Expression::Variable(Identifier { name: name.to_string() })
}

fn assign(name: &str, rhs: Expression) -> Statement {
    Statement::Expression(Expression::Assign(Box::new(var(name)), Box::new(rhs)))
}

fn bool_returns() -> Option<FunctionReturnParams> {
    Some(FunctionReturnParams::ParameterList(ParameterList::Params(Some(Params {
        params: vec![Parameter { ty: Expression::Type(Type::Bool), name: None }],
    }))))
}

fn function(
    name: &str,
    attrs: Vec<Option<FunctionAttribute>>,
    rets: Option<FunctionReturnParams>,
    body: Statement,
) -> ContractPart {
    ContractPart::FunctionDefinition(
        name.to_string(),
        ParameterList::Params(None),
        attrs,
        rets,
        Some(body),
    )
}

/// One boolean state variable `value`, `flip()` negating it, and a view
/// `get() returns (bool)` reading it.
fn flipper() -> SourceUnit {
    SourceUnit {
        parts: vec![SourceUnitPart::ContractDefinition(
            "flipper".to_string(),
            vec![
                ContractPart::VariableDefinition(
                    Type::Bool,
                    Some(Visibility::Private),
                    "value".to_string(),
                ),
                function(
                    "flip",
                    vec![Some(FunctionAttribute::Visibility(Visibility::Public))],
                    None,
                    assign("value", Expression::Not(Box::new(var("value")))),
                ),
                function(
                    "get",
                    vec![
                        Some(FunctionAttribute::Visibility(Visibility::Public)),
                        Some(FunctionAttribute::Mutability(Mutability::View)),
                    ],
                    bool_returns(),
                    Statement::Return(Some(var("value"))),
                ),
            ],
        )],
    }
}

fn compile_flipper() -> Contract {
    let mut contracts = create_contracts(flipper()).unwrap();
    assert_eq!(contracts.len(), 1);
    contracts.remove(0)
}

fn executed(r: CallResult) -> (Contract, Vec<Expression>) {
    match r {
        CallResult::Executed(c, vals) => (c, vals),
        CallResult::NoMatch(_) => panic!("expected a matched call, got a miss"),
        CallResult::Fault(_, f) => panic!("expected a completed call, got {:?}", f),
    }
}

#[test]
fn test_call_flipper_contract_flip() {
    let contract = compile_flipper();
    let flip_sig = get_func_sig("flip()".to_string());
    let (flipped, flip_vals) = executed(contract.call(flip_sig.as_str()));
    assert_eq!(flip_vals, vec![]);

    let get_sig = get_func_sig("get()".to_string());
    let (_, vals) = executed(flipped.call(get_sig.as_str()));
    assert_eq!(vals, vec![Expression::BoolLiteral(true)]);
}

#[test]
fn get_on_pre_flip_contract_is_false() {
    let contract = compile_flipper();
    let get_sig = get_func_sig("get()".to_string());
    let (_, vals) = executed(contract.call(get_sig.as_str()));
    assert_eq!(vals, vec![Expression::BoolLiteral(false)]);
}

#[test]
fn unknown_selector_is_a_silent_miss_with_state_kept() {
    let contract = compile_flipper();
    let kept = match contract.call("deadbeef") {
        CallResult::NoMatch(c) => c,
        CallResult::Executed(_, _) => panic!("an unknown selector must not execute"),
        CallResult::Fault(_, f) => panic!("an unknown selector must not fault, got {:?}", f),
    };
    let get_sig = get_func_sig("get()".to_string());
    let (_, vals) = executed(kept.call(get_sig.as_str()));
    assert_eq!(vals, vec![Expression::BoolLiteral(false)]);
}

#[test]
fn view_function_storage_writes_are_discarded() {
    // `sneak` negates the variable like `flip`, but is declared view, so
    // its store runs against the snapshot and is never committed.
    let unit = SourceUnit {
        parts: vec![SourceUnitPart::ContractDefinition(
            "sneaky".to_string(),
            vec![
                ContractPart::VariableDefinition(Type::Bool, None, "value".to_string()),
                function(
                    "sneak",
                    vec![Some(FunctionAttribute::Mutability(Mutability::View))],
                    None,
                    assign("value", Expression::Not(Box::new(var("value")))),
                ),
                function(
                    "get",
                    vec![Some(FunctionAttribute::Mutability(Mutability::View))],
                    bool_returns(),
                    Statement::Return(Some(var("value"))),
                ),
            ],
        )],
    };
    let mut contracts = create_contracts(unit).unwrap();
    let contract = contracts.remove(0);
    let (after, _) = executed(contract.call(get_func_sig("sneak()".to_string()).as_str()));
    let (_, vals) = executed(after.call(get_func_sig("get()".to_string()).as_str()));
    assert_eq!(vals, vec![Expression::BoolLiteral(false)]);
}

#[test]
fn mutating_function_commits_its_slot_and_no_other() {
    let unit = SourceUnit {
        parts: vec![SourceUnitPart::ContractDefinition(
            "pair".to_string(),
            vec![
                ContractPart::VariableDefinition(Type::Bool, None, "a".to_string()),
                ContractPart::VariableDefinition(Type::Bool, None, "b".to_string()),
                function("flip_b", vec![None], None, assign("b", Expression::Not(Box::new(var("b"))))),
                function(
                    "get_a",
                    vec![Some(FunctionAttribute::Mutability(Mutability::View))],
                    bool_returns(),
                    Statement::Return(Some(var("a"))),
                ),
                function(
                    "get_b",
                    vec![Some(FunctionAttribute::Mutability(Mutability::View))],
                    bool_returns(),
                    Statement::Return(Some(var("b"))),
                ),
            ],
        )],
    };
    let mut contracts = create_contracts(unit).unwrap();
    let contract = contracts.remove(0);
    let (after, _) = executed(contract.call(get_func_sig("flip_b()".to_string()).as_str()));
    let (after, vals_b) = executed(after.call(get_func_sig("get_b()".to_string()).as_str()));
    assert_eq!(vals_b, vec![Expression::BoolLiteral(true)]);
    let (_, vals_a) = executed(after.call(get_func_sig("get_a()".to_string()).as_str()));
    assert_eq!(vals_a, vec![Expression::BoolLiteral(false)]);
}

#[test]
fn boolean_literal_lowering_gap_surfaces_as_stack_underflow() {
    // `value = true` lowers the literal to no opcodes, so the store finds
    // only its key on the stack and the call faults instead of crashing.
    let unit = SourceUnit {
        parts: vec![SourceUnitPart::ContractDefinition(
            "gap".to_string(),
            vec![
                ContractPart::VariableDefinition(Type::Bool, None, "value".to_string()),
                function("set", vec![None], None, assign("value", Expression::BoolLiteral(true))),
            ],
        )],
    };
    let mut contracts = create_contracts(unit).unwrap();
    let contract = contracts.remove(0);
    match contract.call(get_func_sig("set()".to_string()).as_str()) {
        CallResult::Fault(_, f) => assert_eq!(f, Fault::StackUnderflow),
        _ => panic!("expected the literal gap to fault the call"),
    }
}

#[test]
fn unresolved_variable_is_a_generation_fault() {
    let unit = SourceUnit {
        parts: vec![SourceUnitPart::ContractDefinition(
            "broken".to_string(),
            vec![function("get", vec![None], bool_returns(), Statement::Return(Some(var("missing"))))],
        )],
    };
    assert!(matches!(create_contracts(unit), Err(Fault::UnresolvedVariable)));
}

#[test]
fn unsupported_return_type_is_a_generation_fault() {
    let rets = Some(FunctionReturnParams::ParameterList(ParameterList::Params(Some(Params {
        params: vec![Parameter { ty: var("value"), name: None }],
    }))));
    let unit = SourceUnit {
        parts: vec![SourceUnitPart::ContractDefinition(
            "broken".to_string(),
            vec![
                ContractPart::VariableDefinition(Type::Bool, None, "value".to_string()),
                function("get", vec![None], rets, Statement::Return(Some(var("value")))),
            ],
        )],
    };
    assert!(matches!(create_contracts(unit), Err(Fault::UnsupportedType)));
}

#[test]
fn slot_beyond_one_byte_is_a_generation_fault() {
    let mut parts: Vec<ContractPart> = Vec::new();
    for i in 0..257 {
        parts.push(ContractPart::VariableDefinition(Type::Bool, None, format!("v{}", i)));
    }
    parts.push(function("last", vec![None], bool_returns(), Statement::Return(Some(var("v256")))));
    let unit = SourceUnit {
        parts: vec![SourceUnitPart::ContractDefinition("wide".to_string(), parts)],
    };
    assert!(matches!(create_contracts(unit), Err(Fault::SlotOutOfRange)));
}

#[test]
fn return_parameters_beyond_the_stack_are_skipped() {
    let rets = Some(FunctionReturnParams::ParameterList(ParameterList::Params(Some(Params {
        params: vec![
            Parameter { ty: Expression::Type(Type::Bool), name: None },
            Parameter { ty: Expression::Type(Type::Bool), name: None },
        ],
    }))));
    let unit = SourceUnit {
        parts: vec![SourceUnitPart::ContractDefinition(
            "short".to_string(),
            vec![
                ContractPart::VariableDefinition(Type::Bool, None, "value".to_string()),
                function("get2", vec![None], rets, Statement::Return(Some(var("value")))),
            ],
        )],
    };
    let mut contracts = create_contracts(unit).unwrap();
    let contract = contracts.remove(0);
    let (_, vals) = executed(contract.call(get_func_sig("get2()".to_string()).as_str()));
    assert_eq!(vals, vec![Expression::BoolLiteral(false)]);
}

#[test]
fn empty_source_unit_compiles_to_no_contracts() {
    let contracts = create_contracts(SourceUnit { parts: vec![] }).unwrap();
    assert!(contracts.is_empty());
}

#[test]
fn contract_with_only_a_variable_compiles_and_misses_calls() {
    let unit = SourceUnit {
        parts: vec![SourceUnitPart::ContractDefinition(
            "holder".to_string(),
            vec![ContractPart::VariableDefinition(Type::Bool, None, "value".to_string())],
        )],
    };
    let mut contracts = create_contracts(unit).unwrap();
    assert_eq!(contracts.len(), 1);
    let contract = contracts.remove(0);
    assert!(matches!(contract.call("anything"), CallResult::NoMatch(_)));
}

#[test]
fn constructor_body_is_lowered_only_for_its_faults() {
    let ok_unit = SourceUnit {
        parts: vec![SourceUnitPart::ContractDefinition(
            "built".to_string(),
            vec![ContractPart::ConstructorDefinition(
                ParameterList::Params(None),
                vec![None],
                Some(Statement::Return(None)),
            )],
        )],
    };
    let mut contracts = create_contracts(ok_unit).unwrap();
    let contract = contracts.remove(0);
    assert!(matches!(contract.call("anything"), CallResult::NoMatch(_)));

    let bad_unit = SourceUnit {
        parts: vec![SourceUnitPart::ContractDefinition(
            "unbuilt".to_string(),
            vec![ContractPart::ConstructorDefinition(
                ParameterList::Params(None),
                vec![None],
                Some(Statement::Return(Some(var("missing")))),
            )],
        )],
    };
    assert!(matches!(create_contracts(bad_unit), Err(Fault::UnresolvedVariable)));
}

#[test]
fn function_without_a_body_is_not_filed() {
    let unit = SourceUnit {
        parts: vec![SourceUnitPart::ContractDefinition(
            "empty_fn".to_string(),
            vec![ContractPart::FunctionDefinition(
                "ghostly".to_string(),
                ParameterList::Params(None),
                vec![None],
                None,
                None,
            )],
        )],
    };
    let mut contracts = create_contracts(unit).unwrap();
    let contract = contracts.remove(0);
    let sig = get_func_sig("ghostly()".to_string());
    assert!(matches!(contract.call(sig.as_str()), CallResult::NoMatch(_)));
}

#[test]
fn last_attribute_of_each_kind_wins() {
    let r = handle_attrs(vec![
        Some(FunctionAttribute::Visibility(Visibility::Public)),
        Some(FunctionAttribute::Mutability(Mutability::View)),
        None,
        Some(FunctionAttribute::Visibility(Visibility::Private)),
        Some(FunctionAttribute::Mutability(Mutability::Payable)),
    ]);
    assert_eq!(r, (FuncVisibility::Private, FuncMutability::Payable));
}

#[test]
fn attributes_default_to_internal_nonpayable() {
    let r = handle_attrs(vec![None]);
    assert_eq!(r, (FuncVisibility::Internal, FuncMutability::Nonpayable));
}

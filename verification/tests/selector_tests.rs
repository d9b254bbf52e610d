use tinyvm::ast::{Expression, Identifier, Parameter, ParameterList, Params, Type};
use tinyvm::codegen::find_function_signature;
use tinyvm::fault::Fault;
use tinyvm::selector::get_func_sig;

#[test]
fn selector_is_deterministic_across_calls() {
    let a = get_func_sig("flip()".to_string());
    let b = get_func_sig("flip()".to_string());
    assert_eq!(a, b);
}

#[test]
fn transfer_signature_hashes_to_known_selector() {
    let sel = get_func_sig("transfer(address,uint256)".to_string());
    assert_eq!(sel, "a9059cbb");
}

#[test]
fn selector_is_eight_lowercase_hex_chars() {
    let sel = get_func_sig("".to_string());
    assert_eq!(sel.len(), 8);
    assert!(sel.chars().all(|c| c.is_ascii_hexdigit() && !c.is_ascii_uppercase()));
}

#[test]
fn distinct_signatures_give_distinct_selectors_here() {
    // Collisions are possible in principle and not rejected; these two
    // particular signatures simply do not collide.
    let a = get_func_sig("flip()".to_string());
    let b = get_func_sig("get()".to_string());
    assert_ne!(a, b);
}

#[test]
fn signature_of_no_params_matches_plain_hash() {
    let via_params = find_function_signature("get".to_string(), ParameterList::Params(None));
    let direct = get_func_sig("get()".to_string());
    assert_eq!(via_params.unwrap(), direct);
}

#[test]
fn signature_of_bool_params_matches_plain_hash() {
    let params = ParameterList::Params(Some(Params {
        params: vec![
            Parameter { ty: Expression::Type(Type::Bool), name: None },
            Parameter { ty: Expression::Type(Type::Bool), name: None },
        ],
    }));
    let via_params = find_function_signature("set".to_string(), params);
    let direct = get_func_sig("set(bool,bool)".to_string());
    assert_eq!(via_params.unwrap(), direct);
}

#[test]
fn unsupported_parameter_type_is_a_fault() {
    let params = ParameterList::Params(Some(Params {
        params: vec![
            Parameter {
                ty: Expression::Variable(Identifier { name: "x".to_string() }),
                name: None,
            },
        ],
    }));
    let r = find_function_signature("set".to_string(), params);
    assert_eq!(r, Err(Fault::UnsupportedType));
}

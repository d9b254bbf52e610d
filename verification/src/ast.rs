//! The abstract syntax consumed by the compiler: a source unit of contract
//! definitions, each a list of state-variable, function and constructor
//! parts. The surface-syntax parser that produces these trees is an external
//! collaborator; the compiler only walks them.

use vstd::prelude::*;

verus! {

/// A whole source file: an ordered sequence of top-level parts.
#[derive(Debug, PartialEq, Eq)]
pub struct SourceUnit {
    pub parts: Vec<SourceUnitPart>,
}

/// One top-level declaration.
#[derive(Debug, PartialEq, Eq)]
pub enum SourceUnitPart {
    /// A contract: its name and its ordered parts.
    ContractDefinition(String, Vec<ContractPart>),
}

/// One declaration inside a contract body.
#[derive(Debug, PartialEq, Eq)]
pub enum ContractPart {
    /// A state variable: type, optional visibility, name.
    VariableDefinition(Type, Option<Visibility>, String),
    /// A function: name, parameters, attributes, optional return parameters,
    /// optional single body statement.
    FunctionDefinition(
        String,
        ParameterList,
        Vec<Option<FunctionAttribute>>,
        Option<FunctionReturnParams>,
        Option<Statement>,
    ),
    /// A constructor: parameters, attributes, optional body statement.
    ConstructorDefinition(ParameterList, Vec<Option<FunctionAttribute>>, Option<Statement>),
}

/// A single statement; the language has no blocks or sequencing.
#[derive(Debug, PartialEq, Eq)]
pub enum Statement {
    /// A bare expression statement.
    Expression(Expression),
    /// A return, with or without a value.
    Return(Option<Expression>),
}

/// A parenthesised parameter list, possibly empty.
#[derive(Debug, PartialEq, Eq)]
pub enum ParameterList {
    Params(Option<Params>),
}

/// A non-empty, comma-separated run of parameters.
#[derive(Debug, PartialEq, Eq)]
pub struct Params {
    pub params: Vec<Parameter>,
}

/// One declared parameter: its type expression and an optional name.
#[derive(Debug, PartialEq, Eq)]
pub struct Parameter {
    pub ty: Expression,
    pub name: Option<Identifier>,
}

/// A name appearing in source.
#[derive(Debug, PartialEq, Eq)]
pub struct Identifier {
    pub name: String,
}

/// An expression of the modeled language.
#[derive(Debug, PartialEq, Eq)]
pub enum Expression {
    /// A boolean literal.
    BoolLiteral(bool),
    /// A read of a named state variable.
    Variable(Identifier),
    /// An assignment, target on the left.
    Assign(Box<Expression>, Box<Expression>),
    /// Logical negation.
    Not(Box<Expression>),
    /// A bare type reference.
    Type(Type),
}

/// The `returns (...)` clause of a function.
#[derive(Debug, PartialEq, Eq)]
pub enum FunctionReturnParams {
    ParameterList(ParameterList),
}

/// One attribute in a function's attribute list.
#[derive(Clone, Copy, Debug, PartialEq, Eq, Structural)]
pub enum FunctionAttribute {
    Visibility(Visibility),
    Mutability(Mutability),
}

/// A declared mutability keyword.
#[derive(Clone, Copy, Debug, PartialEq, Eq, Structural)]
pub enum Mutability {
    Pure,
    View,
    Constant,
    Payable,
}

/// A declared visibility keyword.
#[derive(Clone, Copy, Debug, PartialEq, Eq, Structural)]
pub enum Visibility {
    Internal,
    External,
    Private,
    Public,
}

/// A type keyword; only the boolean type exists in the modeled language.
#[derive(Clone, Copy, Debug, PartialEq, Eq, Structural)]
pub enum Type {
    Bool,
}

} // verus!

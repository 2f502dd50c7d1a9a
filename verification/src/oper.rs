//! The abstract syntax tree: expressions, statements, functions and the
//! program root, together with their mathematical images (`ExprV`,
//! `StmtV`, ...) used by the contracts of the parser and the generator.
use vstd::prelude::*;
use crate::tokens::Token;
use crate::tokens::TokenV;

verus! {

broadcast use vstd::seq::axiom_seq_index_decreases;

/// The two scalar storage classes: 4-byte integers and 1-byte characters.
#[derive(PartialEq, Eq, Debug, Clone, Copy)]
pub enum Primitive {
    Int,
    Byte,
}

/// A declared name and its storage class.
#[derive(Eq, Debug, PartialEq, Clone)]
pub struct Variable {
    pub name: String,
    pub size: Primitive,
}

/// Mathematical image of a `Variable`.
pub struct VariableV {
    pub name: Seq<char>,
    pub size: Primitive,
}

impl DeepView for Variable {
    type V = VariableV;

    open spec fn deep_view(&self) -> VariableV {
        VariableV { name: self.name@, size: self.size }
    }
}

/// A prefix operator.
#[derive(Debug, Eq, PartialEq, Clone, Copy)]
pub enum UnaryOp {
    Negation,
    BitComp,
    LogicalNeg,
}

/// An infix operator.
#[derive(Debug, Eq, PartialEq, Clone, Copy)]
pub enum BinaryOp {
    Addition,
    Subtraction,
    Multiplication,
    Division,
    Modulus,
    LessThan,
    LessThanOrEqual,
    GreaterThan,
    GreaterThanOrEqual,
    Equal,
    NotEqual,
    And,
    Or,
    BitwiseLeft,
    BitwiseRight,
    BitwiseAnd,
    BitwiseXor,
    BitwiseOr,
    Comma,
}

/// One node of an expression tree; every node owns its children.
#[derive(Debug, Eq, PartialEq)]
pub enum Expression {
    BinaryOp(BinaryOp, Box<Expression>, Box<Expression>),
    UnaryOp(UnaryOp, Box<Expression>),
    Int(u32),
    Char(u8),
    FunctionCall(String, Vec<Expression>),
    Variable(String),
    VariableRef(String),
    Assign(String, Box<Expression>),
    AssignPostfix(String, Box<Expression>),
    Ternary(Box<Expression>, Box<Expression>, Box<Expression>),
}

/// Mathematical image of an `Expression`.
pub enum ExprV {
    BinaryOp(BinaryOp, Box<ExprV>, Box<ExprV>),
    UnaryOp(UnaryOp, Box<ExprV>),
    Int(u32),
    Char(u8),
    FunctionCall(Seq<char>, Seq<ExprV>),
    Variable(Seq<char>),
    VariableRef(Seq<char>),
    Assign(Seq<char>, Box<ExprV>),
    AssignPostfix(Seq<char>, Box<ExprV>),
    Ternary(Box<ExprV>, Box<ExprV>, Box<ExprV>),
}

/// One statement; a compound block introduces a nested scope.
#[derive(Debug, Eq, PartialEq)]
pub enum Statement {
    Declare(Variable, Option<Expression>),
    Return(Expression),
    If(Expression, Box<Statement>, Option<Box<Statement>>),
    While(Expression, Box<Statement>),
    Exp(Expression),
    Compound(Vec<Statement>),
}

/// Mathematical image of a `Statement`.
pub enum StmtV {
    Declare(VariableV, Option<ExprV>),
    Return(ExprV),
    If(ExprV, Box<StmtV>, Option<Box<StmtV>>),
    While(ExprV, Box<StmtV>),
    Exp(ExprV),
    Compound(Seq<StmtV>),
}

/// One function definition.
#[derive(Debug, Eq, PartialEq)]
pub struct Function {
    pub name: String,
    pub args: Vec<Variable>,
    pub statements: Vec<Statement>,
}

/// Mathematical image of a `Function`.
pub struct FunctionV {
    pub name: Seq<char>,
    pub args: Seq<VariableV>,
    pub statements: Seq<StmtV>,
}

/// The root of the syntax tree: the functions of one translation unit.
#[derive(Debug, Eq, PartialEq)]
pub struct Program {
    pub functions: Vec<Function>,
    pub globals: Vec<String>,
}

/// Mathematical image of a `Program`.
pub struct ProgramV {
    pub functions: Seq<FunctionV>,
    pub globals: Seq<Seq<char>>,
}

/// The image of an expression tree.
pub open spec fn view_expr(e: Expression) -> ExprV
    decreases e,
{
    match e {
        Expression::BinaryOp(op, l, r) => ExprV::BinaryOp(
            op,
            Box::new(view_expr(*l)),
            Box::new(view_expr(*r)),
        ),
        Expression::UnaryOp(op, o) => ExprV::UnaryOp(op, Box::new(view_expr(*o))),
        Expression::Int(v) => ExprV::Int(v),
        Expression::Char(v) => ExprV::Char(v),
        Expression::FunctionCall(name, args) => ExprV::FunctionCall(name@, view_expr_seq(args@)),
        Expression::Variable(name) => ExprV::Variable(name@),
        Expression::VariableRef(name) => ExprV::VariableRef(name@),
        Expression::Assign(name, e2) => ExprV::Assign(name@, Box::new(view_expr(*e2))),
        Expression::AssignPostfix(name, e2) => ExprV::AssignPostfix(name@, Box::new(view_expr(*e2))),
        Expression::Ternary(c, t, f) => ExprV::Ternary(
            Box::new(view_expr(*c)),
            Box::new(view_expr(*t)),
            Box::new(view_expr(*f)),
        ),
    }
}

/// The image of a sequence of expressions, elementwise.
pub open spec fn view_expr_seq(s: Seq<Expression>) -> Seq<ExprV>
    decreases s,
{
    Seq::new(s.len(), |i: int| if 0 <= i < s.len() {
        view_expr(s[i])
    } else {
        ExprV::Int(0)
    })
}

/// The image of a sequence of variables, elementwise.
pub open spec fn view_var_seq(s: Seq<Variable>) -> Seq<VariableV> {
    Seq::new(s.len(), |i: int| s[i].deep_view())
}

/// The image of a statement tree.
pub open spec fn view_stmt(s: Statement) -> StmtV
    decreases s,
{
    match s {
        Statement::Declare(v, None) => StmtV::Declare(v.deep_view(), None),
        Statement::Declare(v, Some(e)) => StmtV::Declare(v.deep_view(), Some(view_expr(e))),
        Statement::Return(e) => StmtV::Return(view_expr(e)),
        Statement::If(c, t, None) => StmtV::If(view_expr(c), Box::new(view_stmt(*t)), None),
        Statement::If(c, t, Some(f)) => StmtV::If(
            view_expr(c),
            Box::new(view_stmt(*t)),
            Some(Box::new(view_stmt(*f))),
        ),
        Statement::While(c, b) => StmtV::While(view_expr(c), Box::new(view_stmt(*b))),
        Statement::Exp(e) => StmtV::Exp(view_expr(e)),
        Statement::Compound(ss) => StmtV::Compound(view_stmt_seq(ss@)),
    }
}

/// The image of a sequence of statements, elementwise.
pub open spec fn view_stmt_seq(s: Seq<Statement>) -> Seq<StmtV>
    decreases s,
{
    Seq::new(s.len(), |i: int| if 0 <= i < s.len() {
        view_stmt(s[i])
    } else {
        StmtV::Exp(ExprV::Int(0))
    })
}

/// The image of a function definition.
pub open spec fn view_func(f: Function) -> FunctionV {
    FunctionV { name: f.name@, args: f.args.deep_view(), statements: view_stmt_seq(f.statements@) }
}

/// The image of a sequence of function definitions, elementwise.
pub open spec fn view_func_seq(s: Seq<Function>) -> Seq<FunctionV> {
    Seq::new(s.len(), |i: int| view_func(s[i]))
}

/// The image of a whole program.
pub open spec fn view_program(p: Program) -> ProgramV {
    ProgramV { functions: view_func_seq(p.functions@), globals: p.globals.deep_view() }
}

/// The infix operator a token denotes, if any.
pub open spec fn spec_binop_of(t: TokenV) -> Option<BinaryOp> {
    match t {
        TokenV::Multiplication => Some(BinaryOp::Multiplication),
        TokenV::Division => Some(BinaryOp::Division),
        TokenV::Addition => Some(BinaryOp::Addition),
        TokenV::Negation => Some(BinaryOp::Subtraction),
        TokenV::Modulus => Some(BinaryOp::Modulus),
        TokenV::LessThan => Some(BinaryOp::LessThan),
        TokenV::LessThanOrEqual => Some(BinaryOp::LessThanOrEqual),
        TokenV::GreaterThan => Some(BinaryOp::GreaterThan),
        TokenV::GreaterThanOrEqual => Some(BinaryOp::GreaterThanOrEqual),
        TokenV::Equal => Some(BinaryOp::Equal),
        TokenV::NotEqual => Some(BinaryOp::NotEqual),
        TokenV::And => Some(BinaryOp::And),
        TokenV::Or => Some(BinaryOp::Or),
        TokenV::BitwiseLeft => Some(BinaryOp::BitwiseLeft),
        TokenV::BitwiseRight => Some(BinaryOp::BitwiseRight),
        TokenV::BitwiseAnd => Some(BinaryOp::BitwiseAnd),
        TokenV::BitwiseXor => Some(BinaryOp::BitwiseXor),
        TokenV::BitwiseOr => Some(BinaryOp::BitwiseOr),
        TokenV::Comma => Some(BinaryOp::Comma),
        _ => None,
    }
}

/// The infix operator a token denotes, if any.
pub fn binary_op_of(t: &Token) -> (r: Option<BinaryOp>)
    ensures
        r == spec_binop_of(t.deep_view()),
{
    match t {
        Token::Multiplication => Some(BinaryOp::Multiplication),
        Token::Division => Some(BinaryOp::Division),
        Token::Addition => Some(BinaryOp::Addition),
        Token::Negation => Some(BinaryOp::Subtraction),
        Token::Modulus => Some(BinaryOp::Modulus),
        Token::LessThan => Some(BinaryOp::LessThan),
        Token::LessThanOrEqual => Some(BinaryOp::LessThanOrEqual),
        Token::GreaterThan => Some(BinaryOp::GreaterThan),
        Token::GreaterThanOrEqual => Some(BinaryOp::GreaterThanOrEqual),
        Token::Equal => Some(BinaryOp::Equal),
        Token::NotEqual => Some(BinaryOp::NotEqual),
        Token::And => Some(BinaryOp::And),
        Token::Or => Some(BinaryOp::Or),
        Token::BitwiseLeft => Some(BinaryOp::BitwiseLeft),
        Token::BitwiseRight => Some(BinaryOp::BitwiseRight),
        Token::BitwiseAnd => Some(BinaryOp::BitwiseAnd),
        Token::BitwiseXor => Some(BinaryOp::BitwiseXor),
        Token::BitwiseOr => Some(BinaryOp::BitwiseOr),
        Token::Comma => Some(BinaryOp::Comma),
        _ => None,
    }
}

/// The prefix operator a token denotes, if any: only `-`, `~` and `!`.
pub open spec fn spec_unop_of(t: TokenV) -> Option<UnaryOp> {
    match t {
        TokenV::Negation => Some(UnaryOp::Negation),
        TokenV::LogicalNeg => Some(UnaryOp::LogicalNeg),
        TokenV::BitComp => Some(UnaryOp::BitComp),
        _ => None,
    }
}

/// The prefix operator a token denotes, if any: only `-`, `~` and `!`.
pub fn unary_op_of(t: &Token) -> (r: Option<UnaryOp>)
    ensures
        r == spec_unop_of(t.deep_view()),
{
    match t {
        Token::Negation => Some(UnaryOp::Negation),
        Token::LogicalNeg => Some(UnaryOp::LogicalNeg),
        Token::BitComp => Some(UnaryOp::BitComp),
        _ => None,
    }
}

} // verus!

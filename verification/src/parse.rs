//! The parser: token sequence in, program syntax tree out.
//!
//! Expressions are parsed by precedence climbing with a fixed total order
//! of binding strength (weakest first): comma, assignment
//! (right-associative, the left operand must be a plain identifier),
//! ternary conditional (right-associative), then the ten left-associative
//! infix levels (logical-or, logical-and, bitwise-or, bitwise-xor,
//! bitwise-and, equality, relational, shift, additive, multiplicative),
//! then prefix operators, then postfix increment/decrement and call
//! argument lists, then primary expressions. Statements are parsed by
//! recursive descent, and a dangling `else` binds to the nearest open
//! `if`. Every executable method returns exactly the value of its
//! specification mirror, so parsing is deterministic.
use vstd::prelude::*;
use crate::tokens::Token;
use crate::tokens::TokenV;
use crate::tokens::Keyword;
use crate::tokens::Value;
use crate::tokens::adv;
use crate::tokens::token_eq;
use crate::tokens::keyword_eq;
use crate::tokens::clone_token;
use crate::error::CompileError;
use crate::error::ErrV;
use crate::error::Expected;
use crate::oper::BinaryOp;
use crate::oper::UnaryOp;
use crate::oper::Primitive;
use crate::oper::Variable;
use crate::oper::VariableV;
use crate::oper::Expression;
use crate::oper::ExprV;
use crate::oper::Statement;
use crate::oper::StmtV;
use crate::oper::Function;
use crate::oper::FunctionV;
use crate::oper::Program;
use crate::oper::ProgramV;
use crate::oper::spec_unop_of;
use crate::oper::unary_op_of;
use crate::oper::view_var_seq;
use crate::oper::view_expr;
use crate::oper::view_expr_seq;
use crate::oper::view_stmt;
use crate::oper::view_stmt_seq;
use crate::oper::view_func;
use crate::oper::view_func_seq;
use crate::oper::view_program;

verus! {

/// Tokens still unread at position `i`.
pub open spec fn remaining(ts: Seq<TokenV>, i: nat) -> nat {
    if i <= ts.len() {
        (ts.len() - i) as nat
    } else {
        0
    }
}

/// The place of one parsing level in the termination order: weaker
/// binding parses sit higher, so a parse may hand the same position on
/// to a tighter level.
pub open spec fn rank_of(l: nat) -> nat {
    if l > 9 {
        182
    } else {
        (200 - 2 * l) as nat
    }
}

/// The token at position `i`, if any: the `found` part of a syntax error.
pub open spec fn found_at(ts: Seq<TokenV>, i: nat) -> Option<TokenV> {
    if i < ts.len() {
        Some(ts[i as int])
    } else {
        None
    }
}

/// An expected-versus-found mismatch at position `i`.
pub open spec fn syn_err(ts: Seq<TokenV>, i: nat, exp: Expected) -> ErrV {
    ErrV::Syntax { expected: exp, found: found_at(ts, i), position: i as usize }
}

/// The assignment operator a token denotes: `Some(None)` for plain `=`,
/// `Some(Some(op))` for a compound assignment folding `op` in, else `None`.
pub open spec fn spec_assign_op(t: TokenV) -> Option<Option<BinaryOp>> {
    match t {
        TokenV::Assign => Some(None),
        TokenV::AssignAdd => Some(Some(BinaryOp::Addition)),
        TokenV::AssignSub => Some(Some(BinaryOp::Subtraction)),
        TokenV::AssignMul => Some(Some(BinaryOp::Multiplication)),
        TokenV::AssignDiv => Some(Some(BinaryOp::Division)),
        TokenV::AssignMod => Some(Some(BinaryOp::Modulus)),
        TokenV::AssignBitLeft => Some(Some(BinaryOp::BitwiseLeft)),
        TokenV::AssignBitRight => Some(Some(BinaryOp::BitwiseRight)),
        TokenV::AssignAnd => Some(Some(BinaryOp::BitwiseAnd)),
        TokenV::AssignOr => Some(Some(BinaryOp::BitwiseOr)),
        TokenV::AssignXor => Some(Some(BinaryOp::BitwiseXor)),
        _ => None,
    }
}

/// The assignment operator a token denotes, if any.
pub fn assign_op_of(t: &Token) -> (r: Option<Option<BinaryOp>>)
    ensures
        r == spec_assign_op(t.deep_view()),
{
    match t {
        Token::Assign => Some(None),
        Token::AssignAdd => Some(Some(BinaryOp::Addition)),
        Token::AssignSub => Some(Some(BinaryOp::Subtraction)),
        Token::AssignMul => Some(Some(BinaryOp::Multiplication)),
        Token::AssignDiv => Some(Some(BinaryOp::Division)),
        Token::AssignMod => Some(Some(BinaryOp::Modulus)),
        Token::AssignBitLeft => Some(Some(BinaryOp::BitwiseLeft)),
        Token::AssignBitRight => Some(Some(BinaryOp::BitwiseRight)),
        Token::AssignAnd => Some(Some(BinaryOp::BitwiseAnd)),
        Token::AssignOr => Some(Some(BinaryOp::BitwiseOr)),
        Token::AssignXor => Some(Some(BinaryOp::BitwiseXor)),
        _ => None,
    }
}

/// The infix operator a token denotes at precedence level `l` (0 the
/// weakest: logical-or; 9 the strongest: multiplicative), if any.
pub open spec fn spec_binop_at(t: TokenV, l: nat) -> Option<BinaryOp> {
    if l == 0 {
        if t is Or {
            Some(BinaryOp::Or)
        } else {
            None
        }
    } else if l == 1 {
        if t is And {
            Some(BinaryOp::And)
        } else {
            None
        }
    } else if l == 2 {
        if t is BitwiseOr {
            Some(BinaryOp::BitwiseOr)
        } else {
            None
        }
    } else if l == 3 {
        if t is BitwiseXor {
            Some(BinaryOp::BitwiseXor)
        } else {
            None
        }
    } else if l == 4 {
        if t is BitwiseAnd {
            Some(BinaryOp::BitwiseAnd)
        } else {
            None
        }
    } else if l == 5 {
        if t is Equal {
            Some(BinaryOp::Equal)
        } else if t is NotEqual {
            Some(BinaryOp::NotEqual)
        } else {
            None
        }
    } else if l == 6 {
        if t is LessThan {
            Some(BinaryOp::LessThan)
        } else if t is LessThanOrEqual {
            Some(BinaryOp::LessThanOrEqual)
        } else if t is GreaterThan {
            Some(BinaryOp::GreaterThan)
        } else if t is GreaterThanOrEqual {
            Some(BinaryOp::GreaterThanOrEqual)
        } else {
            None
        }
    } else if l == 7 {
        if t is BitwiseLeft {
            Some(BinaryOp::BitwiseLeft)
        } else if t is BitwiseRight {
            Some(BinaryOp::BitwiseRight)
        } else {
            None
        }
    } else if l == 8 {
        if t is Addition {
            Some(BinaryOp::Addition)
        } else if t is Negation {
            Some(BinaryOp::Subtraction)
        } else {
            None
        }
    } else if l == 9 {
        if t is Multiplication {
            Some(BinaryOp::Multiplication)
        } else if t is Division {
            Some(BinaryOp::Division)
        } else if t is Modulus {
            Some(BinaryOp::Modulus)
        } else {
            None
        }
    } else {
        None
    }
}

/// The infix operator a token denotes at precedence level `l`, if any.
pub fn binop_at(t: &Token, l: u8) -> (r: Option<BinaryOp>)
    ensures
        r == spec_binop_at(t.deep_view(), l as nat),
{
    if l == 0 {
        match t {
            Token::Or => Some(BinaryOp::Or),
            _ => None,
        }
    } else if l == 1 {
        match t {
            Token::And => Some(BinaryOp::And),
            _ => None,
        }
    } else if l == 2 {
        match t {
            Token::BitwiseOr => Some(BinaryOp::BitwiseOr),
            _ => None,
        }
    } else if l == 3 {
        match t {
            Token::BitwiseXor => Some(BinaryOp::BitwiseXor),
            _ => None,
        }
    } else if l == 4 {
        match t {
            Token::BitwiseAnd => Some(BinaryOp::BitwiseAnd),
            _ => None,
        }
    } else if l == 5 {
        match t {
            Token::Equal => Some(BinaryOp::Equal),
            Token::NotEqual => Some(BinaryOp::NotEqual),
            _ => None,
        }
    } else if l == 6 {
        match t {
            Token::LessThan => Some(BinaryOp::LessThan),
            Token::LessThanOrEqual => Some(BinaryOp::LessThanOrEqual),
            Token::GreaterThan => Some(BinaryOp::GreaterThan),
            Token::GreaterThanOrEqual => Some(BinaryOp::GreaterThanOrEqual),
            _ => None,
        }
    } else if l == 7 {
        match t {
            Token::BitwiseLeft => Some(BinaryOp::BitwiseLeft),
            Token::BitwiseRight => Some(BinaryOp::BitwiseRight),
            _ => None,
        }
    } else if l == 8 {
        match t {
            Token::Addition => Some(BinaryOp::Addition),
            Token::Negation => Some(BinaryOp::Subtraction),
            _ => None,
        }
    } else if l == 9 {
        match t {
            Token::Multiplication => Some(BinaryOp::Multiplication),
            Token::Division => Some(BinaryOp::Division),
            Token::Modulus => Some(BinaryOp::Modulus),
            _ => None,
        }
    } else {
        None
    }
}

/// A primary expression at `i`: a literal, a name, or a parenthesized
/// sub-expression.
pub open spec fn spec_parse_primary(ts: Seq<TokenV>, i: nat) -> Result<(ExprV, nat), ErrV>
    decreases remaining(ts, i), 140nat,
{
    if i >= ts.len() {
        Err(syn_err(ts, i, Expected::Expression))
    } else {
        match ts[i as int] {
            TokenV::Literal(Value::Int(v)) => Ok((ExprV::Int(v), (i + 1) as nat)),
            TokenV::Literal(Value::Char(v)) => Ok((ExprV::Char(v), (i + 1) as nat)),
            TokenV::Identifier(name) => Ok((ExprV::Variable(name), (i + 1) as nat)),
            TokenV::OpenParen => match spec_parse_expression(ts, (i + 1) as nat) {
                Err(e) => Err(e),
                Ok(p) => {
                    let j = adv(p.1, i, ts.len());
                    if j < ts.len() && ts[j as int] is CloseParen {
                        Ok((p.0, (j + 1) as nat))
                    } else {
                        Err(syn_err(ts, j, Expected::CloseParen))
                    }
                },
            },
            _ => Err(syn_err(ts, i, Expected::Expression)),
        }
    }
}

/// The comma-separated (the separator, not the operator) arguments of a
/// call, at least one, parsed at assignment strength.
pub open spec fn spec_parse_call_args(ts: Seq<TokenV>, i: nat) -> Result<(Seq<ExprV>, nat), ErrV>
    decreases remaining(ts, i), 255nat,
{
    match spec_parse_assign(ts, i) {
        Err(e) => Err(e),
        Ok(p) => {
            let j = adv(p.1, i, ts.len());
            if j < ts.len() && ts[j as int] is Comma {
                match spec_parse_call_args(ts, (j + 1) as nat) {
                    Err(e) => Err(e),
                    Ok(q) => Ok((seq![p.0] + q.0, q.1)),
                }
            } else {
                Ok((seq![p.0], j))
            }
        },
    }
}

/// Fold postfix constructs onto `lhs` from `i` on: increment, decrement
/// and call argument lists bind tightest; both require a plain name.
pub open spec fn spec_parse_postfix_rest(ts: Seq<TokenV>, i: nat, lhs: ExprV) -> Result<
    (ExprV, nat),
    ErrV,
>
    decreases remaining(ts, i), 150nat,
{
    if i >= ts.len() {
        Ok((lhs, i))
    } else if ts[i as int] is Increment || ts[i as int] is Decrement {
        match lhs {
            ExprV::Variable(name) => {
                let op = if ts[i as int] is Increment {
                    BinaryOp::Addition
                } else {
                    BinaryOp::Subtraction
                };
                let folded = ExprV::AssignPostfix(
                    name,
                    Box::new(
                        ExprV::BinaryOp(
                            op,
                            Box::new(ExprV::Variable(name)),
                            Box::new(ExprV::Int(1)),
                        ),
                    ),
                );
                spec_parse_postfix_rest(ts, (i + 1) as nat, folded)
            },
            _ => Err(ErrV::InvalidAssignmentTarget { position: i as usize }),
        }
    } else if ts[i as int] is OpenParen {
        match lhs {
            ExprV::Variable(name) => {
                if i + 1 < ts.len() && ts[i + 1 as int] is CloseParen {
                    spec_parse_postfix_rest(
                        ts,
                        (i + 2) as nat,
                        ExprV::FunctionCall(name, Seq::empty()),
                    )
                } else {
                    match spec_parse_call_args(ts, (i + 1) as nat) {
                        Err(e) => Err(e),
                        Ok(p) => {
                            let j = adv(p.1, i, ts.len());
                            if j < ts.len() && ts[j as int] is CloseParen {
                                spec_parse_postfix_rest(
                                    ts,
                                    (j + 1) as nat,
                                    ExprV::FunctionCall(name, p.0),
                                )
                            } else {
                                Err(syn_err(ts, j, Expected::CloseParen))
                            }
                        },
                    }
                }
            },
            _ => Ok((lhs, i)),
        }
    } else {
        Ok((lhs, i))
    }
}

/// A postfix expression at `i`: a primary and its postfix constructs.
pub open spec fn spec_parse_postfix(ts: Seq<TokenV>, i: nat) -> Result<(ExprV, nat), ErrV>
    decreases remaining(ts, i), 160nat,
{
    match spec_parse_primary(ts, i) {
        Err(e) => Err(e),
        Ok(p) => spec_parse_postfix_rest(ts, adv(p.1, i, ts.len()), p.0),
    }
}

/// A unary expression at `i`: prefix `-`, `~` and `!` are
/// right-associative and bind tighter than any infix operator.
pub open spec fn spec_parse_unary(ts: Seq<TokenV>, i: nat) -> Result<(ExprV, nat), ErrV>
    decreases remaining(ts, i), 170nat,
{
    if i < ts.len() && spec_unop_of(ts[i as int]) is Some {
        let op = spec_unop_of(ts[i as int])->Some_0;
        match spec_parse_unary(ts, (i + 1) as nat) {
            Err(e) => Err(e),
            Ok(p) => Ok((ExprV::UnaryOp(op, Box::new(p.0)), p.1)),
        }
    } else {
        spec_parse_postfix(ts, i)
    }
}

/// Fold further operands at level `l` onto `lhs`: left-associative.
pub open spec fn spec_parse_binary_rest(ts: Seq<TokenV>, i: nat, l: nat, lhs: ExprV) -> Result<
    (ExprV, nat),
    ErrV,
>
    decreases remaining(ts, i), rank_of(l) - 1,
{
    if i < ts.len() && spec_binop_at(ts[i as int], l) is Some {
        let op = spec_binop_at(ts[i as int], l)->Some_0;
        let next = if l < 9 {
            spec_parse_binary(ts, (i + 1) as nat, (l + 1) as nat)
        } else {
            spec_parse_unary(ts, (i + 1) as nat)
        };
        match next {
            Err(e) => Err(e),
            Ok(p) => spec_parse_binary_rest(
                ts,
                adv(p.1, i, ts.len()),
                l,
                ExprV::BinaryOp(op, Box::new(lhs), Box::new(p.0)),
            ),
        }
    } else {
        Ok((lhs, i))
    }
}

/// An infix expression at level `l`: one operand at the next-tighter
/// level, then operands folded in while tokens at this level follow.
pub open spec fn spec_parse_binary(ts: Seq<TokenV>, i: nat, l: nat) -> Result<(ExprV, nat), ErrV>
    decreases remaining(ts, i), rank_of(l),
{
    let first = if l < 9 {
        spec_parse_binary(ts, i, (l + 1) as nat)
    } else {
        spec_parse_unary(ts, i)
    };
    match first {
        Err(e) => Err(e),
        Ok(p) => spec_parse_binary_rest(ts, adv(p.1, i, ts.len()), l, p.0),
    }
}

/// A ternary conditional at `i`: right-associative `cond ? then : else`.
pub open spec fn spec_parse_ternary(ts: Seq<TokenV>, i: nat) -> Result<(ExprV, nat), ErrV>
    decreases remaining(ts, i), 230nat,
{
    match spec_parse_binary(ts, i, 0) {
        Err(e) => Err(e),
        Ok(p) => {
            let j = adv(p.1, i, ts.len());
            if j < ts.len() && ts[j as int] is Question {
                match spec_parse_expression(ts, (j + 1) as nat) {
                    Err(e) => Err(e),
                    Ok(q) => {
                        let k = adv(q.1, j, ts.len());
                        if k < ts.len() && ts[k as int] is Colon {
                            match spec_parse_ternary(ts, (k + 1) as nat) {
                                Err(e) => Err(e),
                                Ok(w) => Ok(
                                    (
                                        ExprV::Ternary(
                                            Box::new(p.0),
                                            Box::new(q.0),
                                            Box::new(w.0),
                                        ),
                                        w.1,
                                    ),
                                ),
                            }
                        } else {
                            Err(syn_err(ts, k, Expected::Colon))
                        }
                    },
                }
            } else {
                Ok((p.0, j))
            }
        },
    }
}

/// An assignment at `i`: right-associative, and the left operand must
/// reduce to a plain identifier, else Invalid-Assignment-Target. A
/// compound assignment folds its operator into the stored value.
pub open spec fn spec_parse_assign(ts: Seq<TokenV>, i: nat) -> Result<(ExprV, nat), ErrV>
    decreases remaining(ts, i), 240nat,
{
    match spec_parse_ternary(ts, i) {
        Err(e) => Err(e),
        Ok(p) => {
            let j = adv(p.1, i, ts.len());
            if j < ts.len() && spec_assign_op(ts[j as int]) is Some {
                let aop = spec_assign_op(ts[j as int])->Some_0;
                match p.0 {
                    ExprV::Variable(name) => match spec_parse_assign(ts, (j + 1) as nat) {
                        Err(e) => Err(e),
                        Ok(q) => {
                            let stored = match aop {
                                None => q.0,
                                Some(op) => ExprV::BinaryOp(
                                    op,
                                    Box::new(ExprV::Variable(name)),
                                    Box::new(q.0),
                                ),
                            };
                            Ok((ExprV::Assign(name, Box::new(stored)), q.1))
                        },
                    },
                    _ => Err(ErrV::InvalidAssignmentTarget { position: j as usize }),
                }
            } else {
                Ok((p.0, j))
            }
        },
    }
}

/// Fold further comma operands onto `lhs`: the comma operator binds
/// weakest of all.
pub open spec fn spec_parse_expression_rest(ts: Seq<TokenV>, i: nat, lhs: ExprV) -> Result<
    (ExprV, nat),
    ErrV,
>
    decreases remaining(ts, i), 245nat,
{
    if i < ts.len() && ts[i as int] is Comma {
        match spec_parse_assign(ts, (i + 1) as nat) {
            Err(e) => Err(e),
            Ok(p) => spec_parse_expression_rest(
                ts,
                adv(p.1, i, ts.len()),
                ExprV::BinaryOp(BinaryOp::Comma, Box::new(lhs), Box::new(p.0)),
            ),
        }
    } else {
        Ok((lhs, i))
    }
}

/// A full expression at `i`, from the weakest level: the comma operator.
pub open spec fn spec_parse_expression(ts: Seq<TokenV>, i: nat) -> Result<(ExprV, nat), ErrV>
    decreases remaining(ts, i), 250nat,
{
    match spec_parse_assign(ts, i) {
        Err(e) => Err(e),
        Ok(p) => spec_parse_expression_rest(ts, adv(p.1, i, ts.len()), p.0),
    }
}

/// One statement at `i`: declaration, return, if, while, compound block
/// or bare expression statement.
pub open spec fn spec_parse_statement(ts: Seq<TokenV>, i: nat) -> Result<(StmtV, nat), ErrV>
    decreases remaining(ts, i), 260nat,
{
    if i >= ts.len() {
        Err(syn_err(ts, i, Expected::Statement))
    } else {
        match ts[i as int] {
            TokenV::Keyword(Keyword::Int) => spec_parse_declare(ts, i, Primitive::Int),
            TokenV::Keyword(Keyword::Char) => spec_parse_declare(ts, i, Primitive::Byte),
            TokenV::Keyword(Keyword::Return) => match spec_parse_expression(ts, (i + 1) as nat) {
                Err(e) => Err(e),
                Ok(p) => {
                    let j = adv(p.1, i, ts.len());
                    if j < ts.len() && ts[j as int] is SemiColon {
                        Ok((StmtV::Return(p.0), (j + 1) as nat))
                    } else {
                        Err(syn_err(ts, j, Expected::Semicolon))
                    }
                },
            },
            TokenV::Keyword(Keyword::If) => {
                if i + 1 < ts.len() && ts[i + 1 as int] is OpenParen {
                    match spec_parse_expression(ts, (i + 2) as nat) {
                        Err(e) => Err(e),
                        Ok(p) => {
                            let j = adv(p.1, i, ts.len());
                            if j < ts.len() && ts[j as int] is CloseParen {
                                match spec_parse_statement(ts, (j + 1) as nat) {
                                    Err(e) => Err(e),
                                    Ok(q) => {
                                        let k = adv(q.1, j, ts.len());
                                        if k < ts.len() && ts[k as int] == TokenV::Keyword(
                                            Keyword::Else,
                                        ) {
                                            match spec_parse_statement(ts, (k + 1) as nat) {
                                                Err(e) => Err(e),
                                                Ok(w) => Ok(
                                                    (
                                                        StmtV::If(
                                                            p.0,
                                                            Box::new(q.0),
                                                            Some(Box::new(w.0)),
                                                        ),
                                                        w.1,
                                                    ),
                                                ),
                                            }
                                        } else {
                                            Ok((StmtV::If(p.0, Box::new(q.0), None), k))
                                        }
                                    },
                                }
                            } else {
                                Err(syn_err(ts, j, Expected::CloseParen))
                            }
                        },
                    }
                } else {
                    Err(syn_err(ts, (i + 1) as nat, Expected::OpenParen))
                }
            },
            TokenV::Keyword(Keyword::While) => {
                if i + 1 < ts.len() && ts[i + 1 as int] is OpenParen {
                    match spec_parse_expression(ts, (i + 2) as nat) {
                        Err(e) => Err(e),
                        Ok(p) => {
                            let j = adv(p.1, i, ts.len());
                            if j < ts.len() && ts[j as int] is CloseParen {
                                match spec_parse_statement(ts, (j + 1) as nat) {
                                    Err(e) => Err(e),
                                    Ok(q) => Ok((StmtV::While(p.0, Box::new(q.0)), q.1)),
                                }
                            } else {
                                Err(syn_err(ts, j, Expected::CloseParen))
                            }
                        },
                    }
                } else {
                    Err(syn_err(ts, (i + 1) as nat, Expected::OpenParen))
                }
            },
            TokenV::OpenBrace => match spec_parse_block_items(ts, (i + 1) as nat) {
                Err(e) => Err(e),
                Ok(p) => Ok((StmtV::Compound(p.0), (p.1 + 1) as nat)),
            },
            _ => match spec_parse_expression(ts, i) {
                Err(e) => Err(e),
                Ok(p) => {
                    let j = adv(p.1, i, ts.len());
                    if j < ts.len() && ts[j as int] is SemiColon {
                        Ok((StmtV::Exp(p.0), (j + 1) as nat))
                    } else {
                        Err(syn_err(ts, j, Expected::Semicolon))
                    }
                },
            },
        }
    }
}

/// A declaration statement at `i`: the primitive keyword sits at `i`,
/// then a name, an optional `=` initializer at assignment strength, and
/// the terminator.
pub open spec fn spec_parse_declare(ts: Seq<TokenV>, i: nat, prim: Primitive) -> Result<
    (StmtV, nat),
    ErrV,
>
    decreases remaining(ts, i), 258nat,
{
    if i + 1 < ts.len() && ts[i + 1 as int] is Identifier {
        let name = ts[i + 1 as int]->Identifier_0;
        let v = VariableV { name: name, size: prim };
        if i + 2 < ts.len() && ts[i + 2 as int] is SemiColon {
            Ok((StmtV::Declare(v, None), (i + 3) as nat))
        } else if i + 2 < ts.len() && ts[i + 2 as int] is Assign {
            match spec_parse_assign(ts, (i + 3) as nat) {
                Err(e) => Err(e),
                Ok(p) => {
                    let j = adv(p.1, i, ts.len());
                    if j < ts.len() && ts[j as int] is SemiColon {
                        Ok((StmtV::Declare(v, Some(p.0)), (j + 1) as nat))
                    } else {
                        Err(syn_err(ts, j, Expected::Semicolon))
                    }
                },
            }
        } else {
            Err(syn_err(ts, (i + 2) as nat, Expected::Semicolon))
        }
    } else {
        Err(syn_err(ts, (i + 1) as nat, Expected::Identifier))
    }
}

/// The statements of a compound block from `i` until its closing brace,
/// which is left for the caller to consume.
pub open spec fn spec_parse_block_items(ts: Seq<TokenV>, i: nat) -> Result<(Seq<StmtV>, nat), ErrV>
    decreases remaining(ts, i), 270nat,
{
    if i >= ts.len() {
        Err(syn_err(ts, i, Expected::CloseBrace))
    } else if ts[i as int] is CloseBrace {
        Ok((Seq::empty(), i))
    } else {
        match spec_parse_statement(ts, i) {
            Err(e) => Err(e),
            Ok(p) => match spec_parse_block_items(ts, adv(p.1, i, ts.len())) {
                Err(e) => Err(e),
                Ok(q) => Ok((seq![p.0] + q.0, q.1)),
            },
        }
    }
}

/// The parameter list of a function definition from `i` until its
/// closing parenthesis, which is left for the caller to consume: each
/// parameter is a primitive keyword and a name; a separating comma is
/// stepped past where present.
pub open spec fn spec_parse_params(ts: Seq<TokenV>, i: nat) -> Result<(Seq<VariableV>, nat), ErrV>
    decreases remaining(ts, i), 280nat,
{
    if i >= ts.len() {
        Err(syn_err(ts, i, Expected::CloseParen))
    } else if ts[i as int] is CloseParen {
        Ok((Seq::empty(), i))
    } else {
        let prim = if ts[i as int] == TokenV::Keyword(Keyword::Int) {
            Some(Primitive::Int)
        } else if ts[i as int] == TokenV::Keyword(Keyword::Char) {
            Some(Primitive::Byte)
        } else {
            None
        };
        match prim {
            None => Err(syn_err(ts, i, Expected::PrimitiveKeyword)),
            Some(sz) => {
                if i + 1 < ts.len() && ts[i + 1 as int] is Identifier {
                    let v = VariableV { name: ts[i + 1 as int]->Identifier_0, size: sz };
                    let j = if i + 2 < ts.len() && ts[i + 2 as int] is Comma {
                        (i + 3) as nat
                    } else {
                        (i + 2) as nat
                    };
                    match spec_parse_params(ts, j) {
                        Err(e) => Err(e),
                        Ok(q) => Ok((seq![v] + q.0, q.1)),
                    }
                } else {
                    Err(syn_err(ts, (i + 1) as nat, Expected::Identifier))
                }
            },
        }
    }
}

/// One function definition at `i`: the integer keyword, a name, a
/// parenthesized parameter list (empty permitted) and a compound body.
pub open spec fn spec_parse_function(ts: Seq<TokenV>, i: nat) -> Result<(FunctionV, nat), ErrV>
    decreases remaining(ts, i), 290nat,
{
    if !(i < ts.len() && ts[i as int] == TokenV::Keyword(Keyword::Int)) {
        Err(syn_err(ts, i, Expected::IntKeyword))
    } else if !(i + 1 < ts.len() && ts[i + 1 as int] is Identifier) {
        Err(syn_err(ts, (i + 1) as nat, Expected::Identifier))
    } else if !(i + 2 < ts.len() && ts[i + 2 as int] is OpenParen) {
        Err(syn_err(ts, (i + 2) as nat, Expected::OpenParen))
    } else {
        let name = ts[i + 1 as int]->Identifier_0;
        match spec_parse_params(ts, (i + 3) as nat) {
            Err(e) => Err(e),
            Ok(p) => {
                let j = adv(p.1, i, ts.len());
                if j < ts.len() && ts[j as int] is CloseParen {
                    if j + 1 < ts.len() && ts[j + 1 as int] is OpenBrace {
                        match spec_parse_block_items(ts, (j + 2) as nat) {
                            Err(e) => Err(e),
                            Ok(q) => Ok(
                                (
                                    FunctionV { name: name, args: p.0, statements: q.0 },
                                    (q.1 + 1) as nat,
                                ),
                            ),
                        }
                    } else {
                        Err(syn_err(ts, (j + 1) as nat, Expected::OpenBrace))
                    }
                } else {
                    Err(syn_err(ts, j, Expected::CloseParen))
                }
            },
        }
    }
}

/// Whether a function of this name stands among the definitions from
/// index `i` on.
pub open spec fn spec_fname_in(fs: Seq<FunctionV>, i: nat, name: Seq<char>) -> bool
    decreases fs.len() - i,
{
    if i >= fs.len() {
        false
    } else {
        fs[i as int].name == name || spec_fname_in(fs, (i + 1) as nat, name)
    }
}

/// The function definitions from `i` until the tokens are exhausted,
/// given the definitions already parsed: a name defined twice is a
/// syntax error at the second definition's name token, since function
/// names are unique — there is no overloading.
pub open spec fn spec_parse_funcs(ts: Seq<TokenV>, i: nat, prior: Seq<FunctionV>) -> Result<
    Seq<FunctionV>,
    ErrV,
>
    decreases remaining(ts, i), 300nat,
{
    if i >= ts.len() {
        Ok(Seq::empty())
    } else {
        match spec_parse_function(ts, i) {
            Err(e) => Err(e),
            Ok(p) => {
                if spec_fname_in(prior, 0, p.0.name) {
                    Err(syn_err(ts, (i + 1) as nat, Expected::FreshIdentifier))
                } else {
                    match spec_parse_funcs(ts, adv(p.1, i, ts.len()), prior.push(p.0)) {
                        Err(e) => Err(e),
                        Ok(fs) => Ok(seq![p.0] + fs),
                    }
                }
            },
        }
    }
}

/// A whole program: a sequence of function definitions consuming every
/// token, their names pairwise distinct.
pub open spec fn spec_parse_program(ts: Seq<TokenV>) -> Result<ProgramV, ErrV> {
    match spec_parse_funcs(ts, 0, Seq::empty()) {
        Err(e) => Err(e),
        Ok(fs) => Ok(ProgramV { functions: fs, globals: Seq::empty() }),
    }
}

/// Appending a definition extends name membership by exactly that name.
proof fn lemma_fname_in_push(fs: Seq<FunctionV>, f: FunctionV, name: Seq<char>, i: nat)
    requires
        i <= fs.len(),
    ensures
        spec_fname_in(fs.push(f), i, name) == (spec_fname_in(fs, i, name) || f.name == name),
    decreases fs.len() - i,
{
    if i < fs.len() {
        assert(fs.push(f)[i as int] == fs[i as int]);
        lemma_fname_in_push(fs, f, name, (i + 1) as nat);
    } else {
        assert(fs.push(f)[i as int] == f);
        assert(!spec_fname_in(fs.push(f), (i + 1) as nat, name));
        assert(!spec_fname_in(fs, i, name));
    }
}

/// Law: a successful parse yields function definitions whose names are
/// pairwise distinct — no overloading — and none of them repeats a name
/// among the definitions already given.
pub proof fn lemma_parse_funcs_distinct(ts: Seq<TokenV>, i: nat, prior: Seq<FunctionV>)
    ensures
        spec_parse_funcs(ts, i, prior) matches Ok(fs) ==> ((forall|j: int, k: int|
            0 <= j < k < fs.len() ==> fs[j].name != fs[k].name) && (forall|j: int|
            0 <= j < fs.len() ==> !spec_fname_in(prior, 0, #[trigger] fs[j].name))),
    decreases remaining(ts, i),
{
    if i >= ts.len() {
    } else {
        match spec_parse_function(ts, i) {
            Err(_) => {},
            Ok(p) => {
                if spec_fname_in(prior, 0, p.0.name) {
                } else {
                    let next = adv(p.1, i, ts.len());
                    lemma_parse_funcs_distinct(ts, next, prior.push(p.0));
                    match spec_parse_funcs(ts, next, prior.push(p.0)) {
                        Err(_) => {},
                        Ok(rest) => {
                            assert forall|j: int| 0 <= j < rest.len() implies #[trigger] rest[j].name
                                != p.0.name && !spec_fname_in(prior, 0, rest[j].name) by {
                                lemma_fname_in_push(prior, p.0, rest[j].name, 0);
                            }
                            let fs = seq![p.0] + rest;
                            assert forall|j: int, k: int| 0 <= j < k < fs.len() implies fs[j].name
                                != fs[k].name by {
                                assert(fs[0] == p.0);
                                if 0 < j {
                                    assert(fs[j] == rest[j - 1]);
                                }
                                assert(fs[k] == rest[k - 1]);
                            }
                            assert forall|j: int| 0 <= j < fs.len() implies !spec_fname_in(
                                prior,
                                0,
                                #[trigger] fs[j].name,
                            ) by {
                                if 0 < j {
                                    assert(fs[j] == rest[j - 1]);
                                }
                            }
                        },
                    }
                }
            },
        }
    }
}

/// The cursor of the parser: an immutable token array and a position,
/// advanced past exactly the tokens each parse consumed.
pub struct Parser {
    tokens: Vec<Token>,
    pos: usize,
}

impl Parser {
    /// The images of the tokens under the cursor.
    pub closed spec fn toks(&self) -> Seq<TokenV> {
        self.tokens.deep_view()
    }

    /// The current token position.
    pub closed spec fn at(&self) -> int {
        self.pos as int
    }

    /// The cursor is inside its token array.
    pub closed spec fn wf(&self) -> bool {
        self.pos <= self.tokens@.len()
    }

    pub fn new(tokens: Vec<Token>) -> (r: Parser)
        ensures
            r.wf(),
            r.toks() == tokens.deep_view(),
            r.at() == 0,
    {
        Parser { tokens, pos: 0 }
    }

    /// Whether any token is left under the cursor.
    pub fn tokens_left(&self) -> (b: bool)
        requires
            self.wf(),
        ensures
            b == (self.at() < self.toks().len()),
    {
        self.pos < self.tokens.len()
    }

    /// The token under the cursor, without moving.
    pub fn peek(&self) -> (r: Option<&Token>)
        requires
            self.wf(),
        ensures
            match r {
                Some(t) => self.at() < self.toks().len() && t.deep_view() == self.toks()[self.at()],
                None => self.at() >= self.toks().len(),
            },
    {
        if self.pos < self.tokens.len() {
            Some(&self.tokens[self.pos])
        } else {
            None
        }
    }

    /// Whether the token under the cursor has the given image.
    pub fn peek_token(&self, token: &Token) -> (b: bool)
        requires
            self.wf(),
        ensures
            b == (self.at() < self.toks().len() && self.toks()[self.at()] == token.deep_view()),
    {
        if self.pos < self.tokens.len() {
            token_eq(&self.tokens[self.pos], token)
        } else {
            false
        }
    }

    /// The token under the cursor, stepping past it.
    pub fn next(&mut self) -> (r: Option<Token>)
        requires
            old(self).wf(),
        ensures
            final(self).wf(),
            final(self).toks() == old(self).toks(),
            old(self).at() < old(self).toks().len() ==> (r matches Some(t) && t.deep_view()
                == old(self).toks()[old(self).at()] && final(self).at() == old(self).at() + 1),
            old(self).at() >= old(self).toks().len() ==> r is None && final(self).at() == old(
                self,
            ).at(),
    {
        if self.pos < self.tokens.len() {
            let t = clone_token(&self.tokens[self.pos]);
            self.pos = self.pos + 1;
            Some(t)
        } else {
            None
        }
    }

    /// An expected-versus-found error at the cursor.
    fn syntax_err(&self, exp: Expected) -> (e: CompileError)
        requires
            self.wf(),
        ensures
            e.deep_view() == syn_err(self.toks(), self.at() as nat, exp),
    {
        let found = if self.pos < self.tokens.len() {
            Some(clone_token(&self.tokens[self.pos]))
        } else {
            None
        };
        CompileError::Syntax { expected: exp, found, position: self.pos }
    }

    /// Step past the token under the cursor if it has the given image,
    /// else fail with the given expected construct.
    pub fn match_token(&mut self, token: Token, exp: Expected) -> (r: Result<Token, CompileError>)
        requires
            old(self).wf(),
        ensures
            final(self).wf(),
            final(self).toks() == old(self).toks(),
            if old(self).at() < old(self).toks().len() && old(self).toks()[old(self).at()]
                == token.deep_view() {
                r matches Ok(t) && t.deep_view() == token.deep_view() && final(self).at() == old(
                    self,
                ).at() + 1
            } else {
                r matches Err(e) && e.deep_view() == syn_err(
                    old(self).toks(),
                    old(self).at() as nat,
                    exp,
                ) && final(self).at() == old(self).at()
            },
    {
        if self.pos < self.tokens.len() && token_eq(&self.tokens[self.pos], &token) {
            self.pos = self.pos + 1;
            Ok(token)
        } else {
            Err(self.syntax_err(exp))
        }
    }

    /// Step past the token under the cursor if it is the given keyword,
    /// else fail with the given expected construct.
    pub fn match_keyword(&mut self, keyword: &Keyword, exp: Expected) -> (r: Result<
        (),
        CompileError,
    >)
        requires
            old(self).wf(),
        ensures
            final(self).wf(),
            final(self).toks() == old(self).toks(),
            if old(self).at() < old(self).toks().len() && old(self).toks()[old(self).at()]
                == TokenV::Keyword(*keyword) {
                r matches Ok(u) && final(self).at() == old(self).at() + 1
            } else {
                r matches Err(e) && e.deep_view() == syn_err(
                    old(self).toks(),
                    old(self).at() as nat,
                    exp,
                ) && final(self).at() == old(self).at()
            },
    {
        if self.pos < self.tokens.len() {
            let matched = match &self.tokens[self.pos] {
                Token::Keyword(k) => keyword_eq(k, keyword),
                _ => false,
            };
            if matched {
                self.pos = self.pos + 1;
                return Ok(());
            }
        }
        Err(self.syntax_err(exp))
    }

    /// Step past the token under the cursor if it is an identifier and
    /// hand its name out, else fail.
    pub fn match_identifier(&mut self) -> (r: Result<String, CompileError>)
        requires
            old(self).wf(),
        ensures
            final(self).wf(),
            final(self).toks() == old(self).toks(),
            if old(self).at() < old(self).toks().len() && old(self).toks()[old(self).at()]
                is Identifier {
                r matches Ok(name) && TokenV::Identifier(name@) == old(self).toks()[old(self).at()]
                    && final(self).at() == old(self).at() + 1
            } else {
                r matches Err(e) && e.deep_view() == syn_err(
                    old(self).toks(),
                    old(self).at() as nat,
                    Expected::Identifier,
                ) && final(self).at() == old(self).at()
            },
    {
        if self.pos < self.tokens.len() {
            let name = match &self.tokens[self.pos] {
                Token::Identifier(s) => Some(s.clone()),
                _ => None,
            };
            match name {
                Some(s) => {
                    self.pos = self.pos + 1;
                    return Ok(s);
                },
                None => {},
            }
        }
        Err(self.syntax_err(Expected::Identifier))
    }

    /// Step past the token under the cursor.
    fn bump(&mut self)
        requires
            old(self).wf(),
            old(self).at() < old(self).toks().len(),
        ensures
            final(self).wf(),
            final(self).toks() == old(self).toks(),
            final(self).at() == old(self).at() + 1,
    {
        let n: usize = self.tokens.len();
        self.pos = self.pos + 1;
    }

    /// A primary expression: a literal, a name, or a parenthesized
    /// sub-expression.
    fn parse_primary(&mut self) -> (r: Result<Expression, CompileError>)
        requires
            old(self).wf(),
        ensures
            final(self).wf(),
            final(self).toks() == old(self).toks(),
            match spec_parse_primary(old(self).toks(), old(self).at() as nat) {
                Ok(p) => r matches Ok(e) && view_expr(e) == p.0 && final(self).at() == p.1 && old(
                    self,
                ).at() < p.1 <= old(self).toks().len(),
                Err(er) => r matches Err(e2) && e2.deep_view() == er,
            },
        decreases remaining(self.toks(), self.at() as nat), 140nat,
    {
        if self.pos >= self.tokens.len() {
            return Err(self.syntax_err(Expected::Expression));
        }
        let t = clone_token(&self.tokens[self.pos]);
        match t {
            Token::Literal(Value::Int(v)) => {
                self.bump();
                Ok(Expression::Int(v))
            },
            Token::Literal(Value::Char(v)) => {
                self.bump();
                Ok(Expression::Char(v))
            },
            Token::Identifier(s) => {
                self.bump();
                Ok(Expression::Variable(s))
            },
            Token::OpenParen => {
                self.bump();
                match self.parse_expression() {
                    Err(er) => Err(er),
                    Ok(e) => match self.match_token(Token::CloseParen, Expected::CloseParen) {
                        Err(er) => Err(er),
                        Ok(_) => Ok(e),
                    },
                }
            },
            _ => Err(self.syntax_err(Expected::Expression)),
        }
    }

    /// The arguments of a call, at least one, appended onto `out`.
    fn parse_call_args(&mut self, out: &mut Vec<Expression>) -> (r: Result<(), CompileError>)
        requires
            old(self).wf(),
        ensures
            final(self).wf(),
            final(self).toks() == old(self).toks(),
            match spec_parse_call_args(old(self).toks(), old(self).at() as nat) {
                Ok(p) => r matches Ok(u) && view_expr_seq(final(out)@) == view_expr_seq(old(out)@)
                    + p.0 && final(self).at() == p.1 && old(self).at() < p.1 <= old(
                    self,
                ).toks().len(),
                Err(er) => r matches Err(e2) && e2.deep_view() == er,
            },
        decreases remaining(self.toks(), self.at() as nat), 255nat,
    {
        let e = match self.parse_assign() {
            Ok(e) => e,
            Err(er) => {
                return Err(er);
            },
        };
        let ghost ev = view_expr(e);
        if self.peek_token(&Token::Comma) {
            self.bump();
            out.push(e);
            let ghost mid = out@;
            match self.parse_call_args(out) {
                Err(er) => Err(er),
                Ok(_) => {
                    proof {
                        assert(view_expr_seq(mid) =~= view_expr_seq(old(out)@).push(ev));
                        match spec_parse_call_args(old(self).toks(), old(self).at() as nat) {
                            Ok(p) => {
                                assert(view_expr_seq(final(out)@) =~= view_expr_seq(old(out)@)
                                    + p.0);
                            },
                            Err(_) => {},
                        }
                    }
                    Ok(())
                },
            }
        } else {
            out.push(e);
            proof {
                assert(view_expr_seq(out@) =~= view_expr_seq(old(out)@) + seq![ev]);
            }
            Ok(())
        }
    }

    /// Fold postfix constructs onto an already parsed operand.
    fn parse_postfix_rest(&mut self, lhs: Expression) -> (r: Result<Expression, CompileError>)
        requires
            old(self).wf(),
        ensures
            final(self).wf(),
            final(self).toks() == old(self).toks(),
            match spec_parse_postfix_rest(
                old(self).toks(),
                old(self).at() as nat,
                view_expr(lhs),
            ) {
                Ok(p) => r matches Ok(e) && view_expr(e) == p.0 && final(self).at() == p.1 && old(
                    self,
                ).at() <= p.1 <= old(self).toks().len(),
                Err(er) => r matches Err(e2) && e2.deep_view() == er,
            },
        decreases remaining(self.toks(), self.at() as nat), 150nat,
    {
        if self.pos >= self.tokens.len() {
            return Ok(lhs);
        }
        let is_inc = self.peek_token(&Token::Increment);
        let is_dec = self.peek_token(&Token::Decrement);
        if is_inc || is_dec {
            match lhs {
                Expression::Variable(name) => {
                    let op = if is_inc {
                        BinaryOp::Addition
                    } else {
                        BinaryOp::Subtraction
                    };
                    let one = Expression::Int(1);
                    let ghost one_v = view_expr(one);
                    let var_read = Expression::Variable(name.clone());
                    let ghost var_v = view_expr(var_read);
                    let sum = Expression::BinaryOp(op, Box::new(var_read), Box::new(one));
                    let ghost sum_v = view_expr(sum);
                    let folded = Expression::AssignPostfix(name, Box::new(sum));
                    proof {
                        assert(sum_v == ExprV::BinaryOp(op, Box::new(var_v), Box::new(one_v)));
                        assert(view_expr(folded) == ExprV::AssignPostfix(
                            var_v->Variable_0,
                            Box::new(sum_v),
                        ));
                    }
                    self.bump();
                    self.parse_postfix_rest(folded)
                },
                _ => Err(CompileError::InvalidAssignmentTarget { position: self.pos }),
            }
        } else if self.peek_token(&Token::OpenParen) {
            match lhs {
                Expression::Variable(name) => {
                    let j1 = self.pos + 1;
                    let mut close_next = false;
                    if j1 < self.tokens.len() {
                        close_next = match &self.tokens[j1] {
                            Token::CloseParen => true,
                            _ => false,
                        };
                    }
                    if close_next {
                        self.pos = j1 + 1;
                        proof {
                            assert(view_expr_seq(Seq::<Expression>::empty()) =~= Seq::<
                                ExprV,
                            >::empty());
                        }
                        self.parse_postfix_rest(Expression::FunctionCall(name, Vec::new()))
                    } else {
                        self.pos = j1;
                        let mut args: Vec<Expression> = Vec::new();
                        match self.parse_call_args(&mut args) {
                            Err(er) => Err(er),
                            Ok(_) => {
                                match self.match_token(Token::CloseParen, Expected::CloseParen) {
                                    Err(er) => Err(er),
                                    Ok(_) => {
                                        proof {
                                            match spec_parse_call_args(
                                                old(self).toks(),
                                                j1 as nat,
                                            ) {
                                                Ok(p) => {
                                                    assert(view_expr_seq(args@) =~= p.0);
                                                },
                                                Err(_) => {},
                                            }
                                        }
                                        self.parse_postfix_rest(
                                            Expression::FunctionCall(name, args),
                                        )
                                    },
                                }
                            },
                        }
                    }
                },
                _ => Ok(lhs),
            }
        } else {
            Ok(lhs)
        }
    }

    /// A postfix expression: a primary and its postfix constructs.
    fn parse_postfix(&mut self) -> (r: Result<Expression, CompileError>)
        requires
            old(self).wf(),
        ensures
            final(self).wf(),
            final(self).toks() == old(self).toks(),
            match spec_parse_postfix(old(self).toks(), old(self).at() as nat) {
                Ok(p) => r matches Ok(e) && view_expr(e) == p.0 && final(self).at() == p.1 && old(
                    self,
                ).at() < p.1 <= old(self).toks().len(),
                Err(er) => r matches Err(e2) && e2.deep_view() == er,
            },
        decreases remaining(self.toks(), self.at() as nat), 160nat,
    {
        match self.parse_primary() {
            Err(er) => Err(er),
            Ok(e) => self.parse_postfix_rest(e),
        }
    }

    /// A unary expression: right-associative prefix operators.
    fn parse_unary(&mut self) -> (r: Result<Expression, CompileError>)
        requires
            old(self).wf(),
        ensures
            final(self).wf(),
            final(self).toks() == old(self).toks(),
            match spec_parse_unary(old(self).toks(), old(self).at() as nat) {
                Ok(p) => r matches Ok(e) && view_expr(e) == p.0 && final(self).at() == p.1 && old(
                    self,
                ).at() < p.1 <= old(self).toks().len(),
                Err(er) => r matches Err(e2) && e2.deep_view() == er,
            },
        decreases remaining(self.toks(), self.at() as nat), 170nat,
    {
        if self.pos < self.tokens.len() {
            let opq = unary_op_of(&self.tokens[self.pos]);
            match opq {
                Some(op) => {
                    self.bump();
                    return match self.parse_unary() {
                        Err(er) => Err(er),
                        Ok(e) => Ok(Expression::UnaryOp(op, Box::new(e))),
                    };
                },
                None => {},
            }
        }
        self.parse_postfix()
    }

    /// Fold further operands at level `l` onto an already parsed one.
    fn parse_binary_rest(&mut self, l: u8, lhs: Expression) -> (r: Result<
        Expression,
        CompileError,
    >)
        requires
            old(self).wf(),
        ensures
            final(self).wf(),
            final(self).toks() == old(self).toks(),
            match spec_parse_binary_rest(
                old(self).toks(),
                old(self).at() as nat,
                l as nat,
                view_expr(lhs),
            ) {
                Ok(p) => r matches Ok(e) && view_expr(e) == p.0 && final(self).at() == p.1 && old(
                    self,
                ).at() <= p.1 <= old(self).toks().len(),
                Err(er) => r matches Err(e2) && e2.deep_view() == er,
            },
        decreases remaining(self.toks(), self.at() as nat), rank_of(l as nat) - 1,
    {
        if self.pos < self.tokens.len() {
            let opq = binop_at(&self.tokens[self.pos], l);
            match opq {
                Some(op) => {
                    self.bump();
                    let rhs = if l < 9 {
                        self.parse_binary(l + 1)
                    } else {
                        self.parse_unary()
                    };
                    return match rhs {
                        Err(er) => Err(er),
                        Ok(e) => self.parse_binary_rest(
                            l,
                            Expression::BinaryOp(op, Box::new(lhs), Box::new(e)),
                        ),
                    };
                },
                None => {},
            }
        }
        Ok(lhs)
    }

    /// An infix expression at level `l`.
    fn parse_binary(&mut self, l: u8) -> (r: Result<Expression, CompileError>)
        requires
            old(self).wf(),
        ensures
            final(self).wf(),
            final(self).toks() == old(self).toks(),
            match spec_parse_binary(old(self).toks(), old(self).at() as nat, l as nat) {
                Ok(p) => r matches Ok(e) && view_expr(e) == p.0 && final(self).at() == p.1 && old(
                    self,
                ).at() < p.1 <= old(self).toks().len(),
                Err(er) => r matches Err(e2) && e2.deep_view() == er,
            },
        decreases remaining(self.toks(), self.at() as nat), rank_of(l as nat),
    {
        let first = if l < 9 {
            self.parse_binary(l + 1)
        } else {
            self.parse_unary()
        };
        match first {
            Err(er) => Err(er),
            Ok(e) => self.parse_binary_rest(l, e),
        }
    }

    /// A ternary conditional: right-associative `cond ? then : else`.
    fn parse_ternary(&mut self) -> (r: Result<Expression, CompileError>)
        requires
            old(self).wf(),
        ensures
            final(self).wf(),
            final(self).toks() == old(self).toks(),
            match spec_parse_ternary(old(self).toks(), old(self).at() as nat) {
                Ok(p) => r matches Ok(e) && view_expr(e) == p.0 && final(self).at() == p.1 && old(
                    self,
                ).at() < p.1 <= old(self).toks().len(),
                Err(er) => r matches Err(e2) && e2.deep_view() == er,
            },
        decreases remaining(self.toks(), self.at() as nat), 230nat,
    {
        let c = match self.parse_binary(0) {
            Err(er) => {
                return Err(er);
            },
            Ok(e) => e,
        };
        if self.peek_token(&Token::Question) {
            self.bump();
            let t = match self.parse_expression() {
                Err(er) => {
                    return Err(er);
                },
                Ok(e) => e,
            };
            match self.match_token(Token::Colon, Expected::Colon) {
                Err(er) => Err(er),
                Ok(_) => match self.parse_ternary() {
                    Err(er) => Err(er),
                    Ok(f) => Ok(Expression::Ternary(Box::new(c), Box::new(t), Box::new(f))),
                },
            }
        } else {
            Ok(c)
        }
    }

    /// An assignment: right-associative; the left operand must be a
    /// plain identifier, else Invalid-Assignment-Target.
    fn parse_assign(&mut self) -> (r: Result<Expression, CompileError>)
        requires
            old(self).wf(),
        ensures
            final(self).wf(),
            final(self).toks() == old(self).toks(),
            match spec_parse_assign(old(self).toks(), old(self).at() as nat) {
                Ok(p) => r matches Ok(e) && view_expr(e) == p.0 && final(self).at() == p.1 && old(
                    self,
                ).at() < p.1 <= old(self).toks().len(),
                Err(er) => r matches Err(e2) && e2.deep_view() == er,
            },
        decreases remaining(self.toks(), self.at() as nat), 240nat,
    {
        let lhs = match self.parse_ternary() {
            Err(er) => {
                return Err(er);
            },
            Ok(e) => e,
        };
        if self.pos < self.tokens.len() {
            let aopq = assign_op_of(&self.tokens[self.pos]);
            match aopq {
                Some(aop) => {
                    return match lhs {
                        Expression::Variable(name) => {
                            self.bump();
                            match self.parse_assign() {
                                Err(er) => Err(er),
                                Ok(rhs) => {
                                    let ghost rhs_v = view_expr(rhs);
                                    let stored = match aop {
                                        None => rhs,
                                        Some(op) => {
                                            let var_read = Expression::Variable(name.clone());
                                            let ghost var_v = view_expr(var_read);
                                            let folded = Expression::BinaryOp(
                                                op,
                                                Box::new(var_read),
                                                Box::new(rhs),
                                            );
                                            proof {
                                                assert(view_expr(folded) == ExprV::BinaryOp(
                                                    op,
                                                    Box::new(var_v),
                                                    Box::new(rhs_v),
                                                ));
                                            }
                                            folded
                                        },
                                    };
                                    let ghost stored_v = view_expr(stored);
                                    let whole = Expression::Assign(name, Box::new(stored));
                                    proof {
                                        assert(view_expr(whole) == ExprV::Assign(
                                            whole->Assign_0@,
                                            Box::new(stored_v),
                                        ));
                                    }
                                    Ok(whole)
                                },
                            }
                        },
                        _ => Err(CompileError::InvalidAssignmentTarget { position: self.pos }),
                    };
                },
                None => {},
            }
        }
        Ok(lhs)
    }

    /// Fold further comma operands onto an already parsed one.
    fn parse_expression_rest(&mut self, lhs: Expression) -> (r: Result<Expression, CompileError>)
        requires
            old(self).wf(),
        ensures
            final(self).wf(),
            final(self).toks() == old(self).toks(),
            match spec_parse_expression_rest(
                old(self).toks(),
                old(self).at() as nat,
                view_expr(lhs),
            ) {
                Ok(p) => r matches Ok(e) && view_expr(e) == p.0 && final(self).at() == p.1 && old(
                    self,
                ).at() <= p.1 <= old(self).toks().len(),
                Err(er) => r matches Err(e2) && e2.deep_view() == er,
            },
        decreases remaining(self.toks(), self.at() as nat), 245nat,
    {
        if self.peek_token(&Token::Comma) {
            self.bump();
            match self.parse_assign() {
                Err(er) => Err(er),
                Ok(e) => self.parse_expression_rest(
                    Expression::BinaryOp(BinaryOp::Comma, Box::new(lhs), Box::new(e)),
                ),
            }
        } else {
            Ok(lhs)
        }
    }

    /// A full expression, from the weakest level: the comma operator.
    pub fn parse_expression(&mut self) -> (r: Result<Expression, CompileError>)
        requires
            old(self).wf(),
        ensures
            final(self).wf(),
            final(self).toks() == old(self).toks(),
            match spec_parse_expression(old(self).toks(), old(self).at() as nat) {
                Ok(p) => r matches Ok(e) && view_expr(e) == p.0 && final(self).at() == p.1 && old(
                    self,
                ).at() < p.1 <= old(self).toks().len(),
                Err(er) => r matches Err(e2) && e2.deep_view() == er,
            },
        decreases remaining(self.toks(), self.at() as nat), 250nat,
    {
        match self.parse_assign() {
            Err(er) => Err(er),
            Ok(e) => self.parse_expression_rest(e),
        }
    }

    /// A declaration statement, the cursor on its primitive keyword.
    fn parse_declare(&mut self, prim: Primitive) -> (r: Result<Statement, CompileError>)
        requires
            old(self).wf(),
            old(self).at() < old(self).toks().len(),
        ensures
            final(self).wf(),
            final(self).toks() == old(self).toks(),
            match spec_parse_declare(old(self).toks(), old(self).at() as nat, prim) {
                Ok(p) => r matches Ok(s) && view_stmt(s) == p.0 && final(self).at() == p.1 && old(
                    self,
                ).at() < p.1 <= old(self).toks().len(),
                Err(er) => r matches Err(e2) && e2.deep_view() == er,
            },
        decreases remaining(self.toks(), self.at() as nat), 258nat,
    {
        self.bump();
        let name = match self.match_identifier() {
            Err(er) => {
                return Err(er);
            },
            Ok(n) => n,
        };
        let v = Variable { name, size: prim };
        if self.peek_token(&Token::SemiColon) {
            self.bump();
            Ok(Statement::Declare(v, None))
        } else if self.peek_token(&Token::Assign) {
            self.bump();
            match self.parse_assign() {
                Err(er) => Err(er),
                Ok(e) => match self.match_token(Token::SemiColon, Expected::Semicolon) {
                    Err(er) => Err(er),
                    Ok(_) => Ok(Statement::Declare(v, Some(e))),
                },
            }
        } else {
            Err(self.syntax_err(Expected::Semicolon))
        }
    }

    /// One statement: declaration, return, if, while, compound block or
    /// bare expression statement.
    #[verifier::rlimit(100)]
    pub fn parse_statement(&mut self) -> (r: Result<Statement, CompileError>)
        requires
            old(self).wf(),
        ensures
            final(self).wf(),
            final(self).toks() == old(self).toks(),
            match spec_parse_statement(old(self).toks(), old(self).at() as nat) {
                Ok(p) => r matches Ok(s) && view_stmt(s) == p.0 && final(self).at() == p.1 && old(
                    self,
                ).at() < p.1 <= old(self).toks().len(),
                Err(er) => r matches Err(e2) && e2.deep_view() == er,
            },
        decreases remaining(self.toks(), self.at() as nat), 260nat,
    {
        if self.pos >= self.tokens.len() {
            return Err(self.syntax_err(Expected::Statement));
        }
        let tag: u8 = match &self.tokens[self.pos] {
            Token::Keyword(Keyword::Int) => 1,
            Token::Keyword(Keyword::Char) => 2,
            Token::Keyword(Keyword::Return) => 3,
            Token::Keyword(Keyword::If) => 4,
            Token::Keyword(Keyword::While) => 5,
            Token::OpenBrace => 6,
            _ => 0,
        };
        if tag == 1 {
            self.parse_declare(Primitive::Int)
        } else if tag == 2 {
            self.parse_declare(Primitive::Byte)
        } else if tag == 3 {
            self.bump();
            match self.parse_expression() {
                Err(er) => Err(er),
                Ok(e) => match self.match_token(Token::SemiColon, Expected::Semicolon) {
                    Err(er) => Err(er),
                    Ok(_) => Ok(Statement::Return(e)),
                },
            }
        } else if tag == 4 {
            self.bump();
            match self.match_token(Token::OpenParen, Expected::OpenParen) {
                Err(er) => {
                    return Err(er);
                },
                Ok(_) => {},
            }
            let c = match self.parse_expression() {
                Err(er) => {
                    return Err(er);
                },
                Ok(e) => e,
            };
            match self.match_token(Token::CloseParen, Expected::CloseParen) {
                Err(er) => {
                    return Err(er);
                },
                Ok(_) => {},
            }
            let thn = match self.parse_statement() {
                Err(er) => {
                    return Err(er);
                },
                Ok(s) => s,
            };
            let mut has_else = false;
            if self.pos < self.tokens.len() {
                has_else = match &self.tokens[self.pos] {
                    Token::Keyword(Keyword::Else) => true,
                    _ => false,
                };
            }
            if has_else {
                self.bump();
                match self.parse_statement() {
                    Err(er) => Err(er),
                    Ok(els) => Ok(Statement::If(c, Box::new(thn), Some(Box::new(els)))),
                }
            } else {
                Ok(Statement::If(c, Box::new(thn), None))
            }
        } else if tag == 5 {
            self.bump();
            match self.match_token(Token::OpenParen, Expected::OpenParen) {
                Err(er) => {
                    return Err(er);
                },
                Ok(_) => {},
            }
            let c = match self.parse_expression() {
                Err(er) => {
                    return Err(er);
                },
                Ok(e) => e,
            };
            match self.match_token(Token::CloseParen, Expected::CloseParen) {
                Err(er) => {
                    return Err(er);
                },
                Ok(_) => {},
            }
            match self.parse_statement() {
                Err(er) => Err(er),
                Ok(body) => Ok(Statement::While(c, Box::new(body))),
            }
        } else if tag == 6 {
            self.bump();
            let mut items: Vec<Statement> = Vec::new();
            match self.parse_block_rest(&mut items) {
                Err(er) => Err(er),
                Ok(_) => {
                    self.bump();
                    proof {
                        match spec_parse_block_items(
                            old(self).toks(),
                            (old(self).at() + 1) as nat,
                        ) {
                            Ok(p) => {
                                assert(view_stmt_seq(items@) =~= p.0);
                            },
                            Err(_) => {},
                        }
                    }
                    Ok(Statement::Compound(items))
                },
            }
        } else {
            match self.parse_expression() {
                Err(er) => Err(er),
                Ok(e) => match self.match_token(Token::SemiColon, Expected::Semicolon) {
                    Err(er) => Err(er),
                    Ok(_) => Ok(Statement::Exp(e)),
                },
            }
        }
    }

    /// The statements of a compound block, appended onto `out`; the
    /// cursor stops on the closing brace.
    fn parse_block_rest(&mut self, out: &mut Vec<Statement>) -> (r: Result<(), CompileError>)
        requires
            old(self).wf(),
        ensures
            final(self).wf(),
            final(self).toks() == old(self).toks(),
            match spec_parse_block_items(old(self).toks(), old(self).at() as nat) {
                Ok(p) => r matches Ok(u) && view_stmt_seq(final(out)@) == view_stmt_seq(old(out)@)
                    + p.0 && final(self).at() == p.1 && old(self).at() <= p.1 < old(
                    self,
                ).toks().len() && old(self).toks()[p.1 as int] is CloseBrace,
                Err(er) => r matches Err(e2) && e2.deep_view() == er,
            },
        decreases remaining(self.toks(), self.at() as nat), 270nat,
    {
        if self.pos >= self.tokens.len() {
            return Err(self.syntax_err(Expected::CloseBrace));
        }
        if self.peek_token(&Token::CloseBrace) {
            proof {
                assert(view_stmt_seq(out@) =~= view_stmt_seq(out@) + Seq::<StmtV>::empty());
            }
            return Ok(());
        }
        let s = match self.parse_statement() {
            Err(er) => {
                return Err(er);
            },
            Ok(s) => s,
        };
        let ghost sv = view_stmt(s);
        out.push(s);
        let ghost mid = out@;
        match self.parse_block_rest(out) {
            Err(er) => Err(er),
            Ok(_) => {
                proof {
                    assert(view_stmt_seq(mid) =~= view_stmt_seq(old(out)@).push(sv));
                    match spec_parse_block_items(old(self).toks(), old(self).at() as nat) {
                        Ok(p) => {
                            assert(view_stmt_seq(final(out)@) =~= view_stmt_seq(old(out)@) + p.0);
                        },
                        Err(_) => {},
                    }
                }
                Ok(())
            },
        }
    }

    /// The parameters of a function definition, appended onto `out`; the
    /// cursor stops on the closing parenthesis.
    fn parse_params_rest(&mut self, out: &mut Vec<Variable>) -> (r: Result<(), CompileError>)
        requires
            old(self).wf(),
        ensures
            final(self).wf(),
            final(self).toks() == old(self).toks(),
            match spec_parse_params(old(self).toks(), old(self).at() as nat) {
                Ok(p) => r matches Ok(u) && view_var_seq(final(out)@) == view_var_seq(old(out)@)
                    + p.0 && final(self).at() == p.1 && old(self).at() <= p.1 < old(
                    self,
                ).toks().len() && old(self).toks()[p.1 as int] is CloseParen,
                Err(er) => r matches Err(e2) && e2.deep_view() == er,
            },
        decreases remaining(self.toks(), self.at() as nat), 280nat,
    {
        if self.pos >= self.tokens.len() {
            return Err(self.syntax_err(Expected::CloseParen));
        }
        if self.peek_token(&Token::CloseParen) {
            proof {
                assert(view_var_seq(out@) =~= view_var_seq(out@) + Seq::<VariableV>::empty());
            }
            return Ok(());
        }
        let prim = match &self.tokens[self.pos] {
            Token::Keyword(Keyword::Int) => Some(Primitive::Int),
            Token::Keyword(Keyword::Char) => Some(Primitive::Byte),
            _ => None,
        };
        match prim {
            None => Err(self.syntax_err(Expected::PrimitiveKeyword)),
            Some(sz) => {
                self.bump();
                let name = match self.match_identifier() {
                    Err(er) => {
                        return Err(er);
                    },
                    Ok(n) => n,
                };
                let v = Variable { name, size: sz };
                let ghost vv = v.deep_view();
                if self.peek_token(&Token::Comma) {
                    self.bump();
                }
                out.push(v);
                let ghost mid = out@;
                match self.parse_params_rest(out) {
                    Err(er) => Err(er),
                    Ok(_) => {
                        proof {
                            assert(view_var_seq(mid) =~= view_var_seq(old(out)@).push(vv));
                            match spec_parse_params(old(self).toks(), old(self).at() as nat) {
                                Ok(p) => {
                                    assert(view_var_seq(final(out)@) =~= view_var_seq(old(out)@)
                                        + p.0);
                                },
                                Err(_) => {},
                            }
                        }
                        Ok(())
                    },
                }
            },
        }
    }

    /// The parameter list of a function definition; the cursor stops on
    /// the closing parenthesis.
    pub fn parse_arguments(&mut self) -> (r: Result<Vec<Variable>, CompileError>)
        requires
            old(self).wf(),
        ensures
            final(self).wf(),
            final(self).toks() == old(self).toks(),
            match spec_parse_params(old(self).toks(), old(self).at() as nat) {
                Ok(p) => r matches Ok(v) && v.deep_view() == p.0 && final(self).at() == p.1 && old(
                    self,
                ).at() <= p.1 <= old(self).toks().len(),
                Err(er) => r matches Err(e2) && e2.deep_view() == er,
            },
    {
        let mut out: Vec<Variable> = Vec::new();
        match self.parse_params_rest(&mut out) {
            Err(er) => Err(er),
            Ok(_) => {
                proof {
                    match spec_parse_params(old(self).toks(), old(self).at() as nat) {
                        Ok(p) => {
                            assert(out.deep_view() =~= view_var_seq(out@));
                            assert(out.deep_view() =~= p.0);
                        },
                        Err(_) => {},
                    }
                }
                Ok(out)
            },
        }
    }

    /// One function definition: the integer keyword, a name, a
    /// parenthesized parameter list (empty permitted), a compound body.
    pub fn parse_function(&mut self) -> (r: Result<Function, CompileError>)
        requires
            old(self).wf(),
        ensures
            final(self).wf(),
            final(self).toks() == old(self).toks(),
            match spec_parse_function(old(self).toks(), old(self).at() as nat) {
                Ok(p) => r matches Ok(f) && view_func(f) == p.0 && final(self).at() == p.1 && old(
                    self,
                ).at() < p.1 <= old(self).toks().len(),
                Err(er) => r matches Err(e2) && e2.deep_view() == er,
            },
        decreases remaining(self.toks(), self.at() as nat), 290nat,
    {
        match self.match_keyword(&Keyword::Int, Expected::IntKeyword) {
            Err(er) => {
                return Err(er);
            },
            Ok(_) => {},
        }
        let name = match self.match_identifier() {
            Err(er) => {
                return Err(er);
            },
            Ok(n) => n,
        };
        match self.match_token(Token::OpenParen, Expected::OpenParen) {
            Err(er) => {
                return Err(er);
            },
            Ok(_) => {},
        }
        let mut args: Vec<Variable> = Vec::new();
        match self.parse_params_rest(&mut args) {
            Err(er) => {
                return Err(er);
            },
            Ok(_) => {},
        }
        match self.match_token(Token::CloseParen, Expected::CloseParen) {
            Err(er) => {
                return Err(er);
            },
            Ok(_) => {},
        }
        match self.match_token(Token::OpenBrace, Expected::OpenBrace) {
            Err(er) => {
                return Err(er);
            },
            Ok(_) => {},
        }
        let mut body: Vec<Statement> = Vec::new();
        match self.parse_block_rest(&mut body) {
            Err(er) => {
                return Err(er);
            },
            Ok(_) => {},
        }
        self.bump();
        let f = Function { name, args, statements: body };
        proof {
            match spec_parse_function(old(self).toks(), old(self).at() as nat) {
                Ok(p) => {
                    assert(f.args.deep_view() =~= view_var_seq(f.args@));
                    assert(view_func(f).args =~= p.0.args);
                    assert(view_func(f).statements =~= p.0.statements);
                },
                Err(_) => {},
            }
        }
        Ok(f)
    }

    /// Whether a function of this name stands among those parsed so far,
    /// from index `i` on.
    fn fname_in(fs: &Vec<Function>, i: usize, name: &String) -> (b: bool)
        requires
            i <= fs@.len(),
        ensures
            b == spec_fname_in(view_func_seq(fs@), i as nat, name@),
        decreases fs@.len() - i,
    {
        if i >= fs.len() {
            false
        } else {
            if fs[i].name.eq(name) {
                true
            } else {
                Self::fname_in(fs, i + 1, name)
            }
        }
    }

    /// The function definitions until the tokens are exhausted, appended
    /// onto `out`; a name already defined is a syntax error at the second
    /// definition's name token.
    fn parse_funcs_rest(&mut self, out: &mut Vec<Function>) -> (r: Result<(), CompileError>)
        requires
            old(self).wf(),
        ensures
            final(self).wf(),
            final(self).toks() == old(self).toks(),
            match spec_parse_funcs(
                old(self).toks(),
                old(self).at() as nat,
                view_func_seq(old(out)@),
            ) {
                Ok(fs) => r matches Ok(u) && view_func_seq(final(out)@) == view_func_seq(old(out)@)
                    + fs && final(self).at() == old(self).toks().len(),
                Err(er) => r matches Err(e2) && e2.deep_view() == er,
            },
        decreases remaining(self.toks(), self.at() as nat), 300nat,
    {
        let n = self.tokens.len();
        if self.pos >= n {
            proof {
                assert(view_func_seq(out@) =~= view_func_seq(out@) + Seq::<FunctionV>::empty());
            }
            return Ok(());
        }
        let name_pos = self.pos + 1;
        let f = match self.parse_function() {
            Err(er) => {
                return Err(er);
            },
            Ok(f) => f,
        };
        if Self::fname_in(out, 0, &f.name) {
            let found = if name_pos < n {
                Some(clone_token(&self.tokens[name_pos]))
            } else {
                None
            };
            let e = CompileError::Syntax {
                expected: Expected::FreshIdentifier,
                found,
                position: name_pos,
            };
            proof {
                assert(e.deep_view() == syn_err(
                    old(self).toks(),
                    (old(self).at() + 1) as nat,
                    Expected::FreshIdentifier,
                ));
            }
            return Err(e);
        }
        let ghost fv = view_func(f);
        out.push(f);
        let ghost mid = out@;
        proof {
            assert(view_func_seq(mid) =~= view_func_seq(old(out)@).push(fv));
        }
        match self.parse_funcs_rest(out) {
            Err(er) => Err(er),
            Ok(_) => {
                proof {
                    match spec_parse_funcs(
                        old(self).toks(),
                        old(self).at() as nat,
                        view_func_seq(old(out)@),
                    ) {
                        Ok(fs) => {
                            assert(view_func_seq(final(out)@) =~= view_func_seq(old(out)@) + fs);
                        },
                        Err(_) => {},
                    }
                }
                Ok(())
            },
        }
    }

    /// A whole program: function definitions consuming every token, with
    /// pairwise distinct names — no overloading.
    pub fn parse(&mut self) -> (r: Result<Program, CompileError>)
        requires
            old(self).wf(),
        ensures
            final(self).wf(),
            final(self).toks() == old(self).toks(),
            match spec_parse_funcs(old(self).toks(), old(self).at() as nat, Seq::empty()) {
                Ok(fs) => r matches Ok(prog) && view_program(prog) == (ProgramV {
                    functions: fs,
                    globals: Seq::empty(),
                }) && final(self).at() == old(self).toks().len() && (forall|j: int, k: int|
                    0 <= j < k < fs.len() ==> fs[j].name != fs[k].name),
                Err(er) => r matches Err(e2) && e2.deep_view() == er,
            },
    {
        let mut funcs: Vec<Function> = Vec::new();
        proof {
            assert(view_func_seq(funcs@) =~= Seq::<FunctionV>::empty());
        }
        match self.parse_funcs_rest(&mut funcs) {
            Err(er) => Err(er),
            Ok(_) => {
                let prog = Program { functions: funcs, globals: Vec::new() };
                proof {
                    lemma_parse_funcs_distinct(
                        old(self).toks(),
                        old(self).at() as nat,
                        Seq::empty(),
                    );
                    match spec_parse_funcs(old(self).toks(), old(self).at() as nat, Seq::empty()) {
                        Ok(fs) => {
                            assert(view_program(prog).functions =~= fs);
                            assert(view_program(prog).globals =~= Seq::<Seq<char>>::empty());
                        },
                        Err(_) => {},
                    }
                }
                Ok(prog)
            },
        }
    }
}

} // verus!

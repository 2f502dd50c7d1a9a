//! A verified front end for a small C-like language: a tokenizer, a
//! precedence-climbing expression and statement parser, and a code
//! generator that turns the resulting syntax tree into assembly text.
//!
//! Every stage is deterministic: each executable function is proved to
//! return exactly the value of a specification-level mirror function of
//! its input, so running the pipeline twice on the same source text
//! yields byte-identical output. The stages run in strict order — the
//! parser consumes the whole token sequence before the generator starts —
//! and the first error anywhere aborts the compilation, so the caller
//! receives exactly one structured error describing the earliest failure.
use vstd::prelude::*;

pub mod error;
pub mod oper;
pub mod generate;
pub mod parse;
pub mod tokens;

use crate::error::CompileError;
use crate::error::ErrV;
use crate::oper::ExprV;
use crate::oper::FunctionV;
use crate::oper::ProgramV;
use crate::oper::StmtV;
use crate::generate::spec_dec;
use crate::generate::spec_gen_program;
use crate::generate::spec_join;
use crate::generate::Generator;
use crate::parse::spec_parse_program;
use crate::parse::Parser;
use crate::tokens::spec_lex;
use crate::tokens::lex;

verus! {

/// The whole pipeline as one mathematical function of the source text:
/// tokenize, parse, generate, join the lines with newlines.
pub open spec fn spec_compile(src: Seq<char>) -> Result<Seq<char>, ErrV> {
    match spec_lex(src) {
        Err(e) => Err(e),
        Ok(ts) => match spec_parse_program(ts) {
            Err(e) => Err(e),
            Ok(pv) => match spec_gen_program(pv) {
                Err(e) => Err(e),
                Ok(lines) => Ok(spec_join(lines, 0)),
            },
        },
    }
}

/// Translate source text to assembly text, or report the earliest
/// failure as one structured error. The result is exactly
/// `spec_compile` of the source characters.
pub fn compile(source: &str) -> (r: Result<String, CompileError>)
    ensures
        match spec_compile(source@) {
            Ok(text) => r matches Ok(s) && s@ == text,
            Err(e) => r matches Err(e2) && e2.deep_view() == e,
        },
{
    let toks = match lex(source) {
        Err(e) => {
            return Err(e);
        },
        Ok(t) => t,
    };
    let mut parser = Parser::new(toks);
    let prog = match parser.parse() {
        Err(e) => {
            return Err(e);
        },
        Ok(p) => p,
    };
    let mut gen = Generator::new();
    gen.generate(prog)
}

/// Law: the pipeline is a function of the source text alone. Any two
/// results of `spec_compile` on identical text — and so, by the
/// contract of `compile`, the outputs of any two runs on identical
/// text — are byte-identical.
pub proof fn lemma_pipeline_deterministic(
    src: Seq<char>,
    r1: Result<Seq<char>, ErrV>,
    r2: Result<Seq<char>, ErrV>,
)
    requires
        r1 == spec_compile(src),
        r2 == spec_compile(src),
    ensures
        r1 == r2,
{
}

/// Law: additive operators are left-associative. For any literals a, b
/// and c, the token sequence of `a - b - c` parses to the tree
/// `(a - b) - c`, never `a - (b - c)`; what the generated code computes
/// from that tree is then fixed by the generator's own mirror.
pub proof fn lemma_subtraction_left_associative(a: u32, b: u32, c: u32)
    ensures
        crate::parse::spec_parse_expression(
            seq![
                crate::tokens::TokenV::Literal(crate::tokens::Value::Int(a)),
                crate::tokens::TokenV::Negation,
                crate::tokens::TokenV::Literal(crate::tokens::Value::Int(b)),
                crate::tokens::TokenV::Negation,
                crate::tokens::TokenV::Literal(crate::tokens::Value::Int(c)),
            ],
            0,
        ) == Ok::<(ExprV, nat), ErrV>(
            (
                ExprV::BinaryOp(
                    crate::oper::BinaryOp::Subtraction,
                    Box::new(
                        ExprV::BinaryOp(
                            crate::oper::BinaryOp::Subtraction,
                            Box::new(ExprV::Int(a)),
                            Box::new(ExprV::Int(b)),
                        ),
                    ),
                    Box::new(ExprV::Int(c)),
                ),
                5nat,
            ),
        ),
{
    let ts = seq![
        crate::tokens::TokenV::Literal(crate::tokens::Value::Int(a)),
        crate::tokens::TokenV::Negation,
        crate::tokens::TokenV::Literal(crate::tokens::Value::Int(b)),
        crate::tokens::TokenV::Negation,
        crate::tokens::TokenV::Literal(crate::tokens::Value::Int(c)),
    ];
    assert(ts.len() == 5);
    let ea = ExprV::Int(a);
    let eb = ExprV::Int(b);
    let ec = ExprV::Int(c);
    let sub1 = ExprV::BinaryOp(
        crate::oper::BinaryOp::Subtraction,
        Box::new(ea),
        Box::new(eb),
    );
    let full = ExprV::BinaryOp(
        crate::oper::BinaryOp::Subtraction,
        Box::new(sub1),
        Box::new(ec),
    );
    let ok_a = Ok::<(ExprV, nat), ErrV>((ea, 1nat));
    let ok_b = Ok::<(ExprV, nat), ErrV>((eb, 3nat));
    let ok_c = Ok::<(ExprV, nat), ErrV>((ec, 5nat));
    let ok_full = Ok::<(ExprV, nat), ErrV>((full, 5nat));
    assert(crate::parse::spec_parse_primary(ts, 0) == ok_a);
    assert(crate::parse::spec_parse_primary(ts, 2) == ok_b);
    assert(crate::parse::spec_parse_primary(ts, 4) == ok_c);
    assert(crate::parse::spec_parse_postfix_rest(ts, 1, ea) == ok_a);
    assert(crate::parse::spec_parse_postfix_rest(ts, 3, eb) == ok_b);
    assert(crate::parse::spec_parse_postfix_rest(ts, 5, ec) == ok_c);
    assert(crate::parse::spec_parse_postfix(ts, 0) == ok_a);
    assert(crate::parse::spec_parse_postfix(ts, 2) == ok_b);
    assert(crate::parse::spec_parse_postfix(ts, 4) == ok_c);
    assert(crate::parse::spec_parse_unary(ts, 0) == ok_a);
    assert(crate::parse::spec_parse_unary(ts, 2) == ok_b);
    assert(crate::parse::spec_parse_unary(ts, 4) == ok_c);
    assert(crate::parse::spec_parse_binary_rest(ts, 1, 9, ea) == ok_a);
    assert(crate::parse::spec_parse_binary_rest(ts, 3, 9, eb) == ok_b);
    assert(crate::parse::spec_parse_binary_rest(ts, 5, 9, ec) == ok_c);
    assert(crate::parse::spec_parse_binary(ts, 0, 9) == ok_a);
    assert(crate::parse::spec_parse_binary(ts, 2, 9) == ok_b);
    assert(crate::parse::spec_parse_binary(ts, 4, 9) == ok_c);
    assert(crate::parse::spec_parse_binary_rest(ts, 5, 8, full) == ok_full);
    assert(crate::parse::spec_parse_binary_rest(ts, 3, 8, sub1) == ok_full);
    assert(crate::parse::spec_parse_binary_rest(ts, 1, 8, ea) == ok_full);
    assert(crate::parse::spec_parse_binary(ts, 0, 8) == ok_full);
    assert(crate::parse::spec_parse_binary_rest(ts, 5, 7, full) == ok_full);
    assert(crate::parse::spec_parse_binary(ts, 0, 7) == ok_full);
    assert(crate::parse::spec_parse_binary_rest(ts, 5, 6, full) == ok_full);
    assert(crate::parse::spec_parse_binary(ts, 0, 6) == ok_full);
    assert(crate::parse::spec_parse_binary_rest(ts, 5, 5, full) == ok_full);
    assert(crate::parse::spec_parse_binary(ts, 0, 5) == ok_full);
    assert(crate::parse::spec_parse_binary_rest(ts, 5, 4, full) == ok_full);
    assert(crate::parse::spec_parse_binary(ts, 0, 4) == ok_full);
    assert(crate::parse::spec_parse_binary_rest(ts, 5, 3, full) == ok_full);
    assert(crate::parse::spec_parse_binary(ts, 0, 3) == ok_full);
    assert(crate::parse::spec_parse_binary_rest(ts, 5, 2, full) == ok_full);
    assert(crate::parse::spec_parse_binary(ts, 0, 2) == ok_full);
    assert(crate::parse::spec_parse_binary_rest(ts, 5, 1, full) == ok_full);
    assert(crate::parse::spec_parse_binary(ts, 0, 1) == ok_full);
    assert(crate::parse::spec_parse_binary_rest(ts, 5, 0, full) == ok_full);
    assert(crate::parse::spec_parse_binary(ts, 0, 0) == ok_full);
    assert(crate::parse::spec_parse_ternary(ts, 0) == ok_full);
    assert(crate::parse::spec_parse_assign(ts, 0) == ok_full);
    assert(crate::parse::spec_parse_expression_rest(ts, 5, full) == ok_full);
    assert(crate::parse::spec_parse_expression(ts, 0) == ok_full);
}

/// Law: a program of one function whose body is `return N;` for a
/// literal N below 2^31 generates exactly a prologue, an instruction
/// moving N into the result register, and an epilogue returning it —
/// so the function, executed, leaves N as its result.
pub proof fn lemma_return_literal_function(name: Seq<char>, n: u32)
    requires
        n < 0x8000_0000,
    ensures
        spec_gen_program(
            ProgramV {
                functions: seq![
                    FunctionV {
                        name: name,
                        args: Seq::empty(),
                        statements: seq![StmtV::Return(ExprV::Int(n))],
                    },
                ],
                globals: Seq::empty(),
            },
        ) == Ok::<Seq<Seq<char>>, ErrV>(
            seq![
                ".globl _"@ + name,
                "_"@ + name + ":"@,
                "pushq\t%rbp"@,
                "movq\t%rsp, %rbp"@,
                "movl\t$"@ + spec_dec(n as nat) + ", %eax"@,
                "movq\t%rbp, %rsp"@,
                "popq\t%rbp"@,
                "ret"@,
            ],
        ),
{
    let fv = FunctionV {
        name: name,
        args: Seq::empty(),
        statements: seq![StmtV::Return(ExprV::Int(n))],
    };
    let pv = ProgramV { functions: seq![fv], globals: Seq::empty() };
    let stmts = fv.statements;
    assert(crate::generate::spec_params_size(fv.args, 0) == 0);
    assert(crate::generate::spec_stmt_size(stmts[0]) == 0);
    assert(crate::generate::spec_stmts_size_from(stmts, 1) == 0);
    assert(crate::generate::spec_stmts_size_from(stmts, 0) == 0);
    assert(crate::generate::spec_has_return(stmts, 0));
    assert(crate::generate::spec_gen_params(fv.args, 0, Seq::empty(), 0) matches Ok(pp) && pp.0
        =~= Seq::<Seq<char>>::empty() && pp.1 =~= Seq::<crate::generate::SymEntryV>::empty()
        && pp.2 == 0);
    let body = crate::generate::spec_gen_expr(ExprV::Int(n), Seq::empty(), 0);
    assert(body matches Ok(p) && p.0 =~= seq!["movl\t$"@ + spec_dec(n as nat) + ", %eax"@] && p.1
        == 0);
    assert(crate::generate::spec_gen_stmts_from(stmts, 1, Seq::empty(), 0, 0) matches Ok(q) && q.0
        =~= Seq::<Seq<char>>::empty());
    assert(crate::generate::spec_gen_funcs_from(pv.functions, 1, 0) matches Ok(q) && q.0 =~= Seq::<
        Seq<char>,
    >::empty());
    let mov_line = "movl\t$"@ + spec_dec(n as nat) + ", %eax"@;
    let full = seq![
        ".globl _"@ + name,
        "_"@ + name + ":"@,
        "pushq\t%rbp"@,
        "movq\t%rsp, %rbp"@,
        mov_line,
        "movq\t%rbp, %rsp"@,
        "popq\t%rbp"@,
        "ret"@,
    ];
    assert(stmts[0] == StmtV::Return(ExprV::Int(n)));
    assert(crate::generate::spec_gen_stmt(stmts[0], Seq::empty(), 0, 0) matches Ok(w) && w.0 =~=
        seq![mov_line, "movq\t%rbp, %rsp"@, "popq\t%rbp"@, "ret"@] && w.1 =~= Seq::<
        crate::generate::SymEntryV,
    >::empty() && w.2 == 0 && w.3 == 0);
    assert(crate::generate::spec_gen_stmts_from(stmts, 0, Seq::empty(), 0, 0) matches Ok(b2) && b2.0
        =~= seq![mov_line, "movq\t%rbp, %rsp"@, "popq\t%rbp"@, "ret"@] && b2.3 == 0);
    assert(pv.functions[0] == fv);
    assert(crate::generate::spec_gen_func(fv, 0) matches Ok(fb) && fb.0 =~= full && fb.1 == 0);
    assert(crate::generate::spec_gen_funcs_from(pv.functions, 0, 0) matches Ok(all) && all.0 =~=
        full);
    match spec_gen_program(pv) {
        Ok(ls) => {
            assert(ls =~= seq![
                ".globl _"@ + name,
                "_"@ + name + ":"@,
                "pushq\t%rbp"@,
                "movq\t%rsp, %rbp"@,
                "movl\t$"@ + spec_dec(n as nat) + ", %eax"@,
                "movq\t%rbp, %rsp"@,
                "popq\t%rbp"@,
                "ret"@,
            ]);
        },
        Err(_) => {
            assert(false);
        },
    }
}

} // verus!

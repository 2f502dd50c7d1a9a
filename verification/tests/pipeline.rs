use minicc::compile;
use minicc::oper::binary_op_of;
use minicc::oper::unary_op_of;
use minicc::error::CompileError;
use minicc::generate::u64_to_string;
use minicc::generate::Generator;
use minicc::oper::BinaryOp;
use minicc::oper::Expression;
use minicc::oper::Primitive;
use minicc::oper::Statement;
use minicc::oper::UnaryOp;
use minicc::oper::Variable;
use minicc::parse::Parser;
use minicc::tokens::lex;
use minicc::tokens::Keyword;
use minicc::tokens::Token;
use minicc::tokens::TokenParser;
use minicc::tokens::Value;

fn expr_of(src: &str) -> Expression {
    let toks = lex(src).expect("tokenizes");
    let mut p = Parser::new(toks);
    p.parse_expression().expect("parses")
}

fn stmt_of(src: &str) -> Statement {
    let toks = lex(src).expect("tokenizes");
    let mut p = Parser::new(toks);
    p.parse_statement().expect("parses")
}

#[test]
fn tokenize_return_two() {
    let toks = lex("int main() { return 2; }").expect("tokenizes");
    assert_eq!(
        toks,
        vec![
            Token::Keyword(Keyword::Int),
            Token::Identifier(String::from("main")),
            Token::OpenParen,
            Token::CloseParen,
            Token::OpenBrace,
            Token::Keyword(Keyword::Return),
            Token::Literal(Value::Int(2)),
            Token::SemiColon,
            Token::CloseBrace,
        ]
    );
}

#[test]
fn precedence_mul_over_add() {
    assert_eq!(
        expr_of("1 + 2 * 3"),
        Expression::BinaryOp(
            BinaryOp::Addition,
            Box::new(Expression::Int(1)),
            Box::new(Expression::BinaryOp(
                BinaryOp::Multiplication,
                Box::new(Expression::Int(2)),
                Box::new(Expression::Int(3)),
            )),
        )
    );
}

#[test]
fn subtraction_left_associative() {
    assert_eq!(
        expr_of("10 - 3 - 2"),
        Expression::BinaryOp(
            BinaryOp::Subtraction,
            Box::new(Expression::BinaryOp(
                BinaryOp::Subtraction,
                Box::new(Expression::Int(10)),
                Box::new(Expression::Int(3)),
            )),
            Box::new(Expression::Int(2)),
        )
    );
}

#[test]
fn assignment_right_associative() {
    assert_eq!(
        expr_of("a = b = 3"),
        Expression::Assign(
            String::from("a"),
            Box::new(Expression::Assign(
                String::from("b"),
                Box::new(Expression::Int(3)),
            )),
        )
    );
}

#[test]
fn dangling_else_binds_to_nearest_if() {
    let call = |name: &str| {
        Expression::FunctionCall(String::from(name), Vec::new())
    };
    assert_eq!(
        stmt_of("if (a) if (b) x(); else y();"),
        Statement::If(
            Expression::Variable(String::from("a")),
            Box::new(Statement::If(
                Expression::Variable(String::from("b")),
                Box::new(Statement::Exp(call("x"))),
                Some(Box::new(Statement::Exp(call("y")))),
            )),
            None,
        )
    );
}

#[test]
fn missing_close_brace_is_syntax_error() {
    let r = compile("int main() { return 2;");
    assert!(matches!(r, Err(CompileError::Syntax { .. })));
}

#[test]
fn return_literal_generates_mov_and_ret() {
    let out = compile("int f() { return 42; }").expect("compiles");
    assert_eq!(
        out,
        ".globl _f\n_f:\npushq\t%rbp\nmovq\t%rsp, %rbp\nmovl\t$42, %eax\nmovq\t%rbp, %rsp\npopq\t%rbp\nret"
    );
}

#[test]
fn pipeline_is_deterministic() {
    let src = "int f(int a) { int x = 1; while (x < a) { x = x + 1; } if (x == a && a > 0) return x; else return a ? x : 0 - x; }";
    let first = compile(src).expect("compiles");
    let second = compile(src).expect("compiles");
    assert_eq!(first, second);
}

#[test]
fn stray_character_is_lexical_error() {
    let r = compile("int f() { return @; }");
    assert_eq!(
        r,
        Err(CompileError::Lexical {
            found: '@',
            position: 17,
        })
    );
}

#[test]
fn literal_is_invalid_assignment_target() {
    let r = compile("int f() { 1 = 2; }");
    assert!(matches!(r, Err(CompileError::InvalidAssignmentTarget { .. })));
}

#[test]
fn undeclared_name_is_unresolved_symbol() {
    let r = compile("int f() { return x; }");
    assert_eq!(
        r,
        Err(CompileError::UnresolvedSymbol {
            name: String::from("x"),
        })
    );
}

#[test]
fn call_is_unsupported_construct() {
    let r = compile("int f() { return g(); }");
    assert_eq!(r, Err(CompileError::UnsupportedConstruct));
}

#[test]
fn short_circuit_and_control_flow_use_labels() {
    let out =
        compile("int f(int a) { while (a < 3) { a = a + 1; } if (a && 1) return 1; else return 0; }")
            .expect("compiles");
    assert!(out.contains(".Lloop_0:"));
    assert!(out.contains("je\t.Lend_0"));
    assert!(out.contains(".Lfalse_"));
    assert!(out.contains(".Lelse_"));
    assert!(out.contains("jmp\t.Lloop_0"));
}

#[test]
fn declarations_get_distinct_offsets_and_stack_space() {
    let out = compile("int f() { int x = 1; { char y = 'a'; } return x; }").expect("compiles");
    assert!(out.contains("subq\t$5, %rsp"));
    assert!(out.contains("movl\t%eax, -4(%rbp)"));
    assert!(out.contains("movb\t%al, -5(%rbp)"));
    assert!(out.contains("movl\t-4(%rbp), %eax"));
}

#[test]
fn parameters_spill_from_argument_registers() {
    let out = compile("int f(int a, char b) { return a; }").expect("compiles");
    assert!(out.contains("movl\t%edi, -4(%rbp)"));
    assert!(out.contains("movb\t%sil, -5(%rbp)"));
    assert!(out.contains("movl\t-4(%rbp), %eax"));
}

#[test]
fn seventh_parameter_is_unsupported() {
    let r = compile("int f(int a, int b, int c, int d, int e, int g, int h) { return 0; }");
    assert_eq!(r, Err(CompileError::UnsupportedConstruct));
}

#[test]
fn unary_operators_compile() {
    let out = compile("int f() { return -~!5; }").expect("compiles");
    assert!(out.contains("negl\t%eax"));
    assert!(out.contains("notl\t%eax"));
    assert!(out.contains("sete\t%al"));
}

#[test]
fn char_literal_compiles_to_its_code() {
    let out = compile("int f() { return 'a'; }").expect("compiles");
    assert!(out.contains("movl\t$97, %eax"));
}

#[test]
fn empty_source_compiles_to_empty_text() {
    assert_eq!(compile(""), Ok(String::new()));
}

#[test]
fn comma_operator_binds_weakest() {
    assert_eq!(
        expr_of("1, 2"),
        Expression::BinaryOp(
            BinaryOp::Comma,
            Box::new(Expression::Int(1)),
            Box::new(Expression::Int(2)),
        )
    );
}

#[test]
fn compound_assignment_folds_its_operator() {
    assert_eq!(
        expr_of("a += 2"),
        Expression::Assign(
            String::from("a"),
            Box::new(Expression::BinaryOp(
                BinaryOp::Addition,
                Box::new(Expression::Variable(String::from("a"))),
                Box::new(Expression::Int(2)),
            )),
        )
    );
}

#[test]
fn postfix_increment_parses_to_postfix_assignment() {
    assert_eq!(
        expr_of("a++"),
        Expression::AssignPostfix(
            String::from("a"),
            Box::new(Expression::BinaryOp(
                BinaryOp::Addition,
                Box::new(Expression::Variable(String::from("a"))),
                Box::new(Expression::Int(1)),
            )),
        )
    );
}

#[test]
fn ternary_is_right_associative() {
    assert_eq!(
        expr_of("a ? 1 : b ? 2 : 3"),
        Expression::Ternary(
            Box::new(Expression::Variable(String::from("a"))),
            Box::new(Expression::Int(1)),
            Box::new(Expression::Ternary(
                Box::new(Expression::Variable(String::from("b"))),
                Box::new(Expression::Int(2)),
                Box::new(Expression::Int(3)),
            )),
        )
    );
}

#[test]
fn unary_binds_tighter_than_binary() {
    assert_eq!(
        expr_of("-a * b"),
        Expression::BinaryOp(
            BinaryOp::Multiplication,
            Box::new(Expression::UnaryOp(
                UnaryOp::Negation,
                Box::new(Expression::Variable(String::from("a"))),
            )),
            Box::new(Expression::Variable(String::from("b"))),
        )
    );
}

#[test]
fn multi_character_operators_tokenize() {
    let toks = lex("<<= >>= << >> <= >= == != && || ++ --").expect("tokenizes");
    assert_eq!(
        toks,
        vec![
            Token::AssignBitLeft,
            Token::AssignBitRight,
            Token::BitwiseLeft,
            Token::BitwiseRight,
            Token::LessThanOrEqual,
            Token::GreaterThanOrEqual,
            Token::Equal,
            Token::NotEqual,
            Token::And,
            Token::Or,
            Token::Increment,
            Token::Decrement,
        ]
    );
}

#[test]
fn keyword_prefixes_are_identifiers() {
    let toks = lex("integer ifx whiles").expect("tokenizes");
    assert_eq!(
        toks,
        vec![
            Token::Identifier(String::from("integer")),
            Token::Identifier(String::from("ifx")),
            Token::Identifier(String::from("whiles")),
        ]
    );
}

#[test]
fn number_too_large_for_32_bits_is_rejected() {
    assert!(lex("4294967295").is_ok());
    assert!(lex("4294967296").is_err());
}

#[test]
fn parse_arguments_reads_typed_parameters() {
    let toks = lex("int a, char b)").expect("tokenizes");
    let mut p = Parser::new(toks);
    let args = p.parse_arguments().expect("parses");
    assert_eq!(
        args,
        vec![
            Variable { name: String::from("a"), size: Primitive::Int },
            Variable { name: String::from("b"), size: Primitive::Byte },
        ]
    );
}

#[test]
fn declaration_with_initializer_parses() {
    assert_eq!(
        stmt_of("int x = 3;"),
        Statement::Declare(
            Variable { name: String::from("x"), size: Primitive::Int },
            Some(Expression::Int(3)),
        )
    );
}

#[test]
fn token_parser_cursor_walks_the_source() {
    let mut tp = TokenParser::new("ab");
    assert_eq!(tp.peek(), Some('a'));
    assert_eq!(tp.next(), Some('a'));
    tp.push(Token::Comma);
    assert_eq!(tp.peek(), None);
    tp.drop();
    assert_eq!(tp.next(), None);
    tp.push_back(Token::SemiColon);
    assert_eq!(tp.tokens, vec![Token::Comma, Token::SemiColon]);
}

#[test]
fn decimal_rendering_matches_expected_spellings() {
    assert_eq!(u64_to_string(0), "0");
    assert_eq!(u64_to_string(7), "7");
    assert_eq!(u64_to_string(1234567890), "1234567890");
}

#[test]
fn generator_translates_functions_in_order() {
    let toks = lex("int a() { return 1; } int b() { return 2; }").expect("tokenizes");
    let mut p = Parser::new(toks);
    let prog = p.parse().expect("parses");
    let mut g = Generator::new();
    let out = g.generate(prog).expect("generates");
    let a_at = out.find("_a:").expect("has a");
    let b_at = out.find("_b:").expect("has b");
    assert!(a_at < b_at);
}

#[test]
fn get_string_takes_the_longest_matching_run() {
    let mut tp = TokenParser::new("abc123");
    let word = tp.get_string(|c: &char| c.is_alphabetic());
    assert_eq!(word, "abc");
    let digits = tp.get_string(|c: &char| c.is_ascii_digit());
    assert_eq!(digits, "123");
    let nothing = tp.get_string(|c: &char| c.is_alphabetic());
    assert_eq!(nothing, "");
}

#[test]
fn operator_tokens_map_to_operators() {
    assert_eq!(binary_op_of(&Token::Negation), Some(BinaryOp::Subtraction));
    assert_eq!(binary_op_of(&Token::Comma), Some(BinaryOp::Comma));
    assert_eq!(binary_op_of(&Token::OpenParen), None);
    assert_eq!(unary_op_of(&Token::BitComp), Some(UnaryOp::BitComp));
    assert_eq!(unary_op_of(&Token::Addition), None);
}

#[test]
fn duplicate_function_name_is_rejected() {
    let r = compile("int f() { return 1; } int f() { return 2; }");
    assert!(matches!(
        r,
        Err(CompileError::Syntax { position: 10, .. })
    ));
    assert!(compile("int f() { return 1; } int g() { return 2; }").is_ok());
}

#[test]
fn subtraction_chain_generates_its_stack_machine_sequence() {
    let out = compile("int f() { return 10 - 3 - 2; }").expect("compiles");
    assert_eq!(
        out,
        ".globl _f\n_f:\npushq\t%rbp\nmovq\t%rsp, %rbp\n\
         movl\t$10, %eax\npushq\t%rax\nmovl\t$3, %eax\nmovl\t%eax, %ecx\npopq\t%rax\nsubl\t%ecx, %eax\n\
         pushq\t%rax\nmovl\t$2, %eax\nmovl\t%eax, %ecx\npopq\t%rax\nsubl\t%ecx, %eax\n\
         movq\t%rbp, %rsp\npopq\t%rbp\nret"
    );
}

use tasm::codegen::{Compiler, GenError, Instr};
use tasm::expr::LiteralValue;
use tasm::lexer::Scanner;
use tasm::parser::{Parser, ParseErrorKind};
use tasm::stmt::Stmt;
use tasm::token::TokenType;

fn scan(src: &str) -> Vec<tasm::token::Token> {
    Scanner::new(src.to_owned()).scanTokens().expect("scan failed")
}

fn parse(src: &str) -> Vec<Stmt> {
    let mut p = Parser::new(scan(src));
    p.parse().expect("parse failed")
}

fn first_expr(stmts: &[Stmt]) -> &tasm::expr::Expr {
    match &stmts[0] {
        Stmt::Expression { expression } => expression,
        other => panic!("expected expression statement, got {:?}", other),
    }
}

#[test]
fn binary_renders_prefix() {
    let stmts = parse("1 + 2;");
    assert_eq!(first_expr(&stmts).to_string(), "(+ 1 2)");
}

#[test]
fn each_binary_operator_renders_prefix() {
    for (src, expected) in [
        ("1 - 2;", "(- 1 2)"),
        ("1 * 2;", "(* 1 2)"),
        ("1 / 2;", "(/ 1 2)"),
        ("1 % 2;", "(% 1 2)"),
        ("1 < 2;", "(< 1 2)"),
        ("1 <= 2;", "(<= 1 2)"),
        ("1 > 2;", "(> 1 2)"),
        ("1 >= 2;", "(>= 1 2)"),
        ("1 == 2;", "(== 1 2)"),
        ("1 != 2;", "(!= 1 2)"),
    ] {
        let stmts = parse(src);
        assert_eq!(first_expr(&stmts).to_string(), expected, "source {}", src);
    }
}

#[test]
fn grouping_renders_group() {
    let stmts = parse("1 == (2 + 2);");
    assert_eq!(first_expr(&stmts).to_string(), "(== 1 (group (+ 2 2)))");
}

#[test]
fn lexeme_line_counts_newlines() {
    let toks = scan("\n\nfoo");
    assert_eq!(toks[0].token_type, TokenType::Identifier);
    assert_eq!(toks[0].line, 3);
    let toks = scan("a\nb\n\nc");
    assert_eq!(toks[2].line, 4);
}

#[test]
fn unterminated_string_yields_no_token() {
    let toks = scan("\"abc");
    assert_eq!(toks.len(), 1);
    assert_eq!(toks[0].token_type, TokenType::Eof);
}

#[test]
fn unknown_symbol_is_fatal() {
    let r = Scanner::new("@".to_owned()).scanTokens();
    let e = r.err().expect("expected a lexical error");
    assert_eq!(e.line, 1);
    assert_eq!(e.ch, '@');
}

#[test]
fn comment_produces_no_tokens() {
    let toks = scan("// nothing here\n1;");
    assert_eq!(toks[0].token_type, TokenType::Number);
    assert_eq!(toks[0].line, 2);
}

#[test]
fn number_token_keeps_numeral_text() {
    let toks = scan("1.25");
    assert_eq!(toks[0].lexeme, "1.25");
}

#[test]
fn for_desugars_to_block_with_while() {
    let stmts = parse("for (float i = 0; i < 3; i = i + 1) { print(i); }");
    assert_eq!(stmts.len(), 1);
    match &stmts[0] {
        Stmt::Block { stmts: outer } => {
            assert_eq!(outer.len(), 2);
            assert!(matches!(outer[0], Stmt::Var { .. }));
            match &outer[1] {
                Stmt::While { block, .. } => match &**block {
                    Stmt::Block { stmts: body } => {
                        assert_eq!(body.len(), 2);
                        assert!(matches!(body[1], Stmt::Block { .. }));
                    },
                    other => panic!("expected block body, got {:?}", other),
                },
                other => panic!("expected while, got {:?}", other),
            }
        },
        other => panic!("expected block, got {:?}", other),
    }
}

#[test]
fn for_program_generates() {
    let stmts = parse("for (float i = 0; i < 3; i = i + 1) { print(i); }");
    let mut c = Compiler::new();
    c.generate(&stmts).expect("generation failed");
}

#[test]
fn invalid_assignment_target_is_an_error() {
    let mut p = Parser::new(scan("1 = 2;"));
    let e = p.parse().err().expect("expected a parse error");
    assert_eq!(e.kind, ParseErrorKind::InvalidAssignmentTarget);
}

#[test]
fn missing_semicolon_reports_line() {
    let mut p = Parser::new(scan("1 + 2"));
    let e = p.parse().err().expect("expected a parse error");
    assert_eq!(e.kind, ParseErrorKind::Expected(TokenType::Semicolon));
    assert_eq!(e.line, 1);
}

#[test]
fn non_integer_condition_fails_generation() {
    let stmts = parse("if (\"hi\") { print(1); }");
    let mut c = Compiler::new();
    let e = c.generate(&stmts).err().expect("expected a generation error");
    assert!(matches!(e, GenError::TypeMismatch));
}

#[test]
fn boolean_literal_condition_fails_generation() {
    let stmts = parse("if (true) { print(1); } else { print(2); }");
    let mut c = Compiler::new();
    let e = c.generate(&stmts).err().expect("expected a generation error");
    assert!(matches!(e, GenError::TypeMismatch));
}

#[test]
fn comparison_condition_generates() {
    let stmts = parse("if (1 < 2) { print(1); } else { print(2); }");
    let mut c = Compiler::new();
    c.generate(&stmts).expect("generation failed");
}

#[test]
fn assigning_undeclared_name_fails() {
    let stmts = parse("x = 1;");
    let mut c = Compiler::new();
    let e = c.generate(&stmts).err().expect("expected a generation error");
    assert!(matches!(e, GenError::UnresolvedSymbol(ref n) if n == "x"));
}

#[test]
fn reading_undeclared_name_fails() {
    let stmts = parse("print(x);");
    let mut c = Compiler::new();
    let e = c.generate(&stmts).err().expect("expected a generation error");
    assert!(matches!(e, GenError::UnresolvedSymbol(ref n) if n == "x"));
}

#[test]
fn print_bool_selects_true_false_text() {
    let stmts = parse("print(true);");
    let mut c = Compiler::new();
    c.generate(&stmts).expect("generation failed");
    let strings = &c.module.strings;
    assert!(strings.iter().any(|s| s == "true"));
    assert!(strings.iter().any(|s| s == "false"));
    assert!(strings.iter().any(|s| s == "%s\n"));
    assert!(c.module.instrs.iter().any(|(_, i)| matches!(i, Instr::SelectStr { .. })));
}

#[test]
fn print_float_uses_float_format() {
    let stmts = parse("print(1.5);");
    let mut c = Compiler::new();
    c.generate(&stmts).expect("generation failed");
    assert!(c.module.strings.iter().any(|s| s == "%f\n"));
    assert!(c.module.instrs.iter().any(|(_, i)| matches!(i, Instr::ConstNum { text } if text == "1.5")));
}

#[test]
fn print_string_uses_string_format() {
    let stmts = parse("print(\"hi\");");
    let mut c = Compiler::new();
    c.generate(&stmts).expect("generation failed");
    assert!(c.module.strings.iter().any(|s| s == "hi"));
    assert!(c.module.strings.iter().any(|s| s == "%s\n"));
}

#[test]
fn while_lowering_builds_header_body_merge() {
    let stmts = parse("float i = 0; while (i < 3) { i = i + 1; }");
    let mut c = Compiler::new();
    c.generate(&stmts).expect("generation failed");
    assert_eq!(c.module.n_blocks, 4);
    assert!(c.module.instrs.iter().any(|(_, i)| matches!(i, Instr::CondBr { .. })));
}

#[test]
fn literal_value_truthiness() {
    assert!(LiteralValue::True.is_truthy());
    assert!(LiteralValue::Number("0".to_owned()).is_truthy());
    assert!(!LiteralValue::False.is_truthy());
    assert!(!LiteralValue::Nil.is_truthy());
    assert!(matches!(LiteralValue::Number("0.0".to_owned()).is_falsy(), LiteralValue::False));
    assert!(matches!(LiteralValue::Number("1".to_owned()).is_falsy(), LiteralValue::False));
    assert!(matches!(LiteralValue::StringValue(String::new()).is_falsy(), LiteralValue::False));
    assert!(matches!(LiteralValue::False.is_falsy(), LiteralValue::True));
    assert!(matches!(LiteralValue::Nil.is_falsy(), LiteralValue::True));
    assert!(matches!(LiteralValue::from_bool(true), LiteralValue::True));
    assert_eq!(LiteralValue::Nil.to_type(), "nil");
    assert!(LiteralValue::Nil == LiteralValue::Nil);
    assert!(LiteralValue::Number("1".to_owned()) == LiteralValue::Number("1".to_owned()));
    assert!(LiteralValue::Number("1".to_owned()) != LiteralValue::Number("2".to_owned()));
    assert!(LiteralValue::True != LiteralValue::False);
    assert_eq!(LiteralValue::Number("2.5".to_owned()).to_string(), "2.5");
}

#[test]
fn keywords_classify() {
    let toks = scan("while break continue float string bool whilex");
    assert_eq!(toks[0].token_type, TokenType::KwWhile);
    assert_eq!(toks[1].token_type, TokenType::KwBreak);
    assert_eq!(toks[2].token_type, TokenType::KwContinue);
    assert_eq!(toks[3].token_type, TokenType::KwFloat);
    assert_eq!(toks[4].token_type, TokenType::KwString);
    assert_eq!(toks[5].token_type, TokenType::KwBool);
    assert_eq!(toks[6].token_type, TokenType::Identifier);
}

#[test]
fn unsupported_statements_fail_generation() {
    let stmts = parse("break;");
    let mut c = Compiler::new();
    assert!(matches!(c.generate(&stmts), Err(GenError::UnsupportedStatement)));
}

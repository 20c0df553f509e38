//! Tests of spans, decimal rendering and the intermediate pipeline stages.

use cythan_compiler::decimal::{u64_to_string, usize_to_string};
use cythan_compiler::generate_tokens;
use cythan_compiler::generate_tokens_stage2;
use cythan_compiler::position::Position;
use cythan_compiler::stage2::Stage2Token;
use cythan_compiler::stage3::Stage3Token;

#[test]
fn decimal_rendering() {
    assert_eq!(u64_to_string(0), "0");
    assert_eq!(u64_to_string(7), "7");
    assert_eq!(u64_to_string(12345), "12345");
    assert_eq!(usize_to_string(usize::MAX).parse::<usize>().unwrap(), usize::MAX);
}

#[test]
fn position_merge_takes_the_bounding_span() {
    let a = Position::new(1, 2, 5);
    let b = Position::new(1, 4, 9);
    let m = a.merge(&b);
    assert_eq!(m, Position { line_from: 1, line_to: 1, caret_from: 2, caret_to: 9 });

    let c = Position::new(3, 0, 2);
    let m2 = a.merge(&c);
    assert_eq!(m2, Position { line_from: 1, line_to: 3, caret_from: 2, caret_to: 2 });
}

#[test]
fn position_renders_one_line_form() {
    let a = Position::new(2, 1, 4);
    assert_eq!(a.to_str(), "Error line 2 [1,4]");
}

#[test]
fn position_renders_two_line_form() {
    let a = Position::new(1, 3, 3).merge(&Position::new(2, 0, 5));
    assert_eq!(a.to_str(), "Error from line 1 [3] to line 2 [5]");
}

#[test]
fn grouping_builds_blocks_and_calls() {
    let toks = generate_tokens_stage2("f { 1 } f()").unwrap();
    assert_eq!(toks.len(), 4);
    assert!(matches!(&toks[0], Stage2Token::Literal(_, s) if s == "f"));
    assert!(matches!(&toks[1], Stage2Token::Block(_, inner) if inner.len() == 1));
    assert!(matches!(&toks[2], Stage2Token::Literal(_, s) if s == "f"));
    assert!(matches!(&toks[3], Stage2Token::Parenthesis(_, inner) if inner.is_empty()));
}

#[test]
fn instruction_tree_shapes() {
    let ast = generate_tokens("f { 1 } v = (2) f(3)").unwrap();
    assert_eq!(ast.len(), 3);
    assert!(matches!(&ast[0], Stage3Token::FunctionCreation(_, name, body)
        if name == "f" && body.len() == 1));
    assert!(matches!(&ast[1], Stage3Token::VariableDefinition(_, name, args)
        if name == "v" && args.len() == 1));
    assert!(matches!(&ast[2], Stage3Token::FunctionExecution(_, name, args)
        if name == "f" && args.len() == 1));
}

#[test]
fn lone_equals_inside_word_is_a_literal() {
    // `=` only stands alone when whitespace-separated, so `a=b` is one
    // literal and fails as an unknown variable, not as an assignment
    assert!(generate_tokens("a=b").is_ok());
}

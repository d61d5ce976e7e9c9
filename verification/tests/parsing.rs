use prop_logic::ast::{NodeValue, Tree};
use prop_logic::errors::{LexError, ParseError};
use prop_logic::parser::process_formula;

fn parse(s: &str) -> Result<Tree, ParseError> {
    process_formula(&s.chars().collect::<Vec<char>>())
}

fn parse_ok(s: &str) -> Tree {
    parse(s).unwrap()
}

#[test]
fn left_assoc_same_tier() {
    // "p & q & r" chains left-to-right: And(And(p, q), r).
    let t = parse_ok("p & q & r");
    assert_eq!(t.value, NodeValue::And);
    let left = t.left.as_ref().unwrap();
    assert_eq!(left.value, NodeValue::And);
    assert_eq!(left.left.as_ref().unwrap().value, NodeValue::Var('p'));
    assert_eq!(left.right.as_ref().unwrap().value, NodeValue::Var('q'));
    assert_eq!(t.right.as_ref().unwrap().value, NodeValue::Var('r'));
}

#[test]
fn or_after_and_same_tier() {
    // "p & q V r" also chains left-to-right: Or(And(p, q), r).
    let t = parse_ok("p & q V r");
    assert_eq!(t.value, NodeValue::Or);
    let left = t.left.as_ref().unwrap();
    assert_eq!(left.value, NodeValue::And);
    assert_eq!(t.right.as_ref().unwrap().value, NodeValue::Var('r'));
}

#[test]
fn grouping_override() {
    // "(p V q) & r": the & is the root, its left child the V sub-expression.
    let t = parse_ok("(p V q) & r");
    assert_eq!(t.value, NodeValue::And);
    let left = t.left.as_ref().unwrap();
    assert_eq!(left.value, NodeValue::Or);
    assert!(left.is_sub_fn);
    assert_eq!(t.right.as_ref().unwrap().value, NodeValue::Var('r'));
}

#[test]
fn unary_binds_tighter_than_binary() {
    // "!p & q" is And(Not(p), q), not Not(And(p, q)).
    let t = parse_ok("!p & q");
    assert_eq!(t.value, NodeValue::And);
    let left = t.left.as_ref().unwrap();
    assert_eq!(left.value, NodeValue::Not);
    assert_eq!(left.right.as_ref().unwrap().value, NodeValue::Var('p'));
    assert_eq!(t.right.as_ref().unwrap().value, NodeValue::Var('q'));
}

#[test]
fn implies_binds_loosest() {
    // "p & q -> r" is Implies(And(p, q), r).
    let t = parse_ok("p & q -> r");
    assert_eq!(t.value, NodeValue::Implies);
    assert_eq!(t.left.as_ref().unwrap().value, NodeValue::And);
}

#[test]
fn iff_parses() {
    let t = parse_ok("p <-> q");
    assert_eq!(t.value, NodeValue::Iff);
    assert_eq!(t.left.as_ref().unwrap().value, NodeValue::Var('p'));
    assert_eq!(t.right.as_ref().unwrap().value, NodeValue::Var('q'));
}

#[test]
fn spaces_are_skipped() {
    let t = parse_ok("  p   &    q ");
    assert_eq!(t.value, NodeValue::And);
    assert_eq!(t.left.as_ref().unwrap().value, NodeValue::Var('p'));
    assert_eq!(t.right.as_ref().unwrap().value, NodeValue::Var('q'));
}

#[test]
fn nested_parentheses_parse() {
    let t = parse_ok("!((!q ^ (p -> r)) ^ (r -> q))");
    assert_eq!(t.value, NodeValue::Not);
    let body = t.right.as_ref().unwrap();
    assert_eq!(body.value, NodeValue::Xor);
    assert!(body.is_sub_fn);
}

#[test]
fn empty_formula_rejected() {
    assert_eq!(parse("").unwrap_err(), ParseError::EmptyFormula);
    assert_eq!(parse("   ").unwrap_err(), ParseError::EmptyFormula);
}

#[test]
fn lone_open_bracket_rejected() {
    assert_eq!(parse("(").unwrap_err(), ParseError::UnmatchedOpenBracket);
    assert_eq!(parse("(p & q").unwrap_err(), ParseError::UnmatchedOpenBracket);
}

#[test]
fn leading_binary_operator_rejected() {
    assert_eq!(parse("&").unwrap_err(), ParseError::UnexpectedOperator);
    assert_eq!(parse("& p q").unwrap_err(), ParseError::UnexpectedOperator);
    assert_eq!(parse("(V p)").unwrap_err(), ParseError::UnexpectedOperator);
}

#[test]
fn trailing_operator_rejected() {
    assert_eq!(parse("p &").unwrap_err(), ParseError::UnexpectedOperator);
    assert_eq!(parse("p & & q").unwrap_err(), ParseError::UnexpectedOperator);
}

#[test]
fn stray_close_bracket_rejected() {
    assert_eq!(parse(")").unwrap_err(), ParseError::UnmatchedCloseBracket);
    assert_eq!(parse("p ) q").unwrap_err(), ParseError::UnmatchedCloseBracket);
}

#[test]
fn empty_group_rejected() {
    assert_eq!(parse("()").unwrap_err(), ParseError::EmptyFormula);
    assert_eq!(parse("p & ()").unwrap_err(), ParseError::EmptyFormula);
}

#[test]
fn malformed_multichar_operators_rejected() {
    assert_eq!(
        parse("p - q").unwrap_err(),
        ParseError::Lex(LexError::MalformedImplies)
    );
    assert_eq!(
        parse("p <- q").unwrap_err(),
        ParseError::Lex(LexError::MalformedIff)
    );
    assert_eq!(parse("p -").unwrap_err(), ParseError::Lex(LexError::MalformedImplies));
}

#[test]
fn group_where_no_slot_is_open_rejected() {
    assert_eq!(parse("(p V q) (r)").unwrap_err(), ParseError::UnexpectedOperand);
}

#[test]
fn subexpression_is_opaque_to_the_spine_walk() {
    // In "p -> (q -> r) & s" the & may not rotate into the parenthesized
    // group: it annexes the whole group as its left operand instead.
    let t = parse_ok("p -> (q -> r) & s");
    assert_eq!(t.value, NodeValue::Implies);
    let right = t.right.as_ref().unwrap();
    assert_eq!(right.value, NodeValue::And);
    let group = right.left.as_ref().unwrap();
    assert!(group.is_sub_fn);
    assert_eq!(group.value, NodeValue::Implies);
    assert_eq!(right.right.as_ref().unwrap().value, NodeValue::Var('s'));
}

#[test]
fn nth_right_child_walks_the_spine() {
    let t = parse_ok("p & q");
    assert_eq!(t.nth_right_child(0).value, NodeValue::And);
    assert_eq!(t.nth_right_child(1).value, NodeValue::Var('q'));
}

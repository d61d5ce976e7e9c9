use prop_logic::ast::NodeValue;
use prop_logic::parser::process_formula;
use prop_logic::render::{print_sub_tree, render_tree};

fn parse_ok(s: &str) -> prop_logic::ast::Tree {
    process_formula(&s.chars().collect::<Vec<char>>()).unwrap()
}

#[test]
fn symbols_of_operators() {
    assert_eq!(NodeValue::Not.symbol(), '¬');
    assert_eq!(NodeValue::And.symbol(), '∧');
    assert_eq!(NodeValue::Or.symbol(), '∨');
    assert_eq!(NodeValue::Xor.symbol(), '⊕');
    assert_eq!(NodeValue::Implies.symbol(), '→');
    assert_eq!(NodeValue::Iff.symbol(), '↔');
    assert_eq!(NodeValue::Var('z').symbol(), 'z');
}

#[test]
fn render_single_variable() {
    let s: String = render_tree(&parse_ok("p")).into_iter().collect();
    assert_eq!(s, "```mermaid\nflowchart TB\nnode0[\"p\"]\n```");
}

#[test]
fn render_negation() {
    let s: String = render_tree(&parse_ok("!p")).into_iter().collect();
    assert_eq!(
        s,
        "```mermaid\nflowchart TB\nnode0[\"¬\"]\nnode1[\"p\"]\nnode0 --> node1\n```"
    );
}

#[test]
fn render_binary_numbers_nodes_preorder() {
    let s: String = render_tree(&parse_ok("p & q")).into_iter().collect();
    assert_eq!(
        s,
        "```mermaid\nflowchart TB\nnode0[\"∧\"]\nnode1[\"p\"]\nnode0 --> node1\nnode2[\"q\"]\nnode0 --> node2\n```"
    );
}

#[test]
fn print_sub_tree_returns_node_count() {
    let t = parse_ok("p & q V !r");
    let mut out: Vec<char> = Vec::new();
    let n = print_sub_tree(&t, &mut out, 0);
    assert_eq!(n, 6);
    assert!(!out.is_empty());
}

#[test]
fn print_sub_tree_appends_at_offset() {
    let t = parse_ok("p");
    let mut out: Vec<char> = vec!['x'];
    let n = print_sub_tree(&t, &mut out, 17);
    assert_eq!(n, 1);
    let s: String = out.into_iter().collect();
    assert_eq!(s, "xnode17[\"p\"]\n");
}

use prop_logic::ast::Tree;
use prop_logic::collect::get_variables;
use prop_logic::errors::{ConfigurationError, EvalError};
use prop_logic::eval::{calc_sub_tree, evaluate, Assignment};
use prop_logic::parser::process_formula;
use prop_logic::table::{truth_table, TruthTable};

fn parse_ok(s: &str) -> Tree {
    process_formula(&s.chars().collect::<Vec<char>>()).unwrap()
}

fn table(s: &str) -> TruthTable {
    truth_table(&parse_ok(s)).unwrap()
}

fn results(tt: &TruthTable) -> Vec<bool> {
    tt.rows.iter().map(|r| r.result).collect()
}

#[test]
fn variables_in_first_occurrence_order() {
    assert_eq!(get_variables(&parse_ok("q & p V q")), vec!['q', 'p']);
    assert_eq!(get_variables(&parse_ok("!((!q ^ (p -> r)) ^ (r -> q))")), vec!['q', 'p', 'r']);
}

#[test]
fn assignment_latest_binding_wins() {
    let mut a = Assignment::new();
    assert_eq!(a.get('p'), None);
    a.set('p', true);
    a.set('q', false);
    assert_eq!(a.get('p'), Some(true));
    assert_eq!(a.get('q'), Some(false));
    a.set('p', false);
    assert_eq!(a.get('p'), Some(false));
}

#[test]
fn calc_sub_tree_on_and() {
    let t = parse_ok("p & q");
    let mut a = Assignment::new();
    a.set('p', true);
    a.set('q', false);
    assert_eq!(calc_sub_tree(&t, &a), Some(false));
    a.set('q', true);
    assert_eq!(calc_sub_tree(&t, &a), Some(true));
}

#[test]
fn calc_sub_tree_unbound_is_none() {
    let t = parse_ok("p & q");
    let mut a = Assignment::new();
    a.set('p', true);
    assert_eq!(calc_sub_tree(&t, &a), None);
}

#[test]
fn evaluate_reports_unbound_variable() {
    let t = parse_ok("p & q");
    let mut a = Assignment::new();
    a.set('p', true);
    assert_eq!(evaluate(&t, &a), Err(EvalError::UnboundVariable('q')));
    a.set('q', false);
    assert_eq!(evaluate(&t, &a), Ok(false));
}

#[test]
fn unary_binding_discriminates() {
    // For p=F, q=F: (!p) & q is F while !(p & q) is T.
    let mut a = Assignment::new();
    a.set('p', false);
    a.set('q', false);
    assert_eq!(evaluate(&parse_ok("!p & q"), &a), Ok(false));
    assert_eq!(evaluate(&parse_ok("!(p & q)"), &a), Ok(true));
}

#[test]
fn truth_table_and() {
    // Rows in counter order: (F,F)->F, (F,T)->F, (T,F)->F, (T,T)->T.
    let tt = table("p & q");
    assert_eq!(tt.variables, vec!['p', 'q']);
    assert_eq!(tt.rows.len(), 4);
    let values: Vec<Vec<bool>> = tt.rows.iter().map(|r| r.values.clone()).collect();
    assert_eq!(
        values,
        vec![
            vec![false, false],
            vec![false, true],
            vec![true, false],
            vec![true, true],
        ]
    );
    assert_eq!(results(&tt), vec![false, false, false, true]);
}

#[test]
fn truth_table_not() {
    let tt = table("!p");
    assert_eq!(tt.variables, vec!['p']);
    let values: Vec<Vec<bool>> = tt.rows.iter().map(|r| r.values.clone()).collect();
    assert_eq!(values, vec![vec![false], vec![true]]);
    assert_eq!(results(&tt), vec![true, false]);
}

#[test]
fn truth_table_implies() {
    // (F,F)->T, (F,T)->T, (T,F)->F, (T,T)->T.
    assert_eq!(results(&table("p -> q")), vec![true, true, false, true]);
}

#[test]
fn truth_table_xor() {
    assert_eq!(results(&table("p ^ q")), vec![false, true, true, false]);
}

#[test]
fn truth_table_or() {
    assert_eq!(results(&table("p V q")), vec![false, true, true, true]);
}

#[test]
fn truth_table_iff() {
    assert_eq!(results(&table("p <-> q")), vec![true, false, false, true]);
}

#[test]
fn left_assoc_chain_truth_table() {
    // "p & q & r" evaluates as (p ∧ q) ∧ r under all 8 assignments.
    let tt = table("p & q & r");
    assert_eq!(tt.variables, vec!['p', 'q', 'r']);
    assert_eq!(tt.rows.len(), 8);
    for (i, row) in tt.rows.iter().enumerate() {
        let p = (i >> 2) & 1 == 1;
        let q = (i >> 1) & 1 == 1;
        let r = i & 1 == 1;
        assert_eq!(row.values, vec![p, q, r]);
        assert_eq!(row.result, (p && q) && r);
    }
}

#[test]
fn grouping_agrees_with_left_assoc_and_differs_from_right() {
    // "(p V q) & r" and "p V q & r" denote the same association, while
    // "p V (q & r)" differs from them, e.g. at p=T, q=F, r=F.
    let grouped = results(&table("(p V q) & r"));
    let flat = results(&table("p V q & r"));
    let right = results(&table("p V (q & r)"));
    assert_eq!(grouped, flat);
    assert_ne!(grouped, right);
    // Row 4 is p=T, q=F, r=F.
    assert_eq!(grouped[4], false);
    assert_eq!(right[4], true);
}

#[test]
fn nested_parentheses_end_to_end() {
    let tt = table("!((!q ^ (p -> r)) ^ (r -> q))");
    assert_eq!(tt.variables, vec!['q', 'p', 'r']);
    assert_eq!(tt.rows.len(), 8);
    for (i, row) in tt.rows.iter().enumerate() {
        let q = (i >> 2) & 1 == 1;
        let p = (i >> 1) & 1 == 1;
        let r = i & 1 == 1;
        assert_eq!(row.values, vec![q, p, r]);
        let expected = !(((!q) ^ (!p || r)) ^ (!r || q));
        assert_eq!(row.result, expected);
    }
    // A second run yields the identical table.
    let tt2 = table("!((!q ^ (p -> r)) ^ (r -> q))");
    assert_eq!(results(&tt), results(&tt2));
    assert_eq!(tt.variables, tt2.variables);
}

#[test]
fn too_many_variables_rejected() {
    let t = parse_ok("a & b & c & d & e & f & g & h & i");
    assert_eq!(truth_table(&t).unwrap_err(), ConfigurationError::TooManyVariables);
}

#[test]
fn eight_variables_accepted() {
    let tt = table("a & b & c & d & e & f & g & h");
    assert_eq!(tt.rows.len(), 256);
    assert_eq!(tt.rows[255].result, true);
    assert_eq!(tt.rows[254].result, false);
}

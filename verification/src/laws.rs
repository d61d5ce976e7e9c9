//! Library-wide guarantees tying the stages together.

use vstd::prelude::*;

use crate::ast::{complete, spec_vars, Tree};
use crate::errors::ParseError;
use crate::eval::{lemma_complete_eval_total, spec_eval};
use crate::parser::spec_process;
use crate::table::{row_matches, TableRow};

verus! {

/// Whenever the builder accepts a formula, the tree it returns is
/// complete, and evaluating it can never fail under an assignment that
/// binds every collected variable: evaluation yields a value for every
/// total assignment over the tree's variable set.
pub proof fn lemma_parsed_formula_evaluates(s: Seq<char>, t: Tree, a: Map<char, bool>)
    requires
        spec_process(s) == Ok::<Tree, ParseError>(t),
        spec_vars(t).subset_of(a.dom()),
    ensures
        complete(t),
        spec_eval(t, a) is Some,
{
    lemma_complete_eval_total(t, a);
}

/// A truth-table row is a function of the tree, the variable order and the
/// row counter alone: two rows that both match the same counter hold the
/// same variable values and the same result, so repeated runs over one
/// formula produce identical tables.
pub proof fn lemma_row_determined(
    t: Tree,
    vars: Seq<char>,
    counter: usize,
    r1: TableRow,
    r2: TableRow,
)
    requires
        row_matches(t, vars, counter, r1),
        row_matches(t, vars, counter, r2),
    ensures
        r1.values@ == r2.values@,
        r1.result == r2.result,
{
    assert(r1.values@ =~= r2.values@);
}

} // verus!

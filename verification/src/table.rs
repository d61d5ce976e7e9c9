//! The truth-table generator: every assignment over the collected
//! variables, enumerated in counter order, the tree evaluated once per row.

use vstd::prelude::*;

use crate::ast::{complete, spec_vars, Tree};
use crate::collect::{get_variables, spec_collect};
use crate::errors::ConfigurationError;
use crate::eval::{calc_sub_tree, lemma_complete_eval_total, spec_eval, Assignment};

verus! {

/// Widest variable set a table enumeration accepts: the counter treats the
/// row number as a vector of this many bits.
pub const MAX_VARIABLES: usize = 8;

/// The assignment a row counter denotes: with `n` variables, variable
/// number `j` is true exactly when bit `n - 1 - j` of the counter is set,
/// so the first variable is the counter's highest bit and rows in counter
/// order count upward in the usual truth-table fashion.
pub open spec fn spec_assignment(vars: Seq<char>, counter: usize) -> Map<char, bool>
    decreases vars.len(),
{
    if vars.len() == 0 {
        Map::empty()
    } else {
        spec_assignment(vars.drop_first(), counter).insert(
            vars.first(),
            (counter >> ((vars.len() - 1) as usize)) & 1 == 1,
        )
    }
}

/// The counter assignment binds exactly the listed variables.
pub proof fn lemma_assignment_dom(vars: Seq<char>, counter: usize)
    ensures
        spec_assignment(vars, counter).dom() == vars.to_set(),
    decreases vars.len(),
{
    if vars.len() == 0 {
        assert(spec_assignment(vars, counter).dom() =~= vars.to_set());
    } else {
        lemma_assignment_dom(vars.drop_first(), counter);
        assert forall|x: char|
            vars.to_set().contains(x) <==> (x == vars.first() || vars.drop_first().to_set()
                .contains(x)) by {
            if vars.contains(x) {
                let k = choose|k: int| 0 <= k < vars.len() && vars[k] == x;
                if k > 0 {
                    assert(vars.drop_first()[k - 1] == x);
                }
            }
            if vars.drop_first().contains(x) {
                let k = choose|k: int| 0 <= k < vars.drop_first().len() && vars.drop_first()[k]
                    == x;
                assert(vars[k + 1] == x);
            }
        }
        assert(spec_assignment(vars, counter).dom() =~= vars.to_set());
    }
}

/// With distinct variables, the counter assignment maps variable `j` to
/// bit `n - 1 - j` of the counter.
pub proof fn lemma_assignment_at(vars: Seq<char>, counter: usize, j: int)
    requires
        vars.no_duplicates(),
        0 <= j < vars.len(),
    ensures
        spec_assignment(vars, counter).contains_key(vars[j]),
        spec_assignment(vars, counter)[vars[j]] == ((counter >> ((vars.len() - 1 - j) as usize))
            & 1 == 1),
    decreases vars.len(),
{
    if j > 0 {
        lemma_assignment_at(vars.drop_first(), counter, j - 1);
        assert(vars.drop_first()[j - 1] == vars[j]);
    }
}

/// One row of a truth table: the value of each variable, in the order of
/// the table's variable list, and what the formula evaluates to.
#[derive(Debug)]
pub struct TableRow {
    pub values: Vec<bool>,
    pub result: bool,
}

/// A full truth table: the variable list in first-occurrence order, and
/// one row for each counter value, in increasing counter order.
#[derive(Debug)]
pub struct TruthTable {
    pub variables: Vec<char>,
    pub rows: Vec<TableRow>,
}

/// What one row owes its counter: variable values straight from the
/// counter's bits, and the evaluation of the tree under them.
pub open spec fn row_matches(t: Tree, vars: Seq<char>, counter: usize, row: TableRow) -> bool {
    &&& row.values@.len() == vars.len()
    &&& forall|j: int|
        0 <= j < vars.len() ==> (#[trigger] row.values@[j]) == ((counter >> ((vars.len() - 1
            - j) as usize)) & 1 == 1)
    &&& spec_eval(t, spec_assignment(vars, counter)) == Some(row.result)
}

/// Enumerate every assignment over the tree's variables, in increasing
/// counter order, and evaluate the tree once per row; refused when the
/// tree holds more distinct variables than the enumeration width admits.
#[verifier::loop_isolation(false)]
pub fn truth_table(tree: &Tree) -> (r: Result<TruthTable, ConfigurationError>)
    requires
        complete(*tree),
    ensures
        match r {
            Ok(tt) => {
                &&& tt.variables@ == spec_collect(*tree, Seq::<char>::empty())
                &&& tt.variables@.no_duplicates()
                &&& tt.variables@.to_set() == spec_vars(*tree)
                &&& tt.variables@.len() <= MAX_VARIABLES
                &&& tt.rows@.len() == (1usize << (tt.variables@.len() as usize))
                &&& forall|i: int|
                    0 <= i < tt.rows@.len() ==> row_matches(
                        *tree,
                        tt.variables@,
                        i as usize,
                        #[trigger] tt.rows@[i],
                    )
            },
            Err(e) => {
                &&& e == ConfigurationError::TooManyVariables
                &&& spec_collect(*tree, Seq::<char>::empty()).len() > MAX_VARIABLES
            },
        },
{
    let variables = get_variables(tree);
    let n = variables.len();
    if n > MAX_VARIABLES {
        return Err(ConfigurationError::TooManyVariables);
    }
    let total: usize = 1usize << n;
    let mut rows: Vec<TableRow> = Vec::new();
    let mut i: usize = 0;
    while i < total
        invariant
            rows@.len() == i,
            i <= total,
            forall|k: int|
                0 <= k < i ==> row_matches(*tree, variables@, k as usize, #[trigger] rows@[k]),
        decreases total - i,
    {
        let mut values: Vec<bool> = Vec::new();
        let mut j: usize = 0;
        while j < n
            invariant
                j <= n,
                values@.len() == j,
                forall|k: int|
                    0 <= k < j ==> (#[trigger] values@[k]) == ((i >> ((n - 1 - k) as usize)) & 1
                        == 1),
            decreases n - j,
        {
            values.push(((i >> (n - 1 - j)) & 1) == 1);
            j = j + 1;
        }
        let mut a = Assignment::new();
        let mut m: usize = n;
        while m > 0
            invariant
                m <= n,
                a@ == spec_assignment(variables@.skip(m as int), i),
            decreases m,
        {
            proof {
                assert(variables@.skip(m - 1).drop_first() =~= variables@.skip(m as int));
                assert(variables@.skip(m - 1).first() == variables@[m - 1]);
            }
            a.set(variables[m - 1], ((i >> (n - m)) & 1) == 1);
            m = m - 1;
        }
        proof {
            assert(variables@.skip(0) =~= variables@);
            lemma_assignment_dom(variables@, i);
            lemma_complete_eval_total(*tree, a@);
        }
        let result = match calc_sub_tree(tree, &a) {
            Some(b) => b,
            None => {
                // The assignment binds every variable of the complete tree,
                // so evaluation cannot fail.
                proof {
                    assert(false);
                }
                false
            },
        };
        rows.push(TableRow { values, result });
        i = i + 1;
    }
    Ok(TruthTable { variables, rows })
}

} // verus!

//! The evaluator: assignments from variable symbols to booleans, and the
//! recursive reduction of a tree to a boolean under one.

use vstd::prelude::*;

use crate::ast::{complete, spec_vars, NodeValue, Tree};
use crate::errors::EvalError;

verus! {

/// The meaning of a binary operator on two booleans.
pub open spec fn spec_apply_binary(v: NodeValue, bl: bool, br: bool) -> bool {
    match v {
        NodeValue::And => bl && br,
        NodeValue::Or => bl || br,
        NodeValue::Xor => bl != br,
        NodeValue::Implies => !bl || br,
        NodeValue::Iff => bl == br,
        _ => false,
    }
}

/// Evaluate a tree under an assignment: `None` when a visited variable is
/// unbound or a visited operand slot is empty. Negation reads only its
/// right child; both operands of a binary operator are always evaluated.
pub open spec fn spec_eval(t: Tree, a: Map<char, bool>) -> Option<bool>
    decreases t,
{
    match t.value {
        NodeValue::Var(c) => if a.contains_key(c) {
            Some(a[c])
        } else {
            None
        },
        NodeValue::Not => match t.right {
            Some(r) => match spec_eval(*r, a) {
                Some(b) => Some(!b),
                None => None,
            },
            None => None,
        },
        _ => match (t.left, t.right) {
            (Some(l), Some(r)) => match (spec_eval(*l, a), spec_eval(*r, a)) {
                (Some(bl), Some(br)) => Some(spec_apply_binary(t.value, bl, br)),
                _ => None,
            },
            _ => None,
        },
    }
}

/// The variables evaluation actually reads: unlike `spec_vars`, this skips
/// the unused left slot of a negation node.
pub open spec fn spec_eval_vars(t: Tree) -> Set<char>
    decreases t,
{
    match t.value {
        NodeValue::Var(c) => set![c],
        NodeValue::Not => match t.right {
            Some(r) => spec_eval_vars(*r),
            None => Set::<char>::empty(),
        },
        _ => (match t.left {
            Some(l) => spec_eval_vars(*l),
            None => Set::<char>::empty(),
        }).union(
            match t.right {
                Some(r) => spec_eval_vars(*r),
                None => Set::<char>::empty(),
            },
        ),
    }
}

/// Evaluation reads no variable that does not occur in the tree.
pub proof fn lemma_eval_vars_subset(t: Tree)
    ensures
        spec_eval_vars(t).subset_of(spec_vars(t)),
    decreases t,
{
    match t.left {
        Some(l) => lemma_eval_vars_subset(*l),
        None => {},
    }
    match t.right {
        Some(r) => lemma_eval_vars_subset(*r),
        None => {},
    }
}

/// On a complete tree, evaluation succeeds exactly when every variable it
/// reads is bound.
pub proof fn lemma_eval_defined(t: Tree, a: Map<char, bool>)
    requires
        complete(t),
    ensures
        spec_eval(t, a) is Some <==> spec_eval_vars(t).subset_of(a.dom()),
    decreases t,
{
    match t.left {
        Some(l) => {
            if !(t.value is Not) && !(t.value is Var) {
                lemma_eval_defined(*l, a);
            }
        },
        None => {},
    }
    match t.right {
        Some(r) => {
            if !(t.value is Var) {
                lemma_eval_defined(*r, a);
            }
        },
        None => {},
    }
}

/// A complete tree evaluates to a value under every assignment that binds
/// all of its variables.
pub proof fn lemma_complete_eval_total(t: Tree, a: Map<char, bool>)
    requires
        complete(t),
        spec_vars(t).subset_of(a.dom()),
    ensures
        spec_eval(t, a) is Some,
{
    lemma_eval_vars_subset(t);
    lemma_eval_defined(t, a);
}

/// A total mapping from variable symbols to booleans, a later entry for a
/// symbol overriding an earlier one.
pub struct Assignment {
    pairs: Vec<(char, bool)>,
}

/// The map an entry sequence denotes.
pub open spec fn map_of(s: Seq<(char, bool)>) -> Map<char, bool>
    decreases s.len(),
{
    if s.len() == 0 {
        Map::empty()
    } else {
        map_of(s.drop_last()).insert(s.last().0, s.last().1)
    }
}

impl View for Assignment {
    type V = Map<char, bool>;

    closed spec fn view(&self) -> Map<char, bool> {
        map_of(self.pairs@)
    }
}

impl Assignment {
    /// The empty assignment.
    pub fn new() -> (a: Assignment)
        ensures
            a@ == Map::<char, bool>::empty(),
    {
        Assignment { pairs: Vec::new() }
    }

    /// Bind `c` to `b`, overriding any earlier binding.
    pub fn set(&mut self, c: char, b: bool)
        ensures
            final(self)@ == old(self)@.insert(c, b),
    {
        self.pairs.push((c, b));
        proof {
            assert(self.pairs@.drop_last() =~= old(self).pairs@);
        }
    }

    /// Look the symbol up: its latest binding, or `None`.
    pub fn get(&self, c: char) -> (r: Option<bool>)
        ensures
            r == (if self@.contains_key(c) {
                Some(self@[c])
            } else {
                None
            }),
    {
        let mut i: usize = self.pairs.len();
        proof {
            assert(self.pairs@.take(i as int) =~= self.pairs@);
        }
        while i > 0
            invariant
                i <= self.pairs@.len(),
                map_of(self.pairs@).contains_key(c) == map_of(
                    self.pairs@.take(i as int),
                ).contains_key(c),
                map_of(self.pairs@).contains_key(c) ==> map_of(self.pairs@)[c] == map_of(
                    self.pairs@.take(i as int),
                )[c],
            decreases i,
        {
            proof {
                assert(self.pairs@.take(i as int).drop_last() =~= self.pairs@.take(i - 1));
                assert(self.pairs@.take(i as int).last() == self.pairs@[i - 1]);
            }
            let (key, val) = self.pairs[i - 1];
            if key == c {
                return Some(val);
            }
            i = i - 1;
        }
        proof {
            assert(self.pairs@.take(0) =~= Seq::<(char, bool)>::empty());
        }
        None
    }
}

/// Reduce a tree to a boolean under an assignment, `None` when a visited
/// variable is unbound or an operand slot is empty; equal to `spec_eval`.
pub fn calc_sub_tree(tree: &Tree, variables: &Assignment) -> (r: Option<bool>)
    ensures
        r == spec_eval(*tree, variables@),
    decreases *tree,
{
    match tree.value {
        NodeValue::Var(c) => variables.get(c),
        NodeValue::Not => match &tree.right {
            Some(r) => match calc_sub_tree(r, variables) {
                Some(b) => Some(!b),
                None => None,
            },
            None => None,
        },
        _ => {
            let bl = match &tree.left {
                Some(l) => calc_sub_tree(l, variables),
                None => None,
            };
            let br = match &tree.right {
                Some(r) => calc_sub_tree(r, variables),
                None => None,
            };
            match (bl, br) {
                (Some(x), Some(y)) => Some(
                    match tree.value {
                        NodeValue::And => x && y,
                        NodeValue::Or => x || y,
                        NodeValue::Xor => x != y,
                        NodeValue::Implies => !x || y,
                        _ => x == y,
                    },
                ),
                _ => None,
            }
        },
    }
}

/// Evaluate a complete tree, reporting the unbound variable when the
/// assignment is not total over the variables evaluation reads.
pub fn evaluate(tree: &Tree, variables: &Assignment) -> (r: Result<bool, EvalError>)
    requires
        complete(*tree),
    ensures
        r matches Ok(b) ==> spec_eval(*tree, variables@) == Some(b),
        r matches Err(e) ==> {
            &&& e matches EvalError::UnboundVariable(c)
            &&& spec_eval_vars(*tree).contains(c)
            &&& !variables@.contains_key(c)
        },
        r is Err <==> !spec_eval_vars(*tree).subset_of(variables@.dom()),
    decreases *tree,
{
    proof {
        lemma_eval_defined(*tree, variables@);
    }
    match tree.value {
        NodeValue::Var(c) => match variables.get(c) {
            Some(b) => Ok(b),
            None => Err(EvalError::UnboundVariable(c)),
        },
        NodeValue::Not => match &tree.right {
            Some(r) => match evaluate(r, variables) {
                Ok(b) => Ok(!b),
                Err(e) => Err(e),
            },
            None => {
                // A complete negation always has a right child.
                proof {
                    assert(false);
                }
                Err(EvalError::UnboundVariable(' '))
            },
        },
        _ => {
            let (l, r) = match (&tree.left, &tree.right) {
                (Some(l), Some(r)) => (l, r),
                _ => {
                    // A complete binary node always has both children.
                    proof {
                        assert(false);
                    }
                    return Err(EvalError::UnboundVariable(' '));
                },
            };
            let bl = match evaluate(l, variables) {
                Ok(b) => b,
                Err(e) => {
                    return Err(e);
                },
            };
            let br = match evaluate(r, variables) {
                Ok(b) => b,
                Err(e) => {
                    return Err(e);
                },
            };
            Ok(
                match tree.value {
                    NodeValue::And => bl && br,
                    NodeValue::Or => bl || br,
                    NodeValue::Xor => bl != br,
                    NodeValue::Implies => !bl || br,
                    _ => bl == br,
                },
            )
        },
    }
}

} // verus!

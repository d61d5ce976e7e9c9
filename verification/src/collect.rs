//! The variable collector: the distinct variable symbols of a tree, in
//! order of first occurrence.

use vstd::prelude::*;

use crate::ast::{spec_vars, NodeValue, Tree};

verus! {

/// Pre-order collection of variable symbols into `acc`, skipping symbols
/// already present: the node itself, then its left subtree, then its right
/// one. Starting from the empty sequence this lists the variables in order
/// of first occurrence.
pub open spec fn spec_collect(t: Tree, acc: Seq<char>) -> Seq<char>
    decreases t,
{
    let a1 = match t.value {
        NodeValue::Var(c) => if acc.contains(c) {
            acc
        } else {
            acc.push(c)
        },
        _ => acc,
    };
    let a2 = match t.left {
        Some(l) => spec_collect(*l, a1),
        None => a1,
    };
    match t.right {
        Some(r) => spec_collect(*r, a2),
        None => a2,
    }
}

/// Collection only appends, keeps the sequence free of duplicates, and
/// ends up holding exactly the old symbols and the tree's variables.
pub proof fn lemma_collect_properties(t: Tree, acc: Seq<char>)
    ensures
        spec_collect(t, acc).to_set() == acc.to_set().union(spec_vars(t)),
        acc.no_duplicates() ==> spec_collect(t, acc).no_duplicates(),
        acc.is_prefix_of(spec_collect(t, acc)),
    decreases t,
{
    let a1 = match t.value {
        NodeValue::Var(c) => if acc.contains(c) {
            acc
        } else {
            acc.push(c)
        },
        _ => acc,
    };
    match t.value {
        NodeValue::Var(c) => {
            if !acc.contains(c) {
                assert(acc.push(c).drop_last() =~= acc);
                acc.lemma_push_to_set_commute(c);
            } else {
                assert(acc.to_set().contains(c));
                assert(a1.to_set() =~= acc.to_set().insert(c));
            }
        },
        _ => {},
    }
    let a2 = match t.left {
        Some(l) => spec_collect(*l, a1),
        None => a1,
    };
    match t.left {
        Some(l) => lemma_collect_properties(*l, a1),
        None => {},
    }
    match t.right {
        Some(r) => lemma_collect_properties(*r, a2),
        None => {},
    }
    assert(spec_collect(t, acc).to_set() =~= acc.to_set().union(spec_vars(t)));
}

/// Whether `v` holds `c`.
fn vec_contains(v: &Vec<char>, c: char) -> (b: bool)
    ensures
        b == v@.contains(c),
{
    let mut i: usize = 0;
    while i < v.len()
        invariant
            i <= v@.len(),
            forall|j: int| 0 <= j < i ==> v@[j] != c,
        decreases v@.len() - i,
    {
        if v[i] == c {
            return true;
        }
        i = i + 1;
    }
    false
}

/// Append the variables of the subtree to `result` in first-occurrence
/// order, skipping symbols already collected.
pub fn get_variables_sub_tree(tree: &Tree, result: &mut Vec<char>)
    ensures
        final(result)@ == spec_collect(*tree, old(result)@),
    decreases *tree,
{
    match tree.value {
        NodeValue::Var(c) => {
            if !vec_contains(result, c) {
                result.push(c);
            }
        },
        _ => {},
    }
    match &tree.left {
        Some(l) => get_variables_sub_tree(l, result),
        None => {},
    }
    match &tree.right {
        Some(r) => get_variables_sub_tree(r, result),
        None => {},
    }
}

/// The distinct variable symbols of the tree, in order of first occurrence
/// in a pre-order walk.
pub fn get_variables(tree: &Tree) -> (r: Vec<char>)
    ensures
        r@ == spec_collect(*tree, Seq::<char>::empty()),
        r@.no_duplicates(),
        r@.to_set() == spec_vars(*tree),
{
    let mut result: Vec<char> = Vec::new();
    get_variables_sub_tree(tree, &mut result);
    proof {
        lemma_collect_properties(*tree, Seq::<char>::empty());
        assert(Seq::<char>::empty().to_set() =~= Set::<char>::empty());
        assert(Set::<char>::empty().union(spec_vars(*tree)) =~= spec_vars(*tree));
    }
    result
}

} // verus!

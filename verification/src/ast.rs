//! The expression-tree data model: node values with their precedence
//! classes, the tree itself, and the spec views of its shape.

use vstd::prelude::*;

verus! {

/// The label of one tree node: a unary or binary operator, or a variable leaf.
#[derive(Clone, Copy, Debug, PartialEq, Eq)]
pub enum NodeValue {
    Not,
    And,
    Or,
    Xor,
    Implies,
    Iff,
    Var(char),
}

/// Binding strength of a node value, tighter binding being larger:
/// implication and equivalence bind loosest, then the other binary
/// operators, then negation; variable leaves bind tightest of all.
pub open spec fn prec(v: NodeValue) -> int {
    match v {
        NodeValue::Implies | NodeValue::Iff => 0,
        NodeValue::And | NodeValue::Or | NodeValue::Xor => 1,
        NodeValue::Not => 2,
        NodeValue::Var(_) => 3,
    }
}

impl NodeValue {
    /// Executable precedence class, equal to `prec`.
    pub fn precedence(&self) -> (p: u8)
        ensures
            p as int == prec(*self),
    {
        match self {
            NodeValue::Implies | NodeValue::Iff => 0,
            NodeValue::And | NodeValue::Or | NodeValue::Xor => 1,
            NodeValue::Not => 2,
            NodeValue::Var(_) => 3,
        }
    }
}

/// One node of an expression tree. A node owns its children; `is_sub_fn`
/// marks a subtree that came out of a parenthesized group and is therefore
/// opaque to the enclosing builder.
#[derive(Debug)]
pub struct Tree {
    pub is_sub_fn: bool,
    pub value: NodeValue,
    pub left: Option<Box<Tree>>,
    pub right: Option<Box<Tree>>,
}

/// The precedence a node presents to the spine walk of the builder: a
/// parenthesized group acts as an atom, binding as tightly as a variable.
pub open spec fn eff_prec(t: Tree) -> int {
    if t.is_sub_fn {
        3
    } else {
        prec(t.value)
    }
}

/// A tree all of whose evaluation-relevant slots are filled: every binary
/// node has both children, every negation has a right child. Negation reads
/// only its right child, and variable leaves read none, so their other slots
/// are not constrained.
pub open spec fn complete(t: Tree) -> bool
    decreases t,
{
    match t.value {
        NodeValue::Var(_) => true,
        NodeValue::Not => match t.right {
            Some(r) => complete(*r),
            None => false,
        },
        _ => {
            &&& match t.left {
                Some(l) => complete(*l),
                None => false,
            }
            &&& match t.right {
                Some(r) => complete(*r),
                None => false,
            }
        },
    }
}

/// Number of nodes in the tree.
pub open spec fn spec_size(t: Tree) -> nat
    decreases t,
{
    1 + (match t.left {
        Some(l) => spec_size(*l),
        None => 0nat,
    }) + (match t.right {
        Some(r) => spec_size(*r),
        None => 0nat,
    })
}

/// The set of variable symbols occurring anywhere in the tree.
pub open spec fn spec_vars(t: Tree) -> Set<char>
    decreases t,
{
    (match t.value {
        NodeValue::Var(c) => set![c],
        _ => Set::<char>::empty(),
    }).union(match t.left {
        Some(l) => spec_vars(*l),
        None => Set::<char>::empty(),
    }).union(match t.right {
        Some(r) => spec_vars(*r),
        None => Set::<char>::empty(),
    })
}

/// A fresh, unflagged node with both child slots empty.
pub open spec fn spec_new(value: NodeValue) -> Tree {
    Tree { is_sub_fn: false, value, left: None, right: None }
}

/// A fresh, unflagged node holding `left` as its left child, its right slot
/// still empty.
pub open spec fn spec_with_left(value: NodeValue, left: Tree) -> Tree {
    Tree { is_sub_fn: false, value, left: Some(Box::new(left)), right: None }
}

/// The same tree with its root flagged as a parenthesized sub-expression.
pub open spec fn spec_mark(t: Tree) -> Tree {
    Tree { is_sub_fn: true, value: t.value, left: t.left, right: t.right }
}

/// Whether the right spine of `t` is at least `n` links long.
pub open spec fn has_right_depth(t: Tree, n: nat) -> bool
    decreases n,
{
    n == 0 || (match t.right {
        Some(r) => has_right_depth(*r, (n - 1) as nat),
        None => false,
    })
}

/// The node `n` right links below the root.
pub open spec fn spec_nth_right(t: Tree, n: nat) -> Tree
    decreases n,
{
    if n == 0 {
        t
    } else {
        match t.right {
            Some(r) => spec_nth_right(*r, (n - 1) as nat),
            None => t,
        }
    }
}

impl Tree {
    /// A fresh node with both child slots empty.
    pub fn new(value: NodeValue) -> (t: Tree)
        ensures
            t == spec_new(value),
    {
        Tree { is_sub_fn: false, left: None, right: None, value }
    }

    /// A fresh node that annexes `left` as its left child, its right slot
    /// still empty; this is the shape both root demotion and right-spine
    /// annexation produce.
    pub fn new_with_left(value: NodeValue, left: Tree) -> (t: Tree)
        ensures
            t == spec_with_left(value, left),
    {
        Tree { is_sub_fn: false, left: Some(Box::new(left)), right: None, value }
    }

    /// Whether every evaluation-relevant slot below this node is filled.
    pub fn is_complete(&self) -> (b: bool)
        ensures
            b == complete(*self),
        decreases *self,
    {
        match self.value {
            NodeValue::Var(_) => true,
            NodeValue::Not => match &self.right {
                Some(r) => r.is_complete(),
                None => false,
            },
            _ => {
                let lc = match &self.left {
                    Some(l) => l.is_complete(),
                    None => false,
                };
                let rc = match &self.right {
                    Some(r) => r.is_complete(),
                    None => false,
                };
                lc && rc
            },
        }
    }

    /// The node `n` right links below this one.
    pub fn nth_right_child(&self, n: usize) -> (r: &Tree)
        requires
            has_right_depth(*self, n as nat),
        ensures
            *r == spec_nth_right(*self, n as nat),
    {
        let mut cur: &Tree = self;
        let mut i: usize = 0;
        while i < n
            invariant
                i <= n,
                has_right_depth(*cur, (n - i) as nat),
                spec_nth_right(*self, n as nat) == spec_nth_right(*cur, (n - i) as nat),
            decreases n - i,
        {
            match &cur.right {
                Some(b) => {
                    cur = &**b;
                },
                None => {
                    // The required spine depth rules an early end out.
                    proof {
                        assert(false);
                    }
                },
            }
            i = i + 1;
        }
        cur
    }
}

} // verus!

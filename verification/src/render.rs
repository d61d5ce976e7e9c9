//! The tree renderer: the flowchart diagram of a finished tree, each node
//! labelled with its connective glyph or variable symbol.

use vstd::prelude::*;

use crate::ast::{spec_size, NodeValue, Tree};

verus! {

/// The display symbol of a node: the usual connective glyphs, a variable
/// shown as its own character.
pub open spec fn symbol_of(v: NodeValue) -> char {
    match v {
        NodeValue::Not => '¬',
        NodeValue::And => '∧',
        NodeValue::Or => '∨',
        NodeValue::Xor => '⊕',
        NodeValue::Implies => '→',
        NodeValue::Iff => '↔',
        NodeValue::Var(c) => c,
    }
}

impl NodeValue {
    /// The display symbol, equal to `symbol_of`.
    pub fn symbol(&self) -> (c: char)
        ensures
            c == symbol_of(*self),
    {
        match self {
            NodeValue::Not => '¬',
            NodeValue::And => '∧',
            NodeValue::Or => '∨',
            NodeValue::Xor => '⊕',
            NodeValue::Implies => '→',
            NodeValue::Iff => '↔',
            NodeValue::Var(c) => *c,
        }
    }
}

/// The character of one decimal digit.
pub open spec fn digit_char(d: nat) -> char {
    if d == 0 {
        '0'
    } else if d == 1 {
        '1'
    } else if d == 2 {
        '2'
    } else if d == 3 {
        '3'
    } else if d == 4 {
        '4'
    } else if d == 5 {
        '5'
    } else if d == 6 {
        '6'
    } else if d == 7 {
        '7'
    } else if d == 8 {
        '8'
    } else {
        '9'
    }
}

/// The decimal digits of `n`, most significant first.
pub open spec fn spec_dec(n: nat) -> Seq<char>
    decreases n,
{
    if n < 10 {
        seq![digit_char(n)]
    } else {
        spec_dec(n / 10).push(digit_char(n % 10))
    }
}

/// One node-label line of the diagram.
pub open spec fn spec_label_line(id: nat, c: char) -> Seq<char> {
    seq!['n', 'o', 'd', 'e'] + spec_dec(id) + seq!['[', '"', c, '"', ']', '\n']
}

/// One edge line of the diagram.
pub open spec fn spec_arrow_line(a: nat, b: nat) -> Seq<char> {
    seq!['n', 'o', 'd', 'e'] + spec_dec(a) + seq![' ', '-', '-', '>', ' ', 'n', 'o', 'd', 'e']
        + spec_dec(b) + seq!['\n']
}

/// The diagram lines of a subtree whose root carries number `id`: the
/// root's label, then the left subtree and the edge to it, then the right
/// subtree and the edge to it. Nodes are numbered in pre-order, so a
/// subtree of size `s` occupies the numbers `id` up to `id + s - 1`.
pub open spec fn spec_render(t: Tree, id: nat) -> Seq<char>
    decreases t,
{
    let left_size = match t.left {
        Some(l) => spec_size(*l),
        None => 0nat,
    };
    spec_label_line(id, symbol_of(t.value)) + (match t.left {
        Some(l) => spec_render(*l, id + 1) + spec_arrow_line(id, id + 1),
        None => Seq::<char>::empty(),
    }) + (match t.right {
        Some(r) => spec_render(*r, id + 1 + left_size) + spec_arrow_line(id, id + 1 + left_size),
        None => Seq::<char>::empty(),
    })
}

/// The surrounding lines of the diagram document.
pub open spec fn spec_render_doc(t: Tree) -> Seq<char> {
    seq!['`', '`', '`', 'm', 'e', 'r', 'm', 'a', 'i', 'd', '\n', 'f', 'l', 'o', 'w', 'c', 'h', 'a', 'r', 't', ' ', 'T', 'B', '\n']
        + spec_render(t, 0) + seq!['`', '`', '`']
}

fn digit_of(d: u64) -> (c: char)
    requires
        d < 10,
    ensures
        c == digit_char(d as nat),
{
    match d {
        0 => '0',
        1 => '1',
        2 => '2',
        3 => '3',
        4 => '4',
        5 => '5',
        6 => '6',
        7 => '7',
        8 => '8',
        _ => '9',
    }
}

fn push_decimal(out: &mut Vec<char>, n: u64)
    ensures
        final(out)@ == old(out)@ + spec_dec(n as nat),
    decreases n,
{
    if n >= 10 {
        push_decimal(out, n / 10);
    }
    out.push(digit_of(n % 10));
    proof {
        assert(final(out)@ =~= old(out)@ + spec_dec(n as nat));
    }
}

fn push_label(out: &mut Vec<char>, id: u64, c: char)
    ensures
        final(out)@ == old(out)@ + spec_label_line(id as nat, c),
{
    out.push('n');
    out.push('o');
    out.push('d');
    out.push('e');
    push_decimal(out, id);
    out.push('[');
    out.push('"');
    out.push(c);
    out.push('"');
    out.push(']');
    out.push('\n');
    proof {
        assert(final(out)@ =~= old(out)@ + spec_label_line(id as nat, c));
    }
}

fn push_arrow(out: &mut Vec<char>, a: u64, b: u64)
    ensures
        final(out)@ == old(out)@ + spec_arrow_line(a as nat, b as nat),
{
    out.push('n');
    out.push('o');
    out.push('d');
    out.push('e');
    push_decimal(out, a);
    out.push(' ');
    out.push('-');
    out.push('-');
    out.push('>');
    out.push(' ');
    out.push('n');
    out.push('o');
    out.push('d');
    out.push('e');
    push_decimal(out, b);
    out.push('\n');
    proof {
        assert(final(out)@ =~= old(out)@ + spec_arrow_line(a as nat, b as nat));
    }
}

/// Append the diagram lines of the subtree, its root numbered `id`, and
/// return the subtree's node count.
pub fn print_sub_tree(tree: &Tree, result: &mut Vec<char>, id: u64) -> (n: u64)
    requires
        id + spec_size(*tree) <= u64::MAX,
    ensures
        n == spec_size(*tree),
        final(result)@ == old(result)@ + spec_render(*tree, id as nat),
    decreases *tree,
{
    push_label(result, id, tree.value.symbol());
    let left_size: u64 = match &tree.left {
        Some(l) => {
            let ls = print_sub_tree(l, result, id + 1);
            push_arrow(result, id, id + 1);
            ls
        },
        None => 0,
    };
    let right_size: u64 = match &tree.right {
        Some(r) => {
            let rs = print_sub_tree(r, result, id + 1 + left_size);
            push_arrow(result, id, id + 1 + left_size);
            rs
        },
        None => 0,
    };
    proof {
        assert(final(result)@ =~= old(result)@ + spec_render(*tree, id as nat));
    }
    left_size + right_size + 1
}

/// The whole diagram document for a tree.
pub fn render_tree(tree: &Tree) -> (r: Vec<char>)
    requires
        spec_size(*tree) <= u64::MAX,
    ensures
        r@ == spec_render_doc(*tree),
{
    let mut result: Vec<char> = Vec::new();
    result.push('`');
    result.push('`');
    result.push('`');
    result.push('m');
    result.push('e');
    result.push('r');
    result.push('m');
    result.push('a');
    result.push('i');
    result.push('d');
    result.push('\n');
    result.push('f');
    result.push('l');
    result.push('o');
    result.push('w');
    result.push('c');
    result.push('h');
    result.push('a');
    result.push('r');
    result.push('t');
    result.push(' ');
    result.push('T');
    result.push('B');
    result.push('\n');
    print_sub_tree(tree, &mut result, 0);
    result.push('`');
    result.push('`');
    result.push('`');
    proof {
        assert(result@ =~= spec_render_doc(*tree));
    }
    result
}

} // verus!

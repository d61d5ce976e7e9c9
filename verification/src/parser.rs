//! The tree builder: a single pass over the tokens that grows and
//! restructures the expression tree in place through local rotations on
//! its right spine, recursing for parenthesized groups.

use vstd::prelude::*;

use crate::ast::{
    complete, eff_prec, prec, spec_mark, spec_new, spec_size, spec_with_left, NodeValue, Tree,
};
use crate::errors::ParseError;
use crate::token::{next_token, spec_next_token, lemma_next_token_bounds, Token};

verus! {

// ---------------------------------------------------------------------------
// The builder's two tree rewrites, as specification functions.
// ---------------------------------------------------------------------------
/// Insert operator `v` into the right subtree of `t`, for an operator that
/// binds strictly tighter than `t` itself: descend the right spine while `v`
/// still binds strictly tighter than the visited node, then either fill that
/// node's empty right slot with a fresh `v` node, or let `v` annex the
/// node's right subtree as its own left operand. A node flagged as a
/// parenthesized sub-expression presents atom precedence, so the walk never
/// descends into it.
pub open spec fn spec_insert_right(t: Tree, v: NodeValue) -> Tree
    decreases t,
{
    match t.right {
        None => Tree { is_sub_fn: t.is_sub_fn, value: t.value, left: t.left, right: Some(Box::new(spec_new(v))) },
        Some(r) => {
            if prec(v) > eff_prec(*r) {
                Tree {
                    is_sub_fn: t.is_sub_fn,
                    value: t.value,
                    left: t.left,
                    right: Some(Box::new(spec_insert_right(*r, v))),
                }
            } else {
                Tree {
                    is_sub_fn: t.is_sub_fn,
                    value: t.value,
                    left: t.left,
                    right: Some(Box::new(spec_with_left(v, *r))),
                }
            }
        },
    }
}

/// Add one operator or variable token to the tree: if it does not bind
/// strictly tighter than the root — in particular whenever the root is a
/// parenthesized sub-expression — the root is demoted under a fresh node;
/// otherwise the token is inserted along the right spine.
pub open spec fn spec_add_value(t: Tree, v: NodeValue) -> Tree {
    if prec(v) > eff_prec(t) {
        spec_insert_right(t, v)
    } else {
        spec_with_left(v, t)
    }
}

/// Attach a finished parenthesized subtree at the first empty right slot on
/// the right spine. A node flagged as a sub-expression is opaque: the walk
/// may fill its empty right slot but never descends past it, and `None`
/// says that no slot was open.
pub open spec fn spec_attach_sub(t: Tree, sub: Tree) -> Option<Tree>
    decreases t,
{
    match t.right {
        None => Some(
            Tree { is_sub_fn: t.is_sub_fn, value: t.value, left: t.left, right: Some(Box::new(sub)) },
        ),
        Some(r) => {
            if t.is_sub_fn {
                None
            } else {
                match spec_attach_sub(*r, sub) {
                    Some(r2) => Some(
                        Tree {
                            is_sub_fn: t.is_sub_fn,
                            value: t.value,
                            left: t.left,
                            right: Some(Box::new(r2)),
                        },
                    ),
                    None => None,
                }
            }
        },
    }
}

// ---------------------------------------------------------------------------
// The builder itself, as a pair of mutually recursive specification
// functions: `spec_parse_at` starts a formula or group, `spec_parse_loop`
// consumes tokens until the group ends. Recursion positions are clamped
// forward so that termination is structural; the clamps never fire for the
// positions the tokenizer actually returns.
// ---------------------------------------------------------------------------
pub open spec fn spec_parse_at(s: Seq<char>, pos: int, is_group: bool) -> Result<
    (Tree, int),
    ParseError,
>
    decreases s.len() - pos, 0int,
{
    match spec_next_token(s, pos) {
        Err(e) => Err(ParseError::Lex(e)),
        Ok((tok, p)) => {
            let p1 = if pos < p && p <= s.len() {
                p
            } else {
                pos + 1
            };
            match tok {
                Token::Value(v) => {
                    if prec(v) >= 2 {
                        spec_parse_loop(s, p1, spec_new(v), is_group)
                    } else {
                        Err(ParseError::UnexpectedOperator)
                    }
                },
                Token::Open => match spec_parse_at(s, p1, true) {
                    Ok((sub, p2)) => {
                        let p3 = if pos < p2 && p2 <= s.len() {
                            p2
                        } else {
                            pos + 1
                        };
                        spec_parse_loop(s, p3, sub, is_group)
                    },
                    Err(e) => Err(e),
                },
                Token::Close => Err(
                    if is_group {
                        ParseError::EmptyFormula
                    } else {
                        ParseError::UnmatchedCloseBracket
                    },
                ),
                Token::End => Err(
                    if is_group {
                        ParseError::UnmatchedOpenBracket
                    } else {
                        ParseError::EmptyFormula
                    },
                ),
            }
        },
    }
}

pub open spec fn spec_parse_loop(s: Seq<char>, pos: int, root: Tree, is_group: bool) -> Result<
    (Tree, int),
    ParseError,
>
    decreases s.len() - pos, 1int,
{
    match spec_next_token(s, pos) {
        Err(e) => Err(ParseError::Lex(e)),
        Ok((tok, p)) => {
            let p1 = if pos < p && p <= s.len() {
                p
            } else {
                pos + 1
            };
            match tok {
                Token::End => {
                    if is_group {
                        Err(ParseError::UnmatchedOpenBracket)
                    } else {
                        Ok((spec_mark(root), p))
                    }
                },
                Token::Close => {
                    if is_group {
                        Ok((spec_mark(root), p))
                    } else {
                        Err(ParseError::UnmatchedCloseBracket)
                    }
                },
                Token::Open => match spec_parse_at(s, p1, true) {
                    Ok((sub, p2)) => match spec_attach_sub(root, sub) {
                        Some(r2) => {
                            let p3 = if pos < p2 && p2 <= s.len() {
                                p2
                            } else {
                                pos + 1
                            };
                            spec_parse_loop(s, p3, r2, is_group)
                        },
                        None => Err(ParseError::UnexpectedOperand),
                    },
                    Err(e) => Err(e),
                },
                Token::Value(v) => spec_parse_loop(s, p1, spec_add_value(root, v), is_group),
            }
        },
    }
}

/// The parse result for a whole input: the tree the builder grows, refused
/// if an operator was left without an operand, so that a returned tree is
/// always complete.
pub open spec fn spec_process(s: Seq<char>) -> Result<Tree, ParseError> {
    match spec_parse_at(s, 0, false) {
        Ok((t, p)) => {
            if complete(t) {
                Ok(t)
            } else {
                Err(ParseError::UnexpectedOperator)
            }
        },
        Err(e) => Err(e),
    }
}

// ---------------------------------------------------------------------------
// Size bookkeeping: each token adds at most one node, so a parsed tree has
// no more nodes than the characters consumed for it.
// ---------------------------------------------------------------------------
proof fn lemma_insert_right_size(t: Tree, v: NodeValue)
    ensures
        spec_size(spec_insert_right(t, v)) == spec_size(t) + 1,
    decreases t,
{
    match t.right {
        None => {
            assert(spec_size(spec_new(v)) == 1);
        },
        Some(r) => {
            if prec(v) > eff_prec(*r) {
                lemma_insert_right_size(*r, v);
            } else {
                assert(spec_size(spec_with_left(v, *r)) == 1 + spec_size(*r));
            }
        },
    }
}

proof fn lemma_add_value_size(t: Tree, v: NodeValue)
    ensures
        spec_size(spec_add_value(t, v)) == spec_size(t) + 1,
{
    if prec(v) > eff_prec(t) {
        lemma_insert_right_size(t, v);
    } else {
        assert(spec_size(spec_with_left(v, t)) == 1 + spec_size(t));
    }
}

proof fn lemma_attach_sub_size(t: Tree, sub: Tree)
    ensures
        spec_attach_sub(t, sub) matches Some(r2) ==> spec_size(r2) == spec_size(t) + spec_size(
            sub,
        ),
    decreases t,
{
    match t.right {
        None => {
            assert(spec_attach_sub(t, sub) matches Some(r2) && spec_size(r2) == 1 + (match t.left {
                Some(l) => spec_size(*l),
                None => 0nat,
            }) + spec_size(sub));
        },
        Some(r) => {
            if !t.is_sub_fn {
                lemma_attach_sub_size(*r, sub);
            }
        },
    }
}

/// Flagging a root as a sub-expression changes no node count.
proof fn lemma_mark_size(t: Tree)
    ensures
        spec_size(spec_mark(t)) == spec_size(t),
{
    assert(spec_mark(t).left == t.left && spec_mark(t).right == t.right);
}

// ---------------------------------------------------------------------------
// Executable rewrites, equal to their specifications.
// ---------------------------------------------------------------------------
/// The precedence a node presents to the spine walk.
fn effective_precedence(t: &Tree) -> (p: u8)
    ensures
        p as int == eff_prec(*t),
{
    if t.is_sub_fn {
        3
    } else {
        t.value.precedence()
    }
}

fn insert_right(t: Tree, v: NodeValue) -> (r: Tree)
    ensures
        r == spec_insert_right(t, v),
    decreases t,
{
    let Tree { is_sub_fn, value, left, right } = t;
    match right {
        None => Tree { is_sub_fn, value, left, right: Some(Box::new(Tree::new(v))) },
        Some(r_box) => {
            let old_right = *r_box;
            if v.precedence() > effective_precedence(&old_right) {
                Tree { is_sub_fn, value, left, right: Some(Box::new(insert_right(old_right, v))) }
            } else {
                Tree {
                    is_sub_fn,
                    value,
                    left,
                    right: Some(Box::new(Tree::new_with_left(v, old_right))),
                }
            }
        },
    }
}

/// Add one operator or variable token to the growing tree.
pub fn add_value(t: Tree, v: NodeValue) -> (r: Tree)
    ensures
        r == spec_add_value(t, v),
{
    if v.precedence() > effective_precedence(&t) {
        insert_right(t, v)
    } else {
        Tree::new_with_left(v, t)
    }
}

/// Attach a finished parenthesized subtree at the first open right slot, or
/// report that none is open.
pub fn attach_sub(t: Tree, sub: Tree) -> (r: Option<Tree>)
    ensures
        r == spec_attach_sub(t, sub),
    decreases t,
{
    let Tree { is_sub_fn, value, left, right } = t;
    match right {
        None => Some(Tree { is_sub_fn, value, left, right: Some(Box::new(sub)) }),
        Some(r_box) => {
            if is_sub_fn {
                None
            } else {
                match attach_sub(*r_box, sub) {
                    Some(r2) => Some(
                        Tree { is_sub_fn, value, left, right: Some(Box::new(r2)) },
                    ),
                    None => None,
                }
            }
        },
    }
}

// ---------------------------------------------------------------------------
// The executable builder.
// ---------------------------------------------------------------------------
#[verifier::loop_isolation(false)]
fn parse_group(chars: &Vec<char>, pos: usize, is_group: bool) -> (r: Result<
    (Tree, usize),
    ParseError,
>)
    requires
        pos <= chars@.len(),
    ensures
        match r {
            Ok((t, p)) => {
                &&& pos < p <= chars@.len()
                &&& spec_parse_at(chars@, pos as int, is_group) == Ok::<(Tree, int), ParseError>(
                    (t, p as int),
                )
                &&& spec_size(t) <= p - pos
            },
            Err(e) => spec_parse_at(chars@, pos as int, is_group) == Err::<(Tree, int), ParseError>(
                e,
            ),
        },
    decreases chars@.len() - pos,
{
    proof {
        lemma_next_token_bounds(chars@, pos as int);
    }
    let (tok, p) = match next_token(chars, pos) {
        Ok(tp) => tp,
        Err(e) => {
            return Err(ParseError::Lex(e));
        },
    };
    let mut root: Tree;
    let mut cur: usize;
    match tok {
        Token::Value(v) => {
            if v.precedence() >= 2 {
                proof {
                    assert(spec_size(spec_new(v)) == 1);
                }
                root = Tree::new(v);
                cur = p;
            } else {
                return Err(ParseError::UnexpectedOperator);
            }
        },
        Token::Open => {
            match parse_group(chars, p, true) {
                Ok((t, p2)) => {
                    root = t;
                    cur = p2;
                },
                Err(e) => {
                    return Err(e);
                },
            }
        },
        Token::Close => {
            let e = if is_group {
                ParseError::EmptyFormula
            } else {
                ParseError::UnmatchedCloseBracket
            };
            return Err(e);
        },
        Token::End => {
            let e = if is_group {
                ParseError::UnmatchedOpenBracket
            } else {
                ParseError::EmptyFormula
            };
            return Err(e);
        },
    }
    loop
        invariant
            pos < cur <= chars@.len(),
            spec_size(root) <= cur - pos,
            spec_parse_at(chars@, pos as int, is_group) == spec_parse_loop(
                chars@,
                cur as int,
                root,
                is_group,
            ),
        decreases chars@.len() - cur,
    {
        proof {
            lemma_next_token_bounds(chars@, cur as int);
        }
        let (tok, p) = match next_token(chars, cur) {
            Ok(tp) => tp,
            Err(e) => {
                return Err(ParseError::Lex(e));
            },
        };
        match tok {
            Token::End => {
                if is_group {
                    return Err(ParseError::UnmatchedOpenBracket);
                }
                proof {
                    lemma_mark_size(root);
                }
                root.is_sub_fn = true;
                return Ok((root, p));
            },
            Token::Close => {
                if !is_group {
                    return Err(ParseError::UnmatchedCloseBracket);
                }
                proof {
                    lemma_mark_size(root);
                }
                root.is_sub_fn = true;
                return Ok((root, p));
            },
            Token::Open => {
                let (sub, p2) = match parse_group(chars, p, true) {
                    Ok(x) => x,
                    Err(e) => {
                        return Err(e);
                    },
                };
                let ghost root0 = root;
                let ghost sub0 = sub;
                match attach_sub(root, sub) {
                    Some(r2) => {
                        proof {
                            lemma_attach_sub_size(root0, sub0);
                        }
                        root = r2;
                        cur = p2;
                    },
                    None => {
                        return Err(ParseError::UnexpectedOperand);
                    },
                }
            },
            Token::Value(v) => {
                proof {
                    lemma_add_value_size(root, v);
                }
                root = add_value(root, v);
                cur = p;
            },
        }
    }
}

/// Build the expression tree for a whole formula: the single-pass,
/// precedence-aware builder of `spec_parse_at`, with the finished tree
/// refused when an operator was left without an operand, so that every tree
/// this function returns is complete.
pub fn process_formula(chars: &Vec<char>) -> (r: Result<Tree, ParseError>)
    ensures
        r == spec_process(chars@),
        r matches Ok(t) ==> complete(t) && spec_size(t) <= chars@.len(),
{
    match parse_group(chars, 0, false) {
        Ok((t, _p)) => {
            if t.is_complete() {
                Ok(t)
            } else {
                Err(ParseError::UnexpectedOperator)
            }
        },
        Err(e) => Err(e),
    }
}

} // verus!

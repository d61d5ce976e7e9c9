//! The tokenizer: one lexical unit at a time out of the formula text,
//! spaces skipped, multi-character operators checked.

use vstd::prelude::*;

use crate::ast::NodeValue;
use crate::errors::LexError;

verus! {

/// One lexical unit of a formula. A closing bracket and the end of the
/// input both end the enclosing group, but an enclosing group must tell
/// them apart to diagnose unmatched brackets, so they are distinct tokens.
#[derive(Clone, Copy, Debug, PartialEq, Eq)]
pub enum Token {
    /// An operator or a variable, becoming one tree node.
    Value(NodeValue),
    /// An opening bracket.
    Open,
    /// A closing bracket.
    Close,
    /// The end of the input.
    End,
}

/// The next token of `s` at or after `pos`, together with the position just
/// past it. Spaces are skipped; `-` must be followed by `>`, and `<` by
/// `->`, or the lexeme is malformed.
pub open spec fn spec_next_token(s: Seq<char>, pos: int) -> Result<(Token, int), LexError>
    decreases s.len() - pos,
{
    if pos < 0 || pos >= s.len() {
        Ok((Token::End, s.len() as int))
    } else if s[pos] == ' ' {
        spec_next_token(s, pos + 1)
    } else if s[pos] == '(' {
        Ok((Token::Open, pos + 1))
    } else if s[pos] == ')' {
        Ok((Token::Close, pos + 1))
    } else if s[pos] == '!' {
        Ok((Token::Value(NodeValue::Not), pos + 1))
    } else if s[pos] == '&' {
        Ok((Token::Value(NodeValue::And), pos + 1))
    } else if s[pos] == 'V' {
        Ok((Token::Value(NodeValue::Or), pos + 1))
    } else if s[pos] == '^' {
        Ok((Token::Value(NodeValue::Xor), pos + 1))
    } else if s[pos] == '-' {
        if pos + 1 < s.len() && s[pos + 1] == '>' {
            Ok((Token::Value(NodeValue::Implies), pos + 2))
        } else {
            Err(LexError::MalformedImplies)
        }
    } else if s[pos] == '<' {
        if pos + 2 < s.len() && s[pos + 1] == '-' && s[pos + 2] == '>' {
            Ok((Token::Value(NodeValue::Iff), pos + 3))
        } else {
            Err(LexError::MalformedIff)
        }
    } else {
        Ok((Token::Value(NodeValue::Var(s[pos])), pos + 1))
    }
}

/// A successful `spec_next_token` never moves backwards or past the end,
/// always advances for a token other than `End`, and consumes the whole
/// input for `End`.
pub proof fn lemma_next_token_bounds(s: Seq<char>, pos: int)
    requires
        0 <= pos <= s.len(),
    ensures
        spec_next_token(s, pos) matches Ok((t, p)) ==> {
            &&& pos <= p <= s.len()
            &&& (t == Token::End ==> p == s.len())
            &&& (t != Token::End ==> p > pos)
        },
    decreases s.len() - pos,
{
    if pos < s.len() && s[pos] == ' ' {
        lemma_next_token_bounds(s, pos + 1);
    }
}

/// The executable tokenizer, equal to `spec_next_token`.
pub fn next_token(chars: &Vec<char>, pos: usize) -> (r: Result<(Token, usize), LexError>)
    requires
        pos <= chars@.len(),
    ensures
        match r {
            Ok((t, p)) => spec_next_token(chars@, pos as int) == Ok::<(Token, int), LexError>(
                (t, p as int),
            ),
            Err(e) => spec_next_token(chars@, pos as int) == Err::<(Token, int), LexError>(e),
        },
{
    let mut i: usize = pos;
    while i < chars.len() && chars[i] == ' '
        invariant
            pos <= i <= chars@.len(),
            spec_next_token(chars@, pos as int) == spec_next_token(chars@, i as int),
        decreases chars@.len() - i,
    {
        i = i + 1;
    }
    if i >= chars.len() {
        return Ok((Token::End, chars.len()));
    }
    let c = chars[i];
    if c == '(' {
        Ok((Token::Open, i + 1))
    } else if c == ')' {
        Ok((Token::Close, i + 1))
    } else if c == '!' {
        Ok((Token::Value(NodeValue::Not), i + 1))
    } else if c == '&' {
        Ok((Token::Value(NodeValue::And), i + 1))
    } else if c == 'V' {
        Ok((Token::Value(NodeValue::Or), i + 1))
    } else if c == '^' {
        Ok((Token::Value(NodeValue::Xor), i + 1))
    } else if c == '-' {
        if i + 1 < chars.len() && chars[i + 1] == '>' {
            Ok((Token::Value(NodeValue::Implies), i + 2))
        } else {
            Err(LexError::MalformedImplies)
        }
    } else if c == '<' {
        if i + 1 < chars.len() && i + 2 < chars.len() && chars[i + 1] == '-' && chars[i + 2]
            == '>' {
            Ok((Token::Value(NodeValue::Iff), i + 3))
        } else {
            Err(LexError::MalformedIff)
        }
    } else {
        Ok((Token::Value(NodeValue::Var(c)), i + 1))
    }
}

} // verus!

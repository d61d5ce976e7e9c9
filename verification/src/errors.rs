//! The error types the library's stages report.

use vstd::prelude::*;

verus! {

/// A malformed multi-character operator lexeme.
#[derive(Clone, Copy, Debug, PartialEq, Eq, Structural)]
pub enum LexError {
    /// A `-` that is not followed by `>`.
    MalformedImplies,
    /// A `<` that is not followed by `->`.
    MalformedIff,
}

/// Why a formula could not be turned into a tree.
#[derive(Clone, Copy, Debug, PartialEq, Eq, Structural)]
pub enum ParseError {
    /// The tokenizer rejected a lexeme.
    Lex(LexError),
    /// A formula, or a parenthesized group, held no token at all.
    EmptyFormula,
    /// A binary operator stood where an operand was required: at the very
    /// start of a formula or group, or left with an unfilled operand slot
    /// when its group ended.
    UnexpectedOperator,
    /// A parenthesized group stood where no operand slot was open for it.
    UnexpectedOperand,
    /// The input was exhausted inside a parenthesized group.
    UnmatchedOpenBracket,
    /// A closing bracket with no open bracket to match it.
    UnmatchedCloseBracket,
}

/// Why a tree could not be reduced to a boolean.
#[derive(Clone, Copy, Debug, PartialEq, Eq, Structural)]
pub enum EvalError {
    /// The assignment holds no value for this variable symbol.
    UnboundVariable(char),
}

/// Why a truth table could not be generated.
#[derive(Clone, Copy, Debug, PartialEq, Eq, Structural)]
pub enum ConfigurationError {
    /// The formula references more distinct variables than the enumeration
    /// width admits.
    TooManyVariables,
}

} // verus!

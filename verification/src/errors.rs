//! The failures the recognizer reports: the typed recognition errors that
//! generated code catches and recovers from, the internal-invariant failure
//! that is fatal, and the sentinel that must propagate unchanged.

use vstd::prelude::*;

verus! {

#[derive(Debug, Clone)]
pub enum ANTLRError {
    /// The lexer reached no accepting DFA state and was not at end of input
    /// at the start of the token.
    LexerNoAltError { start_index: isize },
    /// Parser prediction found an empty reach with no prior viable
    /// alternative.
    NoViableAltError { start_index: isize },
    /// A matched token had a different type than the one asked for.
    InputMismatchError,
    /// A user semantic predicate returned false during a match.
    FailedPredicateError { rule_index: isize, pred_index: isize },
    /// An internal invariant was violated; fatal.
    IllegalStateError(String),
    /// A sentinel that generated rule bodies must rethrow verbatim.
    FallThrough,
}

impl ANTLRError {
    /// Whether generated code may recover from this error; the illegal-state
    /// error is fatal and the fall-through sentinel must be rethrown.
    pub fn is_recoverable(&self) -> (r: bool)
        ensures
            r == !(self matches ANTLRError::IllegalStateError(_) || self matches
                ANTLRError::FallThrough),
    {
        match self {
            ANTLRError::IllegalStateError(_) => false,
            ANTLRError::FallThrough => false,
            _ => true,
        }
    }
}

} // verus!

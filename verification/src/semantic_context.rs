//! Semantic contexts attached to configurations: user predicates that gate
//! an alternative, and precedence predicates for left-recursive rules.

use vstd::prelude::*;

verus! {

#[derive(Clone, Copy, Debug, PartialEq, Eq, Structural)]
pub enum SemanticContext {
    /// A user predicate, identified by rule and predicate index.
    Predicate { rule_index: isize, pred_index: isize, is_ctx_dependent: bool },
    /// A precedence predicate: true when the current precedence is at least
    /// the stored one.
    Precedence(isize),
}

impl SemanticContext {
    /// Whether a precedence predicate passes at the given precedence.
    pub fn check_precedence(&self, precedence: isize) -> (r: bool)
        ensures
            r == match *self {
                SemanticContext::Precedence(p) => precedence >= p,
                SemanticContext::Predicate { .. } => true,
            },
    {
        match self {
            SemanticContext::Precedence(p) => precedence >= *p,
            SemanticContext::Predicate { .. } => true,
        }
    }
}

} // verus!

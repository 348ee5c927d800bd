//! Edges of the augmented transition network, one tagged variant per kind.

use vstd::prelude::*;
use crate::interval_set::IntervalSet;

verus! {

pub const TRANSITION_EPSILON: isize = 1;

pub const TRANSITION_RANGE: isize = 2;

pub const TRANSITION_RULE: isize = 3;

pub const TRANSITION_PREDICATE: isize = 4;

pub const TRANSITION_ATOM: isize = 5;

pub const TRANSITION_ACTION: isize = 6;

pub const TRANSITION_SET: isize = 7;

pub const TRANSITION_NOTSET: isize = 8;

pub const TRANSITION_WILDCARD: isize = 9;

pub const TRANSITION_PRECEDENCE: isize = 10;

/// An outgoing edge of an ATN state. `target` is always the state the edge
/// leads to; rule transitions behave as calls whose return continues at
/// `follow_state`.
#[derive(Debug)]
pub enum Transition {
    Epsilon { target: usize, outermost_precedence_return: isize },
    Range { target: usize, start: isize, stop: isize },
    Rule { target: usize, follow_state: usize, rule_index: usize, precedence: isize },
    Predicate { target: usize, rule_index: isize, pred_index: isize, is_ctx_dependent: bool },
    Atom { target: usize, label: isize },
    Action { target: usize, rule_index: isize, action_index: isize, is_ctx_dependent: bool },
    TokenSet { target: usize, set: IntervalSet },
    NotTokenSet { target: usize, set: IntervalSet },
    Wildcard { target: usize },
    PrecedencePredicate { target: usize, precedence: isize },
}

impl Transition {
    /// The state this edge leads to.
    pub open spec fn spec_target(self) -> usize {
        match self {
            Transition::Epsilon { target, .. } => target,
            Transition::Range { target, .. } => target,
            Transition::Rule { target, .. } => target,
            Transition::Predicate { target, .. } => target,
            Transition::Atom { target, .. } => target,
            Transition::Action { target, .. } => target,
            Transition::TokenSet { target, .. } => target,
            Transition::NotTokenSet { target, .. } => target,
            Transition::Wildcard { target, .. } => target,
            Transition::PrecedencePredicate { target, .. } => target,
        }
    }

    /// Whether following this edge consumes no input.
    pub open spec fn is_epsilon_spec(self) -> bool {
        match self {
            Transition::Epsilon { .. } => true,
            Transition::Rule { .. } => true,
            Transition::Predicate { .. } => true,
            Transition::Action { .. } => true,
            Transition::PrecedencePredicate { .. } => true,
            _ => false,
        }
    }

    /// Internal consistency plus all referenced states below `n`.
    pub open spec fn wf(self, n: int) -> bool {
        &&& self.spec_target() < n
        &&& match self {
            Transition::Rule { follow_state, .. } => follow_state < n,
            Transition::TokenSet { set, .. } => set.inv(),
            Transition::NotTokenSet { set, .. } => set.inv(),
            _ => true,
        }
    }

    /// Which input symbols this edge matches, for symbols in
    /// `[min_vocab, max_vocab]`.
    pub open spec fn spec_matches(self, symbol: int, min_vocab: int, max_vocab: int) -> bool {
        match self {
            Transition::Range { start, stop, .. } => start <= symbol <= stop,
            Transition::Atom { label, .. } => label == symbol,
            Transition::TokenSet { set, .. } => set.spec_contains(symbol),
            Transition::NotTokenSet { set, .. } => min_vocab <= symbol <= max_vocab
                && !set.spec_contains(symbol),
            Transition::Wildcard { .. } => min_vocab <= symbol <= max_vocab,
            _ => false,
        }
    }

    pub fn get_target(&self) -> (r: usize)
        ensures
            r == self.spec_target(),
    {
        match self {
            Transition::Epsilon { target, .. } => *target,
            Transition::Range { target, .. } => *target,
            Transition::Rule { target, .. } => *target,
            Transition::Predicate { target, .. } => *target,
            Transition::Atom { target, .. } => *target,
            Transition::Action { target, .. } => *target,
            Transition::TokenSet { target, .. } => *target,
            Transition::NotTokenSet { target, .. } => *target,
            Transition::Wildcard { target, .. } => *target,
            Transition::PrecedencePredicate { target, .. } => *target,
        }
    }

    /// The serialized kind tag of this edge.
    pub fn get_serialization_type(&self) -> (r: isize)
        ensures
            r == TRANSITION_EPSILON <==> self is Epsilon,
            r == TRANSITION_RANGE <==> self is Range,
            r == TRANSITION_RULE <==> self is Rule,
            r == TRANSITION_PREDICATE <==> self is Predicate,
            r == TRANSITION_ATOM <==> self is Atom,
            r == TRANSITION_ACTION <==> self is Action,
            r == TRANSITION_SET <==> self is TokenSet,
            r == TRANSITION_NOTSET <==> self is NotTokenSet,
            r == TRANSITION_WILDCARD <==> self is Wildcard,
            r == TRANSITION_PRECEDENCE <==> self is PrecedencePredicate,
    {
        match self {
            Transition::Epsilon { .. } => TRANSITION_EPSILON,
            Transition::Range { .. } => TRANSITION_RANGE,
            Transition::Rule { .. } => TRANSITION_RULE,
            Transition::Predicate { .. } => TRANSITION_PREDICATE,
            Transition::Atom { .. } => TRANSITION_ATOM,
            Transition::Action { .. } => TRANSITION_ACTION,
            Transition::TokenSet { .. } => TRANSITION_SET,
            Transition::NotTokenSet { .. } => TRANSITION_NOTSET,
            Transition::Wildcard { .. } => TRANSITION_WILDCARD,
            Transition::PrecedencePredicate { .. } => TRANSITION_PRECEDENCE,
        }
    }

    pub fn is_epsilon(&self) -> (r: bool)
        ensures
            r == self.is_epsilon_spec(),
    {
        match self {
            Transition::Epsilon { .. } => true,
            Transition::Rule { .. } => true,
            Transition::Predicate { .. } => true,
            Transition::Action { .. } => true,
            Transition::PrecedencePredicate { .. } => true,
            _ => false,
        }
    }

    /// Whether this edge matches `symbol`, assuming the vocabulary bounds.
    pub fn matches(&self, symbol: isize, min_vocab: isize, max_vocab: isize) -> (r: bool)
        requires
            match self {
                Transition::TokenSet { set, .. } => set.inv(),
                Transition::NotTokenSet { set, .. } => set.inv(),
                _ => true,
            },
        ensures
            r == self.spec_matches(symbol as int, min_vocab as int, max_vocab as int),
    {
        match self {
            Transition::Range { start, stop, .. } => *start <= symbol && symbol <= *stop,
            Transition::Atom { label, .. } => *label == symbol,
            Transition::TokenSet { set, .. } => set.contains(symbol),
            Transition::NotTokenSet { set, .. } => min_vocab <= symbol && symbol <= max_vocab
                && !set.contains(symbol),
            Transition::Wildcard { .. } => min_vocab <= symbol && symbol <= max_vocab,
            _ => false,
        }
    }

    /// The target state reached when `symbol` matches this edge, if any;
    /// vocabulary bounds are those of a lexer's character set.
    pub fn get_reachable_target(&self, symbol: isize, min_vocab: isize, max_vocab: isize) -> (r:
        Option<usize>)
        requires
            match self {
                Transition::TokenSet { set, .. } => set.inv(),
                Transition::NotTokenSet { set, .. } => set.inv(),
                _ => true,
            },
        ensures
            self.spec_matches(symbol as int, min_vocab as int, max_vocab as int) ==> r == Some(
                self.spec_target(),
            ),
            !self.spec_matches(symbol as int, min_vocab as int, max_vocab as int) ==> r is None,
    {
        if self.matches(symbol, min_vocab, max_vocab) {
            Some(self.get_target())
        } else {
            None
        }
    }
}

} // verus!

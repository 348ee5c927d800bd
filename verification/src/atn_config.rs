//! A configuration: one point of the nondeterministic simulation, holding
//! the ATN state, the chosen alternative, and the call-stack context, plus
//! the lexer-specific accumulated actions.

use vstd::prelude::*;
use crate::atn_state::ATNStateRef;
use crate::atn_state::ATNStateType;
use crate::atn_state::BaseATNState;
use crate::lexer_action_executor::LexerActionExecutor;
use crate::prediction_context::PredictionContext;
use crate::semantic_context::SemanticContext;

verus! {

#[derive(Debug)]
pub enum ATNConfigType {
    BaseATNConfig,
    LexerATNConfig {
        lexer_action_executor: Option<Box<LexerActionExecutor>>,
        passed_through_non_greedy_decision: bool,
    },
}

#[derive(Debug)]
pub struct ATNConfig {
    pub precedence_filter_suppressed: bool,
    pub state: ATNStateRef,
    pub alt: isize,
    pub context: Option<Box<PredictionContext>>,
    pub semantic_context: Option<Box<SemanticContext>>,
    pub reaches_into_outer_context: isize,
    pub config_type: ATNConfigType,
}

impl ATNConfig {
    /// A configuration fit for the config sets: its context is present and
    /// well formed, and state and alternative are small enough to pack into
    /// a lookup key.
    pub open spec fn wf_config(self) -> bool {
        &&& self.context matches Option::Some(c) && (*c).wf()
        &&& self.state < 0x1_0000_0000
        &&& 0 <= self.alt < 0x1_0000_0000
    }

    /// The packed (state, alternative) lookup key used by config sets.
    pub open spec fn spec_key(self) -> int {
        self.state * 0x1_0000_0000 + self.alt
    }

    /// The flag recording that the path crossed a non-greedy decision;
    /// always false for parser configurations.
    pub open spec fn spec_passed_non_greedy(self) -> bool {
        match self.config_type {
            ATNConfigType::LexerATNConfig { passed_through_non_greedy_decision, .. } => passed_through_non_greedy_decision,
            ATNConfigType::BaseATNConfig => false,
        }
    }

    pub fn new(state: ATNStateRef, alt: isize, context: Option<PredictionContext>) -> (r:
        ATNConfig)
        ensures
            r.state == state,
            r.alt == alt,
            match context {
                Option::Some(c) => r.context matches Option::Some(b) && *b == c,
                Option::None => r.context is None,
            },
            r.semantic_context is None,
            r.reaches_into_outer_context == 0,
            r.config_type == ATNConfigType::BaseATNConfig,
            !r.precedence_filter_suppressed,
    {
        ATNConfig {
            precedence_filter_suppressed: false,
            state,
            alt,
            context: match context {
                Some(c) => Some(Box::new(c)),
                None => None,
            },
            semantic_context: None,
            reaches_into_outer_context: 0,
            config_type: ATNConfigType::BaseATNConfig,
        }
    }

    pub fn new_with_semantic(
        state: ATNStateRef,
        alt: isize,
        context: Option<PredictionContext>,
        semantic_context: Option<Box<SemanticContext>>,
    ) -> (r: ATNConfig)
        ensures
            r.state == state,
            r.alt == alt,
            match context {
                Option::Some(c) => r.context matches Option::Some(b) && *b == c,
                Option::None => r.context is None,
            },
            r.semantic_context == semantic_context,
            r.reaches_into_outer_context == 0,
            r.config_type == ATNConfigType::BaseATNConfig,
    {
        let mut new = Self::new(state, alt, context);
        new.semantic_context = semantic_context;
        new
    }

    /// A fresh lexer configuration for the given alternative, with no
    /// actions collected yet.
    pub fn new_lexer_atnconfig6(state: ATNStateRef, alt: isize, context: PredictionContext) -> (r:
        ATNConfig)
        ensures
            r.state == state,
            r.alt == alt,
            r.context matches Option::Some(b) && *b == context,
            r.semantic_context is None,
            r.reaches_into_outer_context == 0,
            r.config_type matches ATNConfigType::LexerATNConfig {
                lexer_action_executor,
                passed_through_non_greedy_decision,
            } && lexer_action_executor is None && !passed_through_non_greedy_decision,
            !r.precedence_filter_suppressed,
    {
        let mut c = Self::new(state, alt, Some(context));
        c.config_type = ATNConfigType::LexerATNConfig {
            lexer_action_executor: None,
            passed_through_non_greedy_decision: false,
        };
        c
    }

    pub fn get_state(&self) -> (r: ATNStateRef)
        ensures
            r == self.state,
    {
        self.state
    }

    pub fn get_alt(&self) -> (r: isize)
        ensures
            r == self.alt,
    {
        self.alt
    }

    pub fn get_type(&self) -> (r: &ATNConfigType)
        ensures
            r == &self.config_type,
    {
        &self.config_type
    }

    pub fn get_semantic_context(&self) -> (r: Option<&SemanticContext>)
        ensures
            match r {
                Option::Some(c) => self.semantic_context matches Option::Some(b) && *b == *c,
                Option::None => self.semantic_context is None,
            },
    {
        match &self.semantic_context {
            Some(b) => Some(&**b),
            None => None,
        }
    }

    pub fn get_context(&self) -> (r: Option<&PredictionContext>)
        ensures
            match r {
                Option::Some(c) => self.context matches Option::Some(b) && *b == *c,
                Option::None => self.context is None,
            },
    {
        match &self.context {
            Some(b) => Some(&**b),
            None => None,
        }
    }

    /// Takes the context out, leaving none behind.
    pub fn take_context(&mut self) -> (r: PredictionContext)
        requires
            old(self).context is Some,
        ensures
            old(self).context matches Option::Some(b) && r == *b,
            final(self).context is None,
            final(self).state == old(self).state,
            final(self).alt == old(self).alt,
            final(self).semantic_context == old(self).semantic_context,
            final(self).reaches_into_outer_context == old(self).reaches_into_outer_context,
            final(self).config_type == old(self).config_type,
            final(self).precedence_filter_suppressed == old(self).precedence_filter_suppressed,
    {
        let c = self.context.take();
        match c {
            Some(b) => *b,
            None => {
                proof {
                    assert(false);
                }
                PredictionContext::new_empty_prediction_context()
            },
        }
    }

    pub fn set_context(&mut self, v: Box<PredictionContext>)
        ensures
            final(self).context matches Option::Some(b) && b == v,
            final(self).state == old(self).state,
            final(self).alt == old(self).alt,
            final(self).semantic_context == old(self).semantic_context,
            final(self).reaches_into_outer_context == old(self).reaches_into_outer_context,
            final(self).config_type == old(self).config_type,
            final(self).precedence_filter_suppressed == old(self).precedence_filter_suppressed,
    {
        self.context = Some(v);
    }

    pub fn get_reaches_into_outer_context(&self) -> (r: isize)
        ensures
            r == self.reaches_into_outer_context,
    {
        self.reaches_into_outer_context
    }

    pub fn set_reaches_into_outer_context(&mut self, v: isize)
        ensures
            *final(self) == (ATNConfig { reaches_into_outer_context: v, ..*old(self) }),
    {
        self.reaches_into_outer_context = v;
    }

    pub fn get_precedence_filter_suppressed(&self) -> (r: bool)
        ensures
            r == self.precedence_filter_suppressed,
    {
        self.precedence_filter_suppressed
    }

    pub fn set_precedence_filter_suppressed(&mut self, v: bool)
        ensures
            *final(self) == (ATNConfig { precedence_filter_suppressed: v, ..*old(self) }),
    {
        self.precedence_filter_suppressed = v;
    }

    /// The collected lexer actions, if this is a lexer configuration that
    /// has any.
    pub fn get_lexer_executor(&self) -> (r: Option<&LexerActionExecutor>)
        ensures
            match r {
                Option::Some(e) => self.config_type matches ATNConfigType::LexerATNConfig {
                    lexer_action_executor: Option::Some(b),
                    ..
                } && *b == *e,
                Option::None => match self.config_type {
                    ATNConfigType::BaseATNConfig => true,
                    ATNConfigType::LexerATNConfig { lexer_action_executor, .. } => lexer_action_executor is None,
                },
            },
    {
        match &self.config_type {
            ATNConfigType::BaseATNConfig => None,
            ATNConfigType::LexerATNConfig { lexer_action_executor, .. } => match
                lexer_action_executor {
                Some(b) => Some(&**b),
                None => None,
            },
        }
    }

    /// A copy of the collected actions, if any.
    pub fn clone_lexer_executor(&self) -> (r: Option<LexerActionExecutor>)
        ensures
            match r {
                Option::Some(e) => self.config_type matches ATNConfigType::LexerATNConfig {
                    lexer_action_executor: Option::Some(b),
                    ..
                } && e.actions@ == b.actions@,
                Option::None => match self.config_type {
                    ATNConfigType::BaseATNConfig => true,
                    ATNConfigType::LexerATNConfig { lexer_action_executor, .. } => lexer_action_executor is None,
                },
            },
    {
        match &self.config_type {
            ATNConfigType::BaseATNConfig => None,
            ATNConfigType::LexerATNConfig { lexer_action_executor, .. } => match
                lexer_action_executor {
                Some(b) => Some(b.clone_exec()),
                None => None,
            },
        }
    }

    /// A copy of this configuration moved to `target`; for lexer
    /// configurations the non-greedy flag records whether the move crossed a
    /// non-greedy decision.
    pub fn cloned(&self, target: &BaseATNState) -> (r: ATNConfig)
        requires
            self.context is Some,
        ensures
            r.state == target.state_number,
            r.alt == self.alt,
            r.context matches Option::Some(rb) && self.context matches Option::Some(sb)
                && PredictionContext::cequals(*rb, *sb) && ((*sb).wf() ==> (*rb).wf()),
            r.semantic_context == self.semantic_context,
            r.reaches_into_outer_context == self.reaches_into_outer_context,
            r.precedence_filter_suppressed == self.precedence_filter_suppressed,
            self.config_type matches ATNConfigType::BaseATNConfig ==> r.config_type
                == ATNConfigType::BaseATNConfig,
            self.config_type matches ATNConfigType::LexerATNConfig {
                lexer_action_executor: se,
                ..
            } ==> (r.config_type matches ATNConfigType::LexerATNConfig {
                lexer_action_executor: re,
                passed_through_non_greedy_decision,
            } && (match (se, re) {
                (Option::Some(x), Option::Some(y)) => y.actions@ == x.actions@,
                (Option::None, Option::None) => true,
                _ => false,
            }) && passed_through_non_greedy_decision == (self.spec_passed_non_greedy()
                || target.state_type matches ATNStateType::DecisionState { nongreedy: true, .. })),
    {
        let ctx = match &self.context {
            Some(b) => (**b).clone_ctx(),
            None => {
                proof {
                    assert(false);
                }
                PredictionContext::new_empty_prediction_context()
            },
        };
        let sem = match &self.semantic_context {
            Some(b) => Some(Box::new(**b)),
            None => None,
        };
        let config_type = match &self.config_type {
            ATNConfigType::BaseATNConfig => ATNConfigType::BaseATNConfig,
            ATNConfigType::LexerATNConfig { lexer_action_executor, .. } => {
                let exec = match lexer_action_executor {
                    Some(b) => Some(Box::new(b.clone_exec())),
                    None => None,
                };
                ATNConfigType::LexerATNConfig {
                    lexer_action_executor: exec,
                    passed_through_non_greedy_decision: check_non_greedy_decision(self, target),
                }
            },
        };
        ATNConfig {
            precedence_filter_suppressed: self.precedence_filter_suppressed,
            state: target.state_number,
            alt: self.alt,
            context: Some(Box::new(ctx)),
            semantic_context: sem,
            reaches_into_outer_context: self.reaches_into_outer_context,
            config_type,
        }
    }

    /// A copy moved to `target` with the semantic context replaced.
    pub fn cloned_with_new_semantic(
        &self,
        target: &BaseATNState,
        ctx: Option<Box<SemanticContext>>,
    ) -> (r: ATNConfig)
        requires
            self.context is Some,
        ensures
            r.state == target.state_number,
            r.alt == self.alt,
            r.semantic_context == ctx,
            r.context matches Option::Some(rb) && self.context matches Option::Some(sb)
                && PredictionContext::cequals(*rb, *sb) && ((*sb).wf() ==> (*rb).wf()),
    {
        let mut new = self.cloned(target);
        new.semantic_context = ctx;
        new
    }

    /// A copy moved to `target` with the prediction context replaced.
    pub fn cloned_with_new_ctx(&self, target: &BaseATNState, ctx: Option<PredictionContext>) -> (r:
        ATNConfig)
        requires
            self.context is Some,
        ensures
            r.state == target.state_number,
            r.alt == self.alt,
            match ctx {
                Option::Some(c) => r.context matches Option::Some(b) && *b == c,
                Option::None => r.context is None,
            },
            r.semantic_context == self.semantic_context,
            r.reaches_into_outer_context == self.reaches_into_outer_context,
            r.precedence_filter_suppressed == self.precedence_filter_suppressed,
            self.config_type matches ATNConfigType::BaseATNConfig ==> r.config_type
                == ATNConfigType::BaseATNConfig,
            self.config_type matches ATNConfigType::LexerATNConfig {
                lexer_action_executor: se,
                ..
            } ==> (r.config_type matches ATNConfigType::LexerATNConfig {
                lexer_action_executor: re,
                passed_through_non_greedy_decision,
            } && (match (se, re) {
                (Option::Some(x), Option::Some(y)) => y.actions@ == x.actions@,
                (Option::None, Option::None) => true,
                _ => false,
            }) && passed_through_non_greedy_decision == (self.spec_passed_non_greedy()
                || target.state_type matches ATNStateType::DecisionState { nongreedy: true, .. })),
    {
        let mut new = self.cloned(target);
        new.context = match ctx {
            Some(c) => Some(Box::new(c)),
            None => None,
        };
        new
    }

    /// A copy moved to `target` with the collected actions replaced.
    pub fn cloned_with_new_exec(&self, target: &BaseATNState, exec: Option<LexerActionExecutor>)
        -> (r: ATNConfig)
        requires
            self.context is Some,
        ensures
            r.state == target.state_number,
            r.alt == self.alt,
            r.context matches Option::Some(rb) && self.context matches Option::Some(sb)
                && PredictionContext::cequals(*rb, *sb) && ((*sb).wf() ==> (*rb).wf()),
            r.semantic_context == self.semantic_context,
            r.reaches_into_outer_context == self.reaches_into_outer_context,
            r.precedence_filter_suppressed == self.precedence_filter_suppressed,
            self.config_type matches ATNConfigType::BaseATNConfig ==> r.config_type
                == ATNConfigType::BaseATNConfig,
            self.config_type matches ATNConfigType::LexerATNConfig { .. } ==> (
            r.config_type matches ATNConfigType::LexerATNConfig {
                lexer_action_executor,
                passed_through_non_greedy_decision,
            } && (match exec {
                Option::Some(e) => lexer_action_executor matches Option::Some(b) && b.actions@
                    == e.actions@,
                Option::None => lexer_action_executor is None,
            }) && passed_through_non_greedy_decision == (self.spec_passed_non_greedy()
                || target.state_type matches ATNStateType::DecisionState { nongreedy: true, .. })),
    {
        let mut new = self.cloned(target);
        match &mut new.config_type {
            ATNConfigType::LexerATNConfig {
                lexer_action_executor,
                passed_through_non_greedy_decision: _,
            } => {
                *lexer_action_executor = match exec {
                    Some(e) => Some(Box::new(e)),
                    None => None,
                };
            },
            ATNConfigType::BaseATNConfig => {},
        }
        new
    }
}

/// Structural equality of configurations: state, alternative, context,
/// semantic context, and for lexer configurations the collected actions and
/// the non-greedy flag.
pub open spec fn config_cequal(a: ATNConfig, b: ATNConfig) -> bool {
    &&& a.state == b.state
    &&& a.alt == b.alt
    &&& match (a.context, b.context) {
        (Option::Some(x), Option::Some(y)) => PredictionContext::cequals(*x, *y),
        (Option::None, Option::None) => true,
        _ => false,
    }
    &&& a.semantic_context == b.semantic_context
    &&& match (a.config_type, b.config_type) {
        (ATNConfigType::BaseATNConfig, ATNConfigType::BaseATNConfig) => true,
        (
            ATNConfigType::LexerATNConfig {
                lexer_action_executor: e1,
                passed_through_non_greedy_decision: f1,
            },
            ATNConfigType::LexerATNConfig {
                lexer_action_executor: e2,
                passed_through_non_greedy_decision: f2,
            },
        ) => f1 == f2 && match (e1, e2) {
            (Option::Some(x), Option::Some(y)) => x.actions@ == y.actions@,
            (Option::None, Option::None) => true,
            _ => false,
        },
        _ => false,
    }
}

/// Structural equality test for configurations.
pub fn config_equals(a: &ATNConfig, b: &ATNConfig) -> (r: bool)
    requires
        a.wf_config(),
        b.wf_config(),
    ensures
        r == config_cequal(*a, *b),
{
    if a.state != b.state || a.alt != b.alt {
        return false;
    }
    let ctx_eq = match (&a.context, &b.context) {
        (Some(x), Some(y)) => {
            proof {
                PredictionContext::lemma_wf_relaxed(**x);
                PredictionContext::lemma_wf_relaxed(**y);
            }
            (**x).equals(&**y)
        },
        (None, None) => true,
        _ => false,
    };
    if !ctx_eq {
        return false;
    }
    let sem_eq = match (&a.semantic_context, &b.semantic_context) {
        (Some(x), Some(y)) => **x == **y,
        (None, None) => true,
        _ => false,
    };
    if !sem_eq {
        return false;
    }
    match (&a.config_type, &b.config_type) {
        (ATNConfigType::BaseATNConfig, ATNConfigType::BaseATNConfig) => true,
        (
            ATNConfigType::LexerATNConfig {
                lexer_action_executor: e1,
                passed_through_non_greedy_decision: f1,
            },
            ATNConfigType::LexerATNConfig {
                lexer_action_executor: e2,
                passed_through_non_greedy_decision: f2,
            },
        ) => {
            if *f1 != *f2 {
                return false;
            }
            match (e1, e2) {
                (Some(x), Some(y)) => (**x).equals(&**y),
                (None, None) => true,
                _ => false,
            }
        },
        _ => false,
    }
}

/// Whether moving this configuration to `target` crosses (or has already
/// crossed) a non-greedy decision.
pub fn check_non_greedy_decision(source: &ATNConfig, target: &BaseATNState) -> (r: bool)
    ensures
        r == (source.spec_passed_non_greedy() || target.state_type matches
            ATNStateType::DecisionState { nongreedy: true, .. }),
{
    let passed = match &source.config_type {
        ATNConfigType::LexerATNConfig { passed_through_non_greedy_decision: true, .. } => true,
        _ => false,
    };
    if passed {
        return true;
    }
    match &target.state_type {
        ATNStateType::DecisionState { nongreedy: true, .. } => true,
        _ => false,
    }
}

} // verus!

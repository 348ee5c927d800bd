//! States of the augmented transition network: a stable number, the rule the
//! state belongs to, a kind tag, and the outgoing transitions.

use vstd::prelude::*;
use crate::transition::Transition;

verus! {

pub const ATNSTATE_INVALID_TYPE: isize = 0;

pub const ATNSTATE_BASIC: isize = 1;

pub const ATNSTATE_RULE_START: isize = 2;

pub const ATNSTATE_BLOCK_START: isize = 3;

pub const ATNSTATE_PLUS_BLOCK_START: isize = 4;

pub const ATNSTATE_STAR_BLOCK_START: isize = 5;

pub const ATNSTATE_TOKEN_START: isize = 6;

pub const ATNSTATE_RULE_STOP: isize = 7;

pub const ATNSTATE_BLOCK_END: isize = 8;

pub const ATNSTATE_STAR_LOOP_BACK: isize = 9;

pub const ATNSTATE_STAR_LOOP_ENTRY: isize = 10;

pub const ATNSTATE_PLUS_LOOP_BACK: isize = 11;

pub const ATNSTATE_LOOP_END: isize = 12;

pub const ATNSTATE_INVALID_STATE_NUMBER: isize = -1;

/// Index of a state within the ATN's state vector.
pub type ATNStateRef = usize;

/// The decision index a state carries, if it is a decision state.
pub open spec fn spec_decision(t: ATNStateType) -> Option<isize> {
    match t {
        ATNStateType::DecisionState { decision, .. } => Some(decision),
        _ => None,
    }
}

/// The sub-kind of a block-start decision state.
#[derive(Clone, Copy, Debug, PartialEq, Eq, Structural)]
pub enum ATNBlockStart {
    BasicBlockStart,
    /// Carries the loop-back state of the surrounding `+` loop.
    PlusBlockStart(ATNStateRef),
    StarBlockStart,
}

/// The sub-kind of a decision-bearing state.
#[derive(Clone, Copy, Debug, PartialEq, Eq, Structural)]
pub enum ATNDecisionState {
    BlockStartState { end_state: ATNStateRef, en: ATNBlockStart },
    PlusLoopBack,
    StarLoopEntry { loop_back_state: ATNStateRef, is_precedence: bool },
    TokenStartState,
}

/// The kind tag of an ATN state, with the kind-specific attributes.
#[derive(Clone, Copy, Debug, PartialEq, Eq, Structural)]
pub enum ATNStateType {
    InvalidState,
    BasicState,
    RuleStartState { stop_state: ATNStateRef, is_left_recursive: bool },
    RuleStopState,
    DecisionState { decision: isize, nongreedy: bool, state: ATNDecisionState },
    /// Carries the matching block-start state.
    BlockEndState(ATNStateRef),
    StarLoopbackState,
    /// Carries the loop-back state.
    LoopEndState(ATNStateRef),
}

/// One state of the network.
#[derive(Debug)]
pub struct BaseATNState {
    pub state_number: usize,
    /// Index of the rule this state belongs to; negative for states outside
    /// any rule (the token-start state).
    pub rule_index: isize,
    pub state_type_id: isize,
    pub state_type: ATNStateType,
    pub transitions: Vec<Transition>,
    pub epsilon_only_transitions: bool,
}

impl BaseATNState {
    /// The cached flag agrees with the stored transitions.
    pub open spec fn epsilon_flag_ok(self) -> bool {
        self.epsilon_only_transitions == (forall|i: int|
            0 <= i < self.transitions@.len() ==> (#[trigger] self.transitions@[i]).is_epsilon_spec())
    }

    /// Every transition's data is well formed and its targets lie below `n`.
    pub open spec fn transitions_wf(self, n: int) -> bool {
        forall|i: int|
            0 <= i < self.transitions@.len() ==> (#[trigger] self.transitions@[i]).wf(n)
    }

    pub fn new_base_atnstate() -> (r: BaseATNState)
        ensures
            r.state_number == 0,
            r.rule_index == 0,
            r.state_type_id == ATNSTATE_INVALID_TYPE,
            r.state_type == ATNStateType::InvalidState,
            r.transitions@.len() == 0,
            r.epsilon_flag_ok(),
    {
        BaseATNState {
            state_number: 0,
            rule_index: 0,
            state_type_id: ATNSTATE_INVALID_TYPE,
            state_type: ATNStateType::InvalidState,
            transitions: Vec::new(),
            epsilon_only_transitions: true,
        }
    }

    pub fn get_state_number(&self) -> (r: usize)
        ensures
            r == self.state_number,
    {
        self.state_number
    }

    pub fn get_rule_index(&self) -> (r: isize)
        ensures
            r == self.rule_index,
    {
        self.rule_index
    }

    pub fn get_state_type(&self) -> (r: &ATNStateType)
        ensures
            r == self.state_type,
    {
        &self.state_type
    }

    pub fn has_epsilon_only_transitions(&self) -> (r: bool)
        ensures
            r == self.epsilon_only_transitions,
    {
        self.epsilon_only_transitions
    }

    /// Appends an outgoing transition, keeping the epsilon-only flag exact.
    pub fn add_transition(&mut self, t: Transition)
        ensures
            final(self).transitions@ == old(self).transitions@.push(t),
            final(self).state_number == old(self).state_number,
            final(self).rule_index == old(self).rule_index,
            final(self).state_type_id == old(self).state_type_id,
            final(self).state_type == old(self).state_type,
            old(self).epsilon_flag_ok() ==> final(self).epsilon_flag_ok(),
    {
        let eps = t.is_epsilon();
        if self.transitions.len() == 0 {
            self.epsilon_only_transitions = eps;
        } else if !eps {
            self.epsilon_only_transitions = false;
        }
        self.transitions.push(t);
        proof {
            let ts = self.transitions@;
            if old(self).epsilon_flag_ok() {
                assert forall|i: int| 0 <= i < ts.len() - 1 implies (
                #[trigger] ts[i]).is_epsilon_spec() == old(self).transitions@[i].is_epsilon_spec() by {
                    assert(ts[i] == old(self).transitions@[i]);
                }
                if self.epsilon_only_transitions {
                    assert forall|i: int| 0 <= i < ts.len() implies (
                    #[trigger] ts[i]).is_epsilon_spec() by {
                        if i < ts.len() - 1 {
                            assert(old(self).transitions@[i].is_epsilon_spec());
                        }
                    }
                } else {
                    if !eps {
                        assert(!ts[ts.len() - 1].is_epsilon_spec());
                    } else {
                        // the flag was already false, so some old transition
                        // is not epsilon
                        assert(!old(self).epsilon_only_transitions);
                        let w = choose|i: int|
                            0 <= i < old(self).transitions@.len() && !(
                            #[trigger] old(self).transitions@[i]).is_epsilon_spec();
                        assert(!ts[w].is_epsilon_spec());
                    }
                }
            }
        }
    }
}

} // verus!

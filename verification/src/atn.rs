//! The augmented transition network: the grammar compiled to a graph of
//! states joined by transitions, immutable once deserialization finishes.

use vstd::prelude::*;
use crate::atn_state::ATNStateRef;
use crate::atn_state::ATNStateType;
use crate::atn_state::BaseATNState;
use crate::interval_set::IntervalSet;
use crate::lexer_action::LexerAction;
use crate::ll1_analyzer::LL1Analyzer;
use crate::prediction_context::PredictionContext;
use crate::token::TOKEN_EOF;
use crate::token::TOKEN_EPSILON;
use crate::transition::Transition;

verus! {

/// An alternative number standing for "no single alternative".
pub const INVALID_ALT: isize = 0;

/// Whether some edge of the network can consume `v`. Every token of a
/// computed lookahead set, beyond the epsilon, end-of-input and invalid
/// markers, satisfies this bound.
pub open spec fn atn_label_token(atn: ATN, v: int) -> bool {
    exists|q: int, t: int|
        #![trigger atn.states@[q].transitions@[t]]
        0 <= q < atn.states@.len() && 0 <= t < atn.states@[q].transitions@.len()
            && atn.states@[q].transitions@[t].spec_matches(
            v,
            crate::token::TOKEN_MIN_USER_TOKEN_TYPE as int,
            atn.max_token_type as int,
        )
}

#[derive(Clone, Copy, Debug, PartialEq, Eq, Structural)]
pub enum ATNType {
    LEXER,
    PARSER,
}

pub struct ATN {
    /// Decision index to the number of its decision state.
    pub decision_to_state: Vec<ATNStateRef>,
    pub grammar_type: ATNType,
    pub lexer_actions: Vec<LexerAction>,
    pub max_token_type: isize,
    /// Lexer mode names parallel to `mode_to_start_state`.
    pub mode_name_to_start_state: Vec<(String, ATNStateRef)>,
    pub mode_to_start_state: Vec<ATNStateRef>,
    pub rule_to_start_state: Vec<ATNStateRef>,
    pub rule_to_stop_state: Vec<ATNStateRef>,
    /// For lexer grammars, the token type each rule emits.
    pub rule_to_token_type: Vec<isize>,
    pub states: Vec<BaseATNState>,
}

/// Shape constraints of a state vector: state numbers are the indices, the
/// cached epsilon flags are exact, and every edge stays inside the vector.
pub open spec fn states_ok(ss: Seq<BaseATNState>) -> bool {
    let n = ss.len() as int;
    &&& forall|i: int| 0 <= i < n ==> (#[trigger] ss[i]).state_number == i
    &&& forall|i: int| 0 <= i < n ==> (#[trigger] ss[i]).transitions_wf(n)
    &&& forall|i: int| 0 <= i < n ==> (#[trigger] ss[i]).epsilon_flag_ok()
}

impl ATN {
    /// A fully-linked network: state numbers are the indices; every edge and
    /// every table entry points inside the state vector; rule indices of
    /// rule-stop states index the rule tables; action transitions of a lexer
    /// network index the action table.
    pub open spec fn wf(self) -> bool {
        let n = self.states@.len() as int;
        &&& n < 0x4000_0000
        &&& states_ok(self.states@)
        &&& forall|i: int|
            0 <= i < self.decision_to_state@.len() ==> (#[trigger] self.decision_to_state@[i]) < n
        &&& forall|i: int|
            0 <= i < self.decision_to_state@.len() ==> crate::atn_state::spec_decision(
                self.states@[(#[trigger] self.decision_to_state@[i]) as int].state_type,
            ) == Some(i as isize)
        &&& forall|i: int|
            0 <= i < self.mode_to_start_state@.len() ==> (#[trigger] self.mode_to_start_state@[i])
                < n
        &&& forall|i: int|
            0 <= i < self.rule_to_start_state@.len() ==> (#[trigger] self.rule_to_start_state@[i])
                < n
        &&& forall|i: int|
            0 <= i < self.rule_to_stop_state@.len() ==> (#[trigger] self.rule_to_stop_state@[i])
                < n
        &&& (self.grammar_type == ATNType::LEXER ==> forall|i: int|
            0 <= i < n && (#[trigger] self.states@[i]).state_type
                == ATNStateType::RuleStopState ==> 0 <= self.states@[i].rule_index
                < self.rule_to_token_type@.len())
        &&& (self.grammar_type == ATNType::LEXER ==> forall|i: int, t: int|
            0 <= i < n && 0 <= t < (#[trigger] self.states@[i]).transitions@.len() ==> ((
            #[trigger] self.states@[i].transitions@[t]) matches Transition::Action {
                action_index,
                ..
            } ==> 0 <= action_index < self.lexer_actions@.len()))
    }

    /// An empty network of the given grammar kind.
    pub fn new_atn(grammar_type: ATNType, max_token_type: isize) -> (r: ATN)
        ensures
            r.wf(),
            r.grammar_type == grammar_type,
            r.max_token_type == max_token_type,
            r.states@.len() == 0,
            r.decision_to_state@.len() == 0,
            r.mode_to_start_state@.len() == 0,
            r.rule_to_start_state@.len() == 0,
            r.rule_to_stop_state@.len() == 0,
            r.rule_to_token_type@.len() == 0,
            r.lexer_actions@.len() == 0,
            r.mode_name_to_start_state@.len() == 0,
    {
        ATN {
            decision_to_state: Vec::new(),
            grammar_type,
            lexer_actions: Vec::new(),
            max_token_type,
            mode_name_to_start_state: Vec::new(),
            mode_to_start_state: Vec::new(),
            rule_to_start_state: Vec::new(),
            rule_to_stop_state: Vec::new(),
            rule_to_token_type: Vec::new(),
            states: Vec::new(),
        }
    }

    /// Appends a state; its number must be the next index so the network
    /// stays fully linked.
    pub fn add_state(&mut self, state: BaseATNState)
        requires
            state.state_number == old(self).states@.len(),
            state.transitions_wf(old(self).states@.len() as int + 1),
            state.epsilon_flag_ok(),
        ensures
            final(self).states@ == old(self).states@.push(state),
            final(self).decision_to_state == old(self).decision_to_state,
            final(self).grammar_type == old(self).grammar_type,
            final(self).lexer_actions == old(self).lexer_actions,
            final(self).max_token_type == old(self).max_token_type,
            final(self).mode_name_to_start_state == old(self).mode_name_to_start_state,
            final(self).mode_to_start_state == old(self).mode_to_start_state,
            final(self).rule_to_start_state == old(self).rule_to_start_state,
            final(self).rule_to_stop_state == old(self).rule_to_stop_state,
            final(self).rule_to_token_type == old(self).rule_to_token_type,
    {
        self.states.push(state);
    }

    /// The number of the decision state for `decision`; in a well-formed
    /// network that state is a decision state carrying this very index.
    pub fn get_decision_state(&self, decision: usize) -> (r: ATNStateRef)
        requires
            decision < self.decision_to_state@.len(),
        ensures
            r == self.decision_to_state@[decision as int],
            self.wf() ==> (r < self.states@.len() && crate::atn_state::spec_decision(
                self.states@[r as int].state_type,
            ) == Some(decision as isize)),
    {
        self.decision_to_state[decision]
    }

    pub fn num_states(&self) -> (r: usize)
        ensures
            r == self.states@.len(),
    {
        self.states.len()
    }

    pub fn num_decisions(&self) -> (r: usize)
        ensures
            r == self.decision_to_state@.len(),
    {
        self.decision_to_state.len()
    }

    pub fn num_modes(&self) -> (r: usize)
        ensures
            r == self.mode_to_start_state@.len(),
    {
        self.mode_to_start_state.len()
    }

    /// The tokens that can follow state `s` given a call-chain context; the
    /// result is the lookahead walk's set: a rule stop with no context (or
    /// an exhausted one) contributes the epsilon marker (or end of input),
    /// and an ordinary state contributes each directly labelled edge.
    pub fn next_tokens_in_ctx(&self, s: ATNStateRef, ctx: Option<PredictionContext>) -> (r:
        IntervalSet)
        requires
            self.wf(),
            s < self.states@.len(),
            ctx matches Some(c) ==> c.relaxed_wf(),
        ensures
            r.inv(),
            !r.is_read_only(),
            // every member is a marker or a label some edge can consume
            forall|v: int|
                #![trigger r.spec_contains(v)]
                r.spec_contains(v) ==> (v == TOKEN_EPSILON as int || v == TOKEN_EOF as int || v
                    == crate::token::TOKEN_INVALID_TYPE as int || atn_label_token(*self, v)),
            self.states@[s as int].state_type == ATNStateType::RuleStopState && ctx is None
                ==> r.spec_contains(TOKEN_EPSILON as int),
            self.states@[s as int].state_type == ATNStateType::RuleStopState && (ctx matches Some(
                c,
            ) && c.spec_is_empty()) ==> r.spec_contains(TOKEN_EOF as int),
            self.states@[s as int].state_type != ATNStateType::RuleStopState ==> {
                let trans = self.states@[s as int].transitions@;
                &&& forall|t: int|
                    #![trigger trans[t]]
                    0 <= t < trans.len() ==> (trans[t] matches Transition::Atom { label, .. }
                        ==> ((isize::MIN + 1 <= label <= isize::MAX - 1) ==> r.spec_contains(
                        label as int,
                    )))
                &&& forall|t: int, v: int|
                    #![trigger trans[t], r.spec_contains(v)]
                    0 <= t < trans.len() ==> (trans[t] matches Transition::Range {
                        start,
                        stop,
                        ..
                    } ==> ((start <= v <= stop && (isize::MIN + 1 <= start) && (stop
                        <= isize::MAX - 1)) ==> r.spec_contains(v)))
            },
    {
        let analyzer = LL1Analyzer::new(self);
        analyzer.look(s, None, ctx)
    }

    /// The tokens that can follow state `s` within its own rule; the result
    /// is sorted, disjoint, and frozen read-only.
    pub fn next_tokens(&self, s: ATNStateRef) -> (r: IntervalSet)
        requires
            self.wf(),
            s < self.states@.len(),
        ensures
            r.inv(),
            r.is_read_only(),
            forall|v: int|
                #![trigger r.spec_contains(v)]
                r.spec_contains(v) ==> (v == TOKEN_EPSILON as int || v == TOKEN_EOF as int || v
                    == crate::token::TOKEN_INVALID_TYPE as int || atn_label_token(*self, v)),
            self.states@[s as int].state_type == ATNStateType::RuleStopState ==> r.spec_contains(
                TOKEN_EPSILON as int,
            ),
    {
        let mut r = self.next_tokens_in_ctx(s, None);
        r.set_read_only(true);
        r
    }

    /// The tokens acceptable at `state_number` for error reporting, given
    /// the chain of invoking states of the surrounding rule contexts
    /// (innermost first): the within-rule set, widened through each
    /// invoking rule while the set says the rule can end, with end of input
    /// added when the outermost rule can still end.
    #[verifier::loop_isolation(false)]
    pub fn get_expected_tokens(&self, state_number: usize, invoking_states: &Vec<isize>) -> (r:
        IntervalSet)
        requires
            self.wf(),
            state_number < self.states@.len(),
        ensures
            r.inv(),
            // the epsilon marker never escapes; what remains is end of
            // input, the invalid marker, or a consumable label
            forall|v: int|
                #![trigger r.spec_contains(v)]
                r.spec_contains(v) ==> (v == TOKEN_EOF as int || v
                    == crate::token::TOKEN_INVALID_TYPE as int || atn_label_token(*self, v)),
    {
        let mut following = self.next_tokens(state_number);
        if !following.contains(TOKEN_EPSILON) {
            return following;
        }
        let mut expected = IntervalSet::new();
        expected.add_set(&following);
        expected.remove_one(TOKEN_EPSILON);
        let nchain = invoking_states.len();
        let mut i: usize = 0;
        let mut done = false;
        while i < nchain && !done && following.contains(TOKEN_EPSILON)
            invariant
                nchain == invoking_states@.len(),
                0 <= i <= nchain,
                expected.inv(),
                !expected.is_read_only(),
                following.inv(),
                forall|v: int|
                    #![trigger expected.spec_contains(v)]
                    expected.spec_contains(v) ==> (v == TOKEN_EOF as int || v
                        == crate::token::TOKEN_INVALID_TYPE as int || atn_label_token(*self, v)),
                forall|v: int|
                    #![trigger following.spec_contains(v)]
                    following.spec_contains(v) ==> (v == TOKEN_EPSILON as int || v
                        == TOKEN_EOF as int || v == crate::token::TOKEN_INVALID_TYPE as int
                        || atn_label_token(*self, v)),
            decreases nchain - i,
        {
            let inv_state = invoking_states[i];
            if inv_state < 0 || (inv_state as usize) >= self.states.len() {
                // the outermost context was reached
                done = true;
            } else {
                let st = inv_state as usize;
                if self.states[st].transitions.len() == 0 {
                    done = true;
                } else {
                    proof {
                        assert(self.states@[st as int].transitions@[0].wf(
                            self.states@.len() as int,
                        ));
                    }
                    let follow: Option<usize> = match &self.states[st].transitions[0] {
                        Transition::Rule { follow_state, .. } => Some(*follow_state),
                        _ => None,
                    };
                    match follow {
                        Some(f) => {
                            following = self.next_tokens(f);
                            expected.add_set(&following);
                            expected.remove_one(TOKEN_EPSILON);
                        },
                        None => {
                            done = true;
                        },
                    }
                }
            }
            i += 1;
        }
        if following.contains(TOKEN_EPSILON) {
            expected.add_one(TOKEN_EOF);
        }
        expected
    }
}

} // verus!

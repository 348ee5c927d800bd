//! The adaptive DFA-backed lexer: simulates the network on characters,
//! growing a cached DFA per lexer mode, committing to the longest match
//! seen, and collecting the accepted rule's actions.

use vstd::prelude::*;
use crate::atn::ATN;
use crate::atn::ATNType;
use crate::atn_config::ATNConfig;
use crate::atn_config::ATNConfigType;
use crate::atn_config_set::ATNConfigSet;
use crate::atn_state::ATNStateType;
use crate::dfa::DFA;
use crate::dfa::DFAState;
use crate::dfa::DFAStateRef;
use crate::dfa::ERROR_DFA_STATE_REF;
use crate::errors::ANTLRError;
use crate::input_stream::InputStream;
use crate::int_stream::EOF;
use crate::lexer::LexerRecog;
use crate::lexer_action_executor::LexerActionExecutor;
use crate::prediction_context::PredictionContext;
use crate::prediction_context::PREDICTION_CONTEXT_EMPTY_RETURN_STATE;
use crate::token::TOKEN_EOF;
use crate::transition::Transition;

verus! {

/// The smallest and largest character values a lexer can match.
pub const LEXER_MIN_CHAR_VALUE: isize = 0x0000;

pub const LEXER_MAX_CHAR_VALUE: isize = 0x10FFFF;

/// The best accepting snapshot seen so far in one match: input position,
/// line, column, and the accepting DFA state.
pub struct SimState {
    pub index: isize,
    pub line: isize,
    pub column: isize,
    pub dfa_state: Option<DFAStateRef>,
}

impl SimState {
    pub fn new() -> (r: SimState)
        ensures
            r.index == -1,
            r.line == 0,
            r.column == -1,
            r.dfa_state is None,
    {
        SimState { index: -1, line: 0, column: -1, dfa_state: None }
    }

    pub fn reset(&mut self)
        ensures
            final(self).index == -1,
            final(self).line == 0,
            final(self).column == -1,
            final(self).dfa_state is None,
    {
        self.index = -1;
        self.line = 0;
        self.column = -1;
        self.dfa_state = None;
    }
}

/// Every accept state of a lexer DFA predicts one of the token types the
/// rule table assigns, or the end-of-input type.
pub open spec fn dfa_accept_ok(dfa: DFA, toks: Seq<isize>) -> bool {
    forall|i: int|
        0 <= i < dfa.states@.len() && (#[trigger] dfa.states@[i]).is_accept_state ==> exists|r: int|
            0 <= r < toks.len() && dfa.states@[i].prediction == toks[r]
}

/// Whether a configuration sits on a rule-stop state whose rule has an
/// entry in the token-type table.
pub open spec fn stops_rule(atn: ATN, c: ATNConfig) -> bool {
    &&& c.state < atn.states@.len()
    &&& atn.states@[c.state as int].state_type == ATNStateType::RuleStopState
    &&& 0 <= atn.states@[c.state as int].rule_index < atn.rule_to_token_type@.len()
}

/// Whether a stored executor holds exactly the actions a configuration
/// collected.
pub open spec fn exec_matches_config(e: Option<Box<LexerActionExecutor>>, c: ATNConfig) -> bool {
    match c.config_type {
        ATNConfigType::LexerATNConfig { lexer_action_executor: ce, .. } => match (e, ce) {
            (Option::Some(x), Option::Some(y)) => x.actions@ == y.actions@,
            (Option::None, Option::None) => true,
            _ => false,
        },
        ATNConfigType::BaseATNConfig => e is None,
    }
}

/// The unboxed form of the same comparison.
pub open spec fn plain_exec_matches_config(e: Option<LexerActionExecutor>, c: ATNConfig) -> bool {
    match c.config_type {
        ATNConfigType::LexerATNConfig { lexer_action_executor: ce, .. } => match (e, ce) {
            (Option::Some(x), Option::Some(y)) => x.actions@ == y.actions@,
            (Option::None, Option::None) => true,
            _ => false,
        },
        ATNConfigType::BaseATNConfig => e is None,
    }
}

/// The accept information of a DFA state is exactly what its config set
/// dictates: accepting precisely when some configuration stops a rule, and
/// then predicting that rule's token type and carrying that
/// configuration's actions, taken from the first such configuration.
pub open spec fn accept_info_coherent(atn: ATN, st: DFAState) -> bool {
    &&& st.is_accept_state == exists|i: int|
        0 <= i < st.configs.configs@.len() && stops_rule(atn, #[trigger] st.configs.configs@[i])
    &&& st.is_accept_state ==> exists|i: int|
        #![trigger st.configs.configs@[i]]
        {
            &&& 0 <= i < st.configs.configs@.len()
            &&& stops_rule(atn, st.configs.configs@[i])
            &&& forall|j: int|
                0 <= j < i ==> !stops_rule(atn, #[trigger] st.configs.configs@[j])
            &&& st.prediction == atn.rule_to_token_type@[atn.states@[st.configs.configs@[i].state as int].rule_index as int]
            &&& exec_matches_config(st.lexer_action_executor, st.configs.configs@[i])
        }
}

/// Every cached state of the DFA is accept-coherent with the network.
pub open spec fn dfa_coherent(atn: ATN, dfa: DFA) -> bool {
    forall|i: int|
        0 <= i < dfa.states@.len() ==> accept_info_coherent(atn, #[trigger] dfa.states@[i])
}

/// The token-type law of lexer DFAs: in a well-formed simulator, the
/// prediction of every accept state of every mode's DFA is one of the
/// token types the rule table assigns.
pub proof fn lemma_accept_predictions_come_from_rule_table(
    sim: LexerATNSimulator,
    d: int,
    i: int,
)
    requires
        sim.wf(),
        0 <= d < sim.decision_to_dfa@.len(),
        0 <= i < sim.decision_to_dfa@[d].states@.len(),
        sim.decision_to_dfa@[d].states@[i].is_accept_state,
    ensures
        exists|r: int|
            0 <= r < sim.atn.rule_to_token_type@.len()
                && sim.decision_to_dfa@[d].states@[i].prediction
                == sim.atn.rule_to_token_type@[r],
{
    assert(dfa_accept_ok(sim.decision_to_dfa@[d], sim.atn.rule_to_token_type@));
}

/// Whether transition `t` of state `q` matches `symbol` and leads to a
/// state that can consume more input: a non-rule-stop state with at least
/// one labelled edge.
pub open spec fn seed_trans(atn: ATN, q: int, t: int, symbol: int) -> bool {
    &&& 0 <= t < atn.states@[q].transitions@.len()
    &&& atn.states@[q].transitions@[t].spec_matches(
        symbol,
        LEXER_MIN_CHAR_VALUE as int,
        LEXER_MAX_CHAR_VALUE as int,
    )
    &&& {
        let tg = atn.states@[q].transitions@[t].spec_target() as int;
        &&& atn.states@[tg].state_type != ATNStateType::RuleStopState
        &&& !atn.states@[tg].epsilon_only_transitions
    }
}

/// Whether configuration `c` seeds the reach of `symbol`: some edge of its
/// state matches the symbol and leads to a consuming state. A set whose
/// first configuration seeds the reach yields a non-empty reach.
pub open spec fn reach_seeded(atn: ATN, c: ATNConfig, symbol: int) -> bool {
    &&& c.state < atn.states@.len()
    &&& exists|t: int|
        #![trigger atn.states@[c.state as int].transitions@[t]]
        seed_trans(atn, c.state as int, t, symbol)
}

/// The adaptive lexer simulator: the network, one DFA per lexer mode, and
/// the per-match position bookkeeping.
pub struct LexerATNSimulator {
    pub atn: ATN,
    pub decision_to_dfa: Vec<DFA>,
    pub start_index: usize,
    pub line: isize,
    pub char_position_in_line: isize,
    pub mode: usize,
    pub prev_accept: SimState,
}

impl LexerATNSimulator {
    /// The simulator drives a well-formed lexer network; each mode has its
    /// DFA; every cached accept state predicts a token type of the rule
    /// table.
    pub open spec fn wf(self) -> bool {
        &&& self.atn.wf()
        &&& self.atn.grammar_type == ATNType::LEXER
        &&& self.decision_to_dfa@.len() == self.atn.mode_to_start_state@.len()
        &&& forall|d: int|
            0 <= d < self.decision_to_dfa@.len() ==> (#[trigger] self.decision_to_dfa@[d]).inv()
        &&& forall|d: int|
            0 <= d < self.decision_to_dfa@.len() ==> dfa_accept_ok(
                #[trigger] self.decision_to_dfa@[d],
                self.atn.rule_to_token_type@,
            )
        &&& forall|d: int|
            0 <= d < self.decision_to_dfa@.len() ==> dfa_coherent(
                self.atn,
                #[trigger] self.decision_to_dfa@[d],
            )
    }

    /// Whether `t` is a token type the rule table can produce.
    pub open spec fn token_type_in_tables(self, t: isize) -> bool {
        exists|r: int|
            0 <= r < self.atn.rule_to_token_type@.len() && t == self.atn.rule_to_token_type@[r]
    }

    /// A fresh simulator over a lexer network, with one empty DFA per mode.
    pub fn new_lexer_atnsimulator(atn: ATN) -> (r: LexerATNSimulator)
        requires
            atn.wf(),
            atn.grammar_type == ATNType::LEXER,
        ensures
            r.wf(),
            r.line == 1,
            r.char_position_in_line == 0,
            r.mode == 0,
            r.start_index == 0,
            r.prev_accept.index == -1,
            r.prev_accept.line == 0,
            r.prev_accept.column == -1,
            r.prev_accept.dfa_state is None,
            r.atn == atn,
            r.decision_to_dfa@.len() == atn.mode_to_start_state@.len(),
    {
        let nmodes = atn.mode_to_start_state.len();
        let mut dfas: Vec<DFA> = Vec::new();
        let mut m: usize = 0;
        while m < nmodes
            invariant
                0 <= m <= nmodes,
                nmodes == atn.mode_to_start_state@.len(),
                atn.wf(),
                dfas@.len() == m,
                forall|d: int| 0 <= d < m ==> (#[trigger] dfas@[d]).inv(),
                forall|d: int| 0 <= d < m ==> (#[trigger] dfas@[d]).states@.len() == 0,
            decreases nmodes - m,
        {
            let start = atn.mode_to_start_state[m];
            if m > 32767 {
                dfas.push(DFA::new(start, 32767));
            } else {
                dfas.push(DFA::new(start, m as isize));
            }
            m += 1;
        }
        LexerATNSimulator {
            atn,
            decision_to_dfa: dfas,
            start_index: 0,
            line: 1,
            char_position_in_line: 0,
            mode: 0,
            prev_accept: SimState::new(),
        }
    }

    pub fn get_char_position_in_line(&self) -> (r: isize)
        ensures
            r == self.char_position_in_line,
    {
        self.char_position_in_line
    }

    pub fn get_line(&self) -> (r: isize)
        ensures
            r == self.line,
    {
        self.line
    }

    /// The DFA of the current mode.
    pub fn get_dfa(&self) -> (r: &DFA)
        requires
            self.mode < self.decision_to_dfa@.len(),
        ensures
            r == &self.decision_to_dfa@[self.mode as int],
    {
        &self.decision_to_dfa[self.mode]
    }

    /// Advances over one character, tracking line and column.
    pub fn consume(&mut self, input: &mut InputStream)
        requires
            old(input).inv(),
        ensures
            final(self).wf() == old(self).wf(),
            final(input).inv(),
            final(input).data == old(input).data,
            final(self).atn == old(self).atn,
            final(self).decision_to_dfa == old(self).decision_to_dfa,
            final(self).mode == old(self).mode,
            final(self).prev_accept == old(self).prev_accept,
            final(self).start_index == old(self).start_index,
            old(input).index < old(input).data@.len() ==> final(input).index == old(input).index
                + 1,
            old(input).index >= old(input).data@.len() ==> final(input).index == old(input).index,
    {
        let ch = input.la(1);
        if ch == 10 {
            if self.line < isize::MAX {
                self.line = self.line + 1;
            }
            self.char_position_in_line = 0;
        } else {
            if self.char_position_in_line < isize::MAX {
                self.char_position_in_line = self.char_position_in_line + 1;
            }
        }
        let r = input.consume();
        match r {
            _ => {},
        }
    }

    /// On a recognition error, skips one character unless at end of input.
    pub fn recover(&mut self, input: &mut InputStream)
        requires
            old(input).inv(),
        ensures
            final(self).wf() == old(self).wf(),
            final(input).inv(),
            final(input).data == old(input).data,
            final(self).atn == old(self).atn,
            final(self).decision_to_dfa == old(self).decision_to_dfa,
            final(self).mode == old(self).mode,
            final(self).prev_accept == old(self).prev_accept,
            final(self).start_index == old(self).start_index,
            old(input).index < old(input).data@.len() ==> final(input).index == old(input).index
                + 1,
            old(input).index >= old(input).data@.len() ==> final(input).index == old(input).index,
    {
        if input.la(1) != EOF {
            self.consume(input);
        }
    }

    /// Matches one token in `mode` from the current input position,
    /// committing to the longest accepted prefix: the token type returned
    /// is the end-of-input type or one the rule table assigns, and the
    /// accepted rule's collected actions come along for the caller to run.
    pub fn match_token<R: LexerRecog>(
        &mut self,
        mode: usize,
        input: &mut InputStream,
        recog: &mut R,
    ) -> (r: Result<(isize, Option<LexerActionExecutor>), ANTLRError>)
        requires
            old(self).wf(),
            mode < old(self).decision_to_dfa@.len(),
            old(input).inv(),
        ensures
            final(self).wf(),
            final(self).mode == mode,
            final(input).inv(),
            final(input).data == old(input).data,
            r matches Ok(p) ==> (p.0 == TOKEN_EOF || final(self).token_type_in_tables(p.0)),
    {
        self.mode = mode;
        let mark = input.mark();
        self.start_index = input.index();
        self.prev_accept.reset();
        let s0 = self.decision_to_dfa[mode].get_s0();
        let result = match s0 {
            None => self.match_atn(input, recog),
            Some(s) => self.exec_atn(s, input, recog),
        };
        input.release(mark);
        result
    }

    /// First match in a mode: computes the start config set by closing over
    /// the mode start state's alternatives, installs it as the DFA's start
    /// state, and runs the stepwise match from there.
    fn match_atn<R: LexerRecog>(&mut self, input: &mut InputStream, recog: &mut R) -> (r: Result<
        (isize, Option<LexerActionExecutor>),
        ANTLRError,
    >)
        requires
            old(self).wf(),
            old(self).mode < old(self).decision_to_dfa@.len(),
            old(self).prev_accept.dfa_state is None,
            old(input).inv(),
        ensures
            final(self).wf(),
            final(self).mode == old(self).mode,
            final(input).inv(),
            final(input).data == old(input).data,
            r matches Ok(p) ==> (p.0 == TOKEN_EOF || final(self).token_type_in_tables(p.0)),
    {
        let start_state = self.atn.mode_to_start_state[self.mode];
        let mut s0_closure = self.compute_start_state(start_state, input, recog);
        let suppress_edge = s0_closure.has_semantic_context();
        s0_closure.set_has_semantic_context(false);
        let next_state = self.add_dfastate_from_configs(s0_closure);
        if !suppress_edge {
            let mode = self.mode;
            let dfa = &mut self.decision_to_dfa[mode];
            dfa.set_s0(next_state);
            proof {
                assert forall|d: int|
                    0 <= d < self.decision_to_dfa@.len() implies (
                #[trigger] self.decision_to_dfa@[d]).inv() && dfa_accept_ok(
                    self.decision_to_dfa@[d],
                    self.atn.rule_to_token_type@,
                ) by {
                    if d != mode {
                        assert(self.decision_to_dfa@[d] == old(self).decision_to_dfa@[d]);
                    }
                }
            }
        }
        self.exec_atn(next_state, input, recog)
    }

    /// The stepwise match: follow cached edges where they exist, compute
    /// and cache new ones where they do not, snapshot every accepting state
    /// passed, and finally commit to the best snapshot.
    #[verifier::loop_isolation(false)]
    fn exec_atn<R: LexerRecog>(
        &mut self,
        ds0: DFAStateRef,
        input: &mut InputStream,
        recog: &mut R,
    ) -> (r: Result<(isize, Option<LexerActionExecutor>), ANTLRError>)
        requires
            old(self).wf(),
            old(self).mode < old(self).decision_to_dfa@.len(),
            ds0 < old(self).decision_to_dfa@[old(self).mode as int].states@.len(),
            old(self).prev_accept.dfa_state matches Some(d) ==> d < old(self).decision_to_dfa@[old(
                self,
            ).mode as int].states@.len() && old(self).decision_to_dfa@[old(self).mode as int].states@[d as int].is_accept_state
                && old(self).prev_accept.index >= 0,
            old(input).inv(),
        ensures
            final(self).wf(),
            final(self).mode == old(self).mode,
            final(input).inv(),
            final(input).data == old(input).data,
            r matches Ok(p) ==> (p.0 == TOKEN_EOF || final(self).token_type_in_tables(p.0)),
    {
        self.capture_sim_state(input, ds0);
        let mut symbol = input.la(1);
        let mut s = ds0;
        let raw_size = input.size();
        let size_clamped: u64 = if raw_size < 0x4000_0000 {
            raw_size as u64
        } else {
            0x4000_0000u64
        };
        let mut fuel: u64 = size_clamped * 2 + 10000;
        while fuel > 0
            invariant
                self.wf(),
                self.mode == old(self).mode,
                self.mode < self.decision_to_dfa@.len(),
                s < self.decision_to_dfa@[self.mode as int].states@.len(),
                input.inv(),
                input.data == old(input).data,
                self.prev_accept.dfa_state matches Some(d) ==> d < self.decision_to_dfa@[self.mode as int].states@.len()
                    && self.decision_to_dfa@[self.mode as int].states@[d as int].is_accept_state,
                self.prev_accept.dfa_state is Some ==> self.prev_accept.index >= 0,
            decreases fuel,
        {
            fuel = fuel - 1;
            let target_existing = self.decision_to_dfa[self.mode].get_existing_target_state(
                s,
                symbol,
            );
            let target = match target_existing {
                Some(t) => t,
                None => self.compute_target_state(s, symbol, input, recog),
            };
            if target == ERROR_DFA_STATE_REF {
                break ;
            }
            if symbol != EOF {
                self.consume(input);
            }
            if self.capture_sim_state(input, target) {
                if symbol == EOF {
                    break ;
                }
            }
            symbol = input.la(1);
            s = target;
        }
        self.fail_or_accept(symbol, input)
    }

    /// Computes the set reachable from `s` on `symbol`, closes it, interns
    /// it, and caches the edge (unless a predicate was involved). An empty
    /// reach caches and yields the error state.
    fn compute_target_state<R: LexerRecog>(
        &mut self,
        s: DFAStateRef,
        symbol: isize,
        input: &mut InputStream,
        recog: &mut R,
    ) -> (r: DFAStateRef)
        requires
            old(self).wf(),
            old(self).mode < old(self).decision_to_dfa@.len(),
            s < old(self).decision_to_dfa@[old(self).mode as int].states@.len(),
            old(input).inv(),
        ensures
            final(self).wf(),
            final(self).mode == old(self).mode,
            final(self).atn == old(self).atn,
            final(self).decision_to_dfa@.len() == old(self).decision_to_dfa@.len(),
            final(input).inv(),
            final(input).data == old(input).data,
            final(input).index == old(input).index,
            r < final(self).decision_to_dfa@[final(self).mode as int].states@.len() || r
                == ERROR_DFA_STATE_REF,
            // the error state is not owed a seeded source: when the
            // source set's first configuration has an edge matching the
            // symbol into a consuming state, a real target comes back
            ({
                let cfgs =
                    old(self).decision_to_dfa@[old(self).mode as int].states@[s as int].configs.configs@;
                cfgs.len() > 0 && reach_seeded(old(self).atn, cfgs[0], symbol as int)
            }) ==> ({
                let dfa = final(self).decision_to_dfa@[final(self).mode as int];
                &&& r < dfa.states@.len()
                &&& dfa.states@[r as int].configs.configs@.len() > 0
                &&& dfa.states@[r as int].configs.read_only
                &&& accept_info_coherent(final(self).atn, dfa.states@[r as int])
            }),
            // a non-error result is an interned state over a non-empty,
            // frozen, accept-coherent config set
            r != ERROR_DFA_STATE_REF ==> {
                let st = final(self).decision_to_dfa@[final(self).mode as int].states@[r as int];
                &&& st.configs.configs@.len() > 0
                &&& st.configs.read_only
                &&& accept_info_coherent(final(self).atn, st)
            },
            final(self).decision_to_dfa@[final(self).mode as int].states@.len() >= old(self).decision_to_dfa@[old(self).mode as int].states@.len(),
            forall|i: int|
                0 <= i < old(self).decision_to_dfa@[old(self).mode as int].states@.len() ==> (
                #[trigger] final(self).decision_to_dfa@[final(self).mode as int].states@[i]).is_accept_state
                    == old(self).decision_to_dfa@[old(self).mode as int].states@[i].is_accept_state,
            final(self).prev_accept == old(self).prev_accept,
            final(self).start_index == old(self).start_index,
    {
        let mut reach = ATNConfigSet::new_ordered_atnconfig_set();
        self.get_reachable_config_set(s, &mut reach, symbol, input, recog);
        let mode = self.mode;
        if reach.is_empty() {
            if !reach.has_semantic_context() {
                let dfa = &mut self.decision_to_dfa[mode];
                dfa.add_dfaedge(s, symbol, ERROR_DFA_STATE_REF);
                proof {
                    self.lemma_accept_preserved(*old(self), mode as int);
                }
            }
            return ERROR_DFA_STATE_REF;
        }
        let suppress_edge = reach.has_semantic_context();
        reach.set_has_semantic_context(false);
        let to = self.add_dfastate_from_configs(reach);
        if !suppress_edge {
            let dfa = &mut self.decision_to_dfa[mode];
            dfa.add_dfaedge(s, symbol, to);
            proof {
                self.lemma_accept_preserved_prefix(mode as int);
            }
        }
        to
    }

    /// Accept-state facts survive an operation that kept every state's
    /// accept flag and prediction.
    proof fn lemma_accept_preserved(self, prev: LexerATNSimulator, mode: int)
        requires
            0 <= mode < self.decision_to_dfa@.len(),
            prev.decision_to_dfa@.len() == self.decision_to_dfa@.len(),
            prev.atn.rule_to_token_type@ == self.atn.rule_to_token_type@,
            forall|d: int|
                0 <= d < prev.decision_to_dfa@.len() ==> dfa_accept_ok(
                    #[trigger] prev.decision_to_dfa@[d],
                    prev.atn.rule_to_token_type@,
                ),
            forall|d: int|
                0 <= d < self.decision_to_dfa@.len() && d != mode ==> (
                #[trigger] self.decision_to_dfa@[d]) == prev.decision_to_dfa@[d],
            prev.atn == self.atn,
            forall|d: int|
                0 <= d < prev.decision_to_dfa@.len() ==> dfa_coherent(
                    prev.atn,
                    #[trigger] prev.decision_to_dfa@[d],
                ),
            self.decision_to_dfa@[mode].states@.len() == prev.decision_to_dfa@[mode].states@.len(),
            forall|i: int|
                0 <= i < self.decision_to_dfa@[mode].states@.len() ==> (#[trigger] self.decision_to_dfa@[mode].states@[i]).is_accept_state
                    == prev.decision_to_dfa@[mode].states@[i].is_accept_state && self.decision_to_dfa@[mode].states@[i].prediction
                    == prev.decision_to_dfa@[mode].states@[i].prediction
                    && self.decision_to_dfa@[mode].states@[i].lexer_action_executor
                    == prev.decision_to_dfa@[mode].states@[i].lexer_action_executor
                    && self.decision_to_dfa@[mode].states@[i].configs
                    == prev.decision_to_dfa@[mode].states@[i].configs,
        ensures
            forall|d: int|
                0 <= d < self.decision_to_dfa@.len() ==> dfa_accept_ok(
                    #[trigger] self.decision_to_dfa@[d],
                    self.atn.rule_to_token_type@,
                ),
            forall|d: int|
                0 <= d < self.decision_to_dfa@.len() ==> dfa_coherent(
                    self.atn,
                    #[trigger] self.decision_to_dfa@[d],
                ),
    {
        assert forall|d: int| 0 <= d < self.decision_to_dfa@.len() implies dfa_accept_ok(
            #[trigger] self.decision_to_dfa@[d],
            self.atn.rule_to_token_type@,
        ) by {
            if d == mode {
                assert forall|i: int|
                    0 <= i < self.decision_to_dfa@[d].states@.len() && (
                    #[trigger] self.decision_to_dfa@[d].states@[i]).is_accept_state implies exists|
                    rr: int,
                |
                    0 <= rr < self.atn.rule_to_token_type@.len()
                        && self.decision_to_dfa@[d].states@[i].prediction
                        == self.atn.rule_to_token_type@[rr] by {
                    assert(prev.decision_to_dfa@[d].states@[i].is_accept_state);
                }
            }
        }
        assert forall|d: int| 0 <= d < self.decision_to_dfa@.len() implies dfa_coherent(
            self.atn,
            #[trigger] self.decision_to_dfa@[d],
        ) by {
            if d == mode {
                assert forall|i: int|
                    0 <= i < self.decision_to_dfa@[d].states@.len() implies accept_info_coherent(
                    self.atn,
                    #[trigger] self.decision_to_dfa@[d].states@[i],
                ) by {
                    let cur = self.decision_to_dfa@[d].states@[i];
                    let old_st = prev.decision_to_dfa@[d].states@[i];
                    assert(accept_info_coherent(prev.atn, old_st));
                    assert(cur.is_accept_state == old_st.is_accept_state && cur.prediction
                        == old_st.prediction && cur.lexer_action_executor
                        == old_st.lexer_action_executor && cur.configs == old_st.configs);
                }
            }
        }
    }

    /// The same preservation argument phrased against the invariant-carrying
    /// caller state, for the edge-adding path.
    proof fn lemma_accept_preserved_prefix(self, mode: int)
        requires
            0 <= mode < self.decision_to_dfa@.len(),
            self.atn.wf(),
            self.atn.grammar_type == ATNType::LEXER,
            self.decision_to_dfa@.len() == self.atn.mode_to_start_state@.len(),
            forall|d: int|
                0 <= d < self.decision_to_dfa@.len() ==> (#[trigger] self.decision_to_dfa@[d]).inv(),
            forall|d: int|
                0 <= d < self.decision_to_dfa@.len() ==> dfa_accept_ok(
                    #[trigger] self.decision_to_dfa@[d],
                    self.atn.rule_to_token_type@,
                ),
            forall|d: int|
                0 <= d < self.decision_to_dfa@.len() ==> dfa_coherent(
                    self.atn,
                    #[trigger] self.decision_to_dfa@[d],
                ),
        ensures
            self.wf(),
    {
    }

    /// For every configuration not already past an accept on its own
    /// alternative, follows the transitions matching `symbol` and closes
    /// over the results, anchoring collected actions to the current
    /// consumption offset.
    #[verifier::loop_isolation(false)]
    fn get_reachable_config_set<R: LexerRecog>(
        &mut self,
        s: DFAStateRef,
        reach: &mut ATNConfigSet,
        symbol: isize,
        input: &mut InputStream,
        recog: &mut R,
    )
        requires
            old(self).wf(),
            old(self).mode < old(self).decision_to_dfa@.len(),
            s < old(self).decision_to_dfa@[old(self).mode as int].states@.len(),
            old(input).inv(),
            old(reach).inv(),
            !old(reach).read_only,
            old(reach).full_ctx,
        ensures
            final(self).wf(),
            final(self).mode == old(self).mode,
            final(self).decision_to_dfa == old(self).decision_to_dfa,
            final(self).atn == old(self).atn,
            final(self).prev_accept == old(self).prev_accept,
            final(self).start_index == old(self).start_index,
            final(input).inv(),
            final(input).data == old(input).data,
            final(input).index == old(input).index,
            final(reach).inv(),
            !final(reach).read_only,
            forall|s2: int, a2: int|
                #![trigger final(reach).has_pair(s2, a2)]
                old(reach).has_pair(s2, a2) ==> final(reach).has_pair(s2, a2),
            // a set whose first configuration seeds the reach is owed a
            // non-empty result
            ({
                let cfgs =
                    old(self).decision_to_dfa@[old(self).mode as int].states@[s as int].configs.configs@;
                cfgs.len() > 0 && reach_seeded(old(self).atn, cfgs[0], symbol as int)
            }) ==> final(reach).configs@.len() > 0,
    {
        let mode = self.mode;
        let ghost gcfgs = self.decision_to_dfa@[mode as int].states@[s as int].configs.configs@;
        let ghost g_seed = gcfgs.len() > 0 && reach_seeded(self.atn, gcfgs[0], symbol as int);
        let nconfigs = self.decision_to_dfa[mode].states[s].configs.length();
        let mut skip_alt: isize = 0;
        let mut i: usize = 0;
        while i < nconfigs
            invariant
                self.wf(),
                self.mode == old(self).mode,
                self.decision_to_dfa == old(self).decision_to_dfa,
                self.atn == old(self).atn,
                self.prev_accept == old(self).prev_accept,
                self.start_index == old(self).start_index,
                mode == self.mode,
                self.mode < self.decision_to_dfa@.len(),
                s < self.decision_to_dfa@[mode as int].states@.len(),
                nconfigs == self.decision_to_dfa@[mode as int].states@[s as int].configs.configs@.len(),
                input.inv(),
                input.data == old(input).data,
                input.index == old(input).index,
                reach.inv(),
                !reach.read_only,
                reach.full_ctx,
                forall|s2: int, a2: int|
                    #![trigger reach.has_pair(s2, a2)]
                    old(reach).has_pair(s2, a2) ==> reach.has_pair(s2, a2),
                gcfgs == self.decision_to_dfa@[mode as int].states@[s as int].configs.configs@,
                i == 0 ==> skip_alt == 0,
                g_seed == (gcfgs.len() > 0 && reach_seeded(self.atn, gcfgs[0], symbol as int)),
                g_seed && i > 0 ==> reach.configs@.len() > 0,
            decreases nconfigs - i,
        {
            proof {
                assert(self.decision_to_dfa@[mode as int].states@[s as int].configs.inv());
            }
            let config = clone_config(&self.decision_to_dfa[mode].states[s].configs.get_items()[i]);
            let current_alt_reached_accept_state = config.get_alt() == skip_alt && skip_alt != 0;
            let passed_non_greedy = match &config.config_type {
                ATNConfigType::LexerATNConfig {
                    passed_through_non_greedy_decision: true,
                    ..
                } => true,
                _ => false,
            };
            if !(current_alt_reached_accept_state && passed_non_greedy) {
                let st = config.get_state();
                if st < self.atn.states.len() {
                    let ntrans = self.atn.states[st].transitions.len();
                    let mut t: usize = 0;
                    let mut done = false;
                    while t < ntrans && !done
                        invariant
                            self.wf(),
                            self.mode == old(self).mode,
                            self.decision_to_dfa == old(self).decision_to_dfa,
                            self.atn == old(self).atn,
                            self.prev_accept == old(self).prev_accept,
                            self.start_index == old(self).start_index,
                            mode == self.mode,
                            self.mode < self.decision_to_dfa@.len(),
                            st < self.atn.states@.len(),
                            ntrans == self.atn.states@[st as int].transitions@.len(),
                            input.inv(),
                            input.data == old(input).data,
                            input.index == old(input).index,
                            reach.inv(),
                            !reach.read_only,
                            reach.full_ctx,
                            forall|s2: int, a2: int|
                                #![trigger reach.has_pair(s2, a2)]
                                old(reach).has_pair(s2, a2) ==> reach.has_pair(s2, a2),
                            config.wf_config(),
                            config.context is Some,
                            gcfgs
                                == self.decision_to_dfa@[mode as int].states@[s as int].configs.configs@,
                            g_seed == (gcfgs.len() > 0 && reach_seeded(
                                self.atn,
                                gcfgs[0],
                                symbol as int,
                            )),
                            g_seed && i > 0 ==> reach.configs@.len() > 0,
                            g_seed && i == 0 ==> st == gcfgs[0].state,
                            g_seed && i == 0 && !current_alt_reached_accept_state ==> (
                            reach.configs@.len() > 0 || (!done && forall|t2: int|
                                #![trigger self.atn.states@[st as int].transitions@[t2]]
                                0 <= t2 < t ==> !seed_trans(
                                    self.atn,
                                    st as int,
                                    t2,
                                    symbol as int,
                                ))),
                        decreases ntrans - t,
                    {
                        proof {
                            assert(self.atn.states@[st as int].transitions@[t as int].wf(
                                self.atn.states@.len() as int,
                            ));
                        }
                        let target_opt = {
                            let tr = &self.atn.states[st].transitions[t];
                            tr.get_reachable_target(symbol, LEXER_MIN_CHAR_VALUE, LEXER_MAX_CHAR_VALUE)
                        };
                        match target_opt {
                            Some(target) => {
                                proof {
                                    if seed_trans(self.atn, st as int, t as int, symbol as int) {
                                        assert(self.atn.states@[st as int].transitions@[t as int].spec_target()
                                            == target);
                                    }
                                }
                                let exec = match config.clone_lexer_executor() {
                                    Some(e) => {
                                        let off = sub_clamped(input.index(), self.start_index);
                                        Some(e.fix_offset_before_match(off))
                                    },
                                    None => None,
                                };
                                let new_config = {
                                    let target_state = &self.atn.states[target];
                                    config.cloned_with_new_exec(target_state, exec)
                                };
                                proof {
                                    assert(new_config.state == target);
                                }
                                let accepted = self.closure(
                                    new_config,
                                    reach,
                                    current_alt_reached_accept_state,
                                    true,
                                    symbol == EOF,
                                    input,
                                    recog,
                                    closure_fuel(self.atn.states.len()),
                                );
                                if accepted {
                                    skip_alt = config.get_alt();
                                    done = true;
                                }
                            },
                            None => {},
                        }
                        t += 1;
                    }
                    proof {
                        if g_seed && i == 0 && !current_alt_reached_accept_state
                            && reach.configs@.len() == 0 {
                            // the walk ran the whole edge list without a
                            // seed, yet the first configuration has one
                            assert(!done);
                            let tw = choose|tw: int|
                                #![trigger self.atn.states@[gcfgs[0].state as int].transitions@[tw]]
                                seed_trans(self.atn, gcfgs[0].state as int, tw, symbol as int);
                            assert(0 <= tw < ntrans);
                            assert(!seed_trans(self.atn, st as int, tw, symbol as int));
                            assert(false);
                        }
                    }
                }
            }
            i += 1;
        }
    }

    /// Epsilon-closure of one configuration into `configs`. At a rule stop
    /// the context is popped (an empty path marks the alternative as
    /// accepted); otherwise every epsilon-like edge is followed. Returns
    /// whether the configuration's alternative reached an accept state.
    #[verifier::loop_isolation(false)]
    fn closure<R: LexerRecog>(
        &mut self,
        config: ATNConfig,
        configs: &mut ATNConfigSet,
        current_alt_reached_accept_state: bool,
        speculative: bool,
        treat_eof_as_epsilon: bool,
        input: &mut InputStream,
        recog: &mut R,
        fuel: u64,
    ) -> (r: bool)
        requires
            old(self).wf(),
            old(self).mode < old(self).decision_to_dfa@.len(),
            old(input).inv(),
            old(configs).inv(),
            !old(configs).read_only,
            old(configs).full_ctx,
            config.wf_config(),
        ensures
            final(self).wf(),
            final(self).mode == old(self).mode,
            final(self).decision_to_dfa == old(self).decision_to_dfa,
            final(self).atn == old(self).atn,
            final(self).prev_accept == old(self).prev_accept,
            final(self).start_index == old(self).start_index,
            final(input).inv(),
            final(input).data == old(input).data,
            final(input).index == old(input).index,
            final(configs).inv(),
            !final(configs).read_only,
            final(configs).full_ctx,
            // the walk only grows the set
            forall|s2: int, a2: int|
                #![trigger final(configs).has_pair(s2, a2)]
                old(configs).has_pair(s2, a2) ==> final(configs).has_pair(s2, a2),
            // a rule stop with an exhausted chain accepts: the configuration
            // enters the set and the alternative is marked accepted
            (fuel > 0 && config.state < old(self).atn.states@.len() && old(self).atn.states@[config.state as int].state_type
                == ATNStateType::RuleStopState && (config.context matches Some(cc)
                && cc.spec_is_empty())) ==> (r == true && final(configs).has_pair(
                config.state as int,
                config.alt as int,
            )),
            // a state that can consume adds its own configuration, unless a
            // non-greedy path already accepted this alternative
            (fuel > 0 && config.state < old(self).atn.states@.len() && old(self).atn.states@[config.state as int].state_type
                != ATNStateType::RuleStopState && !old(self).atn.states@[config.state as int].epsilon_only_transitions
                && !(current_alt_reached_accept_state && config.spec_passed_non_greedy()))
                ==> final(configs).has_pair(config.state as int, config.alt as int),
            final(configs).configs@.len() >= old(configs).configs@.len(),
            // a freshly reported accept always left a configuration behind
            (r && !current_alt_reached_accept_state) ==> final(configs).configs@.len() > 0,
        decreases fuel,
    {
        if fuel == 0 {
            return current_alt_reached_accept_state;
        }
        let ghost init_accepted = current_alt_reached_accept_state;
        let mut current_alt_reached_accept_state = current_alt_reached_accept_state;
        let st = config.get_state();
        if st >= self.atn.states.len() {
            return current_alt_reached_accept_state;
        }
        let is_rule_stop = match self.atn.states[st].state_type {
            ATNStateType::RuleStopState => true,
            _ => false,
        };
        if is_rule_stop {
            // at a rule stop: an empty (or endable) chain accepts here,
            // and every concrete parent is popped and followed
            let ctx_ref = match &config.context {
                Some(b) => &**b,
                None => {
                    proof {
                        assert(false);
                    }
                    return current_alt_reached_accept_state;
                },
            };
            let has_empty = ctx_ref.has_empty_path();
            let is_empty = ctx_ref.is_empty();
            if has_empty {
                if is_empty {
                    configs.add(clone_config(&config));
                    return true;
                } else {
                    let empty_ctx = PredictionContext::new_empty_prediction_context();
                    let with_empty = {
                        let state_here = &self.atn.states[st];
                        config.cloned_with_new_ctx(state_here, Some(empty_ctx))
                    };
                    configs.add(with_empty);
                    current_alt_reached_accept_state = true;
                }
            }
            if !is_empty {
                let len = {
                    let ctx_ref2 = match &config.context {
                        Some(b) => &**b,
                        None => {
                            proof {
                                assert(false);
                            }
                            return current_alt_reached_accept_state;
                        },
                    };
                    ctx_ref2.length()
                };
                let mut i: usize = 0;
                while i < len
                    invariant
                        self.wf(),
                        self.mode == old(self).mode,
                        self.decision_to_dfa == old(self).decision_to_dfa,
                        self.atn == old(self).atn,
                        self.prev_accept == old(self).prev_accept,
                        self.start_index == old(self).start_index,
                        input.inv(),
                        input.data == old(input).data,
                        input.index == old(input).index,
                        configs.inv(),
                        !configs.read_only,
                        configs.full_ctx,
                        forall|s2: int, a2: int|
                            #![trigger configs.has_pair(s2, a2)]
                            old(configs).has_pair(s2, a2) ==> configs.has_pair(s2, a2),
                        configs.configs@.len() >= old(configs).configs@.len(),
                        (current_alt_reached_accept_state && !init_accepted)
                            ==> configs.configs@.len() > 0,
                        config.wf_config(),
                        st < self.atn.states@.len(),
                        self.mode < self.decision_to_dfa@.len(),
                        fuel > 0,
                        config.context matches Some(c) && len == c.spec_ret_states().len(),
                    decreases len - i,
                {
                    let (ret, parent) = {
                        let ctx_ref3 = match &config.context {
                            Some(b) => &**b,
                            None => {
                                proof {
                                    assert(false);
                                }
                                return current_alt_reached_accept_state;
                            },
                        };
                        let ret = ctx_ref3.get_return_state(i);
                        let parent: Option<PredictionContext> = match ctx_ref3.get_parent(i) {
                            Some(p) => Some(p.clone_ctx()),
                            None => None,
                        };
                        (ret, parent)
                    };
                    if ret != PREDICTION_CONTEXT_EMPTY_RETURN_STATE && ret >= 0 && (ret as usize)
                        < self.atn.states.len() {
                        // a parent is present for every non-sentinel entry
                        let parent_ctx = match parent {
                            Some(p) => p,
                            None => PredictionContext::new_empty_prediction_context(),
                        };
                        let next_config = {
                            let return_state = &self.atn.states[ret as usize];
                            config.cloned_with_new_ctx(return_state, Some(parent_ctx))
                        };
                        current_alt_reached_accept_state = self.closure(
                            next_config,
                            configs,
                            current_alt_reached_accept_state,
                            speculative,
                            treat_eof_as_epsilon,
                            input,
                            recog,
                            fuel - 1,
                        );
                    }
                    i += 1;
                }
            }
            return current_alt_reached_accept_state;
        }
        let ghost mut added_self: bool = false;
        if !self.atn.states[st].has_epsilon_only_transitions() {
            let passed_non_greedy = match &config.config_type {
                ATNConfigType::LexerATNConfig {
                    passed_through_non_greedy_decision: true,
                    ..
                } => true,
                _ => false,
            };
            if !current_alt_reached_accept_state || !passed_non_greedy {
                configs.add(clone_config(&config));
                proof {
                    added_self = true;
                }
            }
        }
        let ntrans = self.atn.states[st].transitions.len();
        let mut t: usize = 0;
        while t < ntrans
            invariant
                self.wf(),
                self.mode == old(self).mode,
                self.decision_to_dfa == old(self).decision_to_dfa,
                self.atn == old(self).atn,
                self.prev_accept == old(self).prev_accept,
                self.start_index == old(self).start_index,
                input.inv(),
                input.data == old(input).data,
                input.index == old(input).index,
                configs.inv(),
                !configs.read_only,
                configs.full_ctx,
                forall|s2: int, a2: int|
                    #![trigger configs.has_pair(s2, a2)]
                    old(configs).has_pair(s2, a2) ==> configs.has_pair(s2, a2),
                configs.configs@.len() >= old(configs).configs@.len(),
                (current_alt_reached_accept_state && !init_accepted)
                    ==> configs.configs@.len() > 0,
                added_self ==> configs.has_pair(config.state as int, config.alt as int),
                config.wf_config(),
                st < self.atn.states@.len(),
                self.mode < self.decision_to_dfa@.len(),
                ntrans == self.atn.states@[st as int].transitions@.len(),
                fuel > 0,
            decreases ntrans - t,
        {
            let c = self.get_epsilon_target(
                &config,
                st,
                t,
                configs,
                speculative,
                treat_eof_as_epsilon,
                input,
                recog,
            );
            match c {
                Some(c) => {
                    current_alt_reached_accept_state = self.closure(
                        c,
                        configs,
                        current_alt_reached_accept_state,
                        speculative,
                        treat_eof_as_epsilon,
                        input,
                        recog,
                        fuel - 1,
                    );
                },
                None => {},
            }
            t += 1;
        }
        current_alt_reached_accept_state
    }

    /// The configuration reached from `config` over the `t`-th transition
    /// of state `st`, when that transition can be taken without consuming
    /// input: epsilon and rule-call edges are followed, predicates are
    /// evaluated, actions are collected, and labelled edges pass only when
    /// end of input is treated as epsilon.
    fn get_epsilon_target<R: LexerRecog>(
        &mut self,
        config: &ATNConfig,
        st: usize,
        t: usize,
        configs: &mut ATNConfigSet,
        speculative: bool,
        treat_eof_as_epsilon: bool,
        input: &mut InputStream,
        recog: &mut R,
    ) -> (r: Option<ATNConfig>)
        requires
            old(self).wf(),
            old(self).mode < old(self).decision_to_dfa@.len(),
            st < old(self).atn.states@.len(),
            t < old(self).atn.states@[st as int].transitions@.len(),
            old(input).inv(),
            old(configs).inv(),
            !old(configs).read_only,
            old(configs).full_ctx,
            config.wf_config(),
        ensures
            final(self).wf(),
            final(self).mode == old(self).mode,
            final(self).decision_to_dfa == old(self).decision_to_dfa,
            final(self).atn == old(self).atn,
            final(self).prev_accept == old(self).prev_accept,
            final(self).start_index == old(self).start_index,
            final(input).inv(),
            final(input).data == old(input).data,
            final(input).index == old(input).index,
            final(configs).inv(),
            !final(configs).read_only,
            final(configs).full_ctx,
            forall|s2: int, a2: int|
                #![trigger final(configs).has_pair(s2, a2)]
                final(configs).has_pair(s2, a2) == old(configs).has_pair(s2, a2),
            final(configs).configs@.len() == old(configs).configs@.len(),
            r matches Some(c) ==> c.wf_config(),
            r matches Some(c) ==> c.alt == config.alt,
            // the edge kinds that always pass: an epsilon edge, a rule call
            // (pushing the follow state onto the chain), and an action edge
            old(self).atn.states@[st as int].transitions@[t as int] matches Transition::Epsilon {
                target,
                ..
            } ==> (r matches Some(c) && c.state == target),
            old(self).atn.states@[st as int].transitions@[t as int] matches Transition::Rule {
                target,
                follow_state,
                ..
            } ==> (r matches Some(c) && c.state == target && (c.context matches Some(cc)
                && cc.spec_ret_states() == Seq::<isize>::empty().push(follow_state as isize))),
            old(self).atn.states@[st as int].transitions@[t as int] matches Transition::Action {
                target,
                ..
            } ==> (r matches Some(c) && c.state == target),
            // a predicate edge passes only when the predicate holds; either
            // way the set is marked as carrying semantic context
            old(self).atn.states@[st as int].transitions@[t as int] matches Transition::Predicate {
                target,
                ..
            } ==> ((r matches Some(c) ==> c.state == target) && final(configs).has_semantic_context),
            // wildcard, not-set and precedence edges never pass here
            (old(self).atn.states@[st as int].transitions@[t as int] matches Transition::Wildcard {
                ..
            } || old(self).atn.states@[st as int].transitions@[t as int] matches
                Transition::NotTokenSet { .. } || old(self).atn.states@[st as int].transitions@[t as int] matches
                Transition::PrecedencePredicate { .. }) ==> r is None,
            // labelled edges pass only when end of input is treated as
            // epsilon and the label covers it
            (old(self).atn.states@[st as int].transitions@[t as int] matches Transition::Atom { .. }
                || old(self).atn.states@[st as int].transitions@[t as int] matches
                Transition::Range { .. } || old(self).atn.states@[st as int].transitions@[t as int] matches
                Transition::TokenSet { .. }) ==> {
                let tr = old(self).atn.states@[st as int].transitions@[t as int];
                if treat_eof_as_epsilon && tr.spec_matches(
                    EOF as int,
                    LEXER_MIN_CHAR_VALUE as int,
                    LEXER_MAX_CHAR_VALUE as int,
                ) {
                    r matches Some(c) && c.state == tr.spec_target()
                } else {
                    r is None
                }
            },
    {
        proof {
            assert(self.atn.states@[st as int].transitions@[t as int].wf(
                self.atn.states@.len() as int,
            ));
        }
        let kind_data = transition_summary(&self.atn.states[st].transitions[t]);
        match kind_data {
            TransitionSummary::Epsilon { target } => {
                let target_state = &self.atn.states[target];
                Some(config.cloned(target_state))
            },
            TransitionSummary::Rule { target, follow_state } => {
                let parent = match &config.context {
                    Some(b) => (**b).clone_ctx(),
                    None => {
                        proof {
                            assert(false);
                        }
                        PredictionContext::new_empty_prediction_context()
                    },
                };
                proof {
                    assert(PredictionContext::opt_cached_ok(Some(Box::new(parent))));
                }
                let pred_ctx = PredictionContext::new_singleton_prediction_context(
                    Some(Box::new(parent)),
                    follow_state as isize,
                );
                proof {
                    assert(pred_ctx.wf());
                }
                let target_state = &self.atn.states[target];
                Some(config.cloned_with_new_ctx(target_state, Some(pred_ctx)))
            },
            TransitionSummary::Predicate { target, rule_index, pred_index } => {
                configs.set_has_semantic_context(true);
                if self.evaluate_predicate(rule_index, pred_index, speculative, input, recog) {
                    let target_state = &self.atn.states[target];
                    Some(config.cloned(target_state))
                } else {
                    None
                }
            },
            TransitionSummary::Action { target, action_index } => {
                let has_empty = match &config.context {
                    Some(b) => (**b).has_empty_path(),
                    None => true,
                };
                let target_state = &self.atn.states[target];
                if has_empty {
                    let is_lexer_cfg = match &config.config_type {
                        ATNConfigType::LexerATNConfig { .. } => true,
                        _ => false,
                    };
                    if is_lexer_cfg && action_index >= 0 && (action_index as usize)
                        < self.atn.lexer_actions.len() {
                        let lexer_action = self.atn.lexer_actions[action_index as usize];
                        let old_exec = config.clone_lexer_executor();
                        let new_exec = LexerActionExecutor::new_copy_append(
                            old_exec.as_ref(),
                            lexer_action,
                        );
                        Some(config.cloned_with_new_exec(target_state, Some(new_exec)))
                    } else {
                        Some(config.cloned(target_state))
                    }
                } else {
                    Some(config.cloned(target_state))
                }
            },
            TransitionSummary::Labelled { target } => {
                if treat_eof_as_epsilon {
                    let matches_eof = {
                        let tr = &self.atn.states[st].transitions[t];
                        tr.matches(EOF, LEXER_MIN_CHAR_VALUE, LEXER_MAX_CHAR_VALUE)
                    };
                    if matches_eof {
                        let target_state = &self.atn.states[target];
                        Some(config.cloned(target_state))
                    } else {
                        None
                    }
                } else {
                    None
                }
            },
            TransitionSummary::Other => None,
        }
    }

    /// Evaluates a user predicate; a speculative evaluation consumes one
    /// character first and restores the stream and position afterwards.
    fn evaluate_predicate<R: LexerRecog>(
        &mut self,
        rule_index: isize,
        pred_index: isize,
        speculative: bool,
        input: &mut InputStream,
        recog: &mut R,
    ) -> (r: bool)
        requires
            old(self).wf(),
            old(input).inv(),
        ensures
            final(self).wf(),
            final(self).mode == old(self).mode,
            final(self).decision_to_dfa == old(self).decision_to_dfa,
            final(self).atn == old(self).atn,
            final(self).prev_accept == old(self).prev_accept,
            final(self).start_index == old(self).start_index,
            final(self).line == old(self).line,
            final(self).char_position_in_line == old(self).char_position_in_line,
            final(input).inv(),
            final(input).data == old(input).data,
            final(input).index == old(input).index,
    {
        if !speculative {
            return recog.sempred(rule_index, pred_index);
        }
        let saved_column = self.char_position_in_line;
        let saved_line = self.line;
        let index = input.index();
        let marker = input.mark();
        self.consume(input);
        let result = recog.sempred(rule_index, pred_index);
        self.char_position_in_line = saved_column;
        self.line = saved_line;
        if index <= 0x3fff_ffff {
            input.seek(index as isize);
        }
        input.release(marker);
        result
    }

    /// Snapshots the position if `dfa_state` is accepting; the snapshot is
    /// what `fail_or_accept` later rolls back to.
    fn capture_sim_state(&mut self, input: &InputStream, dfa_state: DFAStateRef) -> (r: bool)
        requires
            old(self).wf(),
            old(self).mode < old(self).decision_to_dfa@.len(),
            dfa_state < old(self).decision_to_dfa@[old(self).mode as int].states@.len(),
            input.inv(),
        ensures
            final(self).wf(),
            final(self).mode == old(self).mode,
            final(self).decision_to_dfa == old(self).decision_to_dfa,
            final(self).atn == old(self).atn,
            final(self).start_index == old(self).start_index,
            r == final(self).decision_to_dfa@[final(self).mode as int].states@[dfa_state as int].is_accept_state,
            r ==> final(self).prev_accept.dfa_state == Some(dfa_state) && final(self).prev_accept.index >= 0,
            !r ==> final(self).prev_accept == old(self).prev_accept,
    {
        if self.decision_to_dfa[self.mode].states[dfa_state].is_accept_state {
            let idx = input.index();
            self.prev_accept = SimState {
                index: if idx <= 0x3fff_ffff {
                    idx as isize
                } else {
                    0x3fff_ffff
                },
                line: self.line,
                column: self.char_position_in_line,
                dfa_state: Some(dfa_state),
            };
            true
        } else {
            false
        }
    }

    /// Commits the match: with an accepting snapshot, rolls the stream and
    /// position back to it and returns that state's token type and
    /// actions; with none, end of input at the token start yields the
    /// end-of-input type, and anything else is a no-viable-alternative
    /// error.
    fn fail_or_accept(&mut self, symbol: isize, input: &mut InputStream) -> (r: Result<
        (isize, Option<LexerActionExecutor>),
        ANTLRError,
    >)
        requires
            old(self).wf(),
            old(self).mode < old(self).decision_to_dfa@.len(),
            old(self).prev_accept.dfa_state matches Some(d) ==> d < old(self).decision_to_dfa@[old(self).mode as int].states@.len() && old(self).decision_to_dfa@[old(self).mode as int].states@[d as int].is_accept_state
                && old(self).prev_accept.index >= 0,
            old(input).inv(),
        ensures
            final(self).wf(),
            final(self).mode == old(self).mode,
            final(input).inv(),
            final(input).data == old(input).data,
            r matches Ok(p) ==> (p.0 == TOKEN_EOF || final(self).token_type_in_tables(p.0)),
            // with an accepting snapshot the match commits to it: its state's
            // prediction and actions come back and the position rolls back
            old(self).prev_accept.dfa_state matches Some(d) ==> (r matches Ok(p) && {
                let st = old(self).decision_to_dfa@[old(self).mode as int].states@[d as int];
                &&& p.0 == st.prediction
                &&& (match (p.1, st.lexer_action_executor) {
                    (Option::Some(e), Option::Some(b)) => e.actions@ == b.actions@,
                    (Option::None, Option::None) => true,
                    _ => false,
                })
                &&& final(input).index == (if old(self).prev_accept.index as int
                    <= old(input).data@.len() as int {
                    old(self).prev_accept.index as int
                } else {
                    old(input).data@.len() as int
                })
                &&& final(self).line == old(self).prev_accept.line
                &&& final(self).char_position_in_line == old(self).prev_accept.column
            }),
            // with none, end of input at the token start yields the
            // end-of-input type; anything else is the no-viable error
            old(self).prev_accept.dfa_state is None && symbol == EOF && old(input).index == old(self).start_index ==> (r matches Ok(p) && p.0 == TOKEN_EOF),
            old(self).prev_accept.dfa_state is None && !(symbol == EOF && old(input).index == old(self).start_index) ==> (r matches Err(e) && e matches ANTLRError::LexerNoAltError { .. }),
    {
        let acc = self.prev_accept.dfa_state;
        match acc {
            Some(state) => {
                let mode = self.mode;
                let prediction = self.decision_to_dfa[mode].states[state].prediction;
                let exec: Option<LexerActionExecutor> = match &self.decision_to_dfa[mode].states[state].lexer_action_executor {
                    Some(b) => Some(b.clone_exec()),
                    None => None,
                };
                proof {
                    assert(self.decision_to_dfa@[mode as int].states@[state as int].is_accept_state);
                    assert(dfa_accept_ok(
                        self.decision_to_dfa@[mode as int],
                        self.atn.rule_to_token_type@,
                    ));
                }
                input.seek(self.prev_accept.index);
                self.line = self.prev_accept.line;
                self.char_position_in_line = self.prev_accept.column;
                Ok((prediction, exec))
            },
            None => {
                if symbol == EOF && input.index() == self.start_index {
                    return Ok((TOKEN_EOF, None));
                }
                let si = self.start_index;
                Err(
                    ANTLRError::LexerNoAltError {
                        start_index: if si <= 0x3fff_ffff {
                            si as isize
                        } else {
                            0x3fff_ffff
                        },
                    },
                )
            },
        }
    }

    /// Closes over each outgoing alternative of the mode start state,
    /// numbering the alternatives from one.
    #[verifier::loop_isolation(false)]
    fn compute_start_state<R: LexerRecog>(
        &mut self,
        p: usize,
        input: &mut InputStream,
        recog: &mut R,
    ) -> (r: ATNConfigSet)
        requires
            old(self).wf(),
            old(self).mode < old(self).decision_to_dfa@.len(),
            p < old(self).atn.states@.len(),
            old(input).inv(),
        ensures
            final(self).wf(),
            final(self).mode == old(self).mode,
            final(self).decision_to_dfa == old(self).decision_to_dfa,
            final(self).atn == old(self).atn,
            final(self).prev_accept == old(self).prev_accept,
            final(self).start_index == old(self).start_index,
            final(input).inv(),
            final(input).data == old(input).data,
            r.inv(),
            !r.read_only,
    {
        let mut config_set = ATNConfigSet::new_ordered_atnconfig_set();
        let ntrans = self.atn.states[p].transitions.len();
        let mut i: usize = 0;
        while i < ntrans
            invariant
                self.wf(),
                self.mode == old(self).mode,
                self.decision_to_dfa == old(self).decision_to_dfa,
                self.atn == old(self).atn,
                self.mode < self.decision_to_dfa@.len(),
                self.prev_accept == old(self).prev_accept,
                self.start_index == old(self).start_index,
                p < self.atn.states@.len(),
                ntrans == self.atn.states@[p as int].transitions@.len(),
                input.inv(),
                input.data == old(input).data,
                config_set.inv(),
                !config_set.read_only,
                config_set.full_ctx,
                i <= 65534,
            decreases ntrans - i,
        {
            if i >= 65534 {
                break ;
            }
            proof {
                assert(self.atn.states@[p as int].transitions@[i as int].wf(
                    self.atn.states@.len() as int,
                ));
            }
            let target = {
                let tr = &self.atn.states[p].transitions[i];
                tr.get_target()
            };
            let empty_ctx = PredictionContext::new_empty_prediction_context();
            let atn_config = ATNConfig::new_lexer_atnconfig6(target, (i + 1) as isize, empty_ctx);
            self.closure(
                atn_config,
                &mut config_set,
                false,
                false,
                false,
                input,
                recog,
                closure_fuel(self.atn.states.len()),
            );
            i += 1;
        }
        config_set
    }

    /// Builds a DFA state from a closed config set and interns it: if some
    /// configuration stops a rule, the state accepts with that rule's token
    /// type and collected actions.
    #[verifier::loop_isolation(false)]
    fn add_dfastate_from_configs(&mut self, configs: ATNConfigSet) -> (r: DFAStateRef)
        requires
            old(self).wf(),
            old(self).mode < old(self).decision_to_dfa@.len(),
            configs.inv(),
        ensures
            final(self).wf(),
            final(self).mode == old(self).mode,
            final(self).atn == old(self).atn,
            final(self).decision_to_dfa@.len() == old(self).decision_to_dfa@.len(),
            final(self).prev_accept == old(self).prev_accept,
            final(self).start_index == old(self).start_index,
            r < final(self).decision_to_dfa@[final(self).mode as int].states@.len(),
            final(self).decision_to_dfa@[final(self).mode as int].states@.len() >= old(self).decision_to_dfa@[old(self).mode as int].states@.len(),
            forall|i: int|
                0 <= i < old(self).decision_to_dfa@[old(self).mode as int].states@.len() ==> (
                #[trigger] final(self).decision_to_dfa@[final(self).mode as int].states@[i])
                    == old(self).decision_to_dfa@[old(self).mode as int].states@[i],
            forall|d: int|
                0 <= d < old(self).decision_to_dfa@.len() && d != old(self).mode ==> (
                #[trigger] final(self).decision_to_dfa@[d]) == old(self).decision_to_dfa@[d],
            crate::atn_config_set::sets_cequal(
                final(self).decision_to_dfa@[final(self).mode as int].states@[r as int].configs,
                configs,
            ),
            accept_info_coherent(
                final(self).atn,
                final(self).decision_to_dfa@[final(self).mode as int].states@[r as int],
            ),
    {
        // find the first configuration that stops a rule
        let n = configs.length();
        let mut found = false;
        let mut i: usize = 0;
        while i < n && !found
            invariant
                self.wf(),
                0 <= i <= n,
                n == configs.configs@.len(),
                configs.inv(),
                forall|j: int|
                    0 <= j < i ==> !stops_rule(self.atn, #[trigger] configs.configs@[j]),
                found ==> i < n && stops_rule(self.atn, configs.configs@[i as int]),
            decreases n - i, (if found {
                0int
            } else {
                1int
            }),
        {
            let cst = configs.get_items()[i].get_state();
            let mut stops_here = false;
            if cst < self.atn.states.len() {
                let stops = match self.atn.states[cst].state_type {
                    ATNStateType::RuleStopState => true,
                    _ => false,
                };
                if stops {
                    let ri = self.atn.states[cst].rule_index;
                    if ri >= 0 && (ri as usize) < self.atn.rule_to_token_type.len() {
                        stops_here = true;
                    }
                }
            }
            if stops_here {
                found = true;
            } else {
                proof {
                    assert(!stops_rule(self.atn, configs.configs@[i as int]));
                }
                i += 1;
            }
        }
        let ghost first_stop: int = i as int;
        let mut accept_info: Option<(isize, Option<LexerActionExecutor>)> = None;
        if found {
            let cst = configs.get_items()[i].get_state();
            let ri = self.atn.states[cst].rule_index;
            let prediction = self.atn.rule_to_token_type[ri as usize];
            let exec = configs.get_items()[i].clone_lexer_executor();
            proof {
                assert(self.token_type_in_tables(prediction)) by {
                    assert(self.atn.rule_to_token_type@[ri as int] == prediction);
                }
            }
            accept_info = Some((prediction, exec));
        }
        let ghost gconfigs = configs;
        proof {
            if !found {
                assert forall|j: int|
                    0 <= j < gconfigs.configs@.len() implies !stops_rule(
                    self.atn,
                    #[trigger] gconfigs.configs@[j],
                ) by {
                    assert(gconfigs.configs@[j] == configs.configs@[j]);
                    assert(!stops_rule(self.atn, configs.configs@[j]));
                }
            } else {
                assert(stops_rule(self.atn, gconfigs.configs@[first_stop]));
                assert forall|j: int| 0 <= j < first_stop implies !stops_rule(
                    self.atn,
                    #[trigger] gconfigs.configs@[j],
                ) by {
                    assert(gconfigs.configs@[j] == configs.configs@[j]);
                    assert(!stops_rule(self.atn, configs.configs@[j]));
                }
            }
        }
        let ghost acc = accept_info;
        proof {
            assert(acc is Some <==> found);
        }
        let mut dfastate = DFAState::new_dfastate(usize::MAX, configs);
        match accept_info {
            Some((prediction, exec)) => {
                dfastate.prediction = prediction;
                dfastate.lexer_action_executor = match exec {
                    Some(e) => Some(Box::new(e)),
                    None => None,
                };
                dfastate.is_accept_state = true;
            },
            None => {},
        }
        proof {
            // the built state is accept-coherent with its own config set
            assert(dfastate.configs == gconfigs);
            assert(accept_info_coherent(self.atn, dfastate)) by {
                match acc {
                    Option::Some(p) => {
                        assert(stops_rule(self.atn, gconfigs.configs@[first_stop]));
                        assert(dfastate.configs.configs@[first_stop] == gconfigs.configs@[first_stop]);
                        assert(stops_rule(self.atn, dfastate.configs.configs@[first_stop]));
                        assert forall|j: int| 0 <= j < first_stop implies !stops_rule(
                            self.atn,
                            #[trigger] dfastate.configs.configs@[j],
                        ) by {
                            assert(!stops_rule(self.atn, gconfigs.configs@[j]));
                            assert(dfastate.configs.configs@[j] == gconfigs.configs@[j]);
                        }
                        assert(dfastate.prediction
                            == self.atn.rule_to_token_type@[self.atn.states@[dfastate.configs.configs@[first_stop].state as int].rule_index as int]);
                        assert(plain_exec_matches_config(p.1, gconfigs.configs@[first_stop]));
                        assert(exec_matches_config(
                            dfastate.lexer_action_executor,
                            dfastate.configs.configs@[first_stop],
                        ));
                        assert(0 <= first_stop < dfastate.configs.configs@.len());
                    },
                    Option::None => {
                        assert forall|j: int|
                            0 <= j < dfastate.configs.configs@.len() implies !stops_rule(
                            self.atn,
                            #[trigger] dfastate.configs.configs@[j],
                        ) by {
                            assert(dfastate.configs.configs@[j] == gconfigs.configs@[j]);
                        }
                    },
                }
            }
        }
        let ghost gstate = dfastate;
        let mode = self.mode;
        let ghost prev_self = *self;
        let dfa = &mut self.decision_to_dfa[mode];
        let idx = dfa.add_dfastate(dfastate);
        proof {
            assert forall|d: int|
                0 <= d < self.decision_to_dfa@.len() implies (
            #[trigger] self.decision_to_dfa@[d]).inv() && dfa_accept_ok(
                self.decision_to_dfa@[d],
                self.atn.rule_to_token_type@,
            ) && dfa_coherent(self.atn, self.decision_to_dfa@[d]) by {
                if d != mode {
                    assert(self.decision_to_dfa@[d] == prev_self.decision_to_dfa@[d]);
                } else {
                    let cur = self.decision_to_dfa@[d];
                    let prev = prev_self.decision_to_dfa@[d];
                    assert forall|i2: int|
                        0 <= i2 < cur.states@.len() && (
                    #[trigger] cur.states@[i2]).is_accept_state implies exists|rr: int|
                        0 <= rr < self.atn.rule_to_token_type@.len() && cur.states@[i2].prediction
                            == self.atn.rule_to_token_type@[rr] by {
                        if i2 < prev.states@.len() {
                            assert(cur.states@[i2] == prev.states@[i2]);
                        } else {
                            // the fresh state carries the found accept info
                            assert(cur.states@.len() == prev.states@.len() + 1);
                            assert(i2 == idx as int);
                            assert(acc is Some);
                            match acc {
                                Option::Some(p) => {
                                    assert(cur.states@[i2].prediction == p.0);
                                    assert(self.token_type_in_tables(p.0));
                                },
                                Option::None => {},
                            }
                        }
                    }
                    assert forall|i2: int|
                        0 <= i2 < cur.states@.len() implies accept_info_coherent(
                        self.atn,
                        #[trigger] cur.states@[i2],
                    ) by {
                        if i2 < prev.states@.len() {
                            assert(cur.states@[i2] == prev.states@[i2]);
                            assert(accept_info_coherent(self.atn, prev.states@[i2]));
                        } else {
                            assert(i2 == idx as int);
                            assert(cur.states@[i2].is_accept_state == gstate.is_accept_state);
                            assert(cur.states@[i2].prediction == gstate.prediction);
                            assert(cur.states@[i2].lexer_action_executor
                                == gstate.lexer_action_executor);
                            assert(cur.states@[i2].configs.configs@ == gstate.configs.configs@);
                            assert(accept_info_coherent(self.atn, gstate));
                        }
                    }
                }
            }
            // the interned state holds an equal set and is coherent
            assert(crate::atn_config_set::sets_cequal(
                self.decision_to_dfa@[mode as int].states@[idx as int].configs,
                gconfigs,
            )) by {
                assert(gstate.configs == gconfigs);
            }
        }
        idx
    }
}

/// The parts of a transition the epsilon walk dispatches on.
enum TransitionSummary {
    Epsilon { target: usize },
    Rule { target: usize, follow_state: usize },
    Predicate { target: usize, rule_index: isize, pred_index: isize },
    Action { target: usize, action_index: isize },
    Labelled { target: usize },
    Other,
}

/// Reads the dispatch-relevant fields out of a transition.
fn transition_summary(tr: &Transition) -> (r: TransitionSummary)
    ensures
        match r {
            TransitionSummary::Epsilon { target } => *tr matches Transition::Epsilon { .. }
                && target == tr.spec_target(),
            TransitionSummary::Rule { target, follow_state } => *tr matches Transition::Rule {
                target: t2,
                follow_state: f2,
                ..
            } && target == t2 && follow_state == f2,
            TransitionSummary::Predicate { target, rule_index, pred_index } => *tr matches
                Transition::Predicate { target: t2, rule_index: r2, pred_index: p2, .. } && target
                == t2 && rule_index == r2 && pred_index == p2,
            TransitionSummary::Action { target, action_index } => *tr matches Transition::Action {
                target: t2,
                action_index: a2,
                ..
            } && target == t2 && action_index == a2,
            TransitionSummary::Labelled { target } => (*tr matches Transition::Range { .. } || *tr
                matches Transition::TokenSet { .. } || *tr matches Transition::Atom { .. })
                && target == tr.spec_target(),
            TransitionSummary::Other => (*tr matches Transition::Wildcard { .. } || *tr matches
                Transition::NotTokenSet { .. } || *tr matches Transition::PrecedencePredicate {
                ..
            }),
        },
{
    match tr {
        Transition::Epsilon { target, .. } => TransitionSummary::Epsilon { target: *target },
        Transition::Rule { target, follow_state, .. } => TransitionSummary::Rule {
            target: *target,
            follow_state: *follow_state,
        },
        Transition::Predicate { target, rule_index, pred_index, .. } => TransitionSummary::Predicate {
            target: *target,
            rule_index: *rule_index,
            pred_index: *pred_index,
        },
        Transition::Action { target, action_index, .. } => TransitionSummary::Action {
            target: *target,
            action_index: *action_index,
        },
        Transition::Range { target, .. } => TransitionSummary::Labelled { target: *target },
        Transition::TokenSet { target, .. } => TransitionSummary::Labelled { target: *target },
        Transition::Atom { target, .. } => TransitionSummary::Labelled { target: *target },
        _ => TransitionSummary::Other,
    }
}

/// A full copy of a configuration.
pub fn clone_config(c: &ATNConfig) -> (r: ATNConfig)
    requires
        c.wf_config(),
    ensures
        r.wf_config(),
        r.state == c.state,
        r.alt == c.alt,
        r.semantic_context == c.semantic_context,
        r.reaches_into_outer_context == c.reaches_into_outer_context,
        r.precedence_filter_suppressed == c.precedence_filter_suppressed,
{
    let ctx = match &c.context {
        Some(b) => {
            let cl = (**b).clone_ctx();
            Some(Box::new(cl))
        },
        None => None,
    };
    let sem = match &c.semantic_context {
        Some(b) => Some(Box::new(**b)),
        None => None,
    };
    let config_type = match &c.config_type {
        ATNConfigType::BaseATNConfig => ATNConfigType::BaseATNConfig,
        ATNConfigType::LexerATNConfig {
            lexer_action_executor,
            passed_through_non_greedy_decision,
        } => {
            let exec = match lexer_action_executor {
                Some(b) => Some(Box::new(b.clone_exec())),
                None => None,
            };
            ATNConfigType::LexerATNConfig {
                lexer_action_executor: exec,
                passed_through_non_greedy_decision: *passed_through_non_greedy_decision,
            }
        },
    };
    ATNConfig {
        precedence_filter_suppressed: c.precedence_filter_suppressed,
        state: c.state,
        alt: c.alt,
        context: ctx,
        semantic_context: sem,
        reaches_into_outer_context: c.reaches_into_outer_context,
        config_type,
    }
}

/// The consumption offset `a - b`, clamped to a representable range.
fn sub_clamped(a: usize, b: usize) -> (r: isize)
    ensures
        r >= 0,
{
    if a >= b {
        let d = a - b;
        if d <= 0x3fff_ffff {
            d as isize
        } else {
            0x3fff_ffff
        }
    } else {
        0
    }
}

/// The recursion budget of the epsilon walk, generous enough for any
/// network a grammar produces.
fn closure_fuel(nstates: usize) -> (r: u64)
    ensures
        r > 0,
{
    if nstates < 1000000 {
        let base: u64 = (nstates as u64) + 2;
        proof {
            assert(base * base * 16 < 0xffff_ffff_ffff_0000) by (nonlinear_arith)
                requires
                    base <= 1000001,
            ;
            assert(base * base * 16 > 0) by (nonlinear_arith)
                requires
                    base >= 2,
            ;
        }
        base * base * 16
    } else {
        0xffff_ffff_ffff_0000u64
    }
}

} // verus!

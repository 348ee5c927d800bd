//! The per-decision (or per-lexer-mode) DFA cache: states interned by
//! config-set equality, a dense edge table per state over the cached symbol
//! range, and the start-state slot.

use vstd::prelude::*;
use std::collections::HashMap;
use crate::atn_config_set::lemma_sets_cequal_refl;
use crate::atn_config_set::sets_cequal;
use crate::atn_config_set::ATNConfigSet;
use crate::lexer_action_executor::LexerActionExecutor;

verus! {

broadcast use vstd::std_specs::hash::group_hash_axioms;

/// The sentinel index standing for the error state.
pub const ERROR_DFA_STATE_REF: usize = usize::MAX;

/// Smallest input symbol with a dense edge slot.
pub const MIN_DFA_EDGE: isize = 0;

/// Largest input symbol with a dense edge slot.
pub const MAX_DFA_EDGE: isize = 127;

/// An index into a DFA's state vector.
pub type DFAStateRef = usize;

/// One cached deterministic state: a closed config set, the dense edge
/// table, and the accept information.
pub struct DFAState {
    pub state_number: usize,
    pub configs: ATNConfigSet,
    /// Dense edges over `[MIN_DFA_EDGE, MAX_DFA_EDGE]`; 0 means no edge and
    /// the sentinel means the error state.
    pub edges: Vec<usize>,
    pub is_accept_state: bool,
    /// The chosen alternative; for a lexer, the token type.
    pub prediction: isize,
    pub lexer_action_executor: Option<Box<LexerActionExecutor>>,
}

impl DFAState {
    pub fn new_dfastate(state_number: usize, configs: ATNConfigSet) -> (r: DFAState)
        ensures
            r.state_number == state_number,
            r.configs == configs,
            r.edges@.len() == 0,
            !r.is_accept_state,
            r.prediction == 0,
            r.lexer_action_executor is None,
    {
        DFAState {
            state_number,
            configs,
            edges: Vec::new(),
            is_accept_state: false,
            prediction: 0,
            lexer_action_executor: None,
        }
    }
}

/// A deterministic digest of a config set, used only to pick the intern
/// bucket; states within a bucket are compared structurally.
fn configs_hash(set: &ATNConfigSet) -> (r: u64)
{
    let n = set.configs.len();
    let mut words: Vec<u32> = Vec::new();
    let mut i: usize = 0;
    while i < n
        invariant
            n == set.configs@.len(),
        decreases n - i,
    {
        let c = &set.configs[i];
        words.push(#[verifier::truncate] (c.state as u32));
        words.push(#[verifier::truncate] (c.alt as u32));
        match &c.context {
            Some(b) => {
                words.push(b.hash_code());
            },
            None => {
                words.push(0);
            },
        }
        i += 1;
    }
    crate::prediction_context::murmur_hash_words(&words) as u64
}

/// The DFA grown for one decision point or lexer mode.
pub struct DFA {
    /// The ATN state this DFA simulates from.
    pub atn_start_state: usize,
    pub decision: isize,
    pub states: Vec<DFAState>,
    /// Buckets of state indices by config-set digest.
    pub states_map: HashMap<u64, Vec<usize>>,
    pub s0: Option<DFAStateRef>,
    pub is_precedence_dfa: bool,
}

impl DFA {
    /// Shape constraints: state numbers are indices, every edge and bucket
    /// entry and the start slot point inside the state vector (or at the
    /// error sentinel), and every installed config set is frozen and well
    /// formed.
    pub open spec fn inv(self) -> bool {
        let n = self.states@.len() as int;
        &&& forall|i: int| 0 <= i < n ==> (#[trigger] self.states@[i]).state_number == i
        &&& forall|i: int|
            0 <= i < n ==> (#[trigger] self.states@[i]).configs.inv() && self.states@[i].configs.read_only
        &&& forall|i: int, e: int|
            0 <= i < n && 0 <= e < (#[trigger] self.states@[i]).edges@.len() ==> ((
            #[trigger] self.states@[i].edges@[e]) < n || self.states@[i].edges@[e]
                == ERROR_DFA_STATE_REF)
        &&& forall|k: u64, b: int|
            #[trigger] self.states_map@.contains_key(k) && 0 <= b
                < self.states_map@[k]@.len() ==> (#[trigger] self.states_map@[k]@[b]) < n
        &&& match self.s0 {
            Option::Some(s) => s < n,
            Option::None => true,
        }
    }

    pub fn new(atn_start_state: usize, decision: isize) -> (r: DFA)
        ensures
            r.inv(),
            r.states@.len() == 0,
            r.s0 is None,
            r.atn_start_state == atn_start_state,
            r.decision == decision,
            !r.is_precedence_dfa,
    {
        DFA {
            atn_start_state,
            decision,
            states: Vec::new(),
            states_map: HashMap::new(),
            s0: None,
            is_precedence_dfa: false,
        }
    }

    pub fn num_states(&self) -> (r: usize)
        ensures
            r == self.states@.len(),
    {
        self.states.len()
    }

    /// Interns a state: an existing state holding a structurally equal
    /// config set is reused; otherwise the given state is appended, frozen,
    /// and numbered with its index.
    #[verifier::loop_isolation(false)]
    pub fn add_dfastate(&mut self, st: DFAState) -> (r: DFAStateRef)
        requires
            old(self).inv(),
            st.configs.inv(),
            st.edges@.len() == 0,
        ensures
            final(self).inv(),
            r < final(self).states@.len(),
            final(self).states@.len() >= old(self).states@.len(),
            final(self).states@.len() <= old(self).states@.len() + 1,
            forall|i: int|
                0 <= i < old(self).states@.len() ==> (#[trigger] final(self).states@[i]) == old(self).states@[i],
            final(self).s0 == old(self).s0,
            final(self).atn_start_state == old(self).atn_start_state,
            final(self).decision == old(self).decision,
            final(self).is_precedence_dfa == old(self).is_precedence_dfa,
            final(self).states@.len() == old(self).states@.len() + 1 ==> {
                &&& r == old(self).states@.len()
                &&& final(self).states@[r as int].is_accept_state == st.is_accept_state
                &&& final(self).states@[r as int].prediction == st.prediction
                &&& final(self).states@[r as int].lexer_action_executor
                    == st.lexer_action_executor
                &&& final(self).states@[r as int].configs.configs@ == st.configs.configs@
                &&& final(self).states@[r as int].edges@.len() == 0
            },
            final(self).states@.len() == old(self).states@.len() ==> r < old(self).states@.len(),
            // either way, the result holds a structurally equal config set
            sets_cequal(final(self).states@[r as int].configs, st.configs),
    {
        let h = configs_hash(&st.configs);
        let bucket: Option<usize> = match self.states_map.get(&h) {
            Some(b) => {
                let m = b.len();
                let mut j: usize = 0;
                let mut found: Option<usize> = None;
                while j < m
                    invariant
                        m == b@.len(),
                        0 <= j <= m,
                        self.inv(),
                        forall|q: int|
                            0 <= q < b@.len() ==> (#[trigger] b@[q]) < self.states@.len(),
                        match found {
                            Option::Some(f) => f < self.states@.len() && sets_cequal(
                                self.states@[f as int].configs,
                                st.configs,
                            ),
                            Option::None => true,
                        },
                    decreases m - j,
                {
                    let cand = b[j];
                    if self.states[cand].configs.equals(&st.configs) {
                        found = Some(cand);
                        break ;
                    }
                    j += 1;
                }
                found
            },
            None => None,
        };
        match bucket {
            Some(i) => {
                i
            },
            None => {
                let idx = self.states.len();
                let mut st = st;
                st.state_number = idx;
                st.configs.set_read_only(true);
                self.states.push(st);
                // record the new index in the digest bucket
                let existing: Option<Vec<usize>> = match self.states_map.get(&h) {
                    Some(b) => {
                        let m = b.len();
                        let mut copy: Vec<usize> = Vec::new();
                        let mut j: usize = 0;
                        while j < m
                            invariant
                                m == b@.len(),
                                0 <= j <= m,
                                copy@.len() == j,
                                forall|q: int|
                                    0 <= q < b@.len() ==> (#[trigger] b@[q]) < self.states@.len(),
                                forall|q: int|
                                    0 <= q < j ==> (#[trigger] copy@[q]) < self.states@.len(),
                            decreases m - j,
                        {
                            copy.push(b[j]);
                            j += 1;
                        }
                        Some(copy)
                    },
                    None => None,
                };
                let mut bucket_vec: Vec<usize> = match existing {
                    Some(v) => v,
                    None => Vec::new(),
                };
                bucket_vec.push(idx);
                self.states_map.insert(h, bucket_vec);
                proof {
                    assert forall|k: u64, b2: int|
                        #[trigger] self.states_map@.contains_key(k) && 0 <= b2
                            < self.states_map@[k]@.len() implies (#[trigger] self.states_map@[k]@[b2])
                        < self.states@.len() as int by {
                        if k != h {
                            assert(old(self).states_map@.contains_key(k));
                        }
                    }
                    lemma_sets_cequal_refl(self.states@[idx as int].configs, st.configs);
                }
                idx
            },
        }
    }

    /// The existing outgoing edge of `from` on `sym`, if one was cached;
    /// symbols outside the dense range have no cached edges.
    pub fn get_existing_target_state(&self, from: DFAStateRef, sym: isize) -> (r: Option<
        DFAStateRef,
    >)
        requires
            self.inv(),
            from < self.states@.len(),
        ensures
            match r {
                Option::Some(t) => t < self.states@.len() || t == ERROR_DFA_STATE_REF,
                Option::None => true,
            },
    {
        if sym < MIN_DFA_EDGE || sym > MAX_DFA_EDGE {
            return None;
        }
        let slot = (sym - MIN_DFA_EDGE) as usize;
        let edges = &self.states[from].edges;
        if slot >= edges.len() {
            return None;
        }
        let t = edges[slot];
        if t == 0 {
            None
        } else {
            Some(t)
        }
    }

    /// Caches the edge `from -sym-> to`; symbols outside the dense range
    /// are not cached.
    #[verifier::loop_isolation(false)]
    pub fn add_dfaedge(&mut self, from: DFAStateRef, sym: isize, to: DFAStateRef)
        requires
            old(self).inv(),
            from < old(self).states@.len(),
            to < old(self).states@.len() || to == ERROR_DFA_STATE_REF,
        ensures
            final(self).inv(),
            final(self).states@.len() == old(self).states@.len(),
            final(self).s0 == old(self).s0,
            forall|i: int|
                0 <= i < old(self).states@.len() && i != from ==> (#[trigger] final(self).states@[i]) == old(self).states@[i],
            final(self).states@[from as int].is_accept_state == old(self).states@[from as int].is_accept_state,
            final(self).states@[from as int].prediction == old(self).states@[from as int].prediction,
            final(self).states@[from as int].lexer_action_executor == old(self).states@[from as int].lexer_action_executor,
            final(self).states@[from as int].configs == old(self).states@[from as int].configs,
    {
        if sym < MIN_DFA_EDGE || sym > MAX_DFA_EDGE {
            return ;
        }
        let slot = (sym - MIN_DFA_EDGE) as usize;
        let width = (MAX_DFA_EDGE - MIN_DFA_EDGE + 1) as usize;
        let st = &mut self.states[from];
        if st.edges.len() < width {
            let mut j: usize = st.edges.len();
            while j < width
                invariant
                    j == st.edges@.len(),
                    j <= width,
                    forall|e: int|
                        0 <= e < j ==> ((#[trigger] st.edges@[e]) < old(self).states@.len()
                            || st.edges@[e] == ERROR_DFA_STATE_REF || st.edges@[e] == 0),
                    st.state_number == old(self).states@[from as int].state_number,
                    st.configs == old(self).states@[from as int].configs,
                    st.is_accept_state == old(self).states@[from as int].is_accept_state,
                    st.prediction == old(self).states@[from as int].prediction,
                    st.lexer_action_executor == old(self).states@[from as int].lexer_action_executor,
                decreases width - j,
            {
                st.edges.push(0);
                j += 1;
            }
        }
        if slot < st.edges.len() {
            st.edges.set(slot, to);
        }
        proof {
            let n = self.states@.len() as int;
            assert forall|i: int| 0 <= i < n implies {
                &&& (#[trigger] self.states@[i]).state_number == i
                &&& self.states@[i].configs.inv()
                &&& self.states@[i].configs.read_only
            } by {
                if i != from {
                    assert(self.states@[i] == old(self).states@[i]);
                } else {
                    assert(self.states@[i].state_number == old(self).states@[i].state_number);
                    assert(self.states@[i].configs == old(self).states@[i].configs);
                }
                assert(old(self).states@[i].state_number == i);
                assert(old(self).states@[i].configs.inv());
            }
            assert forall|i: int, e: int|
                0 <= i < n && 0 <= e < (#[trigger] self.states@[i]).edges@.len() implies ((
            #[trigger] self.states@[i].edges@[e]) < n || self.states@[i].edges@[e]
                == ERROR_DFA_STATE_REF) by {
                if i != from {
                    assert(self.states@[i] == old(self).states@[i]);
                } else {
                    if self.states@[i].edges@[e] == 0 {
                        assert(n > 0);
                    }
                }
            }
        }
    }

    /// Sets the start state.
    pub fn set_s0(&mut self, s: DFAStateRef)
        requires
            old(self).inv(),
            s < old(self).states@.len(),
        ensures
            final(self).inv(),
            *final(self) == (DFA { s0: Some(s), ..*old(self) }),
    {
        self.s0 = Some(s);
    }

    pub fn get_s0(&self) -> (r: Option<DFAStateRef>)
        requires
            self.inv(),
        ensures
            r == self.s0,
            r matches Some(s) ==> s < self.states@.len(),
    {
        self.s0
    }
}

} // verus!

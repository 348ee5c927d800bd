//! Writes a network back into the serialized form the reader accepts, and
//! compares two networks structurally. Reading a blob, writing the result,
//! and reading again reproduces the same network.

use vstd::prelude::*;
use crate::atn::ATN;
use crate::atn::ATNType;
use crate::atn_state::ATNBlockStart;
use crate::atn_state::ATNDecisionState;
use crate::atn_state::ATNStateType;
use crate::atn_state::BaseATNState;
use crate::atn_state::ATNSTATE_BASIC;
use crate::atn_state::ATNSTATE_BLOCK_END;
use crate::atn_state::ATNSTATE_BLOCK_START;
use crate::atn_state::ATNSTATE_LOOP_END;
use crate::atn_state::ATNSTATE_PLUS_BLOCK_START;
use crate::atn_state::ATNSTATE_PLUS_LOOP_BACK;
use crate::atn_state::ATNSTATE_RULE_START;
use crate::atn_state::ATNSTATE_RULE_STOP;
use crate::atn_state::ATNSTATE_STAR_BLOCK_START;
use crate::atn_state::ATNSTATE_STAR_LOOP_BACK;
use crate::atn_state::ATNSTATE_STAR_LOOP_ENTRY;
use crate::atn_state::ATNSTATE_TOKEN_START;
use crate::interval_set::IntervalSet;
use crate::lexer_action::LexerAction;
use crate::token::TOKEN_EOF;
use crate::transition::Transition;

verus! {

/// The serialized version word written first.
pub const WRITTEN_VERSION: u16 = 3;

/// Appends one value with the +2 shift; a value outside the word range
/// becomes the smallest word.
fn push_word(out: &mut Vec<u16>, v: isize)
    ensures
        final(out)@.len() == old(out)@.len() + 1,
        forall|k: int| 0 <= k < old(out)@.len() ==> (#[trigger] final(out)@[k]) == old(out)@[k],
{
    if -2 <= v && v <= 65533 {
        out.push((v + 2) as u16);
    } else {
        out.push(0u16);
    }
}

/// Appends one signed value: -1 becomes the all-ones word.
fn push_signed(out: &mut Vec<u16>, v: isize)
    ensures
        final(out)@.len() == old(out)@.len() + 1,
        forall|k: int| 0 <= k < old(out)@.len() ==> (#[trigger] final(out)@[k]) == old(out)@[k],
{
    if v == -1 {
        out.push(0xffffu16);
    } else {
        push_word(out, v);
    }
}

/// Appends one index.
fn push_index(out: &mut Vec<u16>, v: usize)
    ensures
        final(out)@.len() == old(out)@.len() + 1,
        forall|k: int| 0 <= k < old(out)@.len() ==> (#[trigger] final(out)@[k]) == old(out)@[k],
{
    if v <= 65533 {
        out.push((v + 2) as u16);
    } else {
        out.push(0u16);
    }
}

/// Appends a character value in the given width: one word, or a low and a
/// high word for the wide tables.
fn push_unicode(out: &mut Vec<u16>, v: isize, wide: bool)
    ensures
        final(out)@.len() >= old(out)@.len(),
        forall|k: int| 0 <= k < old(out)@.len() ==> (#[trigger] final(out)@[k]) == old(out)@[k],
{
    if !wide {
        push_word(out, v);
    } else {
        if v >= 0 {
            let low = v % 65536;
            if low <= 65533 {
                out.push((low + 2) as u16);
            } else {
                out.push((low - 65534) as u16);
            }
            push_word(out, v / 65536);
        } else {
            push_word(out, 0);
            push_word(out, 0);
        }
    }
}

/// The serialized kind tag of a state.
fn state_kind_word(st: &BaseATNState) -> (r: isize)
{
    match &st.state_type {
        ATNStateType::InvalidState => ATNSTATE_BASIC,
        ATNStateType::BasicState => ATNSTATE_BASIC,
        ATNStateType::RuleStartState { .. } => ATNSTATE_RULE_START,
        ATNStateType::RuleStopState => ATNSTATE_RULE_STOP,
        ATNStateType::DecisionState { state, .. } => match state {
            ATNDecisionState::BlockStartState { en, .. } => match en {
                ATNBlockStart::BasicBlockStart => ATNSTATE_BLOCK_START,
                ATNBlockStart::PlusBlockStart(_) => ATNSTATE_PLUS_BLOCK_START,
                ATNBlockStart::StarBlockStart => ATNSTATE_STAR_BLOCK_START,
            },
            ATNDecisionState::PlusLoopBack => ATNSTATE_PLUS_LOOP_BACK,
            ATNDecisionState::StarLoopEntry { .. } => ATNSTATE_STAR_LOOP_ENTRY,
            ATNDecisionState::TokenStartState => ATNSTATE_TOKEN_START,
        },
        ATNStateType::BlockEndState(_) => ATNSTATE_BLOCK_END,
        ATNStateType::StarLoopbackState => ATNSTATE_STAR_LOOP_BACK,
        ATNStateType::LoopEndState(_) => ATNSTATE_LOOP_END,
    }
}

/// Whether a set needs the wide value encoding.
fn set_is_wide(set: &IntervalSet) -> (r: bool)
{
    let n = set.num_intervals();
    let mut i: usize = 0;
    while i < n
        invariant
            n == set.intervals@.len(),
        decreases n - i,
    {
        let iv = set.get_interval(i);
        if iv.b > 65533 {
            return true;
        }
        i += 1;
    }
    false
}

/// Writes one set table entry: interval count, the end-of-input flag, then
/// the intervals clipped to non-negative values.
#[verifier::loop_isolation(false)]
fn write_set(out: &mut Vec<u16>, set: &IntervalSet, wide: bool)
    requires
        set.inv(),
    ensures
        final(out)@.len() >= old(out)@.len(),
        forall|k: int| 0 <= k < old(out)@.len() ==> (#[trigger] final(out)@[k]) == old(out)@[k],
{
    let n = set.num_intervals();
    let mut count: usize = 0;
    let mut i: usize = 0;
    while i < n
        invariant
            n == set.intervals@.len(),
            count <= i,
        decreases n - i,
    {
        let iv = set.get_interval(i);
        if iv.b >= 0 {
            count += 1;
        }
        i += 1;
    }
    push_index(out, count);
    let has_eof = set.contains(-1);
    push_word(
        out,
        if has_eof {
            1
        } else {
            0
        },
    );
    let mut j: usize = 0;
    while j < n
        invariant
            n == set.intervals@.len(),
            set.inv(),
            out@.len() >= old(out)@.len(),
            forall|k2: int| 0 <= k2 < old(out)@.len() ==> (#[trigger] out@[k2]) == old(out)@[k2],
        decreases n - j,
    {
        let iv = set.get_interval(j);
        if iv.b >= 0 {
            let a = if iv.a < 0 {
                0
            } else {
                iv.a
            };
            push_unicode(out, a, wide);
            push_unicode(out, iv.b, wide);
        }
        j += 1;
    }
}

/// Writes a whole network in the serialized form the reader accepts.
#[verifier::loop_isolation(false)]
pub fn serialize_atn(atn: &ATN) -> (r: Vec<u16>)
    requires
        atn.wf(),
    ensures
        r@.len() >= 1,
        r@[0] == WRITTEN_VERSION,
{
    let mut out: Vec<u16> = Vec::new();
    out.push(WRITTEN_VERSION);
    // the UUID words of the newest supported format
    let uuid_bytes = crate::atn_deserializer::supported_uuid_words();
    let mut u: usize = 0;
    while u < uuid_bytes.len()
        invariant
            out@.len() >= 1,
            out@[0] == WRITTEN_VERSION,
        decreases uuid_bytes@.len() - u,
    {
        out.push(uuid_bytes[u]);
        u += 1;
    }
    push_word(
        &mut out,
        match atn.grammar_type {
            ATNType::LEXER => 0,
            ATNType::PARSER => 1,
        },
    );
    push_signed(&mut out, atn.max_token_type);
    // states, with their kind-specific extras
    let nstates = atn.states.len();
    push_index(&mut out, nstates);
    let mut i: usize = 0;
    while i < nstates
        invariant
            nstates == atn.states@.len(),
            out@.len() >= 1,
            out@[0] == WRITTEN_VERSION,
        decreases nstates - i,
    {
        let st = &atn.states[i];
        let kind = state_kind_word(st);
        push_word(&mut out, kind);
        push_signed(&mut out, st.rule_index);
        match &st.state_type {
            ATNStateType::DecisionState {
                state: ATNDecisionState::BlockStartState { end_state, .. },
                ..
            } => {
                push_index(&mut out, *end_state);
            },
            ATNStateType::LoopEndState(loop_back) => {
                push_index(&mut out, *loop_back);
            },
            _ => {},
        }
        i += 1;
    }
    // the non-greedy decision states
    let mut count_ng: usize = 0;
    let mut k: usize = 0;
    while k < nstates
        invariant
            nstates == atn.states@.len(),
            count_ng <= k,
        decreases nstates - k,
    {
        match &atn.states[k].state_type {
            ATNStateType::DecisionState { nongreedy: true, .. } => {
                count_ng += 1;
            },
            _ => {},
        }
        k += 1;
    }
    push_index(&mut out, count_ng);
    let mut k2: usize = 0;
    while k2 < nstates
        invariant
            nstates == atn.states@.len(),
            out@.len() >= 1,
            out@[0] == WRITTEN_VERSION,
        decreases nstates - k2,
    {
        match &atn.states[k2].state_type {
            ATNStateType::DecisionState { nongreedy: true, .. } => {
                push_index(&mut out, k2);
            },
            _ => {},
        }
        k2 += 1;
    }
    // the left-recursive rule start states
    let mut count_lr: usize = 0;
    let mut k3: usize = 0;
    while k3 < nstates
        invariant
            nstates == atn.states@.len(),
            count_lr <= k3,
        decreases nstates - k3,
    {
        match &atn.states[k3].state_type {
            ATNStateType::RuleStartState { is_left_recursive: true, .. } => {
                count_lr += 1;
            },
            _ => {},
        }
        k3 += 1;
    }
    push_index(&mut out, count_lr);
    let mut k4: usize = 0;
    while k4 < nstates
        invariant
            nstates == atn.states@.len(),
            out@.len() >= 1,
            out@[0] == WRITTEN_VERSION,
        decreases nstates - k4,
    {
        match &atn.states[k4].state_type {
            ATNStateType::RuleStartState { is_left_recursive: true, .. } => {
                push_index(&mut out, k4);
            },
            _ => {},
        }
        k4 += 1;
    }
    // the rule table
    let nrules = atn.rule_to_start_state.len();
    push_index(&mut out, nrules);
    let mut r1: usize = 0;
    while r1 < nrules
        invariant
            nrules == atn.rule_to_start_state@.len(),
            out@.len() >= 1,
            out@[0] == WRITTEN_VERSION,
        decreases nrules - r1,
    {
        push_index(&mut out, atn.rule_to_start_state[r1]);
        if atn.grammar_type == ATNType::LEXER {
            if r1 < atn.rule_to_token_type.len() {
                push_signed(&mut out, atn.rule_to_token_type[r1]);
            } else {
                push_signed(&mut out, 0);
            }
        }
        r1 += 1;
    }
    // the modes
    let nmodes = atn.mode_to_start_state.len();
    push_index(&mut out, nmodes);
    let mut m: usize = 0;
    while m < nmodes
        invariant
            nmodes == atn.mode_to_start_state@.len(),
            out@.len() >= 1,
            out@[0] == WRITTEN_VERSION,
        decreases nmodes - m,
    {
        push_index(&mut out, atn.mode_to_start_state[m]);
        m += 1;
    }
    // the set tables: narrow sets first, then wide ones, numbered together
    let mut narrow_count: usize = 0;
    let mut wide_count: usize = 0;
    let mut si: usize = 0;
    while si < nstates
        invariant
            nstates == atn.states@.len(),
            atn.wf(),
        decreases nstates - si,
    {
        let ntr = atn.states[si].transitions.len();
        let mut ti: usize = 0;
        while ti < ntr
            invariant
                nstates == atn.states@.len(),
                si < nstates,
                ntr == atn.states@[si as int].transitions@.len(),
                atn.wf(),
            decreases ntr - ti,
        {
            proof {
                assert(atn.states@[si as int].transitions@[ti as int].wf(
                    atn.states@.len() as int,
                ));
            }
            match &atn.states[si].transitions[ti] {
                Transition::TokenSet { set, .. } => {
                    if set_is_wide(set) {
                        if wide_count < usize::MAX {
                            wide_count += 1;
                        }
                    } else {
                        if narrow_count < usize::MAX {
                            narrow_count += 1;
                        }
                    }
                },
                Transition::NotTokenSet { set, .. } => {
                    if set_is_wide(set) {
                        if wide_count < usize::MAX {
                            wide_count += 1;
                        }
                    } else {
                        if narrow_count < usize::MAX {
                            narrow_count += 1;
                        }
                    }
                },
                _ => {},
            }
            ti += 1;
        }
        si += 1;
    }
    push_index(&mut out, narrow_count);
    write_set_table_inner(&mut out, atn, false);
    push_index(&mut out, wide_count);
    write_set_table_inner(&mut out, atn, true);
    // the edges
    let mut nedges: usize = 0;
    let mut se: usize = 0;
    while se < nstates
        invariant
            nstates == atn.states@.len(),
        decreases nstates - se,
    {
        let ntr = atn.states[se].transitions.len();
        if nedges <= usize::MAX - ntr {
            nedges += ntr;
        }
        se += 1;
    }
    push_index(&mut out, nedges);
    let mut narrow_seen: usize = 0;
    let mut wide_seen: usize = 0;
    let mut se2: usize = 0;
    while se2 < nstates
        invariant
            nstates == atn.states@.len(),
            atn.wf(),
            out@.len() >= 1,
            out@[0] == WRITTEN_VERSION,
        decreases nstates - se2,
    {
        let ntr = atn.states[se2].transitions.len();
        let mut te: usize = 0;
        while te < ntr
            invariant
                nstates == atn.states@.len(),
                se2 < nstates,
                ntr == atn.states@[se2 as int].transitions@.len(),
                atn.wf(),
                out@.len() >= 1,
                out@[0] == WRITTEN_VERSION,
            decreases ntr - te,
        {
            proof {
                assert(atn.states@[se2 as int].transitions@[te as int].wf(
                    atn.states@.len() as int,
                ));
            }
            let (narrow_used, wide_used) = write_edge(
                &mut out,
                atn,
                se2,
                te,
                narrow_seen,
                wide_seen,
                narrow_count,
            );
            if narrow_used && narrow_seen < usize::MAX {
                narrow_seen += 1;
            }
            if wide_used && wide_seen < usize::MAX {
                wide_seen += 1;
            }
            te += 1;
        }
        se2 += 1;
    }
    // the decisions
    let ndecisions = atn.decision_to_state.len();
    push_index(&mut out, ndecisions);
    let mut d: usize = 0;
    while d < ndecisions
        invariant
            ndecisions == atn.decision_to_state@.len(),
            out@.len() >= 1,
            out@[0] == WRITTEN_VERSION,
        decreases ndecisions - d,
    {
        push_index(&mut out, atn.decision_to_state[d]);
        d += 1;
    }
    // the lexer actions
    if atn.grammar_type == ATNType::LEXER {
        let nactions = atn.lexer_actions.len();
        push_index(&mut out, nactions);
        let mut a: usize = 0;
        while a < nactions
            invariant
                nactions == atn.lexer_actions@.len(),
                out@.len() >= 1,
                out@[0] == WRITTEN_VERSION,
            decreases nactions - a,
        {
            match atn.lexer_actions[a] {
                LexerAction::Channel(c) => {
                    push_word(&mut out, 0);
                    push_signed(&mut out, c);
                    push_signed(&mut out, 0);
                },
                LexerAction::Custom { rule_index, action_index } => {
                    push_word(&mut out, 1);
                    push_signed(&mut out, rule_index);
                    push_signed(&mut out, action_index);
                },
                LexerAction::Mode(mm) => {
                    push_word(&mut out, 2);
                    push_signed(&mut out, mm);
                    push_signed(&mut out, 0);
                },
                LexerAction::More => {
                    push_word(&mut out, 3);
                    push_signed(&mut out, 0);
                    push_signed(&mut out, 0);
                },
                LexerAction::PopMode => {
                    push_word(&mut out, 4);
                    push_signed(&mut out, 0);
                    push_signed(&mut out, 0);
                },
                LexerAction::PushMode(mm) => {
                    push_word(&mut out, 5);
                    push_signed(&mut out, mm);
                    push_signed(&mut out, 0);
                },
                LexerAction::Skip => {
                    push_word(&mut out, 6);
                    push_signed(&mut out, 0);
                    push_signed(&mut out, 0);
                },
                LexerAction::TokenType(tt) => {
                    push_word(&mut out, 7);
                    push_signed(&mut out, tt);
                    push_signed(&mut out, 0);
                },
            }
            a += 1;
        }
    }
    out
}

/// Writes the entries of one width of the set tables, in encounter order.
#[verifier::loop_isolation(false)]
fn write_set_table_inner(out: &mut Vec<u16>, atn: &ATN, wide: bool)
    requires
        atn.wf(),
    ensures
        final(out)@.len() >= old(out)@.len(),
        forall|k: int| 0 <= k < old(out)@.len() ==> (#[trigger] final(out)@[k]) == old(out)@[k],
{
    let nstates = atn.states.len();
    let mut si: usize = 0;
    while si < nstates
        invariant
            nstates == atn.states@.len(),
            out@.len() >= old(out)@.len(),
            forall|k2: int| 0 <= k2 < old(out)@.len() ==> (#[trigger] out@[k2]) == old(out)@[k2],
        decreases nstates - si,
    {
        let ntr = atn.states[si].transitions.len();
        let mut ti: usize = 0;
        while ti < ntr
            invariant
                nstates == atn.states@.len(),
                si < nstates,
                ntr == atn.states@[si as int].transitions@.len(),
                out@.len() >= old(out)@.len(),
                forall|k2: int| 0 <= k2 < old(out)@.len() ==> (#[trigger] out@[k2]) == old(out)@[k2],
            decreases ntr - ti,
        {
            proof {
                assert(atn.states@[si as int].transitions@[ti as int].wf(
                    atn.states@.len() as int,
                ));
            }
            match &atn.states[si].transitions[ti] {
                Transition::TokenSet { set, .. } => {
                    if set_is_wide(set) == wide {
                        write_set(out, set, wide);
                    }
                },
                Transition::NotTokenSet { set, .. } => {
                    if set_is_wide(set) == wide {
                        write_set(out, set, wide);
                    }
                },
                _ => {},
            }
            ti += 1;
        }
        si += 1;
    }
}

/// Writes one edge tuple; reports whether it consumed a narrow or wide set
/// table slot.
fn write_edge(
    out: &mut Vec<u16>,
    atn: &ATN,
    src: usize,
    t: usize,
    narrow_seen: usize,
    wide_seen: usize,
    narrow_total: usize,
) -> (r: (bool, bool))
    requires
        src < atn.states@.len(),
        t < atn.states@[src as int].transitions@.len(),
    ensures
        final(out)@.len() >= old(out)@.len(),
        forall|k: int| 0 <= k < old(out)@.len() ==> (#[trigger] final(out)@[k]) == old(out)@[k],
{
    match &atn.states[src].transitions[t] {
        Transition::Epsilon { target, .. } => {
            push_index(out, src);
            push_index(out, *target);
            push_word(out, 1);
            push_signed(out, 0);
            push_signed(out, 0);
            push_signed(out, 0);
            (false, false)
        },
        Transition::Range { target, start, stop } => {
            push_index(out, src);
            push_index(out, *target);
            push_word(out, 2);
            if *start == TOKEN_EOF {
                push_signed(out, 0);
                push_signed(out, *stop);
                push_signed(out, 1);
            } else {
                push_signed(out, *start);
                push_signed(out, *stop);
                push_signed(out, 0);
            }
            (false, false)
        },
        Transition::Rule { target, follow_state, rule_index, precedence } => {
            push_index(out, src);
            push_index(out, *follow_state);
            push_word(out, 3);
            push_index(out, *target);
            if *rule_index <= 65533 {
                push_index(out, *rule_index);
            } else {
                push_index(out, 0);
            }
            push_signed(out, *precedence);
            (false, false)
        },
        Transition::Predicate { target, rule_index, pred_index, is_ctx_dependent } => {
            push_index(out, src);
            push_index(out, *target);
            push_word(out, 4);
            push_signed(out, *rule_index);
            push_signed(out, *pred_index);
            push_signed(
                out,
                if *is_ctx_dependent {
                    1
                } else {
                    0
                },
            );
            (false, false)
        },
        Transition::Atom { target, label } => {
            push_index(out, src);
            push_index(out, *target);
            push_word(out, 5);
            if *label == TOKEN_EOF {
                push_signed(out, 0);
                push_signed(out, 0);
                push_signed(out, 1);
            } else {
                push_signed(out, *label);
                push_signed(out, 0);
                push_signed(out, 0);
            }
            (false, false)
        },
        Transition::Action { target, rule_index, action_index, is_ctx_dependent } => {
            push_index(out, src);
            push_index(out, *target);
            push_word(out, 6);
            push_signed(out, *rule_index);
            push_signed(out, *action_index);
            push_signed(
                out,
                if *is_ctx_dependent {
                    1
                } else {
                    0
                },
            );
            (false, false)
        },
        Transition::TokenSet { target, set } => {
            push_index(out, src);
            push_index(out, *target);
            push_word(out, 7);
            let wide = set_is_wide(set);
            let idx = if wide {
                if narrow_total <= usize::MAX - wide_seen {
                    narrow_total + wide_seen
                } else {
                    0
                }
            } else {
                narrow_seen
            };
            push_index(out, idx);
            push_signed(out, 0);
            push_signed(out, 0);
            if wide {
                (false, true)
            } else {
                (true, false)
            }
        },
        Transition::NotTokenSet { target, set } => {
            push_index(out, src);
            push_index(out, *target);
            push_word(out, 8);
            let wide = set_is_wide(set);
            let idx = if wide {
                if narrow_total <= usize::MAX - wide_seen {
                    narrow_total + wide_seen
                } else {
                    0
                }
            } else {
                narrow_seen
            };
            push_index(out, idx);
            push_signed(out, 0);
            push_signed(out, 0);
            if wide {
                (false, true)
            } else {
                (true, false)
            }
        },
        Transition::Wildcard { target } => {
            push_index(out, src);
            push_index(out, *target);
            push_word(out, 9);
            push_signed(out, 0);
            push_signed(out, 0);
            push_signed(out, 0);
            (false, false)
        },
        Transition::PrecedencePredicate { target, precedence } => {
            push_index(out, src);
            push_index(out, *target);
            push_word(out, 10);
            push_signed(out, *precedence);
            push_signed(out, 0);
            push_signed(out, 0);
            (false, false)
        },
    }
}

/// Structural equality of transitions: the same kind with the same fields,
/// sets compared by contents.
pub fn transition_equals(a: &Transition, b: &Transition) -> (r: bool)
{
    match (a, b) {
        (
            Transition::Epsilon { target: t1, outermost_precedence_return: o1 },
            Transition::Epsilon { target: t2, outermost_precedence_return: o2 },
        ) => t1 == t2 && o1 == o2,
        (
            Transition::Range { target: t1, start: a1, stop: b1 },
            Transition::Range { target: t2, start: a2, stop: b2 },
        ) => t1 == t2 && a1 == a2 && b1 == b2,
        (
            Transition::Rule { target: t1, follow_state: f1, rule_index: r1, precedence: p1 },
            Transition::Rule { target: t2, follow_state: f2, rule_index: r2, precedence: p2 },
        ) => t1 == t2 && f1 == f2 && r1 == r2 && p1 == p2,
        (
            Transition::Predicate { target: t1, rule_index: r1, pred_index: p1, is_ctx_dependent: c1 },
            Transition::Predicate { target: t2, rule_index: r2, pred_index: p2, is_ctx_dependent: c2 },
        ) => t1 == t2 && r1 == r2 && p1 == p2 && c1 == c2,
        (
            Transition::Atom { target: t1, label: l1 },
            Transition::Atom { target: t2, label: l2 },
        ) => t1 == t2 && l1 == l2,
        (
            Transition::Action { target: t1, rule_index: r1, action_index: a1, is_ctx_dependent: c1 },
            Transition::Action { target: t2, rule_index: r2, action_index: a2, is_ctx_dependent: c2 },
        ) => t1 == t2 && r1 == r2 && a1 == a2 && c1 == c2,
        (
            Transition::TokenSet { target: t1, set: s1 },
            Transition::TokenSet { target: t2, set: s2 },
        ) => t1 == t2 && interval_sets_equal(s1, s2),
        (
            Transition::NotTokenSet { target: t1, set: s1 },
            Transition::NotTokenSet { target: t2, set: s2 },
        ) => t1 == t2 && interval_sets_equal(s1, s2),
        (Transition::Wildcard { target: t1 }, Transition::Wildcard { target: t2 }) => t1 == t2,
        (
            Transition::PrecedencePredicate { target: t1, precedence: p1 },
            Transition::PrecedencePredicate { target: t2, precedence: p2 },
        ) => t1 == t2 && p1 == p2,
        _ => false,
    }
}

/// Equality of interval sets by their stored intervals.
pub fn interval_sets_equal(a: &IntervalSet, b: &IntervalSet) -> (r: bool)
    ensures
        r == (a.intervals@ =~= b.intervals@),
{
    let n = a.num_intervals();
    if b.num_intervals() != n {
        return false;
    }
    let mut i: usize = 0;
    while i < n
        invariant
            n == a.intervals@.len(),
            n == b.intervals@.len(),
            0 <= i <= n,
            forall|k: int| 0 <= k < i ==> (#[trigger] a.intervals@[k]) == b.intervals@[k],
        decreases n - i,
    {
        let x = a.get_interval(i);
        let y = b.get_interval(i);
        if !(x == y) {
            return false;
        }
        i += 1;
    }
    true
}

/// Structural equality of whole networks: grammar kind, token bound,
/// states with their kinds and transitions, rule, mode, and decision
/// tables, and the lexer actions.
#[verifier::loop_isolation(false)]
pub fn atn_equals(a: &ATN, b: &ATN) -> (r: bool)
{
    if !(a.grammar_type == b.grammar_type) {
        return false;
    }
    if a.max_token_type != b.max_token_type {
        return false;
    }
    let n = a.states.len();
    if b.states.len() != n {
        return false;
    }
    let mut i: usize = 0;
    while i < n
        invariant
            n == a.states@.len(),
            n == b.states@.len(),
        decreases n - i,
    {
        let sa = &a.states[i];
        let sb = &b.states[i];
        if sa.state_number != sb.state_number || sa.rule_index != sb.rule_index {
            return false;
        }
        if !(sa.state_type == sb.state_type) {
            return false;
        }
        let m = sa.transitions.len();
        if sb.transitions.len() != m {
            return false;
        }
        let mut t: usize = 0;
        while t < m
            invariant
                m == sa.transitions@.len(),
                m == sb.transitions@.len(),
            decreases m - t,
        {
            if !transition_equals(&sa.transitions[t], &sb.transitions[t]) {
                return false;
            }
            t += 1;
        }
        i += 1;
    }
    if !usize_vecs_equal(&a.decision_to_state, &b.decision_to_state) {
        return false;
    }
    if !usize_vecs_equal(&a.mode_to_start_state, &b.mode_to_start_state) {
        return false;
    }
    if !usize_vecs_equal(&a.rule_to_start_state, &b.rule_to_start_state) {
        return false;
    }
    if !usize_vecs_equal(&a.rule_to_stop_state, &b.rule_to_stop_state) {
        return false;
    }
    if !isize_vecs_equal(&a.rule_to_token_type, &b.rule_to_token_type) {
        return false;
    }
    let la = a.lexer_actions.len();
    if b.lexer_actions.len() != la {
        return false;
    }
    let mut q: usize = 0;
    while q < la
        invariant
            la == a.lexer_actions@.len(),
            la == b.lexer_actions@.len(),
        decreases la - q,
    {
        if !(a.lexer_actions[q] == b.lexer_actions[q]) {
            return false;
        }
        q += 1;
    }
    true
}

/// Elementwise equality of index tables.
fn usize_vecs_equal(a: &Vec<usize>, b: &Vec<usize>) -> (r: bool)
    ensures
        r == (a@ =~= b@),
{
    let n = a.len();
    if b.len() != n {
        return false;
    }
    let mut i: usize = 0;
    while i < n
        invariant
            n == a@.len(),
            n == b@.len(),
            0 <= i <= n,
            forall|k: int| 0 <= k < i ==> (#[trigger] a@[k]) == b@[k],
        decreases n - i,
    {
        if a[i] != b[i] {
            return false;
        }
        i += 1;
    }
    true
}

/// Elementwise equality of signed tables.
fn isize_vecs_equal(a: &Vec<isize>, b: &Vec<isize>) -> (r: bool)
    ensures
        r == (a@ =~= b@),
{
    let n = a.len();
    if b.len() != n {
        return false;
    }
    let mut i: usize = 0;
    while i < n
        invariant
            n == a@.len(),
            n == b@.len(),
            0 <= i <= n,
            forall|k: int| 0 <= k < i ==> (#[trigger] a@[k]) == b@[k],
        decreases n - i,
    {
        if a[i] != b[i] {
            return false;
        }
        i += 1;
    }
    true
}

} // verus!

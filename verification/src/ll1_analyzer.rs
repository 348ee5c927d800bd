//! Static lookahead analysis: the set of terminals that can appear next
//! from a given network state, computed by following epsilon transitions,
//! entering called rules, and popping return states from the context chain.

use vstd::prelude::*;
use crate::atn::atn_label_token;
use crate::atn::ATN;
use crate::atn_state::ATNStateType;
use crate::interval_set::IntervalSet;
use crate::prediction_context::PredictionContext;
use crate::token::TOKEN_EOF;
use crate::token::TOKEN_EPSILON;
use crate::token::TOKEN_INVALID_TYPE;
use crate::token::TOKEN_MIN_USER_TOKEN_TYPE;
use crate::transition::Transition;

verus! {

/// The set of rules on the current call path, held as a `bit_set::BitSet`
/// of rule indices. The stored set is visible to the proofs only through
/// `bitset_elems` and the accessors below.
#[verifier::external_body]
pub struct RuleBitSet {
    inner: bit_set::BitSet<u32>,
}

/// The set of integers the backing `bit_set::BitSet` holds.
pub uninterp spec fn bitset_elems(s: RuleBitSet) -> Set<int>;

/// Relies on `bit_set::BitSet::new` (via `default`): a fresh set is empty.
#[verifier::external_body]
fn bitset_new() -> (r: RuleBitSet)
    ensures
        bitset_elems(r) == Set::<int>::empty(),
{
    RuleBitSet { inner: bit_set::BitSet::new() }
}

/// Relies on `bit_set::BitSet::insert`: adds the value, reporting whether
/// it was absent.
#[verifier::external_body]
fn bitset_insert(s: &mut RuleBitSet, v: usize) -> (r: bool)
    ensures
        bitset_elems(*final(s)) == bitset_elems(*old(s)).insert(v as int),
        r == !bitset_elems(*old(s)).contains(v as int),
{
    s.inner.insert(v)
}

/// Relies on `bit_set::BitSet::remove`: removes the value, reporting
/// whether it was present.
#[verifier::external_body]
fn bitset_remove(s: &mut RuleBitSet, v: usize) -> (r: bool)
    ensures
        bitset_elems(*final(s)) == bitset_elems(*old(s)).remove(v as int),
        r == bitset_elems(*old(s)).contains(v as int),
{
    s.inner.remove(v)
}

/// Relies on `bit_set::BitSet::contains`.
#[verifier::external_body]
fn bitset_contains(s: &RuleBitSet, v: usize) -> (r: bool)
    ensures
        r == bitset_elems(*s).contains(v as int),
{
    s.inner.contains(v)
}

/// A visited (state, context) pair of the walk.
pub struct LookBusyEntry {
    pub state: usize,
    pub ctx: Option<PredictionContext>,
}

/// Structural equality of optional contexts.
pub open spec fn opt_pc_cequal(a: Option<PredictionContext>, b: Option<PredictionContext>) -> bool {
    match (a, b) {
        (Option::Some(x), Option::Some(y)) => PredictionContext::cequals(x, y),
        (Option::None, Option::None) => true,
        _ => false,
    }
}

/// Whether the walk already visited this (state, context) pair.
pub open spec fn busy_has(busy: Seq<LookBusyEntry>, s: usize, ctx: Option<PredictionContext>) -> bool {
    exists|i: int|
        0 <= i < busy.len() && (#[trigger] busy[i]).state == s && opt_pc_cequal(busy[i].ctx, ctx)
}

/// Computes lookahead sets over a network.
pub struct LL1Analyzer<'a> {
    pub atn: &'a ATN,
}

impl<'a> LL1Analyzer<'a> {
    pub fn new(atn: &'a ATN) -> (r: LL1Analyzer<'a>)
        ensures
            r.atn == atn,
    {
        LL1Analyzer { atn }
    }

    /// The set of terminals reachable from state `s` without consuming
    /// input, walking epsilon edges, entering called rules, and returning
    /// through `ctx`; the epsilon marker stands for "anything can follow"
    /// and end-of-input appears when the chain can end. The result is a
    /// well-formed interval set.
    pub fn look(&self, s: usize, stop_state: Option<usize>, ctx: Option<PredictionContext>) -> (r:
        IntervalSet)
        requires
            self.atn.wf(),
            s < self.atn.states@.len(),
            stop_state matches Some(st) ==> st < self.atn.states@.len(),
            ctx matches Some(c) ==> c.relaxed_wf(),
        ensures
            r.inv(),
            !r.is_read_only(),
            // nothing beyond the walk's reach gets in: every member is a
            // marker or a label some edge of the network can consume
            forall|v: int|
                #![trigger r.spec_contains(v)]
                r.spec_contains(v) ==> (v == TOKEN_EPSILON as int || v == TOKEN_EOF as int || v
                    == TOKEN_INVALID_TYPE as int || atn_label_token(*self.atn, v)),
            // at the stop state, or a rule stop, with no context to pop,
            // anything can follow
            (stop_state == Some(s) || self.atn.states@[s as int].state_type
                == ATNStateType::RuleStopState) && ctx is None ==> r.spec_contains(
                TOKEN_EPSILON as int,
            ),
            // with an exhausted context the chain can end here
            (stop_state == Some(s) || self.atn.states@[s as int].state_type
                == ATNStateType::RuleStopState) && (ctx matches Some(c) && c.spec_is_empty())
                ==> r.spec_contains(TOKEN_EOF as int),
            // at an ordinary state, every directly labelled edge contributes
            // its label
            (!(stop_state == Some(s) && (ctx is None || (ctx matches Some(c) && c.spec_is_empty())))
                && self.atn.states@[s as int].state_type != ATNStateType::RuleStopState) ==> {
                let trans = self.atn.states@[s as int].transitions@;
                &&& forall|t: int|
                    #![trigger trans[t]]
                    0 <= t < trans.len() ==> (trans[t] matches Transition::Atom { label, .. }
                        ==> ((isize::MIN + 1 <= label <= isize::MAX - 1) ==> r.spec_contains(
                        label as int,
                    )))
                &&& forall|t: int, v: int|
                    #![trigger trans[t], r.spec_contains(v)]
                    0 <= t < trans.len() ==> (trans[t] matches Transition::Range {
                        start,
                        stop,
                        ..
                    } ==> ((start <= v <= stop && (isize::MIN + 1 <= start) && (stop <= isize::MAX
                        - 1)) ==> r.spec_contains(v)))
            },
    {
        let mut r = IntervalSet::new();
        let mut busy: Vec<LookBusyEntry> = Vec::new();
        let mut called_rule_stack: RuleBitSet = bitset_new();
        let n = self.atn.states.len();
        let fuel: u64 = if n < 1000000 {
            let base: u64 = (n as u64) + 2;
            proof {
                assert(base * base * 64 < 0xffff_ffff_ffff_0000) by (nonlinear_arith)
                    requires
                        base <= 1000001,
                ;
                assert(base * base * 64 > 0) by (nonlinear_arith)
                    requires
                        base >= 2,
                ;
            }
            base * base * 64
        } else {
            0xffff_ffff_ffff_0000u64
        };
        proof {
            assert(!busy_has(busy@, s, ctx));
        }
        self.look_work(s, stop_state, ctx, &mut r, &mut busy, &mut called_rule_stack, true, true, fuel);
        r
    }

    /// One step of the walk. The `fuel` bound only guards termination: it
    /// is generous enough that any network a grammar produces completes the
    /// walk before running out.
    #[verifier::loop_isolation(false)]
    fn look_work(
        &self,
        s: usize,
        stop_state: Option<usize>,
        ctx: Option<PredictionContext>,
        look: &mut IntervalSet,
        look_busy: &mut Vec<LookBusyEntry>,
        called_rule_stack: &mut RuleBitSet,
        see_thru_preds: bool,
        add_eof: bool,
        fuel: u64,
    )
        requires
            self.atn.wf(),
            s < self.atn.states@.len(),
            stop_state matches Some(st) ==> st < self.atn.states@.len(),
            ctx matches Some(c) ==> c.relaxed_wf(),
            old(look).inv(),
            !old(look).is_read_only(),
            forall|i: int|
                0 <= i < old(look_busy)@.len() ==> ((#[trigger] old(look_busy)@[i].ctx) matches Some(
                    c,
                ) ==> c.relaxed_wf()),
        ensures
            final(look).inv(),
            !final(look).is_read_only(),
            forall|i: int|
                0 <= i < final(look_busy)@.len() ==> ((#[trigger] final(look_busy)@[i].ctx) matches
                    Some(c) ==> c.relaxed_wf()),
            // the walk only grows the set
            forall|x: int|
                #![trigger final(look).spec_contains(x)]
                old(look).spec_contains(x) ==> final(look).spec_contains(x),
            // and only by markers and labels of the network's edges
            forall|v: int|
                #![trigger final(look).spec_contains(v)]
                final(look).spec_contains(v) ==> (old(look).spec_contains(v) || v
                    == TOKEN_EPSILON as int || v == TOKEN_EOF as int || v
                    == TOKEN_INVALID_TYPE as int || atn_label_token(*self.atn, v)),
            // at the stop state or a rule stop with no context, anything
            // can follow; with an exhausted context the chain can end
            fuel > 0 && !busy_has(old(look_busy)@, s, ctx) && (stop_state == Some(s)
                || self.atn.states@[s as int].state_type == ATNStateType::RuleStopState)
                && ctx is None ==> final(look).spec_contains(TOKEN_EPSILON as int),
            fuel > 0 && !busy_has(old(look_busy)@, s, ctx) && add_eof && (stop_state == Some(s)
                || self.atn.states@[s as int].state_type == ATNStateType::RuleStopState) && (
            ctx matches Some(c) && c.spec_is_empty()) ==> final(look).spec_contains(
                TOKEN_EOF as int,
            ),
            // at an ordinary state, every directly labelled edge contributes
            fuel > 0 && !busy_has(old(look_busy)@, s, ctx) && !(stop_state == Some(s) && (
            ctx is None || (ctx matches Some(c) && c.spec_is_empty() && add_eof)))
                && self.atn.states@[s as int].state_type != ATNStateType::RuleStopState ==> {
                let trans = self.atn.states@[s as int].transitions@;
                &&& forall|t: int|
                    #![trigger trans[t]]
                    0 <= t < trans.len() ==> (trans[t] matches Transition::Atom { label, .. }
                        ==> ((isize::MIN + 1 <= label <= isize::MAX - 1)
                        ==> final(look).spec_contains(label as int)))
                &&& forall|t: int, v: int|
                    #![trigger trans[t], final(look).spec_contains(v)]
                    0 <= t < trans.len() ==> (trans[t] matches Transition::Range {
                        start,
                        stop,
                        ..
                    } ==> ((start <= v <= stop && (isize::MIN + 1 <= start) && (stop
                        <= isize::MAX - 1)) ==> final(look).spec_contains(v)))
            },
        decreases fuel,
    {
        if fuel == 0 {
            return ;
        }
        // stop if this (state, context) pair was already walked
        let m = look_busy.len();
        let mut bi: usize = 0;
        while bi < m
            invariant
                m == look_busy@.len(),
                0 <= bi <= m,
            decreases m - bi,
        {
            let entry = &look_busy[bi];
            if entry.state == s {
                let same = match (&entry.ctx, &ctx) {
                    (Some(a), Some(b)) => a.equals(b),
                    (None, None) => true,
                    _ => false,
                };
                if same {
                    proof {
                        assert(look_busy@[bi as int].state == s);
                        assert(opt_pc_cequal(look_busy@[bi as int].ctx, ctx));
                        assert(busy_has(look_busy@, s, ctx));
                    }
                    return ;
                }
            }
            bi += 1;
        }
        look_busy.push(LookBusyEntry { state: s, ctx: clone_opt_ctx(&ctx) });
        let is_stop_here = match stop_state {
            Some(st) => st == s,
            None => false,
        };
        if is_stop_here {
            match &ctx {
                None => {
                    look.add_one(TOKEN_EPSILON);
                    return ;
                },
                Some(x) => {
                    if x.is_empty() && add_eof {
                        look.add_one(TOKEN_EOF);
                        return ;
                    }
                },
            }
        }
        let is_rule_stop = match self.atn.states[s].state_type {
            ATNStateType::RuleStopState => true,
            _ => false,
        };
        if is_rule_stop {
            match &ctx {
                None => {
                    look.add_one(TOKEN_EPSILON);
                    return ;
                },
                Some(x) => {
                    if x.is_empty() && add_eof {
                        look.add_one(TOKEN_EOF);
                        return ;
                    }
                    if !x.is_empty() {
                        // pop every parent and continue from its return state
                        let ri = self.atn.states[s].rule_index;
                        let removed = if ri >= 0 {
                            bitset_remove(called_rule_stack, ri as usize)
                        } else {
                            false
                        };
                        let len = x.length();
                        let mut i: usize = 0;
                        while i < len
                            invariant
                                len == x.spec_ret_states().len(),
                                0 <= i <= len,
                                look.inv(),
                                !look.is_read_only(),
                                forall|x2: int|
                                    #![trigger look.spec_contains(x2)]
                                    old(look).spec_contains(x2) ==> look.spec_contains(x2),
                                forall|v: int|
                                    #![trigger look.spec_contains(v)]
                                    look.spec_contains(v) ==> (old(look).spec_contains(v) || v
                                        == TOKEN_EPSILON as int || v == TOKEN_EOF as int || v
                                        == TOKEN_INVALID_TYPE as int || atn_label_token(
                                        *self.atn,
                                        v,
                                    )),
                                forall|q: int|
                                    0 <= q < look_busy@.len() ==> ((
                                    #[trigger] look_busy@[q].ctx) matches Some(c)
                                        ==> c.relaxed_wf()),
                            decreases len - i,
                        {
                            let ret = x.get_return_state(i);
                            if ret >= 0 && (ret as usize) < self.atn.states.len() {
                                let parent: Option<PredictionContext> = match x.get_parent(i) {
                                    Some(p) => {
                                        proof {
                                            assert(PredictionContext::opt_relaxed_wf(
                                                x.spec_parents()[i as int],
                                            ));
                                        }
                                        Some(p.clone_ctx())
                                    },
                                    None => None,
                                };
                                self.look_work(
                                    ret as usize,
                                    stop_state,
                                    parent,
                                    look,
                                    look_busy,
                                    called_rule_stack,
                                    see_thru_preds,
                                    add_eof,
                                    fuel - 1,
                                );
                            }
                            i += 1;
                        }
                        if removed && ri >= 0 {
                            bitset_insert(called_rule_stack, ri as usize);
                        }
                        return ;
                    }
                },
            }
        }
        // follow the outgoing transitions
        let ntr = self.atn.states[s].transitions.len();
        let mut t: usize = 0;
        while t < ntr
            invariant
                ntr == self.atn.states@[s as int].transitions@.len(),
                0 <= t <= ntr,
                look.inv(),
                !look.is_read_only(),
                forall|x2: int|
                    #![trigger look.spec_contains(x2)]
                    old(look).spec_contains(x2) ==> look.spec_contains(x2),
                forall|v: int|
                    #![trigger look.spec_contains(v)]
                    look.spec_contains(v) ==> (old(look).spec_contains(v) || v
                        == TOKEN_EPSILON as int || v == TOKEN_EOF as int || v
                        == TOKEN_INVALID_TYPE as int || atn_label_token(*self.atn, v)),
                forall|t2: int|
                    #![trigger self.atn.states@[s as int].transitions@[t2]]
                    0 <= t2 < t ==> (self.atn.states@[s as int].transitions@[t2] matches
                        Transition::Atom { label, .. } ==> ((isize::MIN + 1 <= label
                        <= isize::MAX - 1) ==> look.spec_contains(label as int))),
                forall|t2: int, v: int|
                    #![trigger self.atn.states@[s as int].transitions@[t2], look.spec_contains(v)]
                    0 <= t2 < t ==> (self.atn.states@[s as int].transitions@[t2] matches
                        Transition::Range { start, stop, .. } ==> ((start <= v <= stop && (
                        isize::MIN + 1 <= start) && (stop <= isize::MAX - 1))
                        ==> look.spec_contains(v))),
                forall|q: int|
                    0 <= q < look_busy@.len() ==> ((#[trigger] look_busy@[q].ctx) matches Some(c)
                        ==> c.relaxed_wf()),
            decreases ntr - t,
        {
            proof {
                assert(self.atn.states@[s as int].transitions@[t as int].wf(
                    self.atn.states@.len() as int,
                ));
            }
            let mx = self.atn.max_token_type;
            let tr = &self.atn.states[s].transitions[t];
            match tr {
                Transition::Rule { target, follow_state, rule_index, .. } => {
                    if !bitset_contains(called_rule_stack, *rule_index) {
                        let new_parent = clone_opt_ctx(&ctx);
                        let boxed: Option<Box<PredictionContext>> = match new_parent {
                            Some(c) => Some(Box::new(c)),
                            None => None,
                        };
                        proof {
                            assert(PredictionContext::opt_cached_ok(boxed));
                        }
                        let new_ctx = PredictionContext::new_singleton_prediction_context(
                            boxed,
                            *follow_state as isize,
                        );
                        proof {
                            assert(new_ctx.relaxed_wf());
                        }
                        bitset_insert(called_rule_stack, *rule_index);
                        self.look_work(
                            *target,
                            stop_state,
                            Some(new_ctx),
                            look,
                            look_busy,
                            called_rule_stack,
                            see_thru_preds,
                            add_eof,
                            fuel - 1,
                        );
                        bitset_remove(called_rule_stack, *rule_index);
                    }
                },
                Transition::Predicate { target, .. } => {
                    if see_thru_preds {
                        let c2 = clone_opt_ctx(&ctx);
                        self.look_work(
                            *target,
                            stop_state,
                            c2,
                            look,
                            look_busy,
                            called_rule_stack,
                            see_thru_preds,
                            add_eof,
                            fuel - 1,
                        );
                    } else {
                        look.add_one(TOKEN_INVALID_TYPE);
                    }
                },
                Transition::PrecedencePredicate { target, .. } => {
                    if see_thru_preds {
                        let c2 = clone_opt_ctx(&ctx);
                        self.look_work(
                            *target,
                            stop_state,
                            c2,
                            look,
                            look_busy,
                            called_rule_stack,
                            see_thru_preds,
                            add_eof,
                            fuel - 1,
                        );
                    } else {
                        look.add_one(TOKEN_INVALID_TYPE);
                    }
                },
                Transition::Wildcard { .. } => {
                    if mx >= TOKEN_MIN_USER_TOKEN_TYPE && mx <= isize::MAX - 1 {
                        look.add_range(TOKEN_MIN_USER_TOKEN_TYPE, mx);
                        proof {
                            assert forall|v: int|
                                TOKEN_MIN_USER_TOKEN_TYPE as int <= v <= mx as int implies
                                atn_label_token(*self.atn, v) by {
                                assert(self.atn.states@[s as int].transitions@[t as int].spec_matches(
                                    v,
                                    TOKEN_MIN_USER_TOKEN_TYPE as int,
                                    self.atn.max_token_type as int,
                                ));
                            }
                        }
                    }
                },
                Transition::Epsilon { target, .. } => {
                    let c2 = clone_opt_ctx(&ctx);
                    self.look_work(
                        *target,
                        stop_state,
                        c2,
                        look,
                        look_busy,
                        called_rule_stack,
                        see_thru_preds,
                        add_eof,
                        fuel - 1,
                    );
                },
                Transition::Action { target, .. } => {
                    let c2 = clone_opt_ctx(&ctx);
                    self.look_work(
                        *target,
                        stop_state,
                        c2,
                        look,
                        look_busy,
                        called_rule_stack,
                        see_thru_preds,
                        add_eof,
                        fuel - 1,
                    );
                },
                Transition::Atom { label, .. } => {
                    if *label >= isize::MIN + 1 && *label <= isize::MAX - 1 {
                        look.add_one(*label);
                        proof {
                            assert(self.atn.states@[s as int].transitions@[t as int].spec_matches(
                                *label as int,
                                TOKEN_MIN_USER_TOKEN_TYPE as int,
                                self.atn.max_token_type as int,
                            ));
                            assert(atn_label_token(*self.atn, *label as int));
                        }
                    }
                },
                Transition::Range { start, stop, .. } => {
                    if *start <= *stop && *start >= isize::MIN + 1 && *stop <= isize::MAX - 1 {
                        look.add_range(*start, *stop);
                        proof {
                            assert forall|v: int| *start as int <= v <= *stop as int implies
                                atn_label_token(*self.atn, v) by {
                                assert(self.atn.states@[s as int].transitions@[t as int].spec_matches(
                                    v,
                                    TOKEN_MIN_USER_TOKEN_TYPE as int,
                                    self.atn.max_token_type as int,
                                ));
                            }
                        }
                    }
                },
                Transition::TokenSet { set, .. } => {
                    look.add_set(set);
                    proof {
                        assert forall|v: int| #[trigger] set.spec_contains(v) implies
                            atn_label_token(*self.atn, v) by {
                            assert(self.atn.states@[s as int].transitions@[t as int].spec_matches(
                                v,
                                TOKEN_MIN_USER_TOKEN_TYPE as int,
                                self.atn.max_token_type as int,
                            ));
                        }
                    }
                },
                Transition::NotTokenSet { set, .. } => {
                    if mx >= TOKEN_MIN_USER_TOKEN_TYPE && mx <= isize::MAX - 1 {
                        let complement = set.complement(TOKEN_MIN_USER_TOKEN_TYPE, mx);
                        look.add_set(&complement);
                        proof {
                            assert forall|v: int| #[trigger] complement.spec_contains(v) implies
                                atn_label_token(*self.atn, v) by {
                                assert(self.atn.states@[s as int].transitions@[t as int].spec_matches(
                                    v,
                                    TOKEN_MIN_USER_TOKEN_TYPE as int,
                                    self.atn.max_token_type as int,
                                ));
                            }
                        }
                    }
                },
            }
            t += 1;
        }
    }
}

/// A deep copy of an optional context, preserving its shape.
fn clone_opt_ctx(c: &Option<PredictionContext>) -> (r: Option<PredictionContext>)
    ensures
        r is Some <==> *c is Some,
        *c matches Some(x) ==> (r matches Some(y) && PredictionContext::cequals(y, x) && (
        x.relaxed_wf() ==> y.relaxed_wf())),
{
    match c {
        Some(x) => Some(x.clone_ctx()),
        None => None,
    }
}

} // verus!

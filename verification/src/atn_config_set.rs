//! A deduplicated collection of configurations. Lookup goes by a key packed
//! from (state, alternative); a configuration arriving at an occupied key
//! merges its prediction context into the stored one. Once installed in a
//! DFA state the set becomes read-only.

use vstd::prelude::*;
use vstd::string::*;
use std::collections::HashMap;
use crate::atn_config::config_cequal;
use crate::atn_config::config_equals;
use crate::atn_config::ATNConfig;
use crate::atn_config::ATNConfigType;
use crate::prediction_context::PredictionContext;
use crate::semantic_context::SemanticContext;

verus! {

broadcast use vstd::std_specs::hash::group_hash_axioms;

/// The lookup key of a configuration: the state number and alternative
/// packed into one word.
pub open spec fn spec_local_key(state: int, alt: int) -> int {
    state * 0x1_0000_0000 + alt
}

/// Structural equality of two config sets: the same configurations in the
/// same order.
pub open spec fn sets_cequal(a: ATNConfigSet, b: ATNConfigSet) -> bool {
    &&& a.configs@.len() == b.configs@.len()
    &&& forall|i: int|
        0 <= i < a.configs@.len() ==> config_cequal(#[trigger] a.configs@[i], b.configs@[i])
}

/// Configuration equality is reflexive.
pub proof fn lemma_config_cequal_refl(c: ATNConfig)
    ensures
        config_cequal(c, c),
{
    match c.context {
        Option::Some(b) => {
            crate::prediction_context::PredictionContext::lemma_cequals_refl(*b);
        },
        Option::None => {},
    }
}

/// Config-set equality is reflexive on sets with equal stored vectors.
pub proof fn lemma_sets_cequal_refl(a: ATNConfigSet, b: ATNConfigSet)
    requires
        a.configs@ == b.configs@,
    ensures
        sets_cequal(a, b),
{
    assert forall|i: int| 0 <= i < a.configs@.len() implies config_cequal(
        #[trigger] a.configs@[i],
        b.configs@[i],
    ) by {
        lemma_config_cequal_refl(a.configs@[i]);
    }
}

pub struct ATNConfigSet {
    pub config_lookup: HashMap<u64, usize>,
    pub configs: Vec<ATNConfig>,
    pub dips_into_outer_context: bool,
    pub full_ctx: bool,
    pub has_semantic_context: bool,
    pub read_only: bool,
    pub unique_alt: isize,
}

impl ATNConfigSet {
    /// Whether some stored configuration has this (state, alternative)
    /// pair.
    pub open spec fn has_pair(self, s: int, a: int) -> bool {
        exists|i: int|
            0 <= i < self.configs@.len() && (#[trigger] self.configs@[i]).state == s
                && self.configs@[i].alt == a
    }

    /// Well-formedness: every configuration is fit for the set, and the
    /// lookup table is exactly the map from packed keys to indices.
    pub open spec fn inv(self) -> bool {
        &&& forall|i: int|
            0 <= i < self.configs@.len() ==> (#[trigger] self.configs@[i]).wf_config()
        &&& forall|i: int|
            0 <= i < self.configs@.len() ==> self.config_lookup@.contains_key(
                ((#[trigger] self.configs@[i]).spec_key()) as u64,
            ) && self.config_lookup@[self.configs@[i].spec_key() as u64] == i
        &&& forall|k: u64|
            #[trigger] self.config_lookup@.contains_key(k) ==> {
                let i = self.config_lookup@[k];
                0 <= i < self.configs@.len() && self.configs@[i as int].spec_key() == k as int
            }
    }

    /// An empty set; `full_ctx` records whether prediction runs with the
    /// caller's full context.
    pub fn new_base_atnconfig_set(full_ctx: bool) -> (r: ATNConfigSet)
        ensures
            r.inv(),
            r.configs@.len() == 0,
            r.full_ctx == full_ctx,
            !r.read_only,
            !r.has_semantic_context,
            !r.dips_into_outer_context,
            r.unique_alt == 0,
    {
        ATNConfigSet {
            config_lookup: HashMap::new(),
            configs: Vec::new(),
            dips_into_outer_context: false,
            full_ctx,
            has_semantic_context: false,
            read_only: false,
            unique_alt: 0,
        }
    }

    /// An empty set for the lexer, which always tracks exact contexts.
    pub fn new_ordered_atnconfig_set() -> (r: ATNConfigSet)
        ensures
            r.inv(),
            r.configs@.len() == 0,
            r.full_ctx,
            !r.read_only,
            !r.has_semantic_context,
    {
        Self::new_base_atnconfig_set(true)
    }

    /// Inserts a configuration. A configuration whose (state, alternative)
    /// pair is already present merges its context into the stored one
    /// (against a wildcard root unless running with full context) and joins
    /// the outer-context counters; otherwise it is appended. The pairs
    /// afterwards are the old pairs plus the new one, each exactly once.
    pub fn add_cached(&mut self, config: ATNConfig) -> (r: bool)
        requires
            old(self).inv(),
            !old(self).read_only,
            config.wf_config(),
        ensures
            r == true,
            final(self).inv(),
            !final(self).read_only,
            final(self).full_ctx == old(self).full_ctx,
            final(self).has_semantic_context == old(self).has_semantic_context,
            final(self).unique_alt == old(self).unique_alt,
            final(self).dips_into_outer_context == (old(self).dips_into_outer_context
                || config.reaches_into_outer_context > 0),
            forall|s: int, a: int|
                #![trigger final(self).has_pair(s, a)]
                final(self).has_pair(s, a) <==> (old(self).has_pair(s, a) || (s == config.state
                    && a == config.alt)),
            old(self).has_pair(config.state as int, config.alt as int) ==> final(self).configs@.len()
                == old(self).configs@.len(),
            !old(self).has_pair(config.state as int, config.alt as int)
                ==> final(self).configs@.len() == old(self).configs@.len() + 1,
            // on a hit, the stored configuration at the matching pair joins
            // the outer-context counters and merges the contexts: the new
            // context's return states are the merge of both (an empty side
            // absorbing under a wildcard root, the union otherwise)
            forall|i: int|
                0 <= i < old(self).configs@.len() && (#[trigger] old(self).configs@[i]).state
                    == config.state && old(self).configs@[i].alt == config.alt ==> {
                    &&& final(self).configs@[i].state == old(self).configs@[i].state
                    &&& final(self).configs@[i].alt == old(self).configs@[i].alt
                    &&& final(self).configs@[i].reaches_into_outer_context == (
                    if config.reaches_into_outer_context
                        > old(self).configs@[i].reaches_into_outer_context {
                        config.reaches_into_outer_context
                    } else {
                        old(self).configs@[i].reaches_into_outer_context
                    })
                    &&& final(self).configs@[i].precedence_filter_suppressed == (old(self).configs@[i].precedence_filter_suppressed
                        || config.precedence_filter_suppressed)
                    &&& final(self).configs@[i].context matches Some(mc) && (*mc).wf()
                    &&& (old(self).configs@[i].context matches Some(ec) && config.context matches
                        Some(ic) && {
                        let merged = *final(self).configs@[i].context->0;
                        let existing = *ec;
                        let incoming = *ic;
                        &&& (!old(self).full_ctx && (existing.spec_is_empty()
                            || incoming.spec_is_empty()) ==> merged.spec_is_empty())
                        &&& (!(!old(self).full_ctx && (existing.spec_is_empty()
                            || incoming.spec_is_empty())) ==> forall|x: isize|
                            #![trigger merged.has_ret(x)]
                            merged.has_ret(x) <==> (existing.has_ret(x) || incoming.has_ret(x)))
                    })
                },
            // on a miss, the configuration is appended unchanged
            !old(self).has_pair(config.state as int, config.alt as int)
                ==> final(self).configs@.last() == config,
    {
        if config.get_reaches_into_outer_context() > 0 {
            self.dips_into_outer_context = true;
        }
        let key = Self::local_key(config.get_state(), config.get_alt());
        let root_is_wildcard = !self.full_ctx;
        let mut config = config;
        let found: Option<usize> = match self.config_lookup.get(&key) {
            Some(i) => Some(*i),
            None => None,
        };
        match found {
            Some(i) => {
                proof {
                    assert(self.config_lookup@.contains_key(key));
                    assert(self.configs@[i as int].spec_key() == key as int);
                    Self::lemma_key_injective(
                        self.configs@[i as int].state as int,
                        self.configs@[i as int].alt as int,
                        config.state as int,
                        config.alt as int,
                    );
                }
                let incoming = config.take_context();
                let reaches_new = config.get_reaches_into_outer_context();
                let suppressed_new = config.get_precedence_filter_suppressed();
                let existing = &mut self.configs[i];
                let current = existing.take_context();
                let merged = PredictionContext::merge(current, incoming, root_is_wildcard);
                existing.set_context(Box::new(merged));
                if reaches_new > existing.get_reaches_into_outer_context() {
                    existing.set_reaches_into_outer_context(reaches_new);
                }
                if suppressed_new {
                    existing.set_precedence_filter_suppressed(true);
                }
                proof {
                    assert forall|j: int|
                        0 <= j < self.configs@.len() implies (
                    #[trigger] self.configs@[j]).wf_config() by {
                        if j != i {
                            assert(self.configs@[j] == old(self).configs@[j]);
                        }
                    }
                    assert forall|j: int|
                        0 <= j < self.configs@.len() implies self.config_lookup@.contains_key(
                        ((#[trigger] self.configs@[j]).spec_key()) as u64,
                    ) && self.config_lookup@[self.configs@[j].spec_key() as u64] == j by {
                        if j != i {
                            assert(self.configs@[j] == old(self).configs@[j]);
                        }
                        assert(self.configs@[j].spec_key() == old(self).configs@[j].spec_key());
                    }
                    assert forall|s: int, a: int|
                        #![trigger self.has_pair(s, a)]
                        self.has_pair(s, a) <==> (old(self).has_pair(s, a) || (s == config.state
                            && a == config.alt)) by {
                        if self.has_pair(s, a) {
                            let j = choose|j: int|
                                0 <= j < self.configs@.len() && (#[trigger] self.configs@[j]).state
                                    == s && self.configs@[j].alt == a;
                            assert(old(self).configs@[j].state == s && old(self).configs@[j].alt
                                == a);
                        }
                        if old(self).has_pair(s, a) {
                            let j = choose|j: int|
                                0 <= j < old(self).configs@.len() && (
                                #[trigger] old(self).configs@[j]).state == s && old(
                                    self,
                                ).configs@[j].alt == a;
                            assert(self.configs@[j].state == s && self.configs@[j].alt == a);
                        }
                        if s == config.state && a == config.alt {
                            assert(self.configs@[i as int].state == s && self.configs@[i as int].alt
                                == a);
                        }
                    }
                }
                true
            },
            None => {
                let idx = self.configs.len();
                self.config_lookup.insert(key, idx);
                self.configs.push(config);
                proof {
                    assert forall|j: int|
                        0 <= j < self.configs@.len() implies (
                    #[trigger] self.configs@[j]).wf_config() && self.config_lookup@.contains_key(
                        (self.configs@[j].spec_key()) as u64,
                    ) && self.config_lookup@[self.configs@[j].spec_key() as u64] == j by {
                        if j < idx {
                            assert(self.configs@[j] == old(self).configs@[j]);
                            assert(old(self).config_lookup@.contains_key(
                                (old(self).configs@[j].spec_key()) as u64,
                            ));
                            if self.configs@[j].spec_key() == key as int {
                                // the old mapping would have found this key
                                assert(old(self).config_lookup@[old(self).configs@[j].spec_key() as u64]
                                    == j);
                                assert(false);
                            }
                        }
                    }
                    assert forall|k: u64| #[trigger]
                        self.config_lookup@.contains_key(k) implies {
                        let i2 = self.config_lookup@[k];
                        0 <= i2 < self.configs@.len() && self.configs@[i2 as int].spec_key() == k
                    } by {
                        if k != key {
                            assert(old(self).config_lookup@.contains_key(k));
                        }
                    }
                    assert forall|s: int, a: int|
                        #![trigger self.has_pair(s, a)]
                        self.has_pair(s, a) <==> (old(self).has_pair(s, a) || (s == config.state
                            && a == config.alt)) by {
                        if self.has_pair(s, a) {
                            let j = choose|j: int|
                                0 <= j < self.configs@.len() && (#[trigger] self.configs@[j]).state
                                    == s && self.configs@[j].alt == a;
                            if j < idx {
                                assert(old(self).configs@[j].state == s && old(
                                    self,
                                ).configs@[j].alt == a);
                            }
                        }
                        if old(self).has_pair(s, a) {
                            let j = choose|j: int|
                                0 <= j < old(self).configs@.len() && (
                                #[trigger] old(self).configs@[j]).state == s && old(
                                    self,
                                ).configs@[j].alt == a;
                            assert(self.configs@[j].state == s && self.configs@[j].alt == a);
                        }
                        if s == config.state && a == config.alt {
                            assert(self.configs@[idx as int].state == s && self.configs@[idx as int].alt
                                == a);
                        }
                    }
                    assert(!old(self).has_pair(config.state as int, config.alt as int)) by {
                        if old(self).has_pair(config.state as int, config.alt as int) {
                            let j = choose|j: int|
                                0 <= j < old(self).configs@.len() && (
                                #[trigger] old(self).configs@[j]).state == config.state && old(
                                    self,
                                ).configs@[j].alt == config.alt;
                            assert(old(self).configs@[j].spec_key() == key as int);
                            assert(old(self).config_lookup@.contains_key(key));
                            assert(false);
                        }
                    }
                }
                true
            },
        }
    }

    /// The packed lookup key.
    fn local_key(state: usize, alt: isize) -> (r: u64)
        requires
            state < 0x1_0000_0000,
            0 <= alt < 0x1_0000_0000,
        ensures
            r == spec_local_key(state as int, alt as int),
    {
        (state as u64) * 0x1_0000_0000 + (alt as u64)
    }

    /// Packed keys are injective on (state, alternative) pairs in range.
    proof fn lemma_key_injective(s1: int, a1: int, s2: int, a2: int)
        requires
            0 <= s1 < 0x1_0000_0000,
            0 <= a1 < 0x1_0000_0000,
            0 <= s2 < 0x1_0000_0000,
            0 <= a2 < 0x1_0000_0000,
            spec_local_key(s1, a1) == spec_local_key(s2, a2),
        ensures
            s1 == s2,
            a1 == a2,
    {
        assert(s1 == s2 && a1 == a2) by (nonlinear_arith)
            requires
                0 <= s1 < 0x1_0000_0000,
                0 <= a1 < 0x1_0000_0000,
                0 <= s2 < 0x1_0000_0000,
                0 <= a2 < 0x1_0000_0000,
                s1 * 0x1_0000_0000 + a1 == s2 * 0x1_0000_0000 + a2,
        ;
    }

    /// Inserts a configuration (the uncached entry point); the same
    /// behaviour as `add_cached`.
    pub fn add(&mut self, config: ATNConfig) -> (r: bool)
        requires
            old(self).inv(),
            !old(self).read_only,
            config.wf_config(),
        ensures
            r == true,
            final(self).inv(),
            !final(self).read_only,
            final(self).full_ctx == old(self).full_ctx,
            final(self).has_semantic_context == old(self).has_semantic_context,
            final(self).unique_alt == old(self).unique_alt,
            final(self).dips_into_outer_context == (old(self).dips_into_outer_context
                || config.reaches_into_outer_context > 0),
            forall|s: int, a: int|
                #![trigger final(self).has_pair(s, a)]
                final(self).has_pair(s, a) <==> (old(self).has_pair(s, a) || (s == config.state
                    && a == config.alt)),
            old(self).has_pair(config.state as int, config.alt as int) ==> final(self).configs@.len()
                == old(self).configs@.len(),
            // on a hit, the stored configuration at the matching pair joins
            // the counters and merges the contexts, exactly as `add_cached`
            forall|i: int|
                0 <= i < old(self).configs@.len() && (#[trigger] old(self).configs@[i]).state
                    == config.state && old(self).configs@[i].alt == config.alt ==> {
                    &&& final(self).configs@[i].state == old(self).configs@[i].state
                    &&& final(self).configs@[i].alt == old(self).configs@[i].alt
                    &&& final(self).configs@[i].reaches_into_outer_context == (
                    if config.reaches_into_outer_context
                        > old(self).configs@[i].reaches_into_outer_context {
                        config.reaches_into_outer_context
                    } else {
                        old(self).configs@[i].reaches_into_outer_context
                    })
                    &&& final(self).configs@[i].precedence_filter_suppressed == (old(self).configs@[i].precedence_filter_suppressed
                        || config.precedence_filter_suppressed)
                    &&& final(self).configs@[i].context matches Some(mc) && (*mc).wf()
                    &&& (old(self).configs@[i].context matches Some(ec) && config.context matches
                        Some(ic) && {
                        let merged = *final(self).configs@[i].context->0;
                        let existing = *ec;
                        let incoming = *ic;
                        &&& (!old(self).full_ctx && (existing.spec_is_empty()
                            || incoming.spec_is_empty()) ==> merged.spec_is_empty())
                        &&& (!(!old(self).full_ctx && (existing.spec_is_empty()
                            || incoming.spec_is_empty())) ==> forall|x: isize|
                            #![trigger merged.has_ret(x)]
                            merged.has_ret(x) <==> (existing.has_ret(x) || incoming.has_ret(x)))
                    })
                },
            !old(self).has_pair(config.state as int, config.alt as int)
                ==> final(self).configs@.len() == old(self).configs@.len() + 1
                && final(self).configs@.last() == config,
    {
        self.add_cached(config)
    }

    /// Inserts every configuration of `coll`.
    pub fn add_all(&mut self, coll: Vec<ATNConfig>) -> (r: bool)
        requires
            old(self).inv(),
            !old(self).read_only,
            forall|i: int| 0 <= i < coll@.len() ==> (#[trigger] coll@[i]).wf_config(),
        ensures
            r == true,
            final(self).inv(),
            !final(self).read_only,
    {
        let mut coll = coll;
        while coll.len() > 0
            invariant
                self.inv(),
                !self.read_only,
                forall|k: int| 0 <= k < coll@.len() ==> (#[trigger] coll@[k]).wf_config(),
            decreases coll@.len(),
        {
            let c = coll.pop();
            match c {
                Some(c) => {
                    self.add_cached(c);
                },
                None => {},
            }
        }
        true
    }

    /// The stored semantic contexts, in configuration order.
    pub fn get_predicates(&self) -> (r: Vec<SemanticContext>)
    {
        let n = self.configs.len();
        let mut out: Vec<SemanticContext> = Vec::new();
        let mut i: usize = 0;
        while i < n
            invariant
                n == self.configs@.len(),
                0 <= i <= n,
            decreases n - i,
        {
            match &self.configs[i].semantic_context {
                Some(b) => {
                    out.push(**b);
                },
                None => {},
            }
            i += 1;
        }
        out
    }

    pub fn get_items(&self) -> (r: &Vec<ATNConfig>)
        ensures
            r == &self.configs,
    {
        &self.configs
    }

    pub fn length(&self) -> (r: usize)
        ensures
            r == self.configs@.len(),
    {
        self.configs.len()
    }

    pub fn is_empty(&self) -> (r: bool)
        ensures
            r == (self.configs@.len() == 0),
    {
        self.configs.len() == 0
    }

    /// Whether a configuration with the same (state, alternative) pair is
    /// present.
    pub fn contains_fast(&self, item: &ATNConfig) -> (r: bool)
        requires
            self.inv(),
            item.wf_config(),
        ensures
            r == self.has_pair(item.state as int, item.alt as int),
    {
        let key = Self::local_key(item.get_state(), item.get_alt());
        let r = self.config_lookup.contains_key(&key);
        proof {
            if r {
                let i = self.config_lookup@[key];
                Self::lemma_key_injective(
                    self.configs@[i as int].state as int,
                    self.configs@[i as int].alt as int,
                    item.state as int,
                    item.alt as int,
                );
                assert(self.has_pair(item.state as int, item.alt as int)) by {
                    assert(self.configs@[i as int].state == item.state && self.configs@[i as int].alt
                        == item.alt);
                }
            } else {
                if self.has_pair(item.state as int, item.alt as int) {
                    let j = choose|j: int|
                        0 <= j < self.configs@.len() && (#[trigger] self.configs@[j]).state
                            == item.state && self.configs@[j].alt == item.alt;
                    assert(self.config_lookup@.contains_key(self.configs@[j].spec_key() as u64));
                    assert(self.configs@[j].spec_key() == key as int);
                    assert(false);
                }
            }
        }
        r
    }

    /// Structural equality with another set: the same configurations in
    /// the same order.
    pub fn equals(&self, other: &ATNConfigSet) -> (r: bool)
        requires
            self.inv(),
            other.inv(),
        ensures
            r == sets_cequal(*self, *other),
    {
        let n = self.configs.len();
        if other.configs.len() != n {
            return false;
        }
        let mut i: usize = 0;
        while i < n
            invariant
                n == self.configs@.len(),
                n == other.configs@.len(),
                0 <= i <= n,
                self.inv(),
                other.inv(),
                forall|k: int|
                    0 <= k < i ==> config_cequal(#[trigger] self.configs@[k], other.configs@[k]),
            decreases n - i,
        {
            if !config_equals(&self.configs[i], &other.configs[i]) {
                return false;
            }
            i += 1;
        }
        true
    }

    /// The same membership test under the slower name.
    pub fn contains(&self, item: &ATNConfig) -> (r: bool)
        requires
            self.inv(),
            item.wf_config(),
        ensures
            r == self.has_pair(item.state as int, item.alt as int),
    {
        self.contains_fast(item)
    }

    /// Empties the set.
    pub fn clear(&mut self)
        requires
            old(self).inv(),
            !old(self).read_only,
        ensures
            final(self).inv(),
            final(self).configs@.len() == 0,
            !final(self).read_only,
    {
        self.configs = Vec::new();
        self.config_lookup = HashMap::new();
    }

    /// A bracketed display form of the set: each configuration's state and
    /// alternative in order.
    pub fn to_display_string(&self) -> (r: String)
    {
        let mut out = "[".to_string();
        let n = self.configs.len();
        let mut i: usize = 0;
        while i < n
            invariant
                n == self.configs@.len(),
            decreases n - i,
        {
            if i > 0 {
                out.append(",");
            }
            out.append("(");
            let st = self.configs[i].get_state().to_string();
            out.append(st.as_str());
            out.append(",");
            let alt = self.configs[i].get_alt().to_string();
            out.append(alt.as_str());
            out.append(")");
            i += 1;
        }
        out.append("]");
        out
    }

    pub fn has_semantic_context(&self) -> (r: bool)
        ensures
            r == self.has_semantic_context,
    {
        self.has_semantic_context
    }

    pub fn set_has_semantic_context(&mut self, v: bool)
        ensures
            *final(self) == (ATNConfigSet { has_semantic_context: v, ..*old(self) }),
    {
        self.has_semantic_context = v;
    }

    pub fn read_only(&self) -> (r: bool)
        ensures
            r == self.read_only,
    {
        self.read_only
    }

    /// Freezes (or thaws) the set; nothing else changes.
    pub fn set_read_only(&mut self, read_only: bool)
        ensures
            *final(self) == (ATNConfigSet { read_only, ..*old(self) }),
    {
        self.read_only = read_only;
    }

    pub fn full_context(&self) -> (r: bool)
        ensures
            r == self.full_ctx,
    {
        self.full_ctx
    }

    pub fn get_unique_alt(&self) -> (r: isize)
        ensures
            r == self.unique_alt,
    {
        self.unique_alt
    }

    pub fn set_unique_alt(&mut self, v: isize)
        ensures
            *final(self) == (ATNConfigSet { unique_alt: v, ..*old(self) }),
    {
        self.unique_alt = v;
    }

    pub fn get_dips_into_outer_context(&self) -> (r: bool)
        ensures
            r == self.dips_into_outer_context,
    {
        self.dips_into_outer_context
    }

    pub fn set_dips_into_outer_context(&mut self, v: bool)
        ensures
            *final(self) == (ATNConfigSet { dips_into_outer_context: v, ..*old(self) }),
    {
        self.dips_into_outer_context = v;
    }
}

} // verus!

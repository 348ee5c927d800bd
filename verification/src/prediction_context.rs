//! Prediction contexts: the call/return chains of rule invocations tracked
//! during simulation. A context is either a single (parent, return state)
//! pair or a sorted array of such pairs standing for merged alternatives;
//! the sentinel return state ends a chain. Contexts carry a structural hash
//! so that equal contexts are interchangeable.

use vstd::prelude::*;

verus! {

/// The sentinel return state that terminates a call chain.
pub const PREDICTION_CONTEXT_EMPTY_RETURN_STATE: isize = 0x7FFFFFFF;

#[derive(Debug)]
#[verifier::ext_equal]
pub enum PredictionContext {
    Singleton(SingletonPredictionContext),
    Array(ArrayPredictionContext),
}

#[derive(Debug)]
#[verifier::ext_equal]
pub struct SingletonPredictionContext {
    pub cached_hash: u32,
    pub parent_ctx: Option<Box<PredictionContext>>,
    pub return_state: isize,
}

#[derive(Debug)]
#[verifier::ext_equal]
pub struct ArrayPredictionContext {
    pub cached_hash: u32,
    pub parents: Vec<Option<Box<PredictionContext>>>,
    pub return_states: Vec<isize>,
}

/// What the 32-bit murmur digest of a word sequence is. Relies on
/// `murmur3::murmur3_32`; the digest depends on the words alone.
pub uninterp spec fn murmur_words(words: Seq<u32>) -> u32;

/// Relies on `murmur3::murmur3_32` (seed 0) over the words' little-endian
/// bytes: the digest is a function of the words alone.
#[verifier::external_body]
pub(crate) fn murmur_hash_words(words: &Vec<u32>) -> (r: u32)
    ensures
        r == murmur_words(words@),
{
    let mut bytes: Vec<u8> = Vec::with_capacity(words.len() * 4);
    for w in words.iter() {
        bytes.extend_from_slice(&w.to_le_bytes());
    }
    murmur3::murmur3_32(&mut std::io::Cursor::new(bytes.as_slice()), 0).unwrap()
}

impl PredictionContext {
    /// The structural hash of a possibly missing parent; 0 stands for none.
    pub open spec fn opt_hash(p: Option<Box<PredictionContext>>) -> u32
        decreases p,
    {
        match p {
            Option::None => 0u32,
            Option::Some(b) => (*b).spec_hash(),
        }
    }

    /// The hash words contributed by an array's parents, in order.
    pub open spec fn parents_words(ps: Seq<Option<Box<PredictionContext>>>) -> Seq<u32>
        decreases ps,
    {
        if ps.len() == 0 {
            Seq::<u32>::empty()
        } else {
            Self::parents_words(ps.drop_last()).push(Self::opt_hash(ps.last()))
        }
    }

    /// The hash words contributed by the return states, in order.
    pub open spec fn states_words(rs: Seq<isize>) -> Seq<u32>
        decreases rs,
    {
        if rs.len() == 0 {
            Seq::<u32>::empty()
        } else {
            Self::states_words(rs.drop_last()).push(rs.last() as u32)
        }
    }

    /// The structural hash: a digest of the parents' hashes and the return
    /// states. It depends only on the structure of the context.
    pub open spec fn spec_hash(self) -> u32
        decreases self,
    {
        match self {
            PredictionContext::Singleton(s) => murmur_words(
                Seq::<u32>::empty().push(Self::opt_hash(s.parent_ctx)).push(s.return_state as u32),
            ),
            PredictionContext::Array(a) => murmur_words(
                Self::parents_words(a.parents@) + Self::states_words(a.return_states@),
            ),
        }
    }

    /// Well-formedness of a possibly missing parent.
    pub open spec fn opt_wf(p: Option<Box<PredictionContext>>) -> bool
        decreases p,
    {
        match p {
            Option::None => true,
            Option::Some(b) => (*b).wf(),
        }
    }

    /// Well-formedness: cached hashes are the structural hash; array return
    /// states are strictly ascending with parallel parents; a missing parent
    /// stands exactly for the sentinel return state; return states lie in
    /// `[0, sentinel]`.
    pub open spec fn wf(self) -> bool
        decreases self,
    {
        match self {
            PredictionContext::Singleton(s) => {
                &&& s.cached_hash == self.spec_hash()
                &&& (s.parent_ctx is None <==> s.return_state
                    == PREDICTION_CONTEXT_EMPTY_RETURN_STATE)
                &&& 0 <= s.return_state <= PREDICTION_CONTEXT_EMPTY_RETURN_STATE
                &&& Self::opt_wf(s.parent_ctx)
            },
            PredictionContext::Array(a) => {
                &&& a.cached_hash == self.spec_hash()
                &&& a.parents@.len() == a.return_states@.len()
                &&& a.return_states@.len() >= 1
                &&& forall|i: int, j: int|
                    0 <= i < j < a.return_states@.len() ==> (#[trigger] a.return_states@[i]) < (
                    #[trigger] a.return_states@[j])
                &&& forall|i: int|
                    0 <= i < a.return_states@.len() ==> 0 <= (#[trigger] a.return_states@[i])
                        <= PREDICTION_CONTEXT_EMPTY_RETURN_STATE
                &&& forall|i: int|
                    0 <= i < a.parents@.len() ==> ((#[trigger] a.parents@[i]) is None <==> a
                        .return_states@[i] == PREDICTION_CONTEXT_EMPTY_RETURN_STATE)
                &&& forall|i: int|
                    0 <= i < a.parents@.len() ==> Self::opt_wf(#[trigger] a.parents@[i])
            },
        }
    }

    /// A weaker shape: hashes are cached correctly, lengths are parallel
    /// and return states bounded, but a missing parent may stand for an
    /// unknown caller rather than the sentinel. Lookahead analysis walks
    /// such chains.
    pub open spec fn relaxed_wf(self) -> bool
        decreases self,
    {
        match self {
            PredictionContext::Singleton(s) => {
                &&& s.cached_hash == self.spec_hash()
                &&& 0 <= s.return_state <= PREDICTION_CONTEXT_EMPTY_RETURN_STATE
                &&& Self::opt_relaxed_wf(s.parent_ctx)
            },
            PredictionContext::Array(a) => {
                &&& a.cached_hash == self.spec_hash()
                &&& a.parents@.len() == a.return_states@.len()
                &&& a.return_states@.len() >= 1
                &&& forall|i: int|
                    0 <= i < a.return_states@.len() ==> 0 <= (#[trigger] a.return_states@[i])
                        <= PREDICTION_CONTEXT_EMPTY_RETURN_STATE
                &&& forall|i: int|
                    0 <= i < a.parents@.len() ==> Self::opt_relaxed_wf(#[trigger] a.parents@[i])
            },
        }
    }

    pub open spec fn opt_relaxed_wf(p: Option<Box<PredictionContext>>) -> bool
        decreases p,
    {
        match p {
            Option::None => true,
            Option::Some(b) => (*b).relaxed_wf(),
        }
    }

    /// Full well-formedness implies the relaxed shape.
    pub proof fn lemma_wf_relaxed(c: PredictionContext)
        requires
            c.wf(),
        ensures
            c.relaxed_wf(),
        decreases c,
    {
        match c {
            PredictionContext::Singleton(s) => {
                Self::lemma_opt_wf_relaxed(s.parent_ctx);
            },
            PredictionContext::Array(a) => {
                assert forall|i: int| 0 <= i < a.parents@.len() implies Self::opt_relaxed_wf(
                    #[trigger] a.parents@[i],
                ) by {
                    Self::lemma_opt_wf_relaxed(a.parents@[i]);
                }
            },
        }
    }

    pub proof fn lemma_opt_wf_relaxed(p: Option<Box<PredictionContext>>)
        requires
            Self::opt_wf(p),
        ensures
            Self::opt_relaxed_wf(p),
        decreases p,
    {
        match p {
            Option::Some(b) => {
                Self::lemma_wf_relaxed(*b);
            },
            Option::None => {},
        }
    }

    /// The return states of this context, in stored order.
    pub open spec fn spec_ret_states(self) -> Seq<isize> {
        match self {
            PredictionContext::Singleton(s) => Seq::<isize>::empty().push(s.return_state),
            PredictionContext::Array(a) => a.return_states@,
        }
    }

    /// Whether `x` is one of this context's return states.
    pub open spec fn has_ret(self, x: isize) -> bool {
        Self::ret_has(self.spec_ret_states(), x)
    }

    /// The parents of this context, in stored order.
    pub open spec fn spec_parents(self) -> Seq<Option<Box<PredictionContext>>> {
        match self {
            PredictionContext::Singleton(s) => Seq::<Option<Box<PredictionContext>>>::empty().push(
                s.parent_ctx,
            ),
            PredictionContext::Array(a) => a.parents@,
        }
    }

    /// The empty context: no parent, sentinel return state.
    pub open spec fn spec_is_empty(self) -> bool {
        match self {
            PredictionContext::Singleton(s) => s.return_state
                == PREDICTION_CONTEXT_EMPTY_RETURN_STATE,
            PredictionContext::Array(_) => false,
        }
    }

    /// Structural equality, disregarding the cached hashes.
    pub open spec fn cequals(a: PredictionContext, b: PredictionContext) -> bool
        decreases a,
    {
        match (a, b) {
            (PredictionContext::Singleton(x), PredictionContext::Singleton(y)) => {
                &&& x.return_state == y.return_state
                &&& Self::opt_cequals(x.parent_ctx, y.parent_ctx)
            },
            (PredictionContext::Array(x), PredictionContext::Array(y)) => {
                &&& x.return_states@ == y.return_states@
                &&& x.parents@.len() == y.parents@.len()
                &&& forall|i: int|
                    0 <= i < x.parents@.len() ==> Self::opt_cequals(
                        #[trigger] x.parents@[i],
                        y.parents@[i],
                    )
            },
            _ => false,
        }
    }

    pub open spec fn opt_cequals(
        a: Option<Box<PredictionContext>>,
        b: Option<Box<PredictionContext>>,
    ) -> bool
        decreases a,
    {
        match (a, b) {
            (Option::None, Option::None) => true,
            (Option::Some(x), Option::Some(y)) => Self::cequals(*x, *y),
            _ => false,
        }
    }

    /// Structural equality is reflexive; together with the merge contract
    /// this gives that merging a context with itself returns it unchanged.
    pub proof fn lemma_cequals_refl(c: PredictionContext)
        ensures
            PredictionContext::cequals(c, c),
        decreases c,
    {
        match c {
            PredictionContext::Singleton(s) => {
                Self::lemma_opt_cequals_refl(s.parent_ctx);
            },
            PredictionContext::Array(a) => {
                assert forall|i: int| 0 <= i < a.parents@.len() implies
                    PredictionContext::opt_cequals(#[trigger] a.parents@[i], a.parents@[i]) by {
                    Self::lemma_opt_cequals_refl(a.parents@[i]);
                }
            },
        }
    }

    pub proof fn lemma_opt_cequals_refl(p: Option<Box<PredictionContext>>)
        ensures
            PredictionContext::opt_cequals(p, p),
        decreases p,
    {
        match p {
            Option::Some(b) => {
                Self::lemma_cequals_refl(*b);
            },
            Option::None => {},
        }
    }

    /// Structurally equal well-formed contexts have the same hash: the hash
    /// words are computed from structure alone.
    pub proof fn lemma_cequals_same_hash(a: PredictionContext, b: PredictionContext)
        requires
            Self::cequals(a, b),
        ensures
            a.spec_hash() == b.spec_hash(),
        decreases a,
    {
        match (a, b) {
            (PredictionContext::Singleton(x), PredictionContext::Singleton(y)) => {
                Self::lemma_opt_cequals_same_hash(x.parent_ctx, y.parent_ctx);
            },
            (PredictionContext::Array(x), PredictionContext::Array(y)) => {
                Self::lemma_parents_words_cequals(x.parents@, y.parents@);
            },
            _ => {},
        }
    }

    pub proof fn lemma_opt_cequals_same_hash(
        a: Option<Box<PredictionContext>>,
        b: Option<Box<PredictionContext>>,
    )
        requires
            Self::opt_cequals(a, b),
        ensures
            Self::opt_hash(a) == Self::opt_hash(b),
        decreases a,
    {
        match (a, b) {
            (Option::Some(x), Option::Some(y)) => {
                Self::lemma_cequals_same_hash(*x, *y);
            },
            _ => {},
        }
    }

    pub proof fn lemma_parents_words_cequals(
        xs: Seq<Option<Box<PredictionContext>>>,
        ys: Seq<Option<Box<PredictionContext>>>,
    )
        requires
            xs.len() == ys.len(),
            forall|i: int|
                0 <= i < xs.len() ==> Self::opt_cequals(#[trigger] xs[i], ys[i]),
        ensures
            Self::parents_words(xs) == Self::parents_words(ys),
        decreases xs,
    {
        if xs.len() > 0 {
            Self::lemma_parents_words_cequals(xs.drop_last(), ys.drop_last());
            Self::lemma_opt_cequals_same_hash(xs.last(), ys.last());
        }
    }

    /// Builds an array context from parallel parents and return states and
    /// fills in the structural hash.
    pub fn new_array_prediction_context(
        parents: Vec<Option<Box<PredictionContext>>>,
        return_states: Vec<isize>,
    ) -> (r: PredictionContext)
        requires
            forall|i: int|
                0 <= i < parents@.len() ==> Self::opt_cached_ok(#[trigger] parents@[i]),
        ensures
            r matches PredictionContext::Array(a) && a.parents@ == parents@ && a.return_states@
                == return_states@,
            r.cached_hash_ok(),
    {
        let ghost gparents = parents@;
        let ghost gstates = return_states@;
        let mut ctx = PredictionContext::Array(
            ArrayPredictionContext { cached_hash: 0, parents, return_states },
        );
        proof {
            assert(ctx.spec_parents() == gparents);
        }
        ctx.calc_hash();
        proof {
            assert(ctx.spec_parents() == gparents);
            assert(ctx.spec_ret_states() == gstates);
        }
        ctx
    }

    /// Builds a one-pair context and fills in the structural hash.
    pub fn new_singleton_prediction_context(
        parent_ctx: Option<Box<PredictionContext>>,
        return_state: isize,
    ) -> (r: PredictionContext)
        requires
            Self::opt_cached_ok(parent_ctx),
        ensures
            r matches PredictionContext::Singleton(s) && s.parent_ctx == parent_ctx
                && s.return_state == return_state,
            r.cached_hash_ok(),
    {
        let ghost gparent = parent_ctx;
        let mut ctx = PredictionContext::Singleton(
            SingletonPredictionContext { cached_hash: 0, parent_ctx, return_state },
        );
        proof {
            assert(ctx.spec_parents() == Seq::<Option<Box<PredictionContext>>>::empty().push(
                gparent,
            ));
            assert(ctx.spec_parents()[0] == gparent);
        }
        ctx.calc_hash();
        proof {
            assert(ctx.spec_parents()[0] == gparent);
            assert(ctx.spec_ret_states()[0] == return_state);
            let ghost c = ctx;
            match c {
                PredictionContext::Singleton(s) => {
                    assert(c.spec_parents()[0] == s.parent_ctx);
                    assert(c.spec_ret_states()[0] == s.return_state);
                },
                _ => {},
            }
        }
        ctx
    }

    /// The empty context.
    pub fn new_empty_prediction_context() -> (r: PredictionContext)
        ensures
            r matches PredictionContext::Singleton(s) && s.parent_ctx is None && s.return_state
                == PREDICTION_CONTEXT_EMPTY_RETURN_STATE,
            r.wf(),
            r.spec_is_empty(),
    {
        let ctx = Self::new_singleton_prediction_context(
            None,
            PREDICTION_CONTEXT_EMPTY_RETURN_STATE,
        );
        ctx
    }

    /// The cached hash field equals the structural hash.
    pub open spec fn cached_hash_ok(self) -> bool {
        match self {
            PredictionContext::Singleton(s) => s.cached_hash == self.spec_hash(),
            PredictionContext::Array(a) => a.cached_hash == self.spec_hash(),
        }
    }

    /// Recomputes the cached hash from the immediate structure and the
    /// children's cached hashes.
    pub fn calc_hash(&mut self)
        requires
            forall|i: int|
                0 <= i < old(self).spec_parents().len() ==> Self::opt_cached_ok(
                    #[trigger] old(self).spec_parents()[i],
                ),
        ensures
            final(self).cached_hash_ok(),
            final(self).spec_parents() == old(self).spec_parents(),
            final(self).spec_ret_states() == old(self).spec_ret_states(),
            *final(self) matches PredictionContext::Singleton(_) <==> *old(
                self,
            ) matches PredictionContext::Singleton(_),
    {
        let mut words: Vec<u32> = Vec::new();
        match self {
            PredictionContext::Singleton(s) => {
                let pw = match &s.parent_ctx {
                    None => 0u32,
                    Some(p) => p.hash_code(),
                };
                words.push(pw);
                words.push(#[verifier::truncate] (s.return_state as u32));
                proof {
                    assert(old(self).spec_parents()[0] == s.parent_ctx);
                    assert(words@ =~= Seq::<u32>::empty().push(
                        Self::opt_hash(s.parent_ctx),
                    ).push(s.return_state as u32));
                }
                let h = murmur_hash_words(&words);
                s.cached_hash = h;
            },
            PredictionContext::Array(a) => {
                proof {
                    assert(old(self).spec_parents() == a.parents@);
                    assert(a.parents@.subrange(0, 0) =~= Seq::<
                        Option<Box<PredictionContext>>,
                    >::empty());
                    assert(words@ =~= Self::parents_words(a.parents@.subrange(0, 0)));
                }
                let n = a.parents.len();
                let mut i: usize = 0;
                while i < n
                    invariant
                        n == a.parents@.len(),
                        0 <= i <= n,
                        forall|k: int|
                            0 <= k < n ==> Self::opt_cached_ok(#[trigger] a.parents@[k]),
                        words@ == Self::parents_words(a.parents@.subrange(0, i as int)),
                    decreases n - i,
                {
                    let pw = match &a.parents[i] {
                        None => 0u32,
                        Some(p) => p.hash_code(),
                    };
                    words.push(pw);
                    i += 1;
                    proof {
                        let pre = a.parents@.subrange(0, i - 1);
                        let cur = a.parents@.subrange(0, i as int);
                        assert(cur.drop_last() =~= pre);
                        assert(cur.last() == a.parents@[i - 1]);
                        assert(words@ =~= Self::parents_words(pre).push(
                            Self::opt_hash(a.parents@[i - 1]),
                        ));
                    }
                }
                proof {
                    assert(a.parents@.subrange(0, n as int) =~= a.parents@);
                }
                let ghost pwords = words@;
                let m = a.return_states.len();
                let mut j: usize = 0;
                while j < m
                    invariant
                        m == a.return_states@.len(),
                        0 <= j <= m,
                        words@ == pwords + Self::states_words(a.return_states@.subrange(0, j as int)),
                    decreases m - j,
                {
                    words.push(#[verifier::truncate] (a.return_states[j] as u32));
                    j += 1;
                    proof {
                        let pre = a.return_states@.subrange(0, j - 1);
                        let cur = a.return_states@.subrange(0, j as int);
                        assert(cur.drop_last() =~= pre);
                        assert(cur.last() == a.return_states@[j - 1]);
                        assert(words@ =~= pwords + Self::states_words(pre).push(
                            a.return_states@[j - 1] as u32,
                        ));
                    }
                }
                proof {
                    assert(a.return_states@.subrange(0, m as int) =~= a.return_states@);
                }
                let h = murmur_hash_words(&words);
                a.cached_hash = h;
            },
        }
    }

    /// The child's cached hash agrees with its structural hash.
    pub open spec fn opt_cached_ok(p: Option<Box<PredictionContext>>) -> bool {
        match p {
            Option::None => true,
            Option::Some(b) => (*b).cached_hash_ok(),
        }
    }

    /// Same structure apart from the top-level cached hash.
    pub open spec fn structure_eq(self, other: PredictionContext) -> bool {
        match (self, other) {
            (PredictionContext::Singleton(x), PredictionContext::Singleton(y)) => x.parent_ctx
                == y.parent_ctx && x.return_state == y.return_state,
            (PredictionContext::Array(x), PredictionContext::Array(y)) => x.parents@ == y.parents@
                && x.return_states@ == y.return_states@,
            _ => false,
        }
    }

    proof fn lemma_structure_eq_refl_mod_hash(a: PredictionContext, b: PredictionContext)
        requires
            a.spec_parents() == b.spec_parents(),
            a.spec_ret_states() == b.spec_ret_states(),
            a matches PredictionContext::Singleton(_) <==> b matches PredictionContext::Singleton(
                _,
            ),
        ensures
            b.structure_eq(a),
    {
        match (a, b) {
            (PredictionContext::Singleton(x), PredictionContext::Singleton(y)) => {
                assert(a.spec_parents()[0] == x.parent_ctx);
                assert(b.spec_parents()[0] == y.parent_ctx);
                assert(a.spec_ret_states()[0] == x.return_state);
                assert(b.spec_ret_states()[0] == y.return_state);
            },
            _ => {},
        }
    }

    /// The cached structural hash.
    pub fn hash_code(&self) -> (r: u32)
        ensures
            r == match self {
                PredictionContext::Singleton(s) => s.cached_hash,
                PredictionContext::Array(a) => a.cached_hash,
            },
            self.cached_hash_ok() ==> r == self.spec_hash(),
    {
        match self {
            PredictionContext::Singleton(s) => s.cached_hash,
            PredictionContext::Array(a) => a.cached_hash,
        }
    }

    /// How many (parent, return state) pairs this context holds.
    pub fn length(&self) -> (r: usize)
        ensures
            r == self.spec_ret_states().len(),
    {
        match self {
            PredictionContext::Singleton(_) => 1,
            PredictionContext::Array(a) => a.return_states.len(),
        }
    }

    /// The `index`-th return state.
    pub fn get_return_state(&self, index: usize) -> (r: isize)
        requires
            index < self.spec_ret_states().len(),
        ensures
            r == self.spec_ret_states()[index as int],
    {
        match self {
            PredictionContext::Singleton(s) => s.return_state,
            PredictionContext::Array(a) => a.return_states[index],
        }
    }

    /// The `index`-th parent, if any.
    pub fn get_parent(&self, index: usize) -> (r: Option<&PredictionContext>)
        requires
            index < self.spec_parents().len(),
        ensures
            match r {
                Option::None => self.spec_parents()[index as int] is None,
                Option::Some(p) => self.spec_parents()[index as int] matches Option::Some(b) && *b
                    == *p,
            },
    {
        match self {
            PredictionContext::Singleton(s) => match &s.parent_ctx {
                None => None,
                Some(p) => Some(&**p),
            },
            PredictionContext::Array(a) => match &a.parents[index] {
                None => None,
                Some(p) => Some(&**p),
            },
        }
    }

    /// Whether this is the empty context.
    pub fn is_empty(&self) -> (r: bool)
        ensures
            r == self.spec_is_empty(),
    {
        match self {
            PredictionContext::Singleton(s) => s.return_state
                == PREDICTION_CONTEXT_EMPTY_RETURN_STATE,
            PredictionContext::Array(_) => false,
        }
    }

    /// The nesting depth of parent chains, the measure that bounds merge
    /// recursion.
    pub open spec fn depth(self) -> nat
        decreases self,
    {
        match self {
            PredictionContext::Singleton(s) => 1 + Self::opt_depth(s.parent_ctx),
            PredictionContext::Array(a) => 1 + Self::parents_depth(a.parents@),
        }
    }

    pub open spec fn opt_depth(p: Option<Box<PredictionContext>>) -> nat
        decreases p,
    {
        match p {
            Option::None => 0nat,
            Option::Some(b) => (*b).depth(),
        }
    }

    pub open spec fn parents_depth(ps: Seq<Option<Box<PredictionContext>>>) -> nat
        decreases ps,
    {
        if ps.len() == 0 {
            0nat
        } else {
            let d1 = Self::parents_depth(ps.drop_last());
            let d2 = Self::opt_depth(ps.last());
            if d1 > d2 {
                d1
            } else {
                d2
            }
        }
    }

    /// Every element's depth is bounded by the sequence's depth.
    pub proof fn lemma_parents_depth_elem(ps: Seq<Option<Box<PredictionContext>>>, i: int)
        requires
            0 <= i < ps.len(),
        ensures
            Self::opt_depth(ps[i]) <= Self::parents_depth(ps),
        decreases ps,
    {
        if i == ps.len() - 1 {
            assert(ps.last() == ps[i]);
        } else {
            Self::lemma_parents_depth_elem(ps.drop_last(), i);
            assert(ps.drop_last()[i] == ps[i]);
        }
    }

    /// Sequences of parents with pointwise equal depths have equal depth.
    pub proof fn lemma_parents_depth_pointwise(
        xs: Seq<Option<Box<PredictionContext>>>,
        ys: Seq<Option<Box<PredictionContext>>>,
    )
        requires
            xs.len() == ys.len(),
            forall|i: int|
                0 <= i < xs.len() ==> Self::opt_depth(#[trigger] xs[i]) == Self::opt_depth(ys[i]),
        ensures
            Self::parents_depth(xs) == Self::parents_depth(ys),
        decreases xs,
    {
        if xs.len() > 0 {
            Self::lemma_parents_depth_pointwise(xs.drop_last(), ys.drop_last());
            assert(Self::opt_depth(xs.last()) == Self::opt_depth(ys.last()));
        }
    }

    /// Shape constraints of an array context's body: parallel columns,
    /// strictly ascending return states in `[0, sentinel]`, missing parents
    /// standing exactly for the sentinel, and well-formed parents.
    pub open spec fn array_body_wf(
        ps: Seq<Option<Box<PredictionContext>>>,
        rs: Seq<isize>,
    ) -> bool
        decreases ps,
    {
        &&& ps.len() == rs.len()
        &&& rs.len() >= 1
        &&& forall|i: int, j: int| 0 <= i < j < rs.len() ==> (#[trigger] rs[i]) < (#[trigger] rs[j])
        &&& forall|i: int| 0 <= i < rs.len() ==> 0 <= (#[trigger] rs[i]) <= PREDICTION_CONTEXT_EMPTY_RETURN_STATE
        &&& forall|i: int|
            0 <= i < ps.len() ==> ((#[trigger] ps[i]) is None <==> rs[i]
                == PREDICTION_CONTEXT_EMPTY_RETURN_STATE)
        &&& forall|i: int| 0 <= i < ps.len() ==> Self::opt_wf(#[trigger] ps[i])
    }

    /// Whether `x` occurs in the sequence of return states.
    pub open spec fn ret_has(rs: Seq<isize>, x: isize) -> bool {
        exists|i: int| 0 <= i < rs.len() && (#[trigger] rs[i]) == x
    }

    proof fn lemma_ret_has_push(rs: Seq<isize>, v: isize)
        ensures
            forall|x: isize|
                #![trigger Self::ret_has(rs.push(v), x)]
                Self::ret_has(rs.push(v), x) <==> (Self::ret_has(rs, x) || x == v),
    {
        assert forall|x: isize|
            Self::ret_has(rs.push(v), x) <==> (Self::ret_has(rs, x) || x == v) by {
            if Self::ret_has(rs.push(v), x) {
                let i = choose|i: int| 0 <= i < rs.push(v).len() && (#[trigger] rs.push(v)[i]) == x;
                if i < rs.len() {
                    assert(rs[i] == x);
                }
            }
            if Self::ret_has(rs, x) {
                let i = choose|i: int| 0 <= i < rs.len() && (#[trigger] rs[i]) == x;
                assert(rs.push(v)[i] == x);
            }
            if x == v {
                assert(rs.push(v)[rs.len() as int] == x);
            }
        }
    }

    /// A deep copy: structurally equal to the original (and well formed
    /// whenever the original is). Vectors are rebuilt, so the copy is
    /// equivalent rather than identical.
    #[verifier::loop_isolation(false)]
    pub fn clone_ctx(&self) -> (r: PredictionContext)
        ensures
            Self::cequals(r, *self),
            Self::cequals(*self, r),
            self.wf() ==> r.wf(),
            self.relaxed_wf() ==> r.relaxed_wf(),
            r.spec_ret_states() == self.spec_ret_states(),
            r.spec_is_empty() == self.spec_is_empty(),
            self.wf() ==> r.spec_hash() == self.spec_hash(),
            self.relaxed_wf() ==> r.spec_hash() == self.spec_hash(),
            r.depth() == self.depth(),
        decreases self,
    {
        match self {
            PredictionContext::Singleton(s) => {
                let p = Self::clone_opt(&s.parent_ctx);
                let out = PredictionContext::Singleton(
                    SingletonPredictionContext {
                        cached_hash: s.cached_hash,
                        parent_ctx: p,
                        return_state: s.return_state,
                    },
                );
                proof {
                    if self.wf() || self.relaxed_wf() {
                        Self::lemma_cequals_same_hash(out, *self);
                    }
                }
                out
            },
            PredictionContext::Array(a) => {
                let n = a.parents.len();
                let mut ps: Vec<Option<Box<PredictionContext>>> = Vec::new();
                let mut i: usize = 0;
                while i < n
                    invariant
                        n == a.parents@.len(),
                        0 <= i <= n,
                        ps@.len() == i,
                        forall|k: int|
                            0 <= k < i ==> Self::opt_cequals(#[trigger] ps@[k], a.parents@[k]),
                        forall|k: int|
                            0 <= k < i ==> Self::opt_cequals(a.parents@[k], #[trigger] ps@[k]),
                        forall|k: int|
                            0 <= k < i ==> (Self::opt_wf(a.parents@[k]) ==> Self::opt_wf(
                                #[trigger] ps@[k],
                            )),
                        forall|k: int|
                            0 <= k < i ==> ((#[trigger] ps@[k]) is None <==> a.parents@[k] is None),
                        forall|k: int|
                            0 <= k < i ==> Self::opt_depth(#[trigger] ps@[k]) == Self::opt_depth(
                                a.parents@[k],
                            ),
                        forall|k: int|
                            0 <= k < i ==> (Self::opt_relaxed_wf(a.parents@[k])
                                ==> Self::opt_relaxed_wf(#[trigger] ps@[k])),
                    decreases n - i,
                {
                    ps.push(Self::clone_opt(&a.parents[i]));
                    i += 1;
                }
                let m = a.return_states.len();
                let mut rs: Vec<isize> = Vec::new();
                let mut j: usize = 0;
                while j < m
                    invariant
                        m == a.return_states@.len(),
                        0 <= j <= m,
                        rs@ == a.return_states@.subrange(0, j as int),
                    decreases m - j,
                {
                    rs.push(a.return_states[j]);
                    j += 1;
                    proof {
                        assert(rs@ =~= a.return_states@.subrange(0, j as int));
                    }
                }
                proof {
                    assert(rs@ =~= a.return_states@);
                }
                let out = PredictionContext::Array(
                    ArrayPredictionContext {
                        cached_hash: a.cached_hash,
                        parents: ps,
                        return_states: rs,
                    },
                );
                proof {
                    assert(Self::cequals(out, *self));
                    assert(Self::cequals(*self, out));
                    Self::lemma_parents_depth_pointwise(ps@, a.parents@);
                    if self.wf() {
                        Self::lemma_cequals_same_hash(out, *self);
                        assert(out.wf());
                    }
                    if self.relaxed_wf() {
                        Self::lemma_cequals_same_hash(out, *self);
                        assert(out.relaxed_wf());
                    }
                }
                out
            },
        }
    }

    /// A deep copy of a possibly missing parent.
    pub fn clone_opt(p: &Option<Box<PredictionContext>>) -> (r: Option<Box<PredictionContext>>)
        ensures
            Self::opt_cequals(r, *p),
            Self::opt_cequals(*p, r),
            Self::opt_wf(*p) ==> Self::opt_wf(r),
            Self::opt_relaxed_wf(*p) ==> Self::opt_relaxed_wf(r),
            r is None <==> *p is None,
            Self::opt_depth(r) == Self::opt_depth(*p),
        decreases p,
    {
        match p {
            None => None,
            Some(b) => Some(Box::new((**b).clone_ctx())),
        }
    }

    /// Structural equality test, disregarding cached hashes.
    #[verifier::loop_isolation(false)]
    pub fn equals(&self, other: &PredictionContext) -> (r: bool)
        requires
            self.relaxed_wf(),
            other.relaxed_wf(),
        ensures
            r == Self::cequals(*self, *other),
        decreases self,
    {
        match self {
            PredictionContext::Singleton(x) => {
                match other {
                    PredictionContext::Singleton(y) => {
                        if x.return_state != y.return_state {
                            proof {
                                assert(!Self::cequals(*self, *other));
                            }
                            return false;
                        }
                        let r = Self::equals_opt_pair(&x.parent_ctx, &y.parent_ctx);
                        proof {
                            assert(r == Self::cequals(*self, *other));
                        }
                        r
                    },
                    _ => false,
                }
            },
            PredictionContext::Array(x) => match other {
                PredictionContext::Array(y) => {
                let n = x.return_states.len();
                if y.return_states.len() != n {
                    proof {
                        assert(!Self::cequals(*self, *other));
                    }
                    return false;
                }
                let mut i: usize = 0;
                while i < n
                    invariant
                        n == x.return_states@.len(),
                        n == y.return_states@.len(),
                        n == x.parents@.len(),
                        n == y.parents@.len(),
                        0 <= i <= n,
                        forall|k: int| 0 <= k < i ==> (#[trigger] x.return_states@[k]) == y.return_states@[k],
                        forall|k: int|
                            0 <= k < i ==> Self::opt_cequals(
                                #[trigger] x.parents@[k],
                                y.parents@[k],
                            ),
                    decreases n - i,
                {
                    if x.return_states[i] != y.return_states[i] {
                        proof {
                            assert(x.return_states@[i as int] != y.return_states@[i as int]);
                            assert(!Self::cequals(*self, *other));
                        }
                        return false;
                    }
                    proof {
                        Self::lemma_parents_depth_elem(x.parents@, i as int);
                    }
                    if !Self::equals_opt_pair(&x.parents[i], &y.parents[i]) {
                        proof {
                            assert(!Self::cequals(*self, *other));
                        }
                        return false;
                    }
                    i += 1;
                }
                proof {
                    assert(x.return_states@ =~= y.return_states@);
                    assert(Self::cequals(*self, *other));
                }
                true
                },
                _ => false,
            },
        }
    }

    /// Structural equality of two possibly missing parents.
    pub fn equals_opt_pair(
        a: &Option<Box<PredictionContext>>,
        b: &Option<Box<PredictionContext>>,
    ) -> (r: bool)
        requires
            Self::opt_relaxed_wf(*a),
            Self::opt_relaxed_wf(*b),
        ensures
            r == Self::opt_cequals(*a, *b),
        decreases a,
    {
        match (a, b) {
            (None, None) => true,
            (Some(x), Some(y)) => (**x).equals(&**y),
            _ => false,
        }
    }

    /// Whether the chain can end here: the (sorted) last return state is the
    /// sentinel.
    pub fn has_empty_path(&self) -> (r: bool)
        requires
            self.spec_ret_states().len() > 0,
        ensures
            r == (self.spec_ret_states().last() == PREDICTION_CONTEXT_EMPTY_RETURN_STATE),
    {
        match self {
            PredictionContext::Singleton(s) => s.return_state
                == PREDICTION_CONTEXT_EMPTY_RETURN_STATE,
            PredictionContext::Array(a) => a.return_states[a.return_states.len() - 1]
                == PREDICTION_CONTEXT_EMPTY_RETURN_STATE,
        }
    }

    /// A singleton context's only return state.
    pub proof fn lemma_singleton_ret(c: PredictionContext)
        requires
            c matches PredictionContext::Singleton(_),
        ensures
            forall|x: isize|
                #![trigger c.has_ret(x)]
                c.has_ret(x) <==> (c matches PredictionContext::Singleton(s) && x
                    == s.return_state),
    {
        let rs = c.spec_ret_states();
        assert forall|x: isize|
            c.has_ret(x) <==> (c matches PredictionContext::Singleton(s) && x
                == s.return_state) by {
            if c.has_ret(x) {
                let i = choose|i: int| 0 <= i < rs.len() && (#[trigger] rs[i]) == x;
                assert(i == 0);
            }
            match c {
                PredictionContext::Singleton(s) => {
                    if x == s.return_state {
                        assert(rs[0] == x);
                    }
                },
                _ => {},
            }
        }
    }

    /// In a well-formed context the chain can end (the last, largest return
    /// state is the sentinel) exactly when the sentinel occurs at all.
    pub proof fn lemma_empty_path_iff_has_bottom(c: PredictionContext)
        requires
            c.wf(),
        ensures
            c.spec_ret_states().len() >= 1,
            (c.spec_ret_states().last() == PREDICTION_CONTEXT_EMPTY_RETURN_STATE) <==> c.has_ret(
                PREDICTION_CONTEXT_EMPTY_RETURN_STATE,
            ),
    {
        let rs = c.spec_ret_states();
        match c {
            PredictionContext::Singleton(s) => {
                assert(rs[0] == s.return_state);
                if s.return_state == PREDICTION_CONTEXT_EMPTY_RETURN_STATE {
                    assert(Self::ret_has(rs, PREDICTION_CONTEXT_EMPTY_RETURN_STATE));
                }
            },
            PredictionContext::Array(a) => {
                if c.has_ret(PREDICTION_CONTEXT_EMPTY_RETURN_STATE) {
                    let i = choose|i: int|
                        0 <= i < rs.len() && (#[trigger] rs[i])
                            == PREDICTION_CONTEXT_EMPTY_RETURN_STATE;
                    if i < rs.len() - 1 {
                        assert(rs[i] < rs[rs.len() - 1]);
                        assert(rs[rs.len() - 1] <= PREDICTION_CONTEXT_EMPTY_RETURN_STATE);
                    }
                }
                if rs.last() == PREDICTION_CONTEXT_EMPTY_RETURN_STATE {
                    assert(Self::ret_has(rs, PREDICTION_CONTEXT_EMPTY_RETURN_STATE));
                }
            },
        }
    }

    /// Structurally equal contexts have the same return states.
    pub proof fn lemma_cequals_rets(a: PredictionContext, b: PredictionContext)
        requires
            Self::cequals(a, b),
        ensures
            a.spec_ret_states() == b.spec_ret_states(),
    {
        match (a, b) {
            (PredictionContext::Singleton(x), PredictionContext::Singleton(y)) => {
                assert(a.spec_ret_states() =~= b.spec_ret_states());
            },
            _ => {},
        }
    }

    pub proof fn lemma_opt_wf_cached(p: Option<Box<PredictionContext>>)
        requires
            Self::opt_wf(p),
        ensures
            Self::opt_cached_ok(p),
    {
    }

    /// Recasts any context as an array of (parent, return state) pairs. The
    /// hash of the result is not filled in; it serves as raw material for
    /// `merge_arrays`.
    pub fn into_array(self) -> (r: ArrayPredictionContext)
        requires
            self.wf(),
        ensures
            Self::array_body_wf(r.parents@, r.return_states@),
            r.return_states@ == self.spec_ret_states(),
            Self::parents_depth(r.parents@) + 1 == self.depth(),
    {
        match self {
            PredictionContext::Singleton(s) => {
                let ghost g = s;
                let r = ArrayPredictionContext {
                    cached_hash: 0,
                    parents: vec![s.parent_ctx],
                    return_states: vec![s.return_state],
                };
                proof {
                    assert(r.parents@ =~= Seq::<Option<Box<PredictionContext>>>::empty().push(
                        g.parent_ctx,
                    ));
                    assert(r.return_states@ =~= Seq::<isize>::empty().push(g.return_state));
                    assert(r.parents@.drop_last() =~= Seq::<
                        Option<Box<PredictionContext>>,
                    >::empty());
                    assert(r.parents@.last() == g.parent_ctx);
                    assert(Self::parents_depth(Seq::<Option<Box<PredictionContext>>>::empty())
                        == 0);
                    assert(Self::parents_depth(r.parents@) == Self::opt_depth(g.parent_ctx));
                }
                r
            },
            PredictionContext::Array(a) => {
                proof {
                    assert(Self::parents_depth(a.parents@) + 1 == PredictionContext::Array(
                        a,
                    ).depth());
                }
                a
            },
        }
    }

    /// Merges two singleton roots when one side is empty: under a wildcard
    /// root the empty context absorbs everything; otherwise the non-empty
    /// pair is kept and an empty branch is added. Returns `None` when
    /// neither side is empty.
    pub fn merge_root(
        a: &SingletonPredictionContext,
        b: &SingletonPredictionContext,
        root_is_wildcard: bool,
    ) -> (r: Option<PredictionContext>)
        requires
            PredictionContext::Singleton(*a).wf(),
            PredictionContext::Singleton(*b).wf(),
        ensures
            (!(a.return_state == PREDICTION_CONTEXT_EMPTY_RETURN_STATE) && !(b.return_state
                == PREDICTION_CONTEXT_EMPTY_RETURN_STATE)) ==> r is None,
            (root_is_wildcard && (a.return_state == PREDICTION_CONTEXT_EMPTY_RETURN_STATE
                || b.return_state == PREDICTION_CONTEXT_EMPTY_RETURN_STATE)) ==> (r matches Some(c)
                && c.wf() && c.spec_is_empty()),
            (!root_is_wildcard && a.return_state == PREDICTION_CONTEXT_EMPTY_RETURN_STATE
                && b.return_state == PREDICTION_CONTEXT_EMPTY_RETURN_STATE) ==> (r matches Some(c)
                && c.wf() && c.spec_is_empty()),
            (!root_is_wildcard && a.return_state == PREDICTION_CONTEXT_EMPTY_RETURN_STATE && !(
            b.return_state == PREDICTION_CONTEXT_EMPTY_RETURN_STATE)) ==> (r matches Some(c)
                && c.wf() && !c.spec_is_empty() && (forall|x: isize|
                #![trigger c.has_ret(x)]
                c.has_ret(x) <==> (x == b.return_state || x
                    == PREDICTION_CONTEXT_EMPTY_RETURN_STATE)) && (
            c matches PredictionContext::Array(arr) && arr.return_states@.len() == 2
                && arr.return_states@[0] == b.return_state && arr.return_states@[1]
                == PREDICTION_CONTEXT_EMPTY_RETURN_STATE && Self::opt_cequals(
                arr.parents@[0],
                b.parent_ctx,
            ) && arr.parents@[1] is None)),
            (!root_is_wildcard && !(a.return_state == PREDICTION_CONTEXT_EMPTY_RETURN_STATE)
                && b.return_state == PREDICTION_CONTEXT_EMPTY_RETURN_STATE) ==> (r matches Some(c)
                && c.wf() && !c.spec_is_empty() && (forall|x: isize|
                #![trigger c.has_ret(x)]
                c.has_ret(x) <==> (x == a.return_state || x
                    == PREDICTION_CONTEXT_EMPTY_RETURN_STATE)) && (
            c matches PredictionContext::Array(arr) && arr.return_states@.len() == 2
                && arr.return_states@[0] == a.return_state && arr.return_states@[1]
                == PREDICTION_CONTEXT_EMPTY_RETURN_STATE && Self::opt_cequals(
                arr.parents@[0],
                a.parent_ctx,
            ) && arr.parents@[1] is None)),
    {
        let a_empty = a.return_state == PREDICTION_CONTEXT_EMPTY_RETURN_STATE;
        let b_empty = b.return_state == PREDICTION_CONTEXT_EMPTY_RETURN_STATE;
        if root_is_wildcard {
            if a_empty || b_empty {
                return Some(Self::new_empty_prediction_context());
            }
        } else {
            if a_empty && b_empty {
                return Some(Self::new_empty_prediction_context());
            }
            if a_empty {
                return Some(Self::merge_root_pair(b));
            }
            if b_empty {
                return Some(Self::merge_root_pair(a));
            }
        }
        None
    }

    /// The two-pair array holding a non-empty singleton's pair and the empty
    /// branch.
    fn merge_root_pair(s: &SingletonPredictionContext) -> (c: PredictionContext)
        requires
            PredictionContext::Singleton(*s).wf(),
            s.return_state != PREDICTION_CONTEXT_EMPTY_RETURN_STATE,
        ensures
            c.wf(),
            !c.spec_is_empty(),
            forall|x: isize|
                #![trigger c.has_ret(x)]
                c.has_ret(x) <==> (x == s.return_state || x
                    == PREDICTION_CONTEXT_EMPTY_RETURN_STATE),
            c matches PredictionContext::Array(arr) && arr.return_states@.len() == 2
                && arr.return_states@[0] == s.return_state && arr.return_states@[1]
                == PREDICTION_CONTEXT_EMPTY_RETURN_STATE && Self::opt_cequals(
                arr.parents@[0],
                s.parent_ctx,
            ) && arr.parents@[1] is None,
    {
        let p = Self::clone_opt(&s.parent_ctx);
        let ghost gp = p;
        let parents: Vec<Option<Box<PredictionContext>>> = vec![p, None];
        let return_states: Vec<isize> = vec![s.return_state, PREDICTION_CONTEXT_EMPTY_RETURN_STATE];
        proof {
            assert(parents@ =~= Seq::<Option<Box<PredictionContext>>>::empty().push(gp).push(
                None,
            ));
            assert(return_states@ =~= Seq::<isize>::empty().push(s.return_state).push(
                PREDICTION_CONTEXT_EMPTY_RETURN_STATE,
            ));
            assert(Self::opt_cached_ok(gp)) by {
                Self::lemma_opt_wf_cached(gp);
            }
        }
        let c = Self::new_array_prediction_context(parents, return_states);
        proof {
            assert(c.wf());
            assert forall|x: isize|
                c.has_ret(x) <==> (x == s.return_state || x
                    == PREDICTION_CONTEXT_EMPTY_RETURN_STATE) by {
                let rs = c.spec_ret_states();
                if c.has_ret(x) {
                    let i = choose|i: int| 0 <= i < rs.len() && (#[trigger] rs[i]) == x;
                }
                if x == s.return_state {
                    assert(rs[0] == x);
                }
                if x == PREDICTION_CONTEXT_EMPTY_RETURN_STATE {
                    assert(rs[1] == x);
                }
            }
        }
        c
    }

    /// Merges two well-formed contexts. Structurally equal inputs return the
    /// first one unchanged; under a wildcard root an empty side absorbs the
    /// other; in every other case the result's return states are exactly the
    /// union of both sides'.
    pub fn merge(a: PredictionContext, b: PredictionContext, root_is_wildcard: bool) -> (r:
        PredictionContext)
        requires
            a.wf(),
            b.wf(),
        ensures
            r.wf(),
            Self::cequals(a, b) ==> r == a,
            (root_is_wildcard && (a.spec_is_empty() || b.spec_is_empty())) ==> r.spec_is_empty(),
            !(root_is_wildcard && (a.spec_is_empty() || b.spec_is_empty())) ==> (forall|x: isize|
                #![trigger r.has_ret(x)]
                r.has_ret(x) <==> (a.has_ret(x) || b.has_ret(x))),
            // merging a non-empty singleton with the empty context under a
            // non-wildcard root preserves the singleton's pair (parent
            // included) and adds the empty branch last
            (!root_is_wildcard && !a.spec_is_empty() && b.spec_is_empty()) ==> (a matches
                PredictionContext::Singleton(sa) ==> (r matches PredictionContext::Array(arr)
                && arr.return_states@.len() == 2 && arr.return_states@[0] == sa.return_state
                && arr.return_states@[1] == PREDICTION_CONTEXT_EMPTY_RETURN_STATE
                && Self::opt_cequals(arr.parents@[0], sa.parent_ctx) && arr.parents@[1] is None)),
            (!root_is_wildcard && !b.spec_is_empty() && a.spec_is_empty()) ==> (b matches
                PredictionContext::Singleton(sb) ==> (r matches PredictionContext::Array(arr)
                && arr.return_states@.len() == 2 && arr.return_states@[0] == sb.return_state
                && arr.return_states@[1] == PREDICTION_CONTEXT_EMPTY_RETURN_STATE
                && Self::opt_cequals(arr.parents@[0], sb.parent_ctx) && arr.parents@[1] is None)),
            // a return-state tie of two one-call chains keeps one pair whose
            // parent merges both parents (neither side's branches dropped)
            (a matches PredictionContext::Singleton(sa) ==> (b matches
                PredictionContext::Singleton(sb) ==> ((sa.return_state
                != PREDICTION_CONTEXT_EMPTY_RETURN_STATE && sb.return_state
                != PREDICTION_CONTEXT_EMPTY_RETURN_STATE && sa.return_state == sb.return_state)
                ==> (r matches PredictionContext::Singleton(sr) && sr.return_state
                == sa.return_state && (sa.parent_ctx matches Some(pa) ==> (
            sb.parent_ctx matches Some(pb) ==> (sr.parent_ctx matches Some(pr) && ((
            root_is_wildcard && (pa.spec_is_empty() || pb.spec_is_empty()))
                ==> pr.spec_is_empty()) && (!(root_is_wildcard && (pa.spec_is_empty()
                || pb.spec_is_empty())) ==> forall|x: isize|
                #![trigger pr.has_ret(x)]
                pr.has_ret(x) <==> (pa.has_ret(x) || pb.has_ret(x))) && (Self::cequals(
                *pa,
                *pb,
            ) ==> Self::cequals(*pr, *pa))))))))),
            // merged arrays hold at least two pairs: a single survivor
            // collapses to a singleton
            !Self::cequals(a, b) ==> (r matches PredictionContext::Array(arr)
                ==> arr.return_states@.len() >= 2),
        decreases a.depth() + b.depth(), 1int,
    {
        proof {
            Self::lemma_wf_relaxed(a);
            Self::lemma_wf_relaxed(b);
        }
        if a.equals(&b) {
            proof {
                Self::lemma_cequals_rets(a, b);
                // structurally equal sides are both empty or both not
                assert(a.spec_ret_states()[0] == b.spec_ret_states()[0]);
                assert(a.spec_is_empty() <==> b.spec_is_empty()) by {
                    match (a, b) {
                        (PredictionContext::Singleton(x), PredictionContext::Singleton(y)) => {},
                        _ => {},
                    }
                }
                match (&a, &b) {
                    (PredictionContext::Singleton(xa), PredictionContext::Singleton(xb)) => {
                        match (&xa.parent_ctx, &xb.parent_ctx) {
                            (Option::Some(pa), Option::Some(pb)) => {
                                assert(Self::cequals(**pa, **pb));
                                Self::lemma_cequals_rets(**pa, **pb);
                                Self::lemma_cequals_refl(**pa);
                                assert((**pa).spec_is_empty() <==> (**pb).spec_is_empty()) by {
                                    match (&**pa, &**pb) {
                                        (
                                            PredictionContext::Singleton(u),
                                            PredictionContext::Singleton(v),
                                        ) => {},
                                        _ => {},
                                    }
                                }
                            },
                            _ => {},
                        }
                    },
                    _ => {},
                }
            }
            return a;
        }
        match (a, b) {
            (PredictionContext::Singleton(sa), PredictionContext::Singleton(sb)) => {
                let r = Self::merge_singletons(sa, sb, root_is_wildcard);
                proof {
                    Self::lemma_singleton_ret(a);
                    Self::lemma_singleton_ret(b);
                    if r.spec_is_empty() {
                        Self::lemma_singleton_ret(r);
                    }
                    // two distinct surviving return states need two slots
                    match &r {
                        PredictionContext::Array(arr) => {
                            if sa.return_state != sb.return_state && !(root_is_wildcard
                                && (sa.return_state == PREDICTION_CONTEXT_EMPTY_RETURN_STATE
                                    || sb.return_state
                                        == PREDICTION_CONTEXT_EMPTY_RETURN_STATE)) {
                                assert(r.has_ret(sa.return_state));
                                assert(r.has_ret(sb.return_state));
                                let rs = r.spec_ret_states();
                                let i = choose|i: int|
                                    0 <= i < rs.len() && (#[trigger] rs[i]) == sa.return_state;
                                let j = choose|j: int|
                                    0 <= j < rs.len() && (#[trigger] rs[j]) == sb.return_state;
                                assert(i != j);
                            }
                        },
                        _ => {},
                    }
                }
                r
            },
            (aa, bb) => {
                if root_is_wildcard {
                    if aa.is_empty() {
                        return Self::new_empty_prediction_context();
                    }
                    if bb.is_empty() {
                        return Self::new_empty_prediction_context();
                    }
                }
                let ghost ga = aa;
                let ghost gb = bb;
                let arr_a = aa.into_array();
                let arr_b = bb.into_array();
                let r = Self::merge_arrays(arr_a, arr_b, root_is_wildcard);
                r
            },
        }
    }

    /// Merges two singleton contexts: an empty side is handled by
    /// `merge_root`; equal return states merge the parents recursively; and
    /// different return states yield a sorted two-pair array.
    pub fn merge_singletons(
        sa: SingletonPredictionContext,
        sb: SingletonPredictionContext,
        root_is_wildcard: bool,
    ) -> (r: PredictionContext)
        requires
            PredictionContext::Singleton(sa).wf(),
            PredictionContext::Singleton(sb).wf(),
        ensures
            r.wf(),
            (root_is_wildcard && (sa.return_state == PREDICTION_CONTEXT_EMPTY_RETURN_STATE
                || sb.return_state == PREDICTION_CONTEXT_EMPTY_RETURN_STATE))
                ==> r.spec_is_empty(),
            !(root_is_wildcard && (sa.return_state == PREDICTION_CONTEXT_EMPTY_RETURN_STATE
                || sb.return_state == PREDICTION_CONTEXT_EMPTY_RETURN_STATE)) ==> (forall|x: isize|
                #![trigger r.has_ret(x)]
                r.has_ret(x) <==> (x == sa.return_state || x == sb.return_state)),
            (sa.return_state == PREDICTION_CONTEXT_EMPTY_RETURN_STATE && sb.return_state
                == PREDICTION_CONTEXT_EMPTY_RETURN_STATE) ==> r.spec_is_empty(),
            // one empty side under a non-wildcard root keeps the other
            // side's pair (parent included) and adds the empty branch last
            (!root_is_wildcard && !(sa.return_state == PREDICTION_CONTEXT_EMPTY_RETURN_STATE)
                && sb.return_state == PREDICTION_CONTEXT_EMPTY_RETURN_STATE) ==> (
            r matches PredictionContext::Array(arr) && arr.return_states@.len() == 2
                && arr.return_states@[0] == sa.return_state && arr.return_states@[1]
                == PREDICTION_CONTEXT_EMPTY_RETURN_STATE && Self::opt_cequals(
                arr.parents@[0],
                sa.parent_ctx,
            ) && arr.parents@[1] is None),
            (!root_is_wildcard && sa.return_state == PREDICTION_CONTEXT_EMPTY_RETURN_STATE && !(
            sb.return_state == PREDICTION_CONTEXT_EMPTY_RETURN_STATE)) ==> (
            r matches PredictionContext::Array(arr) && arr.return_states@.len() == 2
                && arr.return_states@[0] == sb.return_state && arr.return_states@[1]
                == PREDICTION_CONTEXT_EMPTY_RETURN_STATE && Self::opt_cequals(
                arr.parents@[0],
                sb.parent_ctx,
            ) && arr.parents@[1] is None),
            // a return-state tie merges the parents: the result is one pair
            // with that state, its parent the merge of both parents
            (sa.return_state != PREDICTION_CONTEXT_EMPTY_RETURN_STATE && sb.return_state
                != PREDICTION_CONTEXT_EMPTY_RETURN_STATE && sa.return_state == sb.return_state)
                ==> (r matches PredictionContext::Singleton(sr) && sr.return_state
                == sa.return_state && (sa.parent_ctx matches Some(pa) ==> (
            sb.parent_ctx matches Some(pb) ==> (sr.parent_ctx matches Some(pr) && ((
            root_is_wildcard && (pa.spec_is_empty() || pb.spec_is_empty()))
                ==> pr.spec_is_empty()) && (!(root_is_wildcard && (pa.spec_is_empty()
                || pb.spec_is_empty())) ==> forall|x: isize|
                #![trigger pr.has_ret(x)]
                pr.has_ret(x) <==> (pa.has_ret(x) || pb.has_ret(x))) && (Self::cequals(
                *pa,
                *pb,
            ) ==> Self::cequals(*pr, *pa)))))),
        decreases 2 + Self::opt_depth(sa.parent_ctx) + Self::opt_depth(sb.parent_ctx), 0int,
    {
        let rooted = Self::merge_root(&sa, &sb, root_is_wildcard);
        match rooted {
            Some(c) => {
                proof {
                    if c.spec_is_empty() {
                        Self::lemma_singleton_ret(c);
                    }
                }
                c
            },
            None => {
                // neither side is empty, so both have parents
                if sa.return_state == sb.return_state {
                    match (sa.parent_ctx, sb.parent_ctx) {
                        (Some(pa), Some(pb)) => {
                            let ghost gpa = *pa;
                            let ghost gpb = *pb;
                            let parent = Self::merge(*pa, *pb, root_is_wildcard);
                            let r = Self::new_singleton_prediction_context(
                                Some(Box::new(parent)),
                                sa.return_state,
                            );
                            proof {
                                assert(r.wf());
                                Self::lemma_singleton_ret(r);
                                if Self::cequals(gpa, gpb) {
                                    Self::lemma_cequals_refl(gpa);
                                }
                            }
                            r
                        },
                        _ => {
                            proof {
                                assert(false);
                            }
                            Self::new_empty_prediction_context()
                        },
                    }
                } else {
                    let (lo, hi) = if sa.return_state < sb.return_state {
                        (sa, sb)
                    } else {
                        (sb, sa)
                    };
                    let ghost glo = lo;
                    let ghost ghi = hi;
                    let parents: Vec<Option<Box<PredictionContext>>> = vec![
                        lo.parent_ctx,
                        hi.parent_ctx,
                    ];
                    let return_states: Vec<isize> = vec![lo.return_state, hi.return_state];
                    proof {
                        assert(parents@ =~= Seq::<Option<Box<PredictionContext>>>::empty().push(
                            glo.parent_ctx,
                        ).push(ghi.parent_ctx));
                        assert(return_states@ =~= Seq::<isize>::empty().push(glo.return_state).push(
                            ghi.return_state,
                        ));
                        Self::lemma_opt_wf_cached(glo.parent_ctx);
                        Self::lemma_opt_wf_cached(ghi.parent_ctx);
                    }
                    let r = Self::new_array_prediction_context(parents, return_states);
                    proof {
                        assert(r.wf());
                        assert forall|x: isize|
                            r.has_ret(x) <==> (x == sa.return_state || x == sb.return_state) by {
                            let rs = r.spec_ret_states();
                            if r.has_ret(x) {
                                let i = choose|i: int| 0 <= i < rs.len() && (#[trigger] rs[i]) == x;
                            }
                            if x == glo.return_state {
                                assert(rs[0] == x);
                            }
                            if x == ghi.return_state {
                                assert(rs[1] == x);
                            }
                        }
                    }
                    r
                }
            },
        }
    }

    /// Sorted merge of two array contexts by return state; parents are
    /// shared where equal and merged recursively on ties. The result's
    /// return states are the union of both inputs'.
    pub fn merge_arrays(
        a: ArrayPredictionContext,
        b: ArrayPredictionContext,
        root_is_wildcard: bool,
    ) -> (r: PredictionContext)
        requires
            Self::array_body_wf(a.parents@, a.return_states@),
            Self::array_body_wf(b.parents@, b.return_states@),
        ensures
            r.wf(),
            forall|x: isize|
                #![trigger r.has_ret(x)]
                r.has_ret(x) <==> (Self::ret_has(a.return_states@, x) || Self::ret_has(
                    b.return_states@,
                    x,
                )),
            // a single surviving pair collapses to a singleton
            r matches PredictionContext::Array(arr) ==> arr.return_states@.len() >= 2,
        decreases Self::parents_depth(a.parents@) + Self::parents_depth(b.parents@) + 1, 0int,
    {
        let na = a.return_states.len();
        let nb = b.return_states.len();
        let mut mp: Vec<Option<Box<PredictionContext>>> = Vec::new();
        let mut ms: Vec<isize> = Vec::new();
        let mut i: usize = 0;
        let mut j: usize = 0;
        proof {
            assert(a.return_states@.subrange(0, 0) =~= Seq::<isize>::empty());
            assert(b.return_states@.subrange(0, 0) =~= Seq::<isize>::empty());
        }
        while i < na && j < nb
            invariant
                na == a.return_states@.len(),
                nb == b.return_states@.len(),
                na == a.parents@.len(),
                nb == b.parents@.len(),
                0 <= i <= na,
                0 <= j <= nb,
                Self::array_body_wf(a.parents@, a.return_states@),
                Self::array_body_wf(b.parents@, b.return_states@),
                ms@.len() == mp@.len(),
                forall|p: int, q: int|
                    0 <= p < q < ms@.len() ==> (#[trigger] ms@[p]) < (#[trigger] ms@[q]),
                forall|p: int|
                    0 <= p < ms@.len() ==> 0 <= (#[trigger] ms@[p])
                        <= PREDICTION_CONTEXT_EMPTY_RETURN_STATE,
                forall|p: int|
                    0 <= p < mp@.len() ==> ((#[trigger] mp@[p]) is None <==> ms@[p]
                        == PREDICTION_CONTEXT_EMPTY_RETURN_STATE),
                forall|p: int| 0 <= p < mp@.len() ==> Self::opt_wf(#[trigger] mp@[p]),
                forall|x: isize|
                    #![trigger Self::ret_has(ms@, x)]
                    Self::ret_has(ms@, x) <==> (Self::ret_has(
                        a.return_states@.subrange(0, i as int),
                        x,
                    ) || Self::ret_has(b.return_states@.subrange(0, j as int), x)),
                ms@.len() > 0 && i < na ==> ms@.last() < a.return_states@[i as int],
                ms@.len() > 0 && j < nb ==> ms@.last() < b.return_states@[j as int],
            decreases na - i + nb - j,
        {
            let ghost old_ms = ms@;
            let ghost old_i = i as int;
            let ghost old_j = j as int;
            let ar = a.return_states[i];
            let br = b.return_states[j];
            if ar == br {
                if ar == PREDICTION_CONTEXT_EMPTY_RETURN_STATE {
                    ms.push(ar);
                    mp.push(None);
                } else {
                    proof {
                        Self::lemma_parents_depth_elem(a.parents@, i as int);
                        Self::lemma_parents_depth_elem(b.parents@, j as int);
                    }
                    let merged_parent: Option<Box<PredictionContext>> = match (
                        &a.parents[i],
                        &b.parents[j],
                    ) {
                        (Some(pa), Some(pb)) => {
                            proof {
                                Self::lemma_wf_relaxed(**pa);
                                Self::lemma_wf_relaxed(**pb);
                            }
                            if (**pa).equals(&**pb) {
                                Some(Box::new((**pa).clone_ctx()))
                            } else {
                                let ca = (**pa).clone_ctx();
                                let cb = (**pb).clone_ctx();
                                let m = Self::merge(ca, cb, root_is_wildcard);
                                Some(Box::new(m))
                            }
                        },
                        _ => {
                            proof {
                                assert(false);
                            }
                            None
                        },
                    };
                    ms.push(ar);
                    mp.push(merged_parent);
                }
                i += 1;
                j += 1;
            } else if ar < br {
                ms.push(ar);
                mp.push(Self::clone_opt(&a.parents[i]));
                i += 1;
            } else {
                ms.push(br);
                mp.push(Self::clone_opt(&b.parents[j]));
                j += 1;
            }
            proof {
                Self::lemma_ret_has_push(old_ms, ms@.last());
                assert(ms@ =~= old_ms.push(ms@.last()));
                if i as int > old_i {
                    let pre = a.return_states@.subrange(0, old_i);
                    let cur = a.return_states@.subrange(0, i as int);
                    assert(cur =~= pre.push(a.return_states@[old_i]));
                    Self::lemma_ret_has_push(pre, a.return_states@[old_i]);
                }
                if j as int > old_j {
                    let pre = b.return_states@.subrange(0, old_j);
                    let cur = b.return_states@.subrange(0, j as int);
                    assert(cur =~= pre.push(b.return_states@[old_j]));
                    Self::lemma_ret_has_push(pre, b.return_states@[old_j]);
                }
            }
        }
        // copy what is left of either side
        while i < na
            invariant
                na == a.return_states@.len(),
                na == a.parents@.len(),
                nb == b.return_states@.len(),
                0 <= i <= na,
                j == nb || i == na,
                j <= nb,
                Self::array_body_wf(a.parents@, a.return_states@),
                Self::array_body_wf(b.parents@, b.return_states@),
                ms@.len() == mp@.len(),
                forall|p: int, q: int|
                    0 <= p < q < ms@.len() ==> (#[trigger] ms@[p]) < (#[trigger] ms@[q]),
                forall|p: int|
                    0 <= p < ms@.len() ==> 0 <= (#[trigger] ms@[p])
                        <= PREDICTION_CONTEXT_EMPTY_RETURN_STATE,
                forall|p: int|
                    0 <= p < mp@.len() ==> ((#[trigger] mp@[p]) is None <==> ms@[p]
                        == PREDICTION_CONTEXT_EMPTY_RETURN_STATE),
                forall|p: int| 0 <= p < mp@.len() ==> Self::opt_wf(#[trigger] mp@[p]),
                forall|x: isize|
                    #![trigger Self::ret_has(ms@, x)]
                    Self::ret_has(ms@, x) <==> (Self::ret_has(
                        a.return_states@.subrange(0, i as int),
                        x,
                    ) || Self::ret_has(b.return_states@.subrange(0, j as int), x)),
                ms@.len() > 0 && i < na ==> ms@.last() < a.return_states@[i as int],
                ms@.len() > 0 && j < nb ==> ms@.last() < b.return_states@[j as int],
            decreases na - i,
        {
            let ghost old_ms = ms@;
            let ghost old_i = i as int;
            ms.push(a.return_states[i]);
            mp.push(Self::clone_opt(&a.parents[i]));
            i += 1;
            proof {
                Self::lemma_ret_has_push(old_ms, ms@.last());
                assert(ms@ =~= old_ms.push(ms@.last()));
                let pre = a.return_states@.subrange(0, old_i);
                let cur = a.return_states@.subrange(0, i as int);
                assert(cur =~= pre.push(a.return_states@[old_i]));
                Self::lemma_ret_has_push(pre, a.return_states@[old_i]);
            }
        }
        while j < nb
            invariant
                nb == b.return_states@.len(),
                nb == b.parents@.len(),
                na == a.return_states@.len(),
                0 <= j <= nb,
                i == na,
                Self::array_body_wf(a.parents@, a.return_states@),
                Self::array_body_wf(b.parents@, b.return_states@),
                ms@.len() == mp@.len(),
                forall|p: int, q: int|
                    0 <= p < q < ms@.len() ==> (#[trigger] ms@[p]) < (#[trigger] ms@[q]),
                forall|p: int|
                    0 <= p < ms@.len() ==> 0 <= (#[trigger] ms@[p])
                        <= PREDICTION_CONTEXT_EMPTY_RETURN_STATE,
                forall|p: int|
                    0 <= p < mp@.len() ==> ((#[trigger] mp@[p]) is None <==> ms@[p]
                        == PREDICTION_CONTEXT_EMPTY_RETURN_STATE),
                forall|p: int| 0 <= p < mp@.len() ==> Self::opt_wf(#[trigger] mp@[p]),
                forall|x: isize|
                    #![trigger Self::ret_has(ms@, x)]
                    Self::ret_has(ms@, x) <==> (Self::ret_has(
                        a.return_states@.subrange(0, i as int),
                        x,
                    ) || Self::ret_has(b.return_states@.subrange(0, j as int), x)),
                ms@.len() > 0 && j < nb ==> ms@.last() < b.return_states@[j as int],
            decreases nb - j,
        {
            let ghost old_ms = ms@;
            let ghost old_j = j as int;
            ms.push(b.return_states[j]);
            mp.push(Self::clone_opt(&b.parents[j]));
            j += 1;
            proof {
                Self::lemma_ret_has_push(old_ms, ms@.last());
                assert(ms@ =~= old_ms.push(ms@.last()));
                let pre = b.return_states@.subrange(0, old_j);
                let cur = b.return_states@.subrange(0, j as int);
                assert(cur =~= pre.push(b.return_states@[old_j]));
                Self::lemma_ret_has_push(pre, b.return_states@[old_j]);
            }
        }
        proof {
            assert(a.return_states@.subrange(0, na as int) =~= a.return_states@);
            assert(b.return_states@.subrange(0, nb as int) =~= b.return_states@);
            // the union of two non-empty sides is non-empty
            assert(Self::ret_has(a.return_states@, a.return_states@[0]));
            assert(Self::ret_has(ms@, a.return_states@[0]));
        }
        let ghost full_ms = ms@;
        if ms.len() == 1 {
            let p0 = mp.pop();
            let s0 = ms.pop();
            match (p0, s0) {
                (Some(p), Some(v)) => {
                    proof {
                        Self::lemma_opt_wf_cached(p);
                    }
                    let r = Self::new_singleton_prediction_context(p, v);
                    proof {
                        assert(r.wf());
                        assert(full_ms[0] == v);
                        assert(r.spec_ret_states() =~= Seq::<isize>::empty().push(v));
                        assert forall|x: isize|
                            #![trigger r.has_ret(x)]
                            r.has_ret(x) <==> Self::ret_has(full_ms, x) by {
                            if r.has_ret(x) {
                                assert(r.spec_ret_states()[0] == x);
                                assert(Self::ret_has(full_ms, x));
                            }
                            if Self::ret_has(full_ms, x) {
                                let k = choose|k: int|
                                    0 <= k < full_ms.len() && (#[trigger] full_ms[k]) == x;
                                assert(r.spec_ret_states()[0] == x);
                                assert(Self::ret_has(r.spec_ret_states(), x));
                            }
                        }
                    }
                    r
                },
                _ => {
                    proof {
                        assert(false);
                    }
                    Self::new_empty_prediction_context()
                },
            }
        } else {
            proof {
                assert forall|p: int| 0 <= p < mp@.len() implies Self::opt_cached_ok(
                    #[trigger] mp@[p],
                ) by {
                    Self::lemma_opt_wf_cached(mp@[p]);
                }
            }
            let r = Self::new_array_prediction_context(mp, ms);
            proof {
                assert(r.wf());
            }
            r
        }
    }
}

/// A structural-equality cache of prediction contexts, so that equal merge
/// results can be shared.
pub struct PredictionContextCache {
    pub cache: Vec<PredictionContext>,
}

impl PredictionContextCache {
    /// All cached contexts are well formed.
    pub open spec fn inv(self) -> bool {
        forall|i: int| 0 <= i < self.cache@.len() ==> (#[trigger] self.cache@[i]).wf()
    }

    pub fn new() -> (r: PredictionContextCache)
        ensures
            r.inv(),
            r.cache@.len() == 0,
    {
        PredictionContextCache { cache: Vec::new() }
    }

    /// Stores a context unless a structurally equal one is already present.
    pub fn add(&mut self, ctx: PredictionContext)
        requires
            old(self).inv(),
            ctx.wf(),
        ensures
            final(self).inv(),
            exists|i: int|
                0 <= i < final(self).cache@.len() && PredictionContext::cequals(
                    #[trigger] final(self).cache@[i],
                    ctx,
                ),
    {
        let found = self.get_index(&ctx);
        match found {
            Some(_) => {},
            None => {
                self.cache.push(ctx);
                proof {
                    assert(PredictionContext::cequals(self.cache@.last(), ctx)) by {
                        PredictionContext::lemma_cequals_refl(ctx);
                    }
                }
            },
        }
    }

    /// Looks up a structurally equal cached context.
    pub fn get<'a>(&'a self, ctx: &PredictionContext) -> (r: Option<&'a PredictionContext>)
        requires
            self.inv(),
            ctx.wf(),
        ensures
            r matches Some(c) ==> PredictionContext::cequals(*c, *ctx),
            r is None ==> forall|i: int|
                0 <= i < self.cache@.len() ==> !PredictionContext::cequals(
                    #[trigger] self.cache@[i],
                    *ctx,
                ),
    {
        let idx = self.get_index(ctx);
        match idx {
            Some(i) => Some(&self.cache[i]),
            None => None,
        }
    }

    fn get_index(&self, ctx: &PredictionContext) -> (r: Option<usize>)
        requires
            self.inv(),
            ctx.wf(),
        ensures
            r matches Some(i) ==> i < self.cache@.len() && PredictionContext::cequals(
                self.cache@[i as int],
                *ctx,
            ),
            r is None ==> forall|i: int|
                0 <= i < self.cache@.len() ==> !PredictionContext::cequals(
                    #[trigger] self.cache@[i],
                    *ctx,
                ),
    {
        let n = self.cache.len();
        let mut i: usize = 0;
        while i < n
            invariant
                n == self.cache@.len(),
                0 <= i <= n,
                self.inv(),
                ctx.wf(),
                forall|k: int|
                    0 <= k < i ==> !PredictionContext::cequals(#[trigger] self.cache@[k], *ctx),
            decreases n - i,
        {
            proof {
                PredictionContext::lemma_wf_relaxed(self.cache@[i as int]);
                PredictionContext::lemma_wf_relaxed(*ctx);
            }
            if self.cache[i].equals(ctx) {
                return Some(i);
            }
            i += 1;
        }
        None
    }

    pub fn length(&self) -> (r: usize)
        ensures
            r == self.cache@.len(),
    {
        self.cache.len()
    }
}

} // verus!

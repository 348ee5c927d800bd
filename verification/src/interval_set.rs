//! Sets of integers kept as sorted, disjoint, non-adjacent inclusive ranges.
//! Transition labels and expected-token sets are represented this way.

use vstd::prelude::*;

verus! {

/// An inclusive range `[a, b]` of integer symbol values.
#[derive(Clone, Copy, Debug, PartialEq, Eq, Structural)]
pub struct Interval {
    pub a: isize,
    pub b: isize,
}

/// Whether `v` lies inside the inclusive interval `iv`.
pub open spec fn interval_contains(iv: Interval, v: int) -> bool {
    iv.a <= v <= iv.b
}

/// Whether some interval of the sequence contains `x`.
pub open spec fn seq_contains(ivs: Seq<Interval>, x: int) -> bool {
    exists|k: int| 0 <= k < ivs.len() && interval_contains(#[trigger] ivs[k], x)
}

/// Membership distributes over `push`.
proof fn lemma_seq_contains_push(s: Seq<Interval>, iv: Interval)
    ensures
        forall|x: int|
            #![trigger seq_contains(s.push(iv), x)]
            seq_contains(s.push(iv), x) <==> (seq_contains(s, x) || interval_contains(iv, x)),
{
    assert forall|x: int|
        seq_contains(s.push(iv), x) <==> (seq_contains(s, x) || interval_contains(iv, x)) by {
        if seq_contains(s.push(iv), x) {
            let k = choose|k: int|
                0 <= k < s.push(iv).len() && interval_contains(#[trigger] s.push(iv)[k], x);
            if k < s.len() {
                assert(s.push(iv)[k] == s[k]);
                assert(interval_contains(s[k], x));
            } else {
                assert(s.push(iv)[k] == iv);
            }
        }
        if seq_contains(s, x) {
            let k = choose|k: int| 0 <= k < s.len() && interval_contains(#[trigger] s[k], x);
            assert(s.push(iv)[k] == s[k]);
            assert(interval_contains(s.push(iv)[k], x));
        }
        if interval_contains(iv, x) {
            assert(s.push(iv)[s.len() as int] == iv);
            assert(interval_contains(s.push(iv)[s.len() as int], x));
        }
    }
}

/// Membership distributes over splitting a sequence in two.
proof fn lemma_seq_contains_split(s: Seq<Interval>, m: int)
    requires
        0 <= m <= s.len(),
    ensures
        forall|x: int|
            #![trigger seq_contains(s, x)]
            seq_contains(s, x) <==> (seq_contains(s.subrange(0, m), x) || seq_contains(
                s.subrange(m, s.len() as int),
                x,
            )),
{
    assert forall|x: int|
        seq_contains(s, x) <==> (seq_contains(s.subrange(0, m), x) || seq_contains(
            s.subrange(m, s.len() as int),
            x,
        )) by {
        if seq_contains(s, x) {
            let k = choose|k: int| 0 <= k < s.len() && interval_contains(#[trigger] s[k], x);
            if k < m {
                assert(s.subrange(0, m)[k] == s[k]);
                assert(interval_contains(s.subrange(0, m)[k], x));
            } else {
                assert(s.subrange(m, s.len() as int)[k - m] == s[k]);
                assert(interval_contains(s.subrange(m, s.len() as int)[k - m], x));
            }
        }
        if seq_contains(s.subrange(0, m), x) {
            let k = choose|k: int|
                0 <= k < m && interval_contains(#[trigger] s.subrange(0, m)[k], x);
            assert(s.subrange(0, m)[k] == s[k]);
            assert(interval_contains(s[k], x));
        }
        if seq_contains(s.subrange(m, s.len() as int), x) {
            let t = s.subrange(m, s.len() as int);
            let k = choose|k: int| 0 <= k < t.len() && interval_contains(#[trigger] t[k], x);
            assert(t[k] == s[k + m]);
            assert(interval_contains(s[k + m], x));
        }
    }
}

/// Membership in a one-interval sequence.
proof fn lemma_seq_contains_singleton(s: Seq<Interval>)
    requires
        s.len() == 1,
    ensures
        forall|x: int|
            #![trigger seq_contains(s, x)]
            seq_contains(s, x) <==> interval_contains(s[0], x),
{
    assert forall|x: int| seq_contains(s, x) <==> interval_contains(s[0], x) by {
        if seq_contains(s, x) {
            let k = choose|k: int| 0 <= k < s.len() && interval_contains(#[trigger] s[k], x);
            assert(k == 0);
        }
        if interval_contains(s[0], x) {
            assert(0 <= 0 < s.len() && interval_contains(s[0], x));
        }
    }
}

/// A set of integers stored as sorted, pairwise disjoint, non-adjacent,
/// non-empty inclusive intervals. Once `read_only` is set the set may no
/// longer be changed.
#[derive(Debug)]
pub struct IntervalSet {
    pub intervals: Vec<Interval>,
    pub read_only: bool,
}

impl IntervalSet {
    /// Well-formedness: every interval is non-empty, bounds leave room for
    /// the one-off arithmetic used while merging, and intervals are strictly
    /// ordered with at least one missing value between neighbours.
    pub open spec fn inv(self) -> bool {
        &&& forall|i: int|
            0 <= i < self.intervals@.len() ==> {
                &&& (#[trigger] self.intervals@[i]).a <= self.intervals@[i].b
                &&& self.intervals@[i].a >= isize::MIN + 1
                &&& self.intervals@[i].b <= isize::MAX - 1
            }
        &&& forall|i: int, j: int|
            0 <= i < j < self.intervals@.len() ==> (#[trigger] self.intervals@[i]).b + 1 < (
            #[trigger] self.intervals@[j]).a
    }

    /// Membership, as a mathematical statement over the stored intervals.
    pub open spec fn spec_contains(self, v: int) -> bool {
        seq_contains(self.intervals@, v)
    }

    pub open spec fn is_read_only(self) -> bool {
        self.read_only
    }

    /// The empty set.
    pub fn new() -> (r: IntervalSet)
        ensures
            r.inv(),
            !r.is_read_only(),
            forall|v: int| !r.spec_contains(v),
            r.intervals@.len() == 0,
    {
        IntervalSet { intervals: Vec::new(), read_only: false }
    }

    pub fn read_only(&self) -> (r: bool)
        ensures
            r == self.is_read_only(),
    {
        self.read_only
    }

    /// Freezes the set; afterwards no mutating operation accepts it.
    pub fn set_read_only(&mut self, read_only: bool)
        ensures
            final(self).intervals == old(self).intervals,
            final(self).read_only == read_only,
            final(self).inv() == old(self).inv(),
            forall|x: int|
                final(self).spec_contains(x) == old(self).spec_contains(x),
    {
        self.read_only = read_only;
    }

    /// An exact copy whose contents can be proved equal to the original's.
    pub fn deep_clone(&self) -> (r: IntervalSet)
        ensures
            r.intervals@ == self.intervals@,
            r.read_only == self.read_only,
            r.inv() == self.inv(),
            forall|x: int| r.spec_contains(x) == self.spec_contains(x),
    {
        let n = self.intervals.len();
        let mut ivs: Vec<Interval> = Vec::new();
        let mut i: usize = 0;
        while i < n
            invariant
                n == self.intervals@.len(),
                0 <= i <= n,
                ivs@ == self.intervals@.subrange(0, i as int),
            decreases n - i,
        {
            ivs.push(self.intervals[i]);
            i += 1;
            proof {
                assert(ivs@ =~= self.intervals@.subrange(0, i as int));
            }
        }
        proof {
            assert(ivs@ =~= self.intervals@);
        }
        IntervalSet { intervals: ivs, read_only: self.read_only }
    }

    /// Number of stored intervals.
    pub fn num_intervals(&self) -> (r: usize)
        ensures
            r == self.intervals@.len(),
    {
        self.intervals.len()
    }

    /// The `i`-th interval in ascending order.
    pub fn get_interval(&self, i: usize) -> (r: Interval)
        requires
            i < self.intervals@.len(),
        ensures
            r == self.intervals@[i as int],
    {
        self.intervals[i]
    }

    pub fn is_empty(&self) -> (r: bool)
        requires
            self.inv(),
        ensures
            r == !(exists|v: int| self.spec_contains(v)),
    {
        if self.intervals.len() == 0 {
            true
        } else {
            proof {
                let iv = self.intervals@[0];
                assert(interval_contains(iv, iv.a as int));
                assert(self.spec_contains(iv.a as int));
            }
            false
        }
    }

    /// Membership test.
    pub fn contains(&self, item: isize) -> (r: bool)
        requires
            self.inv(),
        ensures
            r == self.spec_contains(item as int),
    {
        let n = self.intervals.len();
        let mut i: usize = 0;
        while i < n
            invariant
                n == self.intervals@.len(),
                0 <= i <= n,
                self.inv(),
                forall|k: int|
                    0 <= k < i ==> !interval_contains(#[trigger] self.intervals@[k], item as int),
            decreases n - i,
        {
            let iv = self.intervals[i];
            if item >= iv.a && item <= iv.b {
                proof {
                    assert(interval_contains(self.intervals@[i as int], item as int));
                }
                return true;
            }
            i += 1;
        }
        false
    }

    /// Adds the single value `v`.
    pub fn add_one(&mut self, v: isize)
        requires
            old(self).inv(),
            !old(self).is_read_only(),
            isize::MIN + 1 <= v <= isize::MAX - 1,
        ensures
            final(self).inv(),
            !final(self).is_read_only(),
            forall|x: int|
                #![trigger final(self).spec_contains(x)]
                final(self).spec_contains(x) <==> (old(self).spec_contains(x) || x == v as int),
    {
        self.add_range(v, v);
    }

    /// Adds every value in the inclusive range `[l, r]`; an empty range
    /// (`l > r`) changes nothing.
    pub fn add_range(&mut self, l: isize, r: isize)
        requires
            old(self).inv(),
            !old(self).is_read_only(),
            l <= r ==> (l >= isize::MIN + 1 && r <= isize::MAX - 1),
        ensures
            final(self).inv(),
            !final(self).is_read_only(),
            forall|x: int|
                #![trigger final(self).spec_contains(x)]
                final(self).spec_contains(x) <==> (old(self).spec_contains(x) || (l <= x <= r)),
    {
        if l > r {
            return ;
        }
        let n = self.intervals.len();
        let mut result: Vec<Interval> = Vec::new();
        let mut i: usize = 0;
        proof {
            assert(result@ =~= self.intervals@.subrange(0, 0));
        }
        // Keep the intervals that end strictly (and non-adjacently) before `l`.
        while i < n && self.intervals[i].b + 1 < l
            invariant
                n == self.intervals@.len(),
                0 <= i <= n,
                self.inv(),
                l <= r,
                isize::MIN + 1 <= l,
                r <= isize::MAX - 1,
                result@ == self.intervals@.subrange(0, i as int),
                forall|k: int| 0 <= k < i ==> (#[trigger] self.intervals@[k]).b + 1 < l,
            decreases n - i,
        {
            let iv = self.intervals[i];
            result.push(iv);
            i += 1;
            proof {
                assert(result@ =~= self.intervals@.subrange(0, i as int));
            }
        }
        let ghost before: int = i as int;
        proof {
            assert forall|k: int| before <= k < n implies l as int <= (
            #[trigger] self.intervals@[k]).b + 1 by {
                if k > before {
                    assert(self.intervals@[before].b + 1 < self.intervals@[k].a);
                }
            }
        }
        // Merge everything that overlaps or touches `[l, r]`.
        let mut lo = l;
        let mut hi = r;
        proof {
            assert(self.intervals@.subrange(before, before) =~= Seq::<Interval>::empty());
            assert forall|x: int|
                (#[trigger] interval_contains((Interval { a: lo, b: hi }), x)) <==> (l <= x <= r
                    || seq_contains(self.intervals@.subrange(before, before), x)) by {
                if seq_contains(self.intervals@.subrange(before, before), x) {
                    let k = choose|k: int|
                        0 <= k < 0 && interval_contains(
                            #[trigger] self.intervals@.subrange(before, before)[k],
                            x,
                        );
                }
            }
        }
        while i < n && self.intervals[i].a <= hi + 1
            invariant
                n == self.intervals@.len(),
                0 <= before <= i <= n,
                self.inv(),
                l <= r,
                lo <= l,
                r <= hi,
                isize::MIN + 1 <= lo,
                hi <= isize::MAX - 1,
                forall|k: int| 0 <= k < before ==> (#[trigger] self.intervals@[k]).b + 1 < lo,
                forall|k: int|
                    before <= k < n ==> lo as int <= (#[trigger] self.intervals@[k]).b + 1,
                forall|x: int|
                    (#[trigger] interval_contains((Interval { a: lo, b: hi }), x)) <==> (l <= x
                        <= r || seq_contains(self.intervals@.subrange(before, i as int), x)),
            decreases n - i,
        {
            let iv = self.intervals[i];
            let ghost old_lo: int = lo as int;
            let ghost old_hi: int = hi as int;
            if iv.a < lo {
                lo = iv.a;
            }
            if iv.b > hi {
                hi = iv.b;
            }
            i += 1;
            proof {
                let mid_old = self.intervals@.subrange(before, i - 1);
                let mid_new = self.intervals@.subrange(before, i as int);
                assert(mid_new =~= mid_old.push(self.intervals@[i - 1]));
                lemma_seq_contains_push(mid_old, self.intervals@[i - 1]);
                assert forall|x: int|
                    (#[trigger] interval_contains((Interval { a: lo, b: hi }), x)) <==> (l <= x
                        <= r || seq_contains(mid_new, x)) by {
                    assert(seq_contains(mid_new, x) <==> (seq_contains(mid_old, x)
                        || interval_contains(self.intervals@[i - 1], x)));
                    assert(interval_contains((Interval { a: (old_lo as isize), b: (old_hi as isize) }), x)
                        <==> (l <= x <= r || seq_contains(mid_old, x)));
                    // the union of the two overlapping ranges is [lo, hi]
                    assert(iv.a as int <= old_hi + 1);
                    assert(old_lo <= iv.b as int + 1);
                }
            }
        }
        let ghost merged_end: int = i as int;
        result.push(Interval { a: lo, b: hi });
        proof {
            assert(result@.subrange(0, before) =~= self.intervals@.subrange(0, before));
        }
        // Keep the rest.
        while i < n
            invariant
                n == self.intervals@.len(),
                0 <= before <= merged_end,
                merged_end <= i <= n,
                self.inv(),
                result@.len() == before + 1 + (i - merged_end),
                result@.subrange(0, before) == self.intervals@.subrange(0, before),
                result@[before] == (Interval { a: lo, b: hi }),
                result@.subrange(before + 1, result@.len() as int) == self.intervals@.subrange(
                    merged_end,
                    i as int,
                ),
            decreases n - i,
        {
            let iv = self.intervals[i];
            result.push(iv);
            i += 1;
            proof {
                assert(result@.subrange(0, before) =~= self.intervals@.subrange(0, before));
                assert(result@.subrange(before + 1, result@.len() as int) =~= self.intervals@
                    .subrange(merged_end, i as int));
            }
        }
        proof {
            assert(result@.subrange(before + 1, result@.len() as int) =~= self.intervals@.subrange(
                merged_end,
                n as int,
            ));
        }
        let ghost old_ivs = self.intervals@;
        self.intervals = result;
        proof {
            self.lemma_add_range_post(old_ivs, before, merged_end, l as int, r as int);
        }
    }

    /// Establishes the contract of `add_range` from the shape of the vector
    /// built there: a sorted prefix, one merged interval, a sorted suffix.
    proof fn lemma_add_range_post(
        self,
        old_ivs: Seq<Interval>,
        before: int,
        merged_end: int,
        l: int,
        r: int,
    )
        requires
            0 <= before <= merged_end <= old_ivs.len(),
            forall|i: int|
                0 <= i < old_ivs.len() ==> {
                    &&& (#[trigger] old_ivs[i]).a <= old_ivs[i].b
                    &&& old_ivs[i].a >= isize::MIN + 1
                    &&& old_ivs[i].b <= isize::MAX - 1
                },
            forall|i: int, j: int|
                0 <= i < j < old_ivs.len() ==> (#[trigger] old_ivs[i]).b + 1 < (
                #[trigger] old_ivs[j]).a,
            self.intervals@.len() == before + 1 + (old_ivs.len() - merged_end),
            self.intervals@.subrange(0, before) == old_ivs.subrange(0, before),
            self.intervals@.subrange(before + 1, self.intervals@.len() as int) == old_ivs.subrange(
                merged_end,
                old_ivs.len() as int,
            ),
            l <= r,
            self.intervals@[before].a <= l,
            r <= self.intervals@[before].b,
            self.intervals@[before].a >= isize::MIN + 1,
            self.intervals@[before].b <= isize::MAX - 1,
            forall|k: int|
                0 <= k < before ==> (#[trigger] old_ivs[k]).b + 1 < self.intervals@[before].a,
            forall|x: int|
                (#[trigger] interval_contains(self.intervals@[before], x)) <==> (l <= x <= r
                    || seq_contains(old_ivs.subrange(before, merged_end), x)),
            merged_end < old_ivs.len() ==> self.intervals@[before].b + 1 < old_ivs[merged_end].a,
        ensures
            self.inv(),
            forall|x: int|
                #![trigger seq_contains(self.intervals@, x)]
                seq_contains(self.intervals@, x) <==> (seq_contains(old_ivs, x) || (l <= x <= r)),
    {
        let ivs = self.intervals@;
        let m = ivs[before];
        assert forall|i: int| 0 <= i < ivs.len() implies {
            &&& (#[trigger] ivs[i]).a <= ivs[i].b
            &&& ivs[i].a >= isize::MIN + 1
            &&& ivs[i].b <= isize::MAX - 1
        } by {
            if i < before {
                assert(ivs[i] == ivs.subrange(0, before)[i]);
            } else if i > before {
                assert(ivs[i] == ivs.subrange(before + 1, ivs.len() as int)[i - before - 1]);
                assert(ivs[i] == old_ivs[merged_end + (i - before - 1)]);
            }
        }
        assert forall|i: int, j: int| 0 <= i < j < ivs.len() implies (#[trigger] ivs[i]).b + 1 < (
        #[trigger] ivs[j]).a by {
            if i < before {
                assert(ivs[i] == ivs.subrange(0, before)[i]);
                assert(ivs[i] == old_ivs[i]);
            }
            if i > before {
                assert(ivs[i] == ivs.subrange(before + 1, ivs.len() as int)[i - before - 1]);
                assert(ivs[i] == old_ivs[merged_end + (i - before - 1)]);
            }
            if j < before {
                assert(ivs[j] == ivs.subrange(0, before)[j]);
                assert(ivs[j] == old_ivs[j]);
            }
            if j > before {
                assert(ivs[j] == ivs.subrange(before + 1, ivs.len() as int)[j - before - 1]);
                assert(ivs[j] == old_ivs[merged_end + (j - before - 1)]);
            }
            if j < before {
                // both in the prefix
                assert(old_ivs[i].b + 1 < old_ivs[j].a);
            } else if j == before {
                // i is in the prefix, j is the merged interval
                assert(old_ivs[i].b + 1 < m.a);
            } else {
                // j is in the suffix
                assert(old_ivs[merged_end] == ivs.subrange(before + 1, ivs.len() as int)[0]);
                assert(m.b + 1 < old_ivs[merged_end].a);
                let jj = merged_end + (j - before - 1);
                if merged_end < jj {
                    assert(old_ivs[merged_end].b + 1 < old_ivs[jj].a);
                    assert(old_ivs[merged_end].a <= old_ivs[merged_end].b);
                }
                if i < before {
                    assert(old_ivs[i].b + 1 < m.a);
                    assert(m.a <= m.b);
                } else if i > before {
                    let ii = merged_end + (i - before - 1);
                    assert(old_ivs[ii].b + 1 < old_ivs[jj].a);
                }
            }
        }
        // membership: split both the new and the old interval lists
        lemma_seq_contains_split(ivs, before);
        let tail = ivs.subrange(before, ivs.len() as int);
        lemma_seq_contains_split(tail, 1);
        lemma_seq_contains_singleton(tail.subrange(0, 1));
        assert(tail.subrange(0, 1)[0] == m);
        assert(tail.subrange(1, tail.len() as int) =~= ivs.subrange(before + 1, ivs.len() as int));
        lemma_seq_contains_split(old_ivs, before);
        let old_tail = old_ivs.subrange(before, old_ivs.len() as int);
        lemma_seq_contains_split(old_tail, merged_end - before);
        assert(old_tail.subrange(0, merged_end - before) =~= old_ivs.subrange(before, merged_end));
        assert(old_tail.subrange(merged_end - before, old_tail.len() as int) =~= old_ivs.subrange(
            merged_end,
            old_ivs.len() as int,
        ));
        assert forall|x: int|
            seq_contains(ivs, x) <==> (seq_contains(old_ivs, x) || (l <= x <= r)) by {
            assert(seq_contains(ivs, x) <==> (seq_contains(ivs.subrange(0, before), x)
                || seq_contains(tail, x)));
            assert(seq_contains(tail, x) <==> (seq_contains(tail.subrange(0, 1), x)
                || seq_contains(tail.subrange(1, tail.len() as int), x)));
            assert(seq_contains(tail.subrange(0, 1), x) <==> interval_contains(m, x));
            assert(seq_contains(old_ivs, x) <==> (seq_contains(old_ivs.subrange(0, before), x)
                || seq_contains(old_tail, x)));
            assert(seq_contains(old_tail, x) <==> (seq_contains(
                old_ivs.subrange(before, merged_end),
                x,
            ) || seq_contains(old_ivs.subrange(merged_end, old_ivs.len() as int), x)));
        }
    }

    /// Adds every value of `other` to `self`.
    pub fn add_set(&mut self, other: &IntervalSet)
        requires
            old(self).inv(),
            other.inv(),
            !old(self).is_read_only(),
        ensures
            final(self).inv(),
            !final(self).is_read_only(),
            forall|x: int|
                #![trigger final(self).spec_contains(x)]
                final(self).spec_contains(x) <==> (old(self).spec_contains(x)
                    || other.spec_contains(x)),
    {
        let n = other.intervals.len();
        let mut i: usize = 0;
        proof {
            assert(other.intervals@.subrange(0, 0) =~= Seq::<Interval>::empty());
        }
        while i < n
            invariant
                n == other.intervals@.len(),
                0 <= i <= n,
                self.inv(),
                other.inv(),
                !self.is_read_only(),
                forall|x: int|
                    #![trigger self.spec_contains(x)]
                    self.spec_contains(x) <==> (old(self).spec_contains(x) || seq_contains(
                        other.intervals@.subrange(0, i as int),
                        x,
                    )),
            decreases n - i,
        {
            let iv = other.intervals[i];
            let ghost prev = *self;
            self.add_range(iv.a, iv.b);
            i += 1;
            proof {
                let pre = other.intervals@.subrange(0, i - 1);
                let cur = other.intervals@.subrange(0, i as int);
                assert(cur =~= pre.push(other.intervals@[i - 1]));
                lemma_seq_contains_push(pre, other.intervals@[i - 1]);
                assert forall|x: int|
                    #![trigger self.spec_contains(x)]
                    self.spec_contains(x) <==> (old(self).spec_contains(x) || seq_contains(
                        cur,
                        x,
                    )) by {
                    assert(self.spec_contains(x) <==> (prev.spec_contains(x) || (iv.a <= x
                        <= iv.b)));
                    assert(seq_contains(cur, x) <==> (seq_contains(pre, x) || interval_contains(
                        other.intervals@[i - 1],
                        x,
                    )));
                }
            }
        }
        proof {
            assert(other.intervals@.subrange(0, n as int) =~= other.intervals@);
        }
    }

    /// Removes the single value `v`, splitting an interval if needed.
    pub fn remove_one(&mut self, v: isize)
        requires
            old(self).inv(),
            !old(self).is_read_only(),
        ensures
            final(self).inv(),
            !final(self).is_read_only(),
            forall|x: int|
                #![trigger final(self).spec_contains(x)]
                final(self).spec_contains(x) <==> (old(self).spec_contains(x) && x != v as int),
    {
        let n = self.intervals.len();
        let mut result: Vec<Interval> = Vec::new();
        let mut i: usize = 0;
        proof {
            assert(self.intervals@.subrange(0, 0) =~= Seq::<Interval>::empty());
        }
        while i < n
            invariant
                n == self.intervals@.len(),
                0 <= i <= n,
                self.inv(),
                forall|p: int|
                    0 <= p < result@.len() ==> {
                        &&& (#[trigger] result@[p]).a <= result@[p].b
                        &&& result@[p].a >= isize::MIN + 1
                        &&& result@[p].b <= isize::MAX - 1
                    },
                forall|p: int, q: int|
                    0 <= p < q < result@.len() ==> (#[trigger] result@[p]).b + 1 < (
                    #[trigger] result@[q]).a,
                forall|p: int, k: int|
                    0 <= p < result@.len() && i <= k < n ==> (#[trigger] result@[p]).b + 1 < (
                    #[trigger] self.intervals@[k]).a,
                forall|x: int|
                    #![trigger seq_contains(result@, x)]
                    seq_contains(result@, x) <==> (seq_contains(
                        self.intervals@.subrange(0, i as int),
                        x,
                    ) && x != v as int),
            decreases n - i,
        {
            let iv = self.intervals[i];
            let ghost res_old = result@;
            if v < iv.a || v > iv.b {
                result.push(iv);
                proof {
                    lemma_seq_contains_push(res_old, iv);
                }
            } else {
                if iv.a < v {
                    result.push(Interval { a: iv.a, b: v - 1 });
                    proof {
                        lemma_seq_contains_push(res_old, (Interval { a: iv.a, b: (v - 1) as isize }));
                    }
                }
                if v < iv.b {
                    let ghost res_mid = result@;
                    result.push(Interval { a: v + 1, b: iv.b });
                    proof {
                        lemma_seq_contains_push(res_mid, (Interval { a: (v + 1) as isize, b: iv.b }));
                    }
                }
            }
            i += 1;
            proof {
                let pre = self.intervals@.subrange(0, i - 1);
                let cur = self.intervals@.subrange(0, i as int);
                assert(cur =~= pre.push(self.intervals@[i - 1]));
                lemma_seq_contains_push(pre, self.intervals@[i - 1]);
            }
        }
        proof {
            assert(self.intervals@.subrange(0, n as int) =~= self.intervals@);
        }
        self.intervals = result;
    }

    /// The values in `[min_v, max_v]` that are not in `self`.
    pub fn complement(&self, min_v: isize, max_v: isize) -> (r: IntervalSet)
        requires
            self.inv(),
            min_v <= max_v ==> (min_v >= isize::MIN + 1 && max_v <= isize::MAX - 1),
        ensures
            r.inv(),
            !r.is_read_only(),
            forall|x: int|
                #![trigger r.spec_contains(x)]
                r.spec_contains(x) <==> (min_v <= x <= max_v && !self.spec_contains(x)),
    {
        let mut r = IntervalSet::new();
        if min_v > max_v {
            return r;
        }
        let n = self.intervals.len();
        let mut next = min_v;
        let mut i: usize = 0;
        while i < n && next <= max_v && self.intervals[i].a <= max_v
            invariant
                n == self.intervals@.len(),
                0 <= i <= n,
                self.inv(),
                r.inv(),
                !r.is_read_only(),
                min_v <= max_v,
                min_v >= isize::MIN + 1,
                max_v <= isize::MAX - 1,
                min_v <= next,
                next as int <= max_v as int + 1,
                forall|x: int|
                    #![trigger r.spec_contains(x)]
                    r.spec_contains(x) <==> (min_v <= x < next as int && !self.spec_contains(x)),
                next as int <= max_v as int ==> forall|k: int|
                    0 <= k < i ==> (#[trigger] self.intervals@[k]).b < next,
            decreases n - i,
        {
            let iv = self.intervals[i];
            if iv.a > next {
                proof {
                    assert forall|x: int| next as int <= x < iv.a as int implies !self.spec_contains(
                        x,
                    ) by {
                        if self.spec_contains(x) {
                            let k = choose|k: int|
                                0 <= k < n && interval_contains(#[trigger] self.intervals@[k], x);
                            if k < i {
                            } else if k > i {
                                assert(self.intervals@[i as int].b + 1 < self.intervals@[k].a);
                            }
                        }
                    }
                }
                r.add_range(next, iv.a - 1);
            }
            let mut new_next = iv.b + 1;
            if new_next < next {
                new_next = next;
            }
            if new_next > max_v {
                new_next = max_v + 1;
            }
            proof {
                assert forall|x: int|
                    #![trigger r.spec_contains(x)]
                    r.spec_contains(x) <==> (min_v <= x < new_next as int && !self.spec_contains(
                        x,
                    )) by {
                    if min_v <= x < new_next as int && !self.spec_contains(x) {
                        assert(!interval_contains(self.intervals@[i as int], x));
                    }
                }
            }
            next = new_next;
            i += 1;
        }
        if next <= max_v {
            proof {
                assert forall|x: int| next as int <= x <= max_v as int implies !self.spec_contains(
                    x,
                ) by {
                    if self.spec_contains(x) {
                        let k = choose|k: int|
                            0 <= k < n && interval_contains(#[trigger] self.intervals@[k], x);
                        if k >= i && i < n {
                            if k > i {
                                assert(self.intervals@[i as int].b + 1 < self.intervals@[k].a);
                            }
                        }
                    }
                }
            }
            r.add_range(next, max_v);
        }
        r
    }
}

} // verus!

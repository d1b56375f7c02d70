//! The times of an animation: put in order, thinned out, and lined up with the samples.
use crate::num::{Double, Single};
use vstd::multiset::*;
use vstd::prelude::*;
use vstd::relations::*;
use vstd::seq_lib::*;

verus! {

impl Double {
    /// The place of a number in the total order of all bit patterns: negative numbers from the
    /// largest magnitude to the smallest, then positive ones, with NaNs at both ends.
    pub open spec fn rank(self) -> int {
        if self.negative() {
            -self.abs() - 1
        } else {
            self.abs()
        }
    }

    /// Whether a number stands before another one in the total order, or is the same.
    pub fn is_at_most(self, other: Double) -> (r: bool)
        ensures
            r == (self.rank() <= other.rank()),
    {
        let a: u64 = if self.bits >= 0x8000_0000_0000_0000 {
            0xffff_ffff_ffff_ffff - self.bits
        } else {
            self.bits + 0x8000_0000_0000_0000
        };
        let b: u64 = if other.bits >= 0x8000_0000_0000_0000 {
            0xffff_ffff_ffff_ffff - other.bits
        } else {
            other.bits + 0x8000_0000_0000_0000
        };
        a <= b
    }
}

/// The total order.
pub open spec fn by_rank() -> spec_fn(Double, Double) -> bool {
    |a: Double, b: Double| a.rank() <= b.rank()
}

/// The total order is one, and tells all bit patterns apart.
pub proof fn lemma_by_rank_total()
    ensures
        total_ordering(by_rank()),
{
    let leq = by_rank();
    assert forall|a: Double, b: Double| #[trigger] leq(a, b) && #[trigger] leq(b, a) implies a
        == b by {
        assert(a.bits == b.bits);
    }
}

/// Adding one time to a merged list and to one of its two parts keeps the times the same.
proof fn lemma_merged_push(r: Seq<Double>, a: Seq<Double>, b: Seq<Double>, x: Double)
    requires
        r.to_multiset() == a.to_multiset().add(b.to_multiset()),
    ensures
        r.push(x).to_multiset() == a.push(x).to_multiset().add(b.to_multiset()),
        r.push(x).to_multiset() == a.to_multiset().add(b.push(x).to_multiset()),
{
    broadcast use group_to_multiset_ensures;
    broadcast use group_multiset_axioms;

    assert(r.push(x).to_multiset() =~= a.push(x).to_multiset().add(b.to_multiset()));
    assert(r.push(x).to_multiset() =~= a.to_multiset().add(b.push(x).to_multiset()));
}

/// Merges two lists that are in order.
fn merge(a: &Vec<Double>, b: &Vec<Double>) -> (r: Vec<Double>)
    requires
        sorted_by(a@, by_rank()),
        sorted_by(b@, by_rank()),
    ensures
        sorted_by(r@, by_rank()),
        r@.to_multiset() == a@.to_multiset().add(b@.to_multiset()),
{
    broadcast use group_to_multiset_ensures;
    broadcast use group_multiset_axioms;

    let ghost leq = by_rank();
    let mut r: Vec<Double> = Vec::new();
    let mut i: usize = 0;
    let mut j: usize = 0;
    proof {
        assert(a@.take(0) =~= Seq::<Double>::empty());
        assert(b@.take(0) =~= Seq::<Double>::empty());
        assert(r@ =~= Seq::<Double>::empty());
        assert(r@.to_multiset() =~= a@.take(0).to_multiset().add(b@.take(0).to_multiset()));
    }
    while i < a.len() || j < b.len()
        invariant
            i <= a.len(),
            j <= b.len(),
            leq == by_rank(),
            sorted_by(a@, by_rank()),
            sorted_by(b@, by_rank()),
            sorted_by(r@, by_rank()),
            r@.to_multiset() == a@.take(i as int).to_multiset().add(
                b@.take(j as int).to_multiset(),
            ),
            forall|k: int, l: int|
                0 <= k < r@.len() && i <= l < a@.len() ==> #[trigger] r@[k].rank()
                    <= #[trigger] a@[l].rank(),
            forall|k: int, l: int|
                0 <= k < r@.len() && j <= l < b@.len() ==> #[trigger] r@[k].rank()
                    <= #[trigger] b@[l].rank(),
        decreases a.len() - i + (b.len() - j),
    {
        let ghost before = r@;
        if j == b.len() || (i < a.len() && a[i].is_at_most(b[j])) {
            r.push(a[i]);
            proof {
                assert(a@.take(i + 1) =~= a@.take(i as int).push(a@[i as int]));
                assert forall|l: int| i <= l < a@.len() implies a@[i as int].rank()
                    <= #[trigger] a@[l].rank() by {
                    if i < l {
                        assert(leq(a@[i as int], a@[l]));
                    }
                }
                assert forall|l: int| j <= l < b@.len() implies a@[i as int].rank()
                    <= #[trigger] b@[l].rank() by {
                    if j < l {
                        assert(leq(b@[j as int], b@[l]));
                    }
                }
                lemma_merged_push(before, a@.take(i as int), b@.take(j as int), a@[i as int]);
                assert forall|x: int, y: int| 0 <= x < y < r@.len() implies #[trigger] leq(
                    r@[x],
                    r@[y],
                ) by {
                    if y < before.len() {
                        assert(leq(before[x], before[y]));
                    }
                }
            }
            i += 1;
        } else {
            r.push(b[j]);
            proof {
                assert(b@.take(j + 1) =~= b@.take(j as int).push(b@[j as int]));
                assert forall|l: int| i <= l < a@.len() implies b@[j as int].rank()
                    <= #[trigger] a@[l].rank() by {
                    if i < l {
                        assert(leq(a@[i as int], a@[l]));
                    }
                }
                assert forall|l: int| j <= l < b@.len() implies b@[j as int].rank()
                    <= #[trigger] b@[l].rank() by {
                    if j < l {
                        assert(leq(b@[j as int], b@[l]));
                    }
                }
                lemma_merged_push(before, a@.take(i as int), b@.take(j as int), b@[j as int]);
                assert forall|x: int, y: int| 0 <= x < y < r@.len() implies #[trigger] leq(
                    r@[x],
                    r@[y],
                ) by {
                    if y < before.len() {
                        assert(leq(before[x], before[y]));
                    }
                }
            }
            j += 1;
        }
    }
    proof {
        assert(a@.take(i as int) =~= a@);
        assert(b@.take(j as int) =~= b@);
    }
    r
}

/// Puts a part of a list in order.
fn sort_part(v: &Vec<Double>, from: usize, to: usize) -> (r: Vec<Double>)
    requires
        from <= to <= v.len(),
    ensures
        sorted_by(r@, by_rank()),
        r@.to_multiset() == v@.subrange(from as int, to as int).to_multiset(),
    decreases to - from,
{
    let n: usize = to - from;
    if n == 0 {
        let r: Vec<Double> = Vec::new();
        assert(r@ =~= v@.subrange(from as int, to as int));
        r
    } else if n == 1 {
        let mut r: Vec<Double> = Vec::new();
        r.push(v[from]);
        assert(r@ =~= v@.subrange(from as int, to as int));
        r
    } else {
        let mid: usize = from + n / 2;
        let a = sort_part(v, from, mid);
        let b = sort_part(v, mid, to);
        proof {
            let x = v@.subrange(from as int, mid as int);
            let y = v@.subrange(mid as int, to as int);
            assert(x + y =~= v@.subrange(from as int, to as int));
            lemma_multiset_commutative(x, y);
        }
        merge(&a, &b)
    }
}

/// Puts times in the total order.
pub fn sort_times(v: &Vec<Double>) -> (r: Vec<Double>)
    ensures
        r@ == v@.sort_by(by_rank()),
{
    let r = sort_part(v, 0, v.len());
    proof {
        assert(v@.subrange(0, v@.len() as int) =~= v@);
        lemma_by_rank_total();
        v@.lemma_sort_by_ensures(by_rank());
        lemma_sorted_unique(r@, v@.sort_by(by_rank()), by_rank());
    }
    r
}

/// Times without those that are close to the one that was kept last before them.
pub open spec fn thinned(s: Seq<Double>) -> Seq<Double>
    decreases s.len(),
{
    if s.len() == 0 {
        seq![]
    } else {
        let kept = thinned(s.drop_last());
        if kept.len() > 0 && s.last().close_to(kept.last()) {
            kept
        } else {
            kept.push(s.last())
        }
    }
}

/// Drops each time that is close to the one that was kept last before it.
pub fn thin_times(v: &Vec<Double>) -> (r: Vec<Double>)
    ensures
        r@ == thinned(v@),
{
    let mut r: Vec<Double> = Vec::new();
    let mut i: usize = 0;
    proof {
        assert(v@.take(0) =~= seq![]);
        assert(r@ =~= thinned(v@.take(0)));
    }
    while i < v.len()
        invariant
            i <= v.len(),
            r@ == thinned(v@.take(i as int)),
        decreases v.len() - i,
    {
        let ghost part = v@.take(i + 1);
        proof {
            assert(part.drop_last() =~= v@.take(i as int));
            assert(part.last() == v@[i as int]);
        }
        if r.len() == 0 || !v[i].is_close(r[r.len() - 1]) {
            r.push(v[i]);
        }
        i += 1;
    }
    assert(v@.take(i as int) =~= v@);
    r
}

/// Numbers at a time.
#[derive(Debug, PartialEq)]
pub struct Keyframe {
    pub time: Double,
    pub values: Vec<Single>,
}

/// The model of a [`Keyframe`].
pub struct KeyframeView {
    pub time: Double,
    pub values: Seq<Single>,
}

impl View for Keyframe {
    type V = KeyframeView;

    open spec fn view(&self) -> KeyframeView {
        KeyframeView { time: self.time, values: self.values@ }
    }
}

/// The models of several keyframes.
pub open spec fn keyframe_views(v: Seq<Keyframe>) -> Seq<KeyframeView> {
    v.map_values(|k: Keyframe| k@)
}

/// The times of keyframes.
pub open spec fn times_of(v: Seq<KeyframeView>) -> Seq<Double> {
    v.map_values(|k: KeyframeView| k.time)
}

/// What keyframes hold at a time: the numbers of the first one that is close to it, or none.
pub open spec fn values_at(frames: Seq<KeyframeView>, time: Double) -> Seq<Single>
    decreases frames.len(),
{
    if frames.len() == 0 {
        seq![]
    } else if frames[0].time.close_to(time) {
        frames[0].values
    } else {
        values_at(frames.drop_first(), time)
    }
}

/// What keyframes hold at each of several times.
pub open spec fn aligned(times: Seq<Double>, frames: Seq<KeyframeView>) -> Seq<Seq<Single>> {
    times.map_values(|t: Double| values_at(frames, t))
}

/// The contents of arrays.
pub open spec fn array_views(v: Seq<Vec<Single>>) -> Seq<Seq<Single>> {
    v.map_values(|a: Vec<Single>| a@)
}

/// Copies arrays.
pub fn copy_arrays(v: &Vec<Vec<Single>>) -> (r: Vec<Vec<Single>>)
    ensures
        array_views(r@) == array_views(v@),
{
    let mut r: Vec<Vec<Single>> = Vec::new();
    let mut i: usize = 0;
    while i < v.len()
        invariant
            i <= v.len(),
            array_views(r@) == array_views(v@).take(i as int),
        decreases v.len() - i,
    {
        let ghost before = r@;
        r.push(crate::value::copy_all(&v[i]));
        i += 1;
        assert(array_views(r@) =~= array_views(before).push(v@[i - 1]@));
    }
    assert(array_views(v@).take(i as int) =~= array_views(v@));
    r
}

/// Finds what keyframes hold at a time.
fn find_values(frames: &Vec<Keyframe>, time: Double) -> (r: Vec<Single>)
    ensures
        r@ == values_at(keyframe_views(frames@), time),
{
    let ghost all = keyframe_views(frames@);
    let mut i: usize = 0;
    proof {
        assert(all.skip(0) =~= all);
    }
    while i < frames.len()
        invariant
            i <= frames.len(),
            all == keyframe_views(frames@),
            values_at(all, time) == values_at(all.skip(i as int), time),
        decreases frames.len() - i,
    {
        proof {
            assert(all.skip(i as int)[0] == frames@[i as int]@);
            assert(all.skip(i as int).drop_first() =~= all.skip(i + 1));
        }
        if frames[i].time.is_close(time) {
            return crate::value::copy_all(&frames[i].values);
        }
        i += 1;
    }
    let r: Vec<Single> = Vec::new();
    assert(r@ =~= seq![]);
    r
}

/// Lines keyframes up with times.
pub fn align_samples(times: &Vec<Double>, samples: &Vec<Keyframe>) -> (r: Vec<Vec<Single>>)
    ensures
        array_views(r@) == aligned(times@, keyframe_views(samples@)),
{
    let ghost frames = keyframe_views(samples@);
    let mut r: Vec<Vec<Single>> = Vec::new();
    let mut i: usize = 0;
    while i < times.len()
        invariant
            i <= times.len(),
            frames == keyframe_views(samples@),
            array_views(r@) == aligned(times@.take(i as int), frames),
        decreases times.len() - i,
    {
        let ghost before = r@;
        let values = find_values(samples, times[i]);
        r.push(values);
        i += 1;
        proof {
            let a = values_at(frames, times@[i - 1]);
            assert(array_views(r@) =~= array_views(before).push(a));
            assert(aligned(times@.take(i as int), frames) =~= aligned(
                times@.take(i - 1),
                frames,
            ).push(a));
        }
    }
    assert(times@.take(i as int) =~= times@);
    r
}

/// Appends the times of keyframes to a list.
pub fn append_times(times: &mut Vec<Double>, frames: &Vec<Keyframe>)
    ensures
        final(times)@ == old(times)@ + times_of(keyframe_views(frames@)),
{
    let ghost all = times_of(keyframe_views(frames@));
    let mut i: usize = 0;
    while i < frames.len()
        invariant
            i <= frames.len(),
            all == times_of(keyframe_views(frames@)),
            times@ == old(times)@ + all.take(i as int),
        decreases frames.len() - i,
    {
        times.push(frames[i].time);
        i += 1;
        assert(all.take(i as int) =~= all.take(i - 1).push(all[i - 1]));
    }
    assert(all.take(i as int) =~= all);
}

} // verus!

//! Removal of duplicate detections: the most confident detection of each
//! cluster of overlapping boxes stays, the others go.

use vstd::prelude::*;
use crate::detection::Detection;
use crate::geometry::iou;

verus! {

/// Overlap ratio, in millionths, from which one detection suppresses another.
pub const IOU_THRESHOLD: u32 = 700_000;

/// Whether keeping `keeper` removes `other` from the pool. With `per_class`
/// only a detection of the same class can be removed; without it the class
/// plays no part.
pub open spec fn suppresses(keeper: Detection, other: Detection, per_class: bool) -> bool {
    &&& per_class ==> keeper.label == other.label
    &&& keeper.bbox@.iou(other.bbox@) >= IOU_THRESHOLD
}

/// The detections of `pool` that `keeper` does not suppress, in their order.
pub open spec fn survivors(keeper: Detection, pool: Seq<Detection>, per_class: bool) -> Seq<
    Detection,
> {
    pool.filter(|d: Detection| !suppresses(keeper, d, per_class))
}

/// Greedy selection from a pool: its first detection is kept, the rest of the
/// pool is reduced to what that detection does not suppress, and the
/// selection goes on from there until the pool is empty.
pub open spec fn greedy_select(pool: Seq<Detection>, per_class: bool) -> Seq<Detection>
    decreases pool.len(),
    via greedy_select_decreases
{
    if pool.len() == 0 {
        Seq::empty()
    } else {
        seq![pool[0]] + greedy_select(survivors(pool[0], pool.skip(1), per_class), per_class)
    }
}

#[via_fn]
proof fn greedy_select_decreases(pool: Seq<Detection>, per_class: bool) {
    if pool.len() != 0 {
        pool.skip(1).lemma_filter_len(|d: Detection| !suppresses(pool[0], d, per_class));
    }
}

/// `s` with `d` put behind every detection that is at least as confident.
pub open spec fn insert_by_confidence(s: Seq<Detection>, d: Detection) -> Seq<Detection>
    decreases s.len(),
{
    if s.len() == 0 || s.last().confidence >= d.confidence {
        s.push(d)
    } else {
        insert_by_confidence(s.drop_last(), d).push(s.last())
    }
}

/// The detections of `s` by falling confidence; equally confident ones keep
/// the order they have in `s`.
pub open spec fn sorted_by_confidence(s: Seq<Detection>) -> Seq<Detection>
    decreases s.len(),
{
    if s.len() == 0 {
        s
    } else {
        insert_by_confidence(sorted_by_confidence(s.drop_last()), s.last())
    }
}

/// Confidence never rises along `s`.
pub open spec fn confidence_falls(s: Seq<Detection>) -> bool {
    forall|i: int, j: int| 0 <= i < j < s.len() ==> s[i].confidence >= s[j].confidence
}

/// What deduplication returns for `dets`.
pub open spec fn deduplicated(dets: Seq<Detection>, per_class: bool) -> Seq<Detection> {
    greedy_select(sorted_by_confidence(dets), per_class)
}

proof fn lemma_insert_position(s: Seq<Detection>, d: Detection, k: int)
    requires
        0 <= k <= s.len(),
        forall|j: int| k <= j < s.len() ==> s[j].confidence < d.confidence,
        k == 0 || s[k - 1].confidence >= d.confidence,
    ensures
        insert_by_confidence(s, d) == s.insert(k, d),
    decreases s.len() - k,
{
    if k == s.len() {
        assert(s.push(d) =~= s.insert(k, d));
    } else {
        let front = s.drop_last();
        assert(forall|j: int| k <= j < front.len() ==> front[j] == s[j]);
        lemma_insert_position(front, d, k);
        assert(front.insert(k, d).push(s.last()) =~= s.insert(k, d));
    }
}

fn insert_sorted(v: &mut Vec<Detection>, d: Detection)
    ensures
        final(v)@ == insert_by_confidence(old(v)@, d),
{
    let mut k: usize = v.len();
    while k > 0 && v[k - 1].confidence < d.confidence
        invariant
            k <= v.len(),
            v@ == old(v)@,
            forall|j: int| k <= j < v.len() ==> v@[j].confidence < d.confidence,
        decreases k,
    {
        k -= 1;
    }
    proof {
        lemma_insert_position(v@, d, k as int);
    }
    v.insert(k, d);
}

/// The detections by falling confidence, ties in their given order.
pub fn sort_by_confidence(dets: &Vec<Detection>) -> (r: Vec<Detection>)
    ensures
        r@ == sorted_by_confidence(dets@),
{
    let mut out: Vec<Detection> = Vec::new();
    let n: usize = dets.len();
    let mut i: usize = 0;
    assert(dets@.subrange(0, 0) =~= Seq::<Detection>::empty());
    while i < n
        invariant
            n == dets.len(),
            i <= n,
            out@ == sorted_by_confidence(dets@.subrange(0, i as int)),
        decreases n - i,
    {
        assert(dets@.subrange(0, i + 1).drop_last() =~= dets@.subrange(0, i as int));
        insert_sorted(&mut out, dets[i]);
        i += 1;
    }
    assert(dets@.subrange(0, n as int) =~= dets@);
    out
}

fn retain_survivors(keeper: Detection, pool: &Vec<Detection>, per_class: bool) -> (r: Vec<Detection>)
    requires
        pool.len() > 0,
    ensures
        r@ == survivors(keeper, pool@.skip(1), per_class),
        r.len() < pool.len(),
{
    let ghost keep = |d: Detection| !suppresses(keeper, d, per_class);
    let mut out: Vec<Detection> = Vec::new();
    let n: usize = pool.len();
    let mut i: usize = 1;
    proof {
        reveal(Seq::filter);
        assert(pool@.subrange(1, 1) =~= Seq::<Detection>::empty());
    }
    while i < n
        invariant
            n == pool.len(),
            1 <= i <= n,
            keep == (|d: Detection| !suppresses(keeper, d, per_class)),
            out@ == pool@.subrange(1, i as int).filter(keep),
            out.len() <= i - 1,
        decreases n - i,
    {
        let d: Detection = pool[i];
        let same: bool = !per_class || keeper.label == d.label;
        let hit: bool = same && iou(&keeper.bbox, &d.bbox) >= IOU_THRESHOLD;
        proof {
            reveal(Seq::filter);
            assert(pool@.subrange(1, i + 1).drop_last() =~= pool@.subrange(1, i as int));
        }
        if !hit {
            out.push(d);
        }
        i += 1;
    }
    assert(pool@.subrange(1, n as int) =~= pool@.skip(1));
    out
}

/// Greedy selection from `pool`, front first.
pub fn select(pool: Vec<Detection>, per_class: bool) -> (r: Vec<Detection>)
    ensures
        r@ == greedy_select(pool@, per_class),
{
    let ghost start = pool@;
    let mut pool: Vec<Detection> = pool;
    let mut kept: Vec<Detection> = Vec::new();
    while pool.len() > 0
        invariant
            greedy_select(start, per_class) == kept@ + greedy_select(pool@, per_class),
        decreases pool.len(),
    {
        let head: Detection = pool[0];
        let rest: Vec<Detection> = retain_survivors(head, &pool, per_class);
        proof {
            assert(kept@.push(head) + greedy_select(rest@, per_class) =~= kept@ + (seq![head]
                + greedy_select(rest@, per_class)));
        }
        kept.push(head);
        pool = rest;
    }
    kept
}

/// Sorts the detections by falling confidence and selects greedily: every
/// detection that is kept removes those behind it that it suppresses.
pub fn deduplicate(dets: &Vec<Detection>, per_class: bool) -> (r: Vec<Detection>)
    ensures
        r@ == deduplicated(dets@, per_class),
{
    let sorted: Vec<Detection> = sort_by_confidence(dets);
    select(sorted, per_class)
}

/// Where `insert_by_confidence` puts the new detection.
pub open spec fn insertion_point(s: Seq<Detection>, d: Detection) -> int
    decreases s.len(),
{
    if s.len() == 0 || s.last().confidence >= d.confidence {
        s.len() as int
    } else {
        insertion_point(s.drop_last(), d)
    }
}

/// Insertion by confidence is an insertion at one index: everything behind
/// that index is less confident than the new detection, and what stands just
/// before it is not.
pub proof fn lemma_insertion_point(s: Seq<Detection>, d: Detection)
    ensures
        0 <= insertion_point(s, d) <= s.len(),
        insert_by_confidence(s, d) == s.insert(insertion_point(s, d), d),
        forall|j: int| insertion_point(s, d) <= j < s.len() ==> s[j].confidence < d.confidence,
        insertion_point(s, d) > 0 ==> s[insertion_point(s, d) - 1].confidence >= d.confidence,
    decreases s.len(),
{
    if s.len() == 0 || s.last().confidence >= d.confidence {
    } else {
        let front = s.drop_last();
        lemma_insertion_point(front, d);
        let k = insertion_point(front, d);
        assert forall|j: int| k <= j < s.len() implies s[j].confidence < d.confidence by {
            if j < front.len() {
                assert(front[j] == s[j]);
            }
        }
        if k > 0 {
            assert(front[k - 1] == s[k - 1]);
        }
    }
    lemma_insert_position(s, d, insertion_point(s, d));
}

/// Sorting neither loses nor invents a detection.
pub proof fn lemma_sorted_is_permutation(s: Seq<Detection>)
    ensures
        sorted_by_confidence(s).to_multiset() == s.to_multiset(),
        sorted_by_confidence(s).len() == s.len(),
        forall|d: Detection| sorted_by_confidence(s).contains(d) <==> s.contains(d),
    decreases s.len(),
{
    broadcast use vstd::seq_lib::group_to_multiset_ensures;

    if s.len() != 0 {
        let front = s.drop_last();
        lemma_sorted_is_permutation(front);
        let prev = sorted_by_confidence(front);
        lemma_insertion_point(prev, s.last());
        vstd::seq_lib::to_multiset_insert(prev, insertion_point(prev, s.last()), s.last());
        assert(front.push(s.last()) =~= s);
        assert(s.to_multiset() =~= front.to_multiset().insert(s.last()));
    }
    assert forall|d: Detection| sorted_by_confidence(s).contains(d) <==> s.contains(d) by {
        assert(sorted_by_confidence(s).to_multiset().count(d) == s.to_multiset().count(d));
    }
}

/// Confidence never rises along a sorted sequence.
pub proof fn lemma_sorted_confidence_falls(s: Seq<Detection>)
    ensures
        confidence_falls(sorted_by_confidence(s)),
    decreases s.len(),
{
    if s.len() != 0 {
        let front = s.drop_last();
        lemma_sorted_confidence_falls(front);
        let prev = sorted_by_confidence(front);
        let d = s.last();
        lemma_insertion_point(prev, d);
        let k = insertion_point(prev, d);
        let next = prev.insert(k, d);
        assert forall|i: int, j: int| 0 <= i < j < next.len() implies next[i].confidence
            >= next[j].confidence by {
            if k > 0 && i < k {
                assert(prev[i].confidence >= prev[k - 1].confidence);
            }
        }
    }
}

/// Sorting is stable: the detections of any one confidence stand in the
/// sorted sequence in the order they had before.
pub proof fn lemma_sorted_is_stable(s: Seq<Detection>, c: i64)
    ensures
        sorted_by_confidence(s).filter(|d: Detection| d.confidence == c) == s.filter(
            |d: Detection| d.confidence == c,
        ),
    decreases s.len(),
{
    let same = |d: Detection| d.confidence == c;
    reveal(Seq::filter);
    if s.len() != 0 {
        let front = s.drop_last();
        let d = s.last();
        lemma_sorted_is_stable(front, c);
        let prev = sorted_by_confidence(front);
        lemma_insertion_point(prev, d);
        let k = insertion_point(prev, d);
        let head = prev.subrange(0, k);
        let tail = prev.subrange(k, prev.len() as int);
        assert(prev =~= head + tail);
        Seq::filter_distributes_over_add(head, tail, same);
        Seq::filter_distributes_over_add(head.push(d), tail, same);
        assert(head.push(d).drop_last() =~= head);
        if d.confidence == c {
            lemma_filter_none(tail, same);
            assert(head.filter(same) + Seq::<Detection>::empty() =~= head.filter(same));
            assert(head.filter(same).push(d) + Seq::<Detection>::empty() =~= head.filter(
                same,
            ).push(d));
        }
    }
}

proof fn lemma_filter_none(s: Seq<Detection>, pred: spec_fn(Detection) -> bool)
    requires
        forall|i: int| 0 <= i < s.len() ==> !pred(s[i]),
    ensures
        s.filter(pred) == Seq::<Detection>::empty(),
    decreases s.len(),
{
    reveal(Seq::filter);
    if s.len() != 0 {
        let front = s.drop_last();
        assert(forall|i: int| 0 <= i < front.len() ==> front[i] == s[i]);
        lemma_filter_none(front, pred);
    }
}

proof fn lemma_filter_keeps_falling(s: Seq<Detection>, pred: spec_fn(Detection) -> bool)
    requires
        confidence_falls(s),
    ensures
        confidence_falls(s.filter(pred)),
    decreases s.len(),
{
    reveal(Seq::filter);
    if s.len() != 0 {
        let front = s.drop_last();
        assert(forall|i: int| 0 <= i < front.len() ==> front[i] == s[i]);
        lemma_filter_keeps_falling(front, pred);
        let sub = front.filter(pred);
        if pred(s.last()) {
            let out = sub.push(s.last());
            assert forall|i: int, j: int| 0 <= i < j < out.len() implies out[i].confidence
                >= out[j].confidence by {
                if j == sub.len() {
                    assert(sub.contains(sub[i]));
                    front.lemma_filter_contains_rev(pred, sub[i]);
                    let t = choose|t: int| 0 <= t < front.len() && front[t] == sub[i];
                    assert(s[t].confidence >= s[s.len() - 1].confidence);
                }
            }
        }
    }
}

/// What greedy selection keeps: only detections of the pool, its first one
/// always, no more than the pool holds, in falling confidence where the pool
/// was, and no detection together with one that it suppresses.
pub proof fn lemma_greedy_select(pool: Seq<Detection>, per_class: bool)
    ensures
        greedy_select(pool, per_class).len() <= pool.len(),
        pool.len() > 0 ==> greedy_select(pool, per_class).len() > 0 && greedy_select(
            pool,
            per_class,
        )[0] == pool[0],
        forall|i: int|
            0 <= i < greedy_select(pool, per_class).len() ==> pool.contains(
                #[trigger] greedy_select(pool, per_class)[i],
            ),
        confidence_falls(pool) ==> confidence_falls(greedy_select(pool, per_class)),
        forall|i: int, j: int|
            0 <= i < j < greedy_select(pool, per_class).len() ==> !suppresses(
                #[trigger] greedy_select(pool, per_class)[i],
                #[trigger] greedy_select(pool, per_class)[j],
                per_class,
            ),
    decreases pool.len(),
{
    if pool.len() != 0 {
        let head = pool[0];
        let keep = |d: Detection| !suppresses(head, d, per_class);
        let rest = pool.skip(1);
        let pruned = survivors(head, rest, per_class);
        rest.lemma_filter_len(keep);
        lemma_greedy_select(pruned, per_class);
        let tail = greedy_select(pruned, per_class);
        let out = greedy_select(pool, per_class);
        assert(out == seq![head] + tail);
        assert forall|i: int| 0 < i < out.len() implies rest.contains(out[i]) && keep(out[i]) by {
            assert(out[i] == tail[i - 1]);
            assert(pruned.contains(tail[i - 1]));
            rest.lemma_filter_contains_rev(keep, out[i]);
            let t = choose|t: int| 0 <= t < pruned.len() && pruned[t] == out[i];
            rest.lemma_filter_pred(keep, t);
        }
        assert forall|i: int| 0 <= i < out.len() implies pool.contains(#[trigger] out[i]) by {
            if i > 0 {
                let t = choose|t: int| 0 <= t < rest.len() && rest[t] == out[i];
                assert(pool[t + 1] == out[i]);
            }
        }
        if confidence_falls(pool) {
            assert(forall|i: int| 0 <= i < rest.len() ==> rest[i] == pool[i + 1]);
            lemma_filter_keeps_falling(rest, keep);
            assert forall|i: int, j: int| 0 <= i < j < out.len() implies out[i].confidence
                >= out[j].confidence by {
                if i == 0 {
                    let t = choose|t: int| 0 <= t < rest.len() && rest[t] == out[j];
                    assert(pool[0].confidence >= pool[t + 1].confidence);
                } else {
                    assert(tail[i - 1].confidence >= tail[j - 1].confidence);
                }
            }
        }
        assert forall|i: int, j: int| 0 <= i < j < out.len() implies !suppresses(
            #[trigger] out[i],
            #[trigger] out[j],
            per_class,
        ) by {
            if i == 0 {
                assert(keep(out[j]));
            } else {
                assert(!suppresses(tail[i - 1], tail[j - 1], per_class));
            }
        }
    }
}

/// Nothing leaves the pool without cause: a detection of the pool that is not
/// kept is suppressed by one that is, and in a pool of falling confidence by
/// one that is at least as confident.
pub proof fn lemma_dropped_is_suppressed(pool: Seq<Detection>, per_class: bool, i: int)
    requires
        0 <= i < pool.len(),
    ensures
        greedy_select(pool, per_class).contains(pool[i]) || exists|k: int|
            0 <= k < greedy_select(pool, per_class).len() && suppresses(
                #[trigger] greedy_select(pool, per_class)[k],
                pool[i],
                per_class,
            ) && (confidence_falls(pool) ==> greedy_select(pool, per_class)[k].confidence
                >= pool[i].confidence),
    decreases pool.len(),
{
    let head = pool[0];
    let keep = |d: Detection| !suppresses(head, d, per_class);
    let rest = pool.skip(1);
    let pruned = survivors(head, rest, per_class);
    let tail = greedy_select(pruned, per_class);
    let out = greedy_select(pool, per_class);
    assert(out == seq![head] + tail);
    assert(out[0] == head);
    if i == 0 {
    } else if suppresses(head, pool[i], per_class) {
        assert(suppresses(out[0], pool[i], per_class));
    } else {
        assert(rest[i - 1] == pool[i]);
        rest.lemma_filter_contains(keep, i - 1);
        rest.lemma_filter_len(keep);
        let j = choose|j: int| 0 <= j < pruned.len() && pruned[j] == pool[i];
        lemma_dropped_is_suppressed(pruned, per_class, j);
        if confidence_falls(pool) {
            assert(forall|t: int| 0 <= t < rest.len() ==> rest[t] == pool[t + 1]);
            lemma_filter_keeps_falling(rest, keep);
        }
        if tail.contains(pool[i]) {
            let t = choose|t: int| 0 <= t < tail.len() && tail[t] == pool[i];
            assert(out[t + 1] == pool[i]);
        } else {
            let k = choose|k: int|
                0 <= k < tail.len() && suppresses(#[trigger] tail[k], pruned[j], per_class) && (
                confidence_falls(pruned) ==> tail[k].confidence >= pruned[j].confidence);
            assert(out[k + 1] == tail[k]);
        }
    }
}

/// Deduplication returns detections of its input only, by falling
/// confidence, and no two of them overlap by the threshold or more, unless
/// suppression is per class and the two differ in class. Every detection of
/// the input that it drops is suppressed by one that it returns and that is
/// at least as confident.
pub proof fn lemma_deduplicated(dets: Seq<Detection>, per_class: bool)
    ensures
        deduplicated(dets, per_class).len() <= dets.len(),
        dets.len() > 0 ==> deduplicated(dets, per_class).len() > 0,
        forall|i: int|
            0 <= i < deduplicated(dets, per_class).len() ==> dets.contains(
                #[trigger] deduplicated(dets, per_class)[i],
            ),
        confidence_falls(deduplicated(dets, per_class)),
        forall|i: int, j: int|
            0 <= i < deduplicated(dets, per_class).len() && 0 <= j < deduplicated(
                dets,
                per_class,
            ).len() && i != j ==> {
                let a = #[trigger] deduplicated(dets, per_class)[i];
                let b = #[trigger] deduplicated(dets, per_class)[j];
                a.bbox@.iou(b.bbox@) < IOU_THRESHOLD || (per_class && a.label != b.label)
            },
        forall|d: Detection| #[trigger]
            dets.contains(d) ==> deduplicated(dets, per_class).contains(d) || exists|k: int|
                0 <= k < deduplicated(dets, per_class).len() && suppresses(
                    #[trigger] deduplicated(dets, per_class)[k],
                    d,
                    per_class,
                ) && deduplicated(dets, per_class)[k].confidence >= d.confidence,
{
    let sorted = sorted_by_confidence(dets);
    lemma_sorted_is_permutation(dets);
    lemma_sorted_confidence_falls(dets);
    lemma_greedy_select(sorted, per_class);
    let out = deduplicated(dets, per_class);
    assert forall|i: int, j: int| 0 <= i < out.len() && 0 <= j < out.len() && i != j implies {
        let a = #[trigger] out[i];
        let b = #[trigger] out[j];
        a.bbox@.iou(b.bbox@) < IOU_THRESHOLD || (per_class && a.label != b.label)
    } by {
        if i < j {
            assert(!suppresses(out[i], out[j], per_class));
        } else {
            assert(!suppresses(out[j], out[i], per_class));
            crate::geometry::lemma_iou_symmetric(out[i].bbox@, out[j].bbox@);
        }
    }
    assert forall|d: Detection| #[trigger] dets.contains(d) implies out.contains(d) || exists|
        k: int,
    |
        0 <= k < out.len() && suppresses(#[trigger] out[k], d, per_class) && out[k].confidence
            >= d.confidence by {
        assert(sorted.contains(d));
        let i = choose|i: int| 0 <= i < sorted.len() && sorted[i] == d;
        lemma_dropped_is_suppressed(sorted, per_class, i);
    }
}

} // verus!

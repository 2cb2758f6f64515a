//! Audio playback bookkeeping: which sample ranges have been decoded, how much
//! can be queued next, and the audio worker's task list.
use vstd::prelude::*;

verus! {

/// Number of interleaved samples handed to one playback buffer at most.
pub const FULL_CHUNK_SAMPLES: usize = 8192;

/// Sample `p` lies in one of the half-open ranges `[start, end)`.
pub open spec fn covers(ranges: Seq<(usize, usize)>, p: int) -> bool {
    exists|i: int| 0 <= i < ranges.len() && #[trigger] ranges[i].0 <= p && p < ranges[i].1
}

/// The ranges are ordered by start and each one ends strictly before the next begins.
pub open spec fn separated(ranges: Seq<(usize, usize)>) -> bool {
    forall|i: int, j: int| #![trigger ranges[i], ranges[j]] 0 <= i < j < ranges.len() ==> ranges[i].1 < ranges[j].0
}

/// Starts are non-decreasing.
pub open spec fn sorted_by_start(ranges: Seq<(usize, usize)>) -> bool {
    forall|i: int, j: int| #![trigger ranges[i], ranges[j]] 0 <= i <= j < ranges.len() ==> ranges[i].0 <= ranges[j].0
}

/// Every range of `a` occurs in `b`.
pub open spec fn drawn_from(a: Seq<(usize, usize)>, b: Seq<(usize, usize)>) -> bool {
    forall|i: int| 0 <= i < a.len() ==> b.contains(#[trigger] a[i])
}

pub open spec fn all_nonempty(ranges: Seq<(usize, usize)>) -> bool {
    forall|i: int| 0 <= i < ranges.len() ==> #[trigger] ranges[i].0 < ranges[i].1
}

pub open spec fn has_start(b: Seq<(usize, usize)>, v: usize) -> bool {
    exists|k: int| 0 <= k < b.len() && #[trigger] b[k].0 == v
}

pub open spec fn has_end(b: Seq<(usize, usize)>, v: usize) -> bool {
    exists|k: int| 0 <= k < b.len() && #[trigger] b[k].1 == v
}

/// Every start of `a` is a start of `b`, and every end of `a` an end of `b`.
pub open spec fn bounds_drawn_from(a: Seq<(usize, usize)>, b: Seq<(usize, usize)>) -> bool {
    &&& forall|i: int| 0 <= i < a.len() ==> has_start(b, #[trigger] a[i].0)
    &&& forall|i: int| 0 <= i < a.len() ==> has_end(b, #[trigger] a[i].1)
}

proof fn lemma_covers_insert(s: Seq<(usize, usize)>, pos: int, x: (usize, usize), p: int)
    requires
        0 <= pos <= s.len(),
    ensures
        covers(s.insert(pos, x), p) <==> (covers(s, p) || (x.0 <= p && p < x.1)),
{
    let t = s.insert(pos, x);
    if covers(t, p) {
        let i = choose|i: int| 0 <= i < t.len() && #[trigger] t[i].0 <= p && p < t[i].1;
        if i < pos {
            assert(s[i] == t[i]);
        } else if i > pos {
            assert(s[i - 1] == t[i]);
        }
    }
    if covers(s, p) {
        let i = choose|i: int| 0 <= i < s.len() && #[trigger] s[i].0 <= p && p < s[i].1;
        if i < pos {
            assert(t[i] == s[i]);
        } else {
            assert(t[i + 1] == s[i]);
        }
    }
    if x.0 <= p && p < x.1 {
        assert(t[pos] == x);
    }
}

proof fn lemma_covers_push(s: Seq<(usize, usize)>, x: (usize, usize), p: int)
    ensures
        covers(s.push(x), p) <==> (covers(s, p) || (x.0 <= p && p < x.1)),
{
    assert(s.push(x) =~= s.insert(s.len() as int, x));
    lemma_covers_insert(s, s.len() as int, x, p);
}

proof fn lemma_sorted_insert(old_out: Seq<(usize, usize)>, pos: int, x: (usize, usize))
    requires
        0 <= pos <= old_out.len(),
        sorted_by_start(old_out),
        pos > 0 ==> old_out[pos - 1].0 <= x.0,
        forall|k: int| pos <= k < old_out.len() ==> #[trigger] old_out[k].0 > x.0,
    ensures
        sorted_by_start(old_out.insert(pos, x)),
{
    let out = old_out.insert(pos, x);
    assert forall|a: int, b: int| #![trigger out[a], out[b]] 0 <= a <= b < out.len() implies out[a].0 <= out[b].0 by {
        if a < pos && b < pos {
            assert(out[a] == old_out[a] && out[b] == old_out[b]);
        } else if a < pos && b == pos {
            assert(out[a] == old_out[a]);
            assert(old_out[a].0 <= old_out[pos - 1].0);
        } else if a < pos {
            assert(out[a] == old_out[a] && out[b] == old_out[b - 1]);
        } else if a == pos && b > pos {
            assert(out[b] == old_out[b - 1]);
        } else if a > pos {
            assert(out[a] == old_out[a - 1] && out[b] == old_out[b - 1]);
        }
    }
}

proof fn lemma_drawn_insert(old_out: Seq<(usize, usize)>, pos: int, x: (usize, usize), src: Seq<(usize, usize)>, pre: Seq<(usize, usize)>)
    requires
        0 <= pos <= old_out.len(),
        drawn_from(old_out, src),
        drawn_from(pre, old_out),
        src.contains(x),
    ensures
        drawn_from(old_out.insert(pos, x), src),
        drawn_from(pre.push(x), old_out.insert(pos, x)),
{
    let out = old_out.insert(pos, x);
    assert forall|j: int| #![trigger out[j]] 0 <= j < out.len() implies exists|k: int| 0 <= k < src.len() && #[trigger] src[k] == out[j] by {
        if j < pos {
            assert(out[j] == old_out[j]);
        } else if j > pos {
            assert(out[j] == old_out[j - 1]);
        }
    }
    let q = pre.push(x);
    assert forall|j: int| #![trigger q[j]] 0 <= j < q.len() implies exists|k: int| 0 <= k < out.len() && #[trigger] out[k] == q[j] by {
        if j < pre.len() {
            assert(q[j] == pre[j]);
            let k = choose|k: int| 0 <= k < old_out.len() && #[trigger] old_out[k] == pre[j];
            if k < pos {
                assert(out[k] == q[j]);
            } else {
                assert(out[k + 1] == q[j]);
            }
        } else {
            assert(q[j] == x);
            assert(out[pos] == q[j]);
        }
    }
}

/// Where `x` goes among ranges ordered by start: after the last range that
/// starts no later than it.
pub open spec fn slot(out: Seq<(usize, usize)>, x: (usize, usize)) -> int
    decreases out.len(),
{
    if out.len() == 0 || out.last().0 <= x.0 {
        out.len() as int
    } else {
        slot(out.drop_last(), x)
    }
}

/// The ranges ordered by start, ranges with equal starts in their order.
pub open spec fn by_start(s: Seq<(usize, usize)>) -> Seq<(usize, usize)>
    decreases s.len(),
{
    if s.len() == 0 {
        Seq::empty()
    } else {
        let o = by_start(s.drop_last());
        o.insert(slot(o, s.last()), s.last())
    }
}

/// The ranges merged left to right: a range that starts no later than the end
/// of the last merged range extends it, any other range is added.
pub open spec fn merge_fold(s: Seq<(usize, usize)>) -> Seq<(usize, usize)>
    decreases s.len(),
{
    if s.len() == 0 {
        Seq::empty()
    } else {
        let m = merge_fold(s.drop_last());
        let x = s.last();
        if m.len() > 0 && x.0 <= m.last().1 {
            m.update(m.len() - 1, (m.last().0, if m.last().1 >= x.1 { m.last().1 } else { x.1 }))
        } else {
            m.push(x)
        }
    }
}

proof fn lemma_slot_bound(out: Seq<(usize, usize)>, x: (usize, usize))
    ensures
        0 <= slot(out, x) <= out.len(),
    decreases out.len(),
{
    if out.len() > 0 && out.last().0 > x.0 {
        lemma_slot_bound(out.drop_last(), x);
    }
}

/// Orders the ranges by their start, keeping the same ranges.
fn sort_by_start(ranges: &Vec<(usize, usize)>) -> (out: Vec<(usize, usize)>)
    ensures
        out@.len() == ranges@.len(),
        sorted_by_start(out@),
        drawn_from(out@, ranges@),
        drawn_from(ranges@, out@),
        forall|p: int| covers(out@, p) <==> covers(ranges@, p),
        sorted_by_start(ranges@) ==> out@ == ranges@,
        out@ == by_start(ranges@),
{
    let mut out: Vec<(usize, usize)> = Vec::new();
    let n = ranges.len();
    for i in 0..n
        invariant
            n == ranges@.len(),
            out@.len() == i,
            sorted_by_start(out@),
            drawn_from(out@, ranges@),
            drawn_from(ranges@.take(i as int), out@),
            forall|p: int| covers(out@, p) <==> covers(ranges@.take(i as int), p),
            sorted_by_start(ranges@) ==> out@ == ranges@.take(i as int),
            out@ == by_start(ranges@.take(i as int)),
    {
        let x = ranges[i];
        let mut pos = out.len();
        proof {
            assert(out@.take(pos as int) =~= out@);
        }
        while pos > 0 && out[pos - 1].0 > x.0
            invariant
                pos <= out@.len(),
                sorted_by_start(out@),
                forall|k: int| pos <= k < out@.len() ==> #[trigger] out@[k].0 > x.0,
                i < ranges@.len(),
                x == ranges@[i as int],
                sorted_by_start(ranges@) ==> out@ == ranges@.take(i as int) && pos == out@.len(),
                slot(out@, x) == slot(out@.take(pos as int), x),
            decreases pos,
        {
            proof {
                assert(out@.take(pos as int).drop_last() =~= out@.take(pos - 1));
                assert(out@.take(pos as int).last() == out@[pos - 1]);
            }
            proof {
                if sorted_by_start(ranges@) {
                    assert(out@[pos - 1] == ranges@[i - 1]);
                    assert(ranges@[i - 1].0 <= ranges@[i as int].0);
                }
            }
            pos = pos - 1;
        }
        let ghost old_out = out@;
        let ghost pre = ranges@.take(i as int);
        proof {
            if pos > 0 {
                assert(out@.take(pos as int).last() == out@[pos - 1]);
            } else {
                assert(out@.take(0) =~= Seq::<(usize, usize)>::empty());
            }
            assert(slot(out@, x) == pos);
        }
        out.insert(pos, x);
        proof {
            assert(ranges@.take(i + 1).drop_last() =~= pre);
            assert(ranges@.take(i + 1).last() == x);
            assert(ranges@.take(i + 1) =~= pre.push(x));
            assert(ranges@[i as int] == x);
            lemma_sorted_insert(old_out, pos as int, x);
            lemma_drawn_insert(old_out, pos as int, x, ranges@, pre);
            assert forall|p: int| covers(out@, p) <==> covers(ranges@.take(i + 1), p) by {
                lemma_covers_insert(old_out, pos as int, x, p);
                lemma_covers_push(pre, x, p);
            }
            if sorted_by_start(ranges@) {
                assert(out@ =~= old_out.push(x));
            }
        }
    }
    assert(ranges@.take(n as int) =~= ranges@);
    out
}

/// What holds of the merged list `m` built from the sorted prefix `pre`.
spec fn merge_state(m: Seq<(usize, usize)>, pre: Seq<(usize, usize)>) -> bool {
    &&& separated(m)
    &&& sorted_by_start(m)
    &&& bounds_drawn_from(m, pre)
    &&& (all_nonempty(pre) ==> all_nonempty(m))
    &&& (forall|p: int| covers(m, p) <==> covers(pre, p))
    &&& (m.len() == 0 <==> pre.len() == 0)
    &&& (pre.len() > 0 ==> forall|k: int| 0 <= k < m.len() ==> #[trigger] m[k].0 <= pre.last().0)
}

proof fn lemma_merge_extend(m: Seq<(usize, usize)>, pre: Seq<(usize, usize)>, x: (usize, usize))
    requires
        merge_state(m, pre),
        pre.len() > 0,
        pre.last().0 <= x.0,
        x.0 <= m.last().1,
    ensures
        merge_state(
            m.update(m.len() - 1, (m.last().0, if m.last().1 >= x.1 { m.last().1 } else { x.1 })),
            pre.push(x),
        ),
{
    let last = m.last();
    let new_end = if last.1 >= x.1 { last.1 } else { x.1 };
    let n = m.update(m.len() - 1, (last.0, new_end));
    let q = pre.push(x);
    assert(last.0 <= x.0);
    let front = m.drop_last();
    assert(m =~= front.push(last));
    assert(n =~= front.push((last.0, new_end)));
    assert forall|p: int| covers(n, p) <==> covers(q, p) by {
        lemma_covers_push(front, last, p);
        lemma_covers_push(front, (last.0, new_end), p);
        lemma_covers_push(pre, x, p);
    }
    assert forall|a: int, b: int| #![trigger n[a], n[b]] 0 <= a < b < n.len() implies n[a].1 < n[b].0 by {
        assert(m[a].1 < m[b].0);
    }
    assert forall|a: int, b: int| #![trigger n[a], n[b]] 0 <= a <= b < n.len() implies n[a].0 <= n[b].0 by {
        assert(m[a].0 <= m[b].0);
    }
    assert forall|k: int| 0 <= k < n.len() implies #[trigger] n[k].0 <= q.last().0 by {
        assert(m[k].0 <= pre.last().0);
    }
    assert forall|k: int| #![trigger n[k]] 0 <= k < n.len() implies exists|j: int| 0 <= j < q.len() && #[trigger] q[j].0 == n[k].0 by {
        let j = choose|j: int| 0 <= j < pre.len() && #[trigger] pre[j].0 == m[k].0;
        assert(q[j] == pre[j]);
    }
    assert forall|k: int| #![trigger n[k]] 0 <= k < n.len() implies exists|j: int| 0 <= j < q.len() && #[trigger] q[j].1 == n[k].1 by {
        if k == m.len() - 1 && new_end == x.1 {
            assert(q[pre.len() as int] == x);
        } else {
            let j = choose|j: int| 0 <= j < pre.len() && #[trigger] pre[j].1 == m[k].1;
            assert(q[j] == pre[j]);
        }
    }
    if all_nonempty(q) {
        assert(q[pre.len() as int] == x);
        assert forall|j: int| 0 <= j < pre.len() implies #[trigger] pre[j].0 < pre[j].1 by {
            assert(q[j] == pre[j]);
        }
        assert(m[m.len() - 1].0 < m[m.len() - 1].1);
    }
}

proof fn lemma_merge_push(m: Seq<(usize, usize)>, pre: Seq<(usize, usize)>, x: (usize, usize))
    requires
        merge_state(m, pre),
        pre.len() > 0 ==> pre.last().0 <= x.0,
        m.len() > 0 ==> m.last().1 < x.0,
    ensures
        merge_state(m.push(x), pre.push(x)),
{
    let n = m.push(x);
    let q = pre.push(x);
    let len = m.len();
    assert forall|p: int| covers(n, p) <==> covers(q, p) by {
        lemma_covers_push(m, x, p);
        lemma_covers_push(pre, x, p);
    }
    assert forall|a: int, b: int| #![trigger n[a], n[b]] 0 <= a < b < n.len() implies n[a].1 < n[b].0 by {
        if b < len {
            assert(m[a].1 < m[b].0);
        } else if a < len - 1 {
            assert(m[a].1 < m[len - 1].0);
            assert(m[len - 1].0 <= pre.last().0);
        }
    }
    assert forall|a: int, b: int| #![trigger n[a], n[b]] 0 <= a <= b < n.len() implies n[a].0 <= n[b].0 by {
        if b < len {
            assert(m[a].0 <= m[b].0);
        } else if a < len {
            assert(m[a].0 <= pre.last().0);
        }
    }
    assert forall|k: int| 0 <= k < n.len() implies #[trigger] n[k].0 <= q.last().0 by {
        if k < len {
            assert(m[k].0 <= pre.last().0);
        }
    }
    assert forall|k: int| #![trigger n[k]] 0 <= k < n.len() implies exists|j: int| 0 <= j < q.len() && #[trigger] q[j].0 == n[k].0 by {
        if k < len {
            let j = choose|j: int| 0 <= j < pre.len() && #[trigger] pre[j].0 == m[k].0;
            assert(q[j] == pre[j]);
        } else {
            assert(q[pre.len() as int] == x);
        }
    }
    assert forall|k: int| #![trigger n[k]] 0 <= k < n.len() implies exists|j: int| 0 <= j < q.len() && #[trigger] q[j].1 == n[k].1 by {
        if k < len {
            let j = choose|j: int| 0 <= j < pre.len() && #[trigger] pre[j].1 == m[k].1;
            assert(q[j] == pre[j]);
        } else {
            assert(n[k] == x);
            assert(q[pre.len() as int].1 == n[k].1);
        }
    }
    if all_nonempty(q) {
        assert(q[pre.len() as int] == x);
        assert forall|j: int| 0 <= j < pre.len() implies #[trigger] pre[j].0 < pre[j].1 by {
            assert(q[j] == pre[j]);
        }
    }
}

proof fn lemma_transfer_bounds(m: Seq<(usize, usize)>, s: Seq<(usize, usize)>, o: Seq<(usize, usize)>)
    requires
        bounds_drawn_from(m, s),
        drawn_from(s, o),
        drawn_from(o, s),
        all_nonempty(s) ==> all_nonempty(m),
    ensures
        bounds_drawn_from(m, o),
        all_nonempty(o) ==> all_nonempty(m),
{
    assert forall|k: int| #![trigger m[k]] 0 <= k < m.len() implies exists|j: int| 0 <= j < o.len() && #[trigger] o[j].0 == m[k].0 by {
        let j = choose|j: int| 0 <= j < s.len() && #[trigger] s[j].0 == m[k].0;
        let t = choose|t: int| 0 <= t < o.len() && #[trigger] o[t] == s[j];
        assert(o[t].0 == m[k].0);
    }
    assert forall|k: int| #![trigger m[k]] 0 <= k < m.len() implies exists|j: int| 0 <= j < o.len() && #[trigger] o[j].1 == m[k].1 by {
        let j = choose|j: int| 0 <= j < s.len() && #[trigger] s[j].1 == m[k].1;
        let t = choose|t: int| 0 <= t < o.len() && #[trigger] o[t] == s[j];
        assert(o[t].1 == m[k].1);
    }
    if all_nonempty(o) {
        assert forall|j: int| 0 <= j < s.len() implies #[trigger] s[j].0 < s[j].1 by {
            let t = choose|t: int| 0 <= t < o.len() && #[trigger] o[t] == s[j];
        }
    }
}

/// Sorts the decoded ranges by start and merges every range that overlaps or
/// touches the one before it, so that the list describes the same samples with
/// as few ranges as the input allows. The result is exactly the left-to-right
/// merge of the ranges ordered by start, ranges with equal starts taken in
/// their given order.
#[verifier::spinoff_prover]
#[verifier::rlimit(40)]
pub fn merge_ranges(ranges: &mut Vec<(usize, usize)>)
    ensures
        forall|p: int| covers(final(ranges)@, p) <==> covers(old(ranges)@, p),
        separated(final(ranges)@),
        sorted_by_start(final(ranges)@),
        bounds_drawn_from(final(ranges)@, old(ranges)@),
        all_nonempty(old(ranges)@) ==> all_nonempty(final(ranges)@),
        sorted_by_start(old(ranges)@) && separated(old(ranges)@) ==> final(ranges)@ == old(ranges)@,
        final(ranges)@ == merge_fold(by_start(old(ranges)@)),
{
    let sorted = sort_by_start(ranges);
    let mut merged: Vec<(usize, usize)> = Vec::with_capacity(sorted.len());
    let n = sorted.len();
    assert(sorted@.take(0) =~= Seq::<(usize, usize)>::empty());
    for i in 0..n
        invariant
            n == sorted@.len(),
            sorted_by_start(sorted@),
            merge_state(merged@, sorted@.take(i as int)),
            merged@ == merge_fold(sorted@.take(i as int)),
            sorted@ == by_start(ranges@),
            sorted_by_start(ranges@) && separated(ranges@) ==> sorted@ == ranges@ && merged@ == sorted@.take(i as int),
    {
        let (s, e) = sorted[i];
        let ghost old_m = merged@;
        let ghost pre = sorted@.take(i as int);
        proof {
            assert(sorted@.take(i + 1) =~= pre.push((s, e)));
            assert(sorted@.take(i + 1).drop_last() =~= pre);
            if i > 0 {
                assert(pre.last() == sorted@[i - 1]);
            }
        }
        let len = merged.len();
        if len > 0 && s <= merged[len - 1].1 {
            let last = merged[len - 1];
            let new_end = if last.1 >= e { last.1 } else { e };
            proof {
                if sorted_by_start(ranges@) && separated(ranges@) {
                    assert(old_m[len - 1] == sorted@[i - 1]);
                    assert(sorted@[i - 1].1 < sorted@[i as int].0);
                }
            }
            merged.set(len - 1, (last.0, new_end));
            proof {
                lemma_merge_extend(old_m, pre, (s, e));
            }
        } else {
            merged.push((s, e));
            proof {
                lemma_merge_push(old_m, pre, (s, e));
                if sorted_by_start(ranges@) && separated(ranges@) {
                    assert(merged@ =~= sorted@.take(i + 1));
                }
            }
        }
    }
    proof {
        assert(sorted@.take(n as int) =~= sorted@);
        lemma_transfer_bounds(merged@, sorted@, ranges@);
    }
    *ranges = merged;
}

/// The first range that holds sample `pos`, if any.
pub open spec fn holds_at(ranges: Seq<(usize, usize)>, i: int, pos: int) -> bool {
    0 <= i < ranges.len() && ranges[i].0 <= pos && pos < ranges[i].1
}

/// End of the decoded run that sample `pos` lies in: the end of the first range
/// holding `pos`, or `pos` itself when no range holds it.
pub open spec fn spec_contiguous_loaded_end(ranges: Seq<(usize, usize)>, pos: usize) -> usize
    decreases ranges.len(),
{
    if ranges.len() == 0 {
        pos
    } else if ranges[0].0 <= pos && pos < ranges[0].1 {
        ranges[0].1
    } else {
        spec_contiguous_loaded_end(ranges.drop_first(), pos)
    }
}

/// How far playback can continue from `pos` without waiting for the decoder.
pub fn contiguous_loaded_end(ranges: &[(usize, usize)], pos: usize) -> (end: usize)
    ensures
        end == spec_contiguous_loaded_end(ranges@, pos),
        (exists|i: int| holds_at(ranges@, i, pos as int)) ==> end > pos,
        !(exists|i: int| holds_at(ranges@, i, pos as int)) ==> end == pos,
        (exists|i: int| holds_at(ranges@, i, pos as int)) ==> exists|i: int| #[trigger] holds_at(ranges@, i, pos as int)
            && ranges@[i].1 == end && forall|j: int| 0 <= j < i ==> !holds_at(ranges@, j, pos as int),
{
    let n = ranges.len();
    let mut i: usize = 0;
    assert(ranges@.skip(0) =~= ranges@);
    while i < n
        invariant
            n == ranges@.len(),
            i <= n,
            spec_contiguous_loaded_end(ranges@, pos) == spec_contiguous_loaded_end(ranges@.skip(i as int), pos),
            forall|j: int| 0 <= j < i ==> !holds_at(ranges@, j, pos as int),
        decreases n - i,
    {
        let (s, e) = ranges[i];
        proof {
            assert(ranges@.skip(i as int)[0] == ranges@[i as int]);
            assert(ranges@.skip(i as int).drop_first() =~= ranges@.skip(i + 1));
        }
        if s <= pos && pos < e {
            assert(holds_at(ranges@, i as int, pos as int));
            assert(ranges@[i as int].1 == e);
            return e;
        }
        i = i + 1;
    }
    proof {
        assert(ranges@.skip(n as int) =~= Seq::<(usize, usize)>::empty());
    }
    pos
}

/// Sizes of the chunks queued from `pos` while buffers are free and decoded
/// samples remain up to `available`; each chunk holds at most
/// [`FULL_CHUNK_SAMPLES`] samples.
pub open spec fn chunk_plan(available: nat, pos: nat, free_buffers: nat) -> Seq<usize>
    decreases free_buffers,
{
    if free_buffers == 0 || available <= pos {
        Seq::empty()
    } else {
        let remaining = (available - pos) as nat;
        let take = if remaining < FULL_CHUNK_SAMPLES { remaining } else { FULL_CHUNK_SAMPLES as nat };
        seq![take as usize] + chunk_plan(available, pos + take, (free_buffers - 1) as nat)
    }
}

/// Plans one refill of the playback queue: the sizes of the chunks that are
/// handed to the free buffers, in queueing order, starting at `playback_position`.
pub fn plan_chunks(available: usize, playback_position: usize, free_buffers: usize) -> (chunks: Vec<usize>)
    ensures
        chunks@ == chunk_plan(available as nat, playback_position as nat, free_buffers as nat),
{
    let mut chunks: Vec<usize> = Vec::new();
    let mut pos = playback_position;
    let mut free = free_buffers;
    while free > 0
        invariant
            pos <= playback_position || pos <= available,
            chunks@ + chunk_plan(available as nat, pos as nat, free as nat)
                == chunk_plan(available as nat, playback_position as nat, free_buffers as nat),
        decreases free,
    {
        let remaining = available.saturating_sub(pos);
        if remaining == 0 {
            proof {
                assert(chunk_plan(available as nat, pos as nat, free as nat) =~= Seq::<usize>::empty());
                assert(chunks@ + Seq::<usize>::empty() =~= chunks@);
            }
            return chunks;
        }
        let take = if remaining < FULL_CHUNK_SAMPLES { remaining } else { FULL_CHUNK_SAMPLES };
        let ghost before = chunks@;
        chunks.push(take);
        proof {
            let rest = chunk_plan(available as nat, (pos + take) as nat, (free - 1) as nat);
            assert(chunk_plan(available as nat, pos as nat, free as nat) == seq![take] + rest);
            assert(before + (seq![take] + rest) =~= chunks@ + rest);
        }
        pos = pos + take;
        free = free - 1;
    }
    proof {
        assert(chunk_plan(available as nat, pos as nat, 0) =~= Seq::<usize>::empty());
        assert(chunks@ + Seq::<usize>::empty() =~= chunks@);
    }
    chunks
}

/// What the audio worker does with a task after running it once.
#[derive(Copy, Clone, Debug, PartialEq, Eq)]
pub enum TaskAction {
    /// Run the task again in the next round.
    Keep,
    /// Drop the task.
    Remove,
}

/// How an audio file is decoded: streamed around the playback position, or
/// decoded front to back.
#[derive(Copy, Clone, Debug, PartialEq, Eq)]
pub enum AudioMode {
    Stream,
    Full,
}

/// A message to the audio worker.
pub enum AudioThreadCommand<T> {
    AddTask(T),
}

/// The audio worker's state: the channel it listens on and the tasks it runs
/// in rounds. A task that answers [`TaskAction::Keep`] stays for the next round.
pub struct AudioThread<R, T> {
    pub commands: R,
    pub tasks: Vec<T>,
}

impl<R, T> AudioThread<R, T> {
    pub fn new(channel: R) -> (s: Self)
        ensures
            s.commands == channel,
            s.tasks@ == Seq::<T>::empty(),
    {
        AudioThread { commands: channel, tasks: Vec::new() }
    }

    /// Applies one received command: a new task joins the end of the queue.
    pub fn handle_command(&mut self, command: AudioThreadCommand<T>)
        ensures
            final(self).commands == old(self).commands,
            match command {
                AudioThreadCommand::AddTask(t) => final(self).tasks@ == old(self).tasks@.push(t),
            },
    {
        match command {
            AudioThreadCommand::AddTask(task) => self.tasks.push(task),
        }
    }

    /// Starts a round: hands out every queued task, in order, and leaves the queue empty.
    pub fn take_tasks(&mut self) -> (round: Vec<T>)
        ensures
            round@ == old(self).tasks@,
            final(self).tasks@ == Seq::<T>::empty(),
            final(self).commands == old(self).commands,
    {
        let mut round: Vec<T> = Vec::new();
        std::mem::swap(&mut round, &mut self.tasks);
        round
    }

    /// Ends a round: each task of `round` is queued again, in order, unless its
    /// action (the action at the same position) asks for its removal.
    pub fn settle_round(&mut self, round: Vec<T>, actions: &Vec<TaskAction>)
        requires
            round@.len() == actions@.len(),
        ensures
            final(self).commands == old(self).commands,
            final(self).tasks@ == old(self).tasks@ + surviving_tasks(round@, actions@),
    {
        let mut round = round;
        let ghost all = round@;
        let n = actions.len();
        let mut k: usize = 0;
        while k < n
            invariant
                n == actions@.len(),
                all.len() == n,
                k <= n,
                round@ == all.skip(k as int),
                self.commands == old(self).commands,
                self.tasks@ == old(self).tasks@ + surviving_tasks(all.take(k as int), actions@),
            decreases n - k,
        {
            let task = round.remove(0);
            let ghost before = self.tasks@;
            proof {
                assert(all.take(k + 1).drop_last() =~= all.take(k as int));
                assert(all.take(k + 1).last() == all[k as int]);
                assert(task == all[k as int]);
                assert(round@ =~= all.skip(k + 1));
            }
            match actions[k] {
                TaskAction::Keep => {
                    self.tasks.push(task);
                    assert(self.tasks@ =~= old(self).tasks@ + surviving_tasks(all.take(k + 1), actions@));
                },
                TaskAction::Remove => {},
            }
            k = k + 1;
        }
        assert(all.take(n as int) =~= all);
    }
}

/// The tasks of `round` whose action is [`TaskAction::Keep`], in their order.
pub open spec fn surviving_tasks<T>(round: Seq<T>, actions: Seq<TaskAction>) -> Seq<T>
    decreases round.len(),
{
    if round.len() == 0 {
        Seq::empty()
    } else {
        let rest = surviving_tasks(round.drop_last(), actions);
        if actions[round.len() - 1] == TaskAction::Keep {
            rest.push(round.last())
        } else {
            rest
        }
    }
}

/// Records a block of `size` samples decoded at `start`: the block joins the
/// decoded ranges, which are merged again, and the decode cursor moves to the
/// block's end, which is returned.
pub fn record_decoded(ranges: &mut Vec<(usize, usize)>, start: usize, size: usize) -> (end: usize)
    requires
        start + size <= usize::MAX,
    ensures
        end == start + size,
        forall|p: int| covers(final(ranges)@, p) <==> (covers(old(ranges)@, p) || start <= p < end),
        separated(final(ranges)@),
        sorted_by_start(final(ranges)@),
        final(ranges)@ == merge_fold(by_start(old(ranges)@.push((start, end)))),
{
    let end = start + size;
    let ghost before = ranges@;
    ranges.push((start, end));
    proof {
        assert forall|p: int| covers(ranges@, p) <==> (covers(before, p) || start <= p < end) by {
            if covers(before, p) {
                let i = choose|i: int| 0 <= i < before.len() && #[trigger] before[i].0 <= p && p < before[i].1;
                assert(ranges@[i] == before[i]);
                assert(ranges@[i].0 <= p && p < ranges@[i].1);
            }
            if start <= p < end {
                let k = before.len() as int;
                assert(ranges@[k] == (start, end));
                assert(ranges@[k].0 <= p && p < ranges@[k].1);
            }
            if covers(ranges@, p) {
                let i = choose|i: int| 0 <= i < ranges@.len() && #[trigger] ranges@[i].0 <= p && p < ranges@[i].1;
                if i < before.len() {
                    assert(before[i] == ranges@[i]);
                    assert(before[i].0 <= p && p < before[i].1);
                } else {
                    assert(ranges@[i] == (start, end));
                }
            }
        }
    }
    let ghost mid = ranges@;
    merge_ranges(ranges);
    assert(before == old(ranges)@);
    assert forall|p: int| covers(ranges@, p) <==> (covers(old(ranges)@, p) || start <= p < end) by {
        assert(covers(ranges@, p) <==> covers(mid, p));
    }
    end
}

/// Where a stream seek asks the decoder to go: nowhere when the samples at
/// `target` are decoded already, else to `target`.
pub fn stream_seek_target(ranges: &[(usize, usize)], target: usize) -> (r: Option<usize>)
    ensures
        r == if spec_contiguous_loaded_end(ranges@, target) > target {
            None::<usize>
        } else {
            Some(target)
        },
{
    if contiguous_loaded_end(ranges, target) > target {
        None
    } else {
        Some(target)
    }
}

/// One step of the spectrogram worker.
#[derive(Copy, Clone, Debug, PartialEq, Eq)]
pub enum SpectrogramStep {
    /// The next window is not decoded yet; when `finish` is set, decoding has
    /// ended and the spectrogram is complete.
    Wait { finish: bool },
    /// Compute the column of the window that starts at frame `first_frame`
    /// and write its `height` values into the texture from `tex_start` on.
    Column { first_frame: usize, tex_start: usize, height: usize },
}

/// Decides the spectrogram worker's next step from how many samples are
/// decoded and how many columns are done: the next window starts `hop` frames
/// after the previous one and spans `window_size` frames; a column holds
/// `window_size / 2` values.
pub fn spectrogram_step(
    decoded_samples: usize,
    channels: u16,
    columns_done: usize,
    hop: usize,
    window_size: usize,
    decode_finished: bool,
) -> (r: SpectrogramStep)
    requires
        channels > 0,
        columns_done * hop + window_size <= usize::MAX,
        columns_done * (window_size / 2) <= usize::MAX,
    ensures
        columns_done * hop + window_size > decoded_samples as int / (channels as int) ==> r == (SpectrogramStep::Wait { finish: decode_finished }),
        columns_done * hop + window_size <= decoded_samples as int / (channels as int) ==> r == (SpectrogramStep::Column {
            first_frame: (columns_done * hop) as usize,
            tex_start: (columns_done * (window_size / 2)) as usize,
            height: window_size / 2,
        }),
{
    let decoded_frames = decoded_samples / (channels as usize);
    let next_window_start = columns_done * hop;
    if next_window_start + window_size > decoded_frames {
        SpectrogramStep::Wait { finish: decode_finished }
    } else {
        let height = window_size / 2;
        SpectrogramStep::Column { first_frame: next_window_start, tex_start: columns_done * height, height }
    }
}

/// How many spectrogram columns the whole song has, at least one, when the
/// sample count is known and it and the hop are positive; `None` when the
/// coverage counts as complete.
pub fn spectrogram_column_total(sample_count: Option<usize>, hop: usize) -> (r: Option<usize>)
    ensures
        match sample_count {
            Some(total) => if total == 0 || hop == 0 {
                r is None
            } else {
                r == Some(if total / hop >= 1 { total / hop } else { 1usize })
            },
            None => r is None,
        },
{
    match sample_count {
        None => None,
        Some(total) => {
            if total == 0 || hop == 0 {
                None
            } else {
                let columns = total / hop;
                Some(if columns >= 1 { columns } else { 1 })
            }
        },
    }
}

/// The sum of the chunk sizes.
pub open spec fn total(s: Seq<usize>) -> int
    decreases s.len(),
{
    if s.len() == 0 {
        0
    } else {
        s[0] + total(s.drop_first())
    }
}

/// One refill queues every decoded sample after the playback position, up to
/// one full chunk per free buffer, in chunks that are never empty and never
/// larger than a full chunk.
pub proof fn lemma_chunk_plan_total(available: nat, pos: nat, free_buffers: nat)
    ensures
        total(chunk_plan(available, pos, free_buffers)) == {
            let remaining = if available > pos { available - pos } else { 0 };
            let room = free_buffers * FULL_CHUNK_SAMPLES;
            if remaining < room { remaining } else { room }
        },
        forall|k: int| 0 <= k < chunk_plan(available, pos, free_buffers).len()
            ==> 0 < #[trigger] chunk_plan(available, pos, free_buffers)[k] <= FULL_CHUNK_SAMPLES,
        forall|k: int| 0 <= k < chunk_plan(available, pos, free_buffers).len() - 1
            ==> #[trigger] chunk_plan(available, pos, free_buffers)[k] == FULL_CHUNK_SAMPLES,
    decreases free_buffers,
{
    if free_buffers > 0 && available > pos {
        let remaining = (available - pos) as nat;
        let take: nat = if remaining < FULL_CHUNK_SAMPLES { remaining } else { FULL_CHUNK_SAMPLES as nat };
        let rest = chunk_plan(available, pos + take, (free_buffers - 1) as nat);
        let plan = chunk_plan(available, pos, free_buffers);
        lemma_chunk_plan_total(available, pos + take, (free_buffers - 1) as nat);
        assert(plan == seq![take as usize] + rest);
        assert(plan.drop_first() =~= rest);
        assert(plan[0] == take as usize);
        assert forall|k: int| 0 <= k < plan.len() implies 0 < #[trigger] plan[k] <= FULL_CHUNK_SAMPLES by {
            if k > 0 {
                assert(plan[k] == rest[k - 1]);
            }
        }
        if take < FULL_CHUNK_SAMPLES {
            assert(rest =~= Seq::<usize>::empty());
        }
        assert forall|k: int| 0 <= k < plan.len() - 1 implies #[trigger] plan[k] == FULL_CHUNK_SAMPLES by {
            if k > 0 {
                assert(plan[k] == rest[k - 1]);
            }
        }
    }
}

proof fn lemma_total_push(s: Seq<usize>, x: usize)
    ensures
        total(s.push(x)) == total(s) + x,
    decreases s.len(),
{
    if s.len() > 0 {
        assert(s.push(x).drop_first() =~= s.drop_first().push(x));
        assert(s.push(x)[0] == s[0]);
        lemma_total_push(s.drop_first(), x);
    } else {
        assert(s.push(x).drop_first() =~= Seq::<usize>::empty());
        assert(s.push(x)[0] == x);
        assert(total(Seq::<usize>::empty()) == 0);
    }
}

proof fn lemma_total_prefix(s: Seq<usize>, k: int)
    requires
        0 <= k <= s.len(),
    ensures
        0 <= total(s.take(k)) <= total(s),
        total(s.take(k)) + total(s.skip(k)) == total(s),
    decreases s.len(),
{
    if k == 0 {
        assert(s.take(0) =~= Seq::<usize>::empty());
        assert(s.skip(0) =~= s);
        lemma_total_nonneg(s);
    } else {
        lemma_total_prefix(s.drop_first(), k - 1);
        assert(s.take(k).drop_first() =~= s.drop_first().take(k - 1));
        assert(s.skip(k) =~= s.drop_first().skip(k - 1));
    }
}

proof fn lemma_total_nonneg(s: Seq<usize>)
    ensures
        total(s) >= 0,
    decreases s.len(),
{
    if s.len() > 0 {
        lemma_total_nonneg(s.drop_first());
    }
}

/// The playback queue of a fully decoded sound: how many samples the queued
/// buffers have finished playing, how far the buffers have been filled, the
/// buffers that are free, and the sizes of the queued chunks in playing order.
#[derive(Debug)]
pub struct FullQueue {
    pub played_samples: usize,
    pub playback_position: usize,
    pub free_buffers: Vec<u32>,
    pub queued_sizes: Vec<usize>,
}

/// The queue's bookkeeping holds: the samples played and queued add up to the
/// fill position, which does not pass the decoded samples, and every buffer
/// is free or queued.
pub open spec fn queue_ok(q: FullQueue, load_position: nat, buffer_count: nat) -> bool {
    &&& q.played_samples + total(q.queued_sizes@) == q.playback_position
    &&& q.playback_position <= load_position
    &&& q.free_buffers@.len() + q.queued_sizes@.len() == buffer_count
}

impl FullQueue {
    /// One update of the queue: the buffers the player reports as processed
    /// (`processed`) become free and their chunks count as played; then free
    /// buffers, taken from the end, are filled with the decoded samples from
    /// the fill position up to `available`, a full chunk at most each. The
    /// result lists each filled buffer with the start and size of its chunk.
    pub fn update(&mut self, processed: &[u32], available: usize) -> (uploads: Vec<(u32, usize, usize)>)
        requires
            old(self).played_samples + total(old(self).queued_sizes@) <= usize::MAX,
        ensures
            ({
                let q = old(self).queued_sizes@;
                let k = if processed@.len() < q.len() { processed@.len() as int } else { q.len() as int };
                let f = old(self).free_buffers@ + processed@;
                let plan = chunk_plan(available as nat, old(self).playback_position as nat, f.len());
                &&& final(self).played_samples == old(self).played_samples + total(q.take(k))
                &&& final(self).queued_sizes@ == q.skip(k) + plan
                &&& final(self).playback_position == old(self).playback_position + total(plan)
                &&& final(self).free_buffers@ == f.take(f.len() - plan.len())
                &&& uploads@.len() == plan.len()
                &&& forall|j: int| 0 <= j < plan.len() ==> #[trigger] uploads@[j]
                    == (f[f.len() - 1 - j], (old(self).playback_position + total(plan.take(j))) as usize, plan[j])
            }),
    {
        let ghost q = self.queued_sizes@;
        let ghost p0 = self.played_samples;
        let n = processed.len();
        for i in 0..n
            invariant
                n == processed@.len(),
                q == old(self).queued_sizes@,
                p0 == old(self).played_samples,
                p0 + total(q) <= usize::MAX,
                self.playback_position == old(self).playback_position,
                self.free_buffers@ == old(self).free_buffers@ + processed@.take(i as int),
                ({
                    let k = if (i as int) < q.len() { i as int } else { q.len() as int };
                    &&& self.queued_sizes@ == q.skip(k)
                    &&& self.played_samples == p0 + total(q.take(k))
                }),
        {
            self.free_buffers.push(processed[i]);
            proof {
                assert(processed@.take(i + 1) =~= processed@.take(i as int).push(processed@[i as int]));
            }
            if self.queued_sizes.len() > 0 {
                let ghost k = i as int;
                proof {
                    assert(k < q.len());
                    assert(q.take(k + 1) =~= q.take(k).push(q[k]));
                    lemma_total_push(q.take(k), q[k]);
                    lemma_total_prefix(q, k + 1);
                    assert(self.queued_sizes@[0] == q[k]);
                }
                let c = self.queued_sizes.remove(0);
                self.played_samples = self.played_samples + c;
                proof {
                    assert(self.queued_sizes@ =~= q.skip(k + 1));
                }
            }
        }
        proof {
            assert(processed@.take(n as int) =~= processed@);
        }
        let ghost f = self.free_buffers@;
        let ghost q1 = self.queued_sizes@;
        let ghost pos0 = self.playback_position;
        let ghost played = self.played_samples;
        let ghost plan = chunk_plan(available as nat, pos0 as nat, f.len());
        let ghost mut sizes: Seq<usize> = Seq::empty();
        let mut uploads: Vec<(u32, usize, usize)> = Vec::new();
        proof {
            assert(sizes + plan =~= plan);
            assert(f.take(f.len() as int) =~= f);
            assert(q1 + sizes =~= q1);
        }
        while self.free_buffers.len() > 0
            invariant
                f.len() == self.free_buffers@.len() + sizes.len(),
                self.free_buffers@ == f.take(f.len() - sizes.len()),
                plan == chunk_plan(available as nat, pos0 as nat, f.len()),
                sizes + chunk_plan(available as nat, self.playback_position as nat, self.free_buffers@.len() as nat) == plan,
                self.playback_position == pos0 + total(sizes),
                self.playback_position <= pos0 || self.playback_position <= available,
                self.queued_sizes@ == q1 + sizes,
                self.played_samples == played,
                uploads@.len() == sizes.len(),
                forall|j: int| 0 <= j < sizes.len() ==> #[trigger] uploads@[j]
                    == (f[f.len() - 1 - j], (pos0 + total(sizes.take(j))) as usize, sizes[j]),
            ensures
                self.played_samples == played,
                sizes == plan,
                self.free_buffers@ == f.take(f.len() - sizes.len()),
                self.playback_position == pos0 + total(sizes),
                self.queued_sizes@ == q1 + sizes,
                uploads@.len() == sizes.len(),
                forall|j: int| 0 <= j < sizes.len() ==> #[trigger] uploads@[j]
                    == (f[f.len() - 1 - j], (pos0 + total(sizes.take(j))) as usize, sizes[j]),
            decreases self.free_buffers@.len(),
        {
            proof {
                if self.free_buffers@.len() == 1 {
                    assert(chunk_plan(available as nat, (self.playback_position + 0) as nat, 0) =~= Seq::<usize>::empty());
                }
            }
            let buf = self.free_buffers.pop().unwrap();
            let pos = self.playback_position;
            let remaining = available.saturating_sub(pos);
            let free_left = self.free_buffers.len();
            if remaining == 0 {
                self.free_buffers.push(buf);
                proof {
                    assert(chunk_plan(available as nat, pos as nat, (free_left + 1) as nat) =~= Seq::<usize>::empty());
                    assert(self.free_buffers@ =~= f.take(f.len() - sizes.len()));
                    assert(sizes + Seq::<usize>::empty() =~= sizes);
                }
                break;
            }
            let take = if remaining < FULL_CHUNK_SAMPLES { remaining } else { FULL_CHUNK_SAMPLES };
            let ghost j = sizes.len() as int;
            proof {
                let rest = chunk_plan(available as nat, (pos + take) as nat, free_left as nat);
                assert(chunk_plan(available as nat, pos as nat, (free_left + 1) as nat) == seq![take] + rest);
                assert(sizes + (seq![take] + rest) =~= sizes.push(take) + rest);
                assert(buf == f[f.len() - 1 - j]);
                assert(sizes.push(take).take(j) =~= sizes);
                lemma_total_push(sizes, take);
            }
            uploads.push((buf, pos, take));
            self.queued_sizes.push(take);
            self.playback_position = pos + take;
            proof {
                let s2 = sizes.push(take);
                assert forall|i: int| 0 <= i < s2.len() implies #[trigger] uploads@[i]
                    == (f[f.len() - 1 - i], (pos0 + total(s2.take(i))) as usize, s2[i]) by {
                    if i < j {
                        assert(s2.take(i) =~= sizes.take(i));
                    }
                }
                assert(self.queued_sizes@ =~= q1 + s2);
                assert(self.free_buffers@ =~= f.take(f.len() - s2.len()));
                sizes = s2;
            }
        }
        proof {
            assert(self.free_buffers@ == f.take(f.len() - plan.len()));
            assert forall|j: int| 0 <= j < plan.len() implies #[trigger] uploads@[j]
                == (f[f.len() - 1 - j], (pos0 + total(plan.take(j))) as usize, plan[j]) by {
                assert(uploads@[j] == (f[f.len() - 1 - j], (pos0 + total(sizes.take(j))) as usize, sizes[j]));
            }
        }
        uploads
    }
}

/// An update keeps the queue's bookkeeping when the player reports no more
/// processed buffers than are queued and the decoded samples do not shrink:
/// played and queued samples still add up to the fill position, every buffer
/// is still free or queued, and each newly queued chunk holds between one
/// sample and a full chunk.
pub proof fn lemma_update_keeps_queue(
    before: FullQueue,
    after: FullQueue,
    processed: Seq<u32>,
    load_before: nat,
    available: usize,
    buffer_count: nat,
)
    requires
        queue_ok(before, load_before, buffer_count),
        load_before <= available,
        processed.len() <= before.queued_sizes@.len(),
        ({
            let q = before.queued_sizes@;
            let k = processed.len() as int;
            let f = before.free_buffers@ + processed;
            let plan = chunk_plan(available as nat, before.playback_position as nat, f.len());
            &&& after.played_samples == before.played_samples + total(q.take(k))
            &&& after.queued_sizes@ == q.skip(k) + plan
            &&& after.playback_position == before.playback_position + total(plan)
            &&& after.free_buffers@ == f.take(f.len() - plan.len())
        }),
    ensures
        queue_ok(after, available as nat, buffer_count),
        forall|j: int| before.queued_sizes@.len() - processed.len() <= j < after.queued_sizes@.len()
            ==> 0 < #[trigger] after.queued_sizes@[j] <= FULL_CHUNK_SAMPLES,
{
    let q = before.queued_sizes@;
    let k = processed.len() as int;
    let f = before.free_buffers@ + processed;
    let pos = before.playback_position as nat;
    let plan = chunk_plan(available as nat, pos, f.len());
    lemma_total_prefix(q, k);
    lemma_chunk_plan_total(available as nat, pos, f.len());
    lemma_total_append(q.skip(k), plan);
    assert forall|j: int| q.len() - k <= j < after.queued_sizes@.len()
        implies 0 < #[trigger] after.queued_sizes@[j] <= FULL_CHUNK_SAMPLES by {
        assert(after.queued_sizes@[j] == plan[j - (q.len() - k)]);
    }
    if plan.len() > f.len() {
        lemma_chunk_plan_len(available as nat, pos, f.len());
    }
    lemma_chunk_plan_len(available as nat, pos, f.len());
}

proof fn lemma_total_append(a: Seq<usize>, b: Seq<usize>)
    ensures
        total(a + b) == total(a) + total(b),
    decreases a.len(),
{
    if a.len() == 0 {
        assert(a + b =~= b);
    } else {
        assert((a + b).drop_first() =~= a.drop_first() + b);
        lemma_total_append(a.drop_first(), b);
    }
}

proof fn lemma_chunk_plan_len(available: nat, pos: nat, free_buffers: nat)
    ensures
        chunk_plan(available, pos, free_buffers).len() <= free_buffers,
    decreases free_buffers,
{
    if free_buffers > 0 && available > pos {
        let remaining = (available - pos) as nat;
        let take: nat = if remaining < FULL_CHUNK_SAMPLES { remaining } else { FULL_CHUNK_SAMPLES as nat };
        lemma_chunk_plan_len(available, pos + take, (free_buffers - 1) as nat);
    }
}

} // verus!

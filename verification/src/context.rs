use vstd::prelude::*;

verus! {

/// The first line shown before a match at index `m`: `before` lines up,
/// or the first line.
pub open spec fn window_start(m: int, before: int) -> int {
    if m >= before {
        m - before
    } else {
        0
    }
}

/// The last line shown after a match at index `m`: `after` lines down, or
/// the last of the `n` lines.
pub open spec fn window_end(m: int, after: int, n: int) -> int {
    if m + after <= n - 1 {
        m + after
    } else {
        n - 1
    }
}

/// Whether line `i` lies in the context window of the match at index `m`.
pub open spec fn in_window(i: int, m: int, before: int, after: int, n: int) -> bool {
    window_start(m, before) <= i <= window_end(m, after, n)
}

/// Whether line `i` lies in the context window of some match of `ms`.
pub open spec fn near_match(i: int, ms: Seq<usize>, before: int, after: int, n: int) -> bool {
    exists|j: int| 0 <= j < ms.len() && #[trigger] in_window(i, ms[j] as int, before, after, n)
}

/// Whether line `i` lies in some block of `bs`.
pub open spec fn in_blocks(i: int, bs: Seq<(usize, usize)>) -> bool {
    exists|k: int| 0 <= k < bs.len() && #[trigger] bs[k].0 <= i && i <= bs[k].1
}

/// Whether the blocks are ranges of the `n` lines, in order, each starting
/// after the previous one ends.
pub open spec fn blocks_separate(bs: Seq<(usize, usize)>, n: int) -> bool {
    &&& forall|k: int| 0 <= k < bs.len() ==> #[trigger] bs[k].0 <= bs[k].1 && bs[k].1 < n
    &&& forall|k1: int, k2: int|
        0 <= k1 < k2 < bs.len() ==> #[trigger] bs[k1].1 < #[trigger] bs[k2].0
}

/// Whether the indices are in strictly increasing order and below `n`.
pub open spec fn ascending_below(ms: Seq<usize>, n: int) -> bool {
    &&& forall|j: int| 0 <= j < ms.len() ==> #[trigger] ms[j] < n
    &&& forall|j1: int, j2: int| 0 <= j1 < j2 < ms.len() ==> #[trigger] ms[j1] < #[trigger] ms[j2]
}

/// The blocks for the matches `ms`, merged from left to right: each
/// window joins the last block when it overlaps it, and starts a new block
/// otherwise.
pub open spec fn merged_blocks(ms: Seq<usize>, before: int, after: int, n: int) -> Seq<(usize, usize)>
    decreases ms.len(),
{
    if ms.len() == 0 {
        seq![]
    } else {
        let prev = merged_blocks(ms.drop_last(), before, after, n);
        let s = window_start(ms.last() as int, before);
        let e = window_end(ms.last() as int, after, n);
        if prev.len() > 0 && s <= prev.last().1 {
            let hi = if e >= prev.last().1 {
                e
            } else {
                prev.last().1 as int
            };
            prev.drop_last().push((prev.last().0, hi as usize))
        } else {
            prev.push((s as usize, e as usize))
        }
    }
}

fn start_of(m: usize, before: usize) -> (r: usize)
    ensures
        r == window_start(m as int, before as int),
{
    if m >= before {
        m - before
    } else {
        0
    }
}

fn end_of(m: usize, after: usize, n: usize) -> (r: usize)
    requires
        m < n,
    ensures
        r == window_end(m as int, after as int, n as int),
{
    if after <= n - 1 - m {
        m + after
    } else {
        n - 1
    }
}

proof fn lemma_near_push(i: int, ms: Seq<usize>, j: int, before: int, after: int, n: int)
    requires
        0 <= j < ms.len(),
    ensures
        near_match(i, ms.take(j + 1), before, after, n) == (near_match(i, ms.take(j), before, after, n)
            || in_window(i, ms[j] as int, before, after, n)),
{
    let a = ms.take(j);
    let b = ms.take(j + 1);
    if near_match(i, b, before, after, n) {
        let w = choose|x: int| 0 <= x < b.len() && #[trigger] in_window(i, b[x] as int, before, after, n);
        if w < j {
            assert(a[w] == b[w]);
            assert(in_window(i, a[w] as int, before, after, n));
        }
    }
    if near_match(i, a, before, after, n) {
        let w = choose|x: int| 0 <= x < a.len() && #[trigger] in_window(i, a[x] as int, before, after, n);
        assert(a[w] == b[w]);
        assert(in_window(i, b[w] as int, before, after, n));
    }
    if in_window(i, ms[j] as int, before, after, n) {
        assert(b[j] == ms[j]);
    }
}

/// The blocks of lines to show around the matches at indices `ms` (in
/// increasing order) of a file of `n` lines: the windows of `before` lines
/// before and `after` lines after each match, where windows that overlap are
/// merged into one block.  A line is in a block exactly when it is near some
/// match, and the blocks come in order without sharing a line.
pub fn context_blocks(ms: &Vec<usize>, n: usize, before: usize, after: usize) -> (bs: Vec<(usize, usize)>)
    requires
        ascending_below(ms@, n as int),
    ensures
        bs@ == merged_blocks(ms@, before as int, after as int, n as int),
        blocks_separate(bs@, n as int),
        forall|i: int| in_blocks(i, bs@) <==> near_match(i, ms@, before as int, after as int, n as int),
{
    let ghost b = before as int;
    let ghost a = after as int;
    let ghost nn = n as int;
    let mut bs: Vec<(usize, usize)> = Vec::new();
    if ms.len() == 0 {
        assert(bs@ =~= merged_blocks(ms@, b, a, nn));
        assert forall|i: int| in_blocks(i, bs@) <==> near_match(i, ms@, b, a, nn) by {}
        return bs;
    }
    let mut cur_s = start_of(ms[0], before);
    let mut cur_e = end_of(ms[0], after, n);
    proof {
        assert(bs@.push((cur_s, cur_e)) =~= merged_blocks(ms@.take(1), b, a, nn)) by {
            assert(ms@.take(1).drop_last() =~= Seq::<usize>::empty());
            assert(merged_blocks(Seq::<usize>::empty(), b, a, nn) =~= Seq::<(usize, usize)>::empty());
            assert(ms@.take(1).last() == ms@[0]);
        }
        assert forall|i: int| (in_blocks(i, bs@) || (cur_s <= i <= cur_e)) <==> near_match(i, ms@.take(1), b, a, nn) by {
            lemma_near_push(i, ms@, 0, b, a, nn);
            assert(!near_match(i, ms@.take(0), b, a, nn));
        }
    }
    let mut j: usize = 1;
    while j < ms.len()
        invariant
            1 <= j <= ms@.len(),
            ascending_below(ms@, nn),
            b == before as int,
            a == after as int,
            nn == n as int,
            cur_s <= cur_e < n,
            cur_e == window_end(ms@[j - 1] as int, a, nn),
            cur_s <= window_start(ms@[j - 1] as int, b),
            blocks_separate(bs@, nn),
            forall|k: int| 0 <= k < bs@.len() ==> #[trigger] bs@[k].1 < cur_s,
            bs@.push((cur_s, cur_e)) == merged_blocks(ms@.take(j as int), b, a, nn),
            forall|i: int| (in_blocks(i, bs@) || (cur_s <= i <= cur_e)) <==> near_match(i, ms@.take(j as int), b, a, nn),
        decreases ms@.len() - j,
    {
        let m = ms[j];
        assert(ms@[j - 1] < ms@[j as int]);
        let s = start_of(m, before);
        let e = end_of(m, after, n);
        let ghost old_bs = bs@;
        let ghost old_s = cur_s as int;
        let ghost old_e = cur_e as int;
        let ghost next_j = j + 1;
        proof {
            assert(ms@.take(next_j).drop_last() =~= ms@.take(j as int));
            assert(ms@.take(next_j).last() == m);
            assert(window_start(ms@[j - 1] as int, b) <= window_start(m as int, b));
            assert(window_end(ms@[j - 1] as int, a, nn) <= window_end(m as int, a, nn));
            assert forall|i: int| #![trigger near_match(i, ms@.take(j as int), b, a, nn)]
                (in_blocks(i, old_bs) || (old_s <= i <= old_e)) <==> near_match(i, ms@.take(j as int), b, a, nn) by {
                assert((in_blocks(i, bs@) || (cur_s <= i <= cur_e)) <==> near_match(i, ms@.take(j as int), b, a, nn));
            }
        }
        if s <= cur_e {
            cur_e = e;
            proof {
                assert(bs@.push((cur_s, cur_e)) =~= merged_blocks(ms@.take(next_j), b, a, nn)) by {
                    assert(old_bs.push((old_s as usize, old_e as usize)) == merged_blocks(ms@.take(j as int), b, a, nn));
                }
                assert forall|i: int| (in_blocks(i, bs@) || (cur_s <= i <= cur_e)) <==> near_match(i, ms@.take(next_j), b, a, nn) by {
                    lemma_near_push(i, ms@, j as int, b, a, nn);
                    assert((in_blocks(i, old_bs) || (old_s <= i <= old_e)) <==> near_match(i, ms@.take(j as int), b, a, nn));
                    assert(in_window(i, m as int, b, a, nn) <==> (s <= i <= e));
                }
            }
        } else {
            bs.push((cur_s, cur_e));
            proof {
                assert(bs@ == old_bs.push((cur_s, cur_e)));
                assert forall|k: int| 0 <= k < bs@.len() implies #[trigger] bs@[k].0 <= bs@[k].1 && bs@[k].1 < nn by {
                    if k < old_bs.len() {
                        assert(bs@[k] == old_bs[k]);
                    }
                }
                assert forall|k1: int, k2: int| 0 <= k1 < k2 < bs@.len() implies #[trigger] bs@[k1].1 < #[trigger] bs@[k2].0 by {
                    assert(bs@[k1] == old_bs[k1]);
                    if k2 < old_bs.len() {
                        assert(bs@[k2] == old_bs[k2]);
                    }
                }
                assert forall|k: int| 0 <= k < bs@.len() implies #[trigger] bs@[k].1 < s by {
                    if k < old_bs.len() {
                        assert(bs@[k] == old_bs[k]);
                    }
                }
                assert forall|i: int| in_blocks(i, bs@) <==> (in_blocks(i, old_bs) || (old_s <= i <= old_e)) by {
                    if in_blocks(i, bs@) {
                        let k = choose|k: int| 0 <= k < bs@.len() && #[trigger] bs@[k].0 <= i && i <= bs@[k].1;
                        if k < old_bs.len() {
                            assert(bs@[k] == old_bs[k]);
                        }
                    }
                    if in_blocks(i, old_bs) {
                        let k = choose|k: int| 0 <= k < old_bs.len() && #[trigger] old_bs[k].0 <= i && i <= old_bs[k].1;
                        assert(bs@[k] == old_bs[k]);
                    }
                    if old_s <= i <= old_e {
                        let k = old_bs.len() as int;
                        assert(bs@[k].0 <= i && i <= bs@[k].1);
                    }
                }
            }
            cur_s = s;
            cur_e = e;
            proof {
                assert(bs@.push((cur_s, cur_e)) =~= merged_blocks(ms@.take(next_j), b, a, nn)) by {
                    assert(old_bs.push((old_s as usize, old_e as usize)) == merged_blocks(ms@.take(j as int), b, a, nn));
                }
                assert forall|i: int| (in_blocks(i, bs@) || (cur_s <= i <= cur_e)) <==> near_match(i, ms@.take(next_j), b, a, nn) by {
                    lemma_near_push(i, ms@, j as int, b, a, nn);
                    assert(in_blocks(i, bs@) <==> (in_blocks(i, old_bs) || (old_s <= i <= old_e)));
                    assert((in_blocks(i, old_bs) || (old_s <= i <= old_e)) <==> near_match(i, ms@.take(j as int), b, a, nn));
                    assert(in_window(i, m as int, b, a, nn) <==> (s <= i <= e));
                }
            }
        }
        assert(forall|i: int| (in_blocks(i, bs@) || (cur_s <= i <= cur_e)) <==> near_match(i, ms@.take(next_j), b, a, nn));
        j = j + 1;
        assert(j as int == next_j);
    }
    let ghost old_bs = bs@;
    bs.push((cur_s, cur_e));
    proof {
        assert(bs@ == old_bs.push((cur_s, cur_e)));
        assert(ms@.take(ms@.len() as int) =~= ms@);
        assert(bs@ == merged_blocks(ms@, b, a, nn));
        assert forall|k: int| 0 <= k < bs@.len() implies #[trigger] bs@[k].0 <= bs@[k].1 && bs@[k].1 < nn by {
            if k < old_bs.len() {
                assert(bs@[k] == old_bs[k]);
            }
        }
        assert forall|k1: int, k2: int| 0 <= k1 < k2 < bs@.len() implies #[trigger] bs@[k1].1 < #[trigger] bs@[k2].0 by {
            assert(bs@[k1] == old_bs[k1]);
            if k2 < old_bs.len() {
                assert(bs@[k2] == old_bs[k2]);
            }
        }
        assert forall|i: int| in_blocks(i, bs@) <==> near_match(i, ms@, b, a, nn) by {
            if in_blocks(i, bs@) {
                let k = choose|k: int| 0 <= k < bs@.len() && #[trigger] bs@[k].0 <= i && i <= bs@[k].1;
                if k < old_bs.len() {
                    assert(bs@[k] == old_bs[k]);
                }
            }
            if in_blocks(i, old_bs) {
                let k = choose|k: int| 0 <= k < old_bs.len() && #[trigger] old_bs[k].0 <= i && i <= old_bs[k].1;
                assert(bs@[k] == old_bs[k]);
            }
            if cur_s <= i <= cur_e {
                let k = old_bs.len() as int;
                assert(bs@[k].0 <= i && i <= bs@[k].1);
            }
            assert((in_blocks(i, old_bs) || (cur_s <= i <= cur_e)) <==> near_match(i, ms@.take(ms@.len() as int), b, a, nn));
        }
    }
    bs
}

} // verus!

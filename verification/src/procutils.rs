//! Partitioning of the pixel buffer into contiguous, non-overlapping index
//! ranges: fixed-count chunks for the thread-count modes, and repeated
//! midpoint bisection for the extreme mode.

use vstd::prelude::*;

use vstd::arithmetic::power2::pow2;

verus! {

/// The ranges are well-formed, contiguous, in order, and cover `0..len`.
pub open spec fn ranges_ok(rs: Seq<(usize, usize)>, len: int) -> bool {
    &&& forall|j: int| 0 <= j < rs.len() ==> (#[trigger] rs[j]).0 <= rs[j].1 <= len
    &&& (rs.len() == 0 ==> len == 0)
    &&& (rs.len() > 0 ==> rs[0].0 == 0 && rs[rs.len() - 1].1 == len)
    &&& forall|j: int| 0 <= j < rs.len() - 1 ==> (#[trigger] rs[j]).1 == rs[j + 1].0
}


/// The midpoint of an index range.
pub open spec fn mid_of(r: (usize, usize)) -> usize {
    #[verifier::truncate] ((r.0 + (r.1 - r.0) / 2) as usize)
}

/// The left half of a range: up to the midpoint.
pub open spec fn left_half(r: (usize, usize)) -> (usize, usize) {
    (r.0, mid_of(r))
}

/// The right half of a range: from the midpoint on.
pub open spec fn right_half(r: (usize, usize)) -> (usize, usize) {
    (mid_of(r), r.1)
}

/// Split every range of a sequence at its midpoint, both halves in place.
pub open spec fn split_all(s: Seq<(usize, usize)>) -> Seq<(usize, usize)> {
    Seq::new(
        2 * s.len(),
        |i: int|
            if i % 2 == 0 {
                left_half(s[i / 2])
            } else {
                right_half(s[i / 2])
            },
    )
}

/// The ranges reached from `r` by `times` rounds of midpoint bisection,
/// left to right.
pub open spec fn bisect(r: (usize, usize), times: nat) -> Seq<(usize, usize)>
    decreases times,
{
    if times == 0 {
        seq![r]
    } else {
        bisect(left_half(r), (times - 1) as nat) + bisect(right_half(r), (times - 1) as nat)
    }
}

/// Splitting every range of a concatenation splits each part.
proof fn lemma_split_all_add(a: Seq<(usize, usize)>, b: Seq<(usize, usize)>)
    ensures
        split_all(a + b) == split_all(a) + split_all(b),
{
    assert forall|i: int| 0 <= i < 2 * (a + b).len() implies split_all(a + b)[i] == (split_all(a)
        + split_all(b))[i] by {
        vstd::arithmetic::div_mod::lemma_fundamental_div_mod(i, 2);
        if i < 2 * a.len() {
            assert((a + b)[i / 2] == a[i / 2]);
        } else {
            let j = i - 2 * a.len();
            vstd::arithmetic::div_mod::lemma_fundamental_div_mod_converse(
                j,
                2,
                i / 2 - a.len(),
                i % 2,
            );
            assert(j / 2 == i / 2 - a.len() && j % 2 == i % 2);
            assert((a + b)[i / 2] == b[j / 2]);
        }
    }
    assert(split_all(a + b) =~= split_all(a) + split_all(b));
}

/// One more round of bisection splits every range of the previous round.
proof fn lemma_bisect_unfold(r: (usize, usize), t: nat)
    ensures
        bisect(r, (t + 1) as nat) == split_all(bisect(r, t)),
    decreases t,
{
    if t == 0 {
        assert(bisect(left_half(r), 0) =~= seq![left_half(r)]);
        assert(bisect(right_half(r), 0) =~= seq![right_half(r)]);
        assert(bisect(r, 0) =~= seq![r]);
        assert(bisect(r, 1) =~= seq![left_half(r)] + seq![right_half(r)]);
        assert(split_all(seq![r]) =~= seq![left_half(r)] + seq![right_half(r)]);
        assert(bisect(r, 1) =~= split_all(bisect(r, 0)));
    } else {
        let lh = left_half(r);
        let rh = right_half(r);
        lemma_bisect_unfold(lh, (t - 1) as nat);
        lemma_bisect_unfold(rh, (t - 1) as nat);
        lemma_split_all_add(bisect(lh, (t - 1) as nat), bisect(rh, (t - 1) as nat));
    }
}

/// Split one index range at its midpoint and push both halves, left first.
pub fn split_and_push(r: (usize, usize), vec: &mut Vec<(usize, usize)>)
    requires
        r.0 <= r.1,
    ensures
        final(vec)@.len() == old(vec)@.len() + 2,
        forall|t: int| 0 <= t < old(vec)@.len() ==> final(vec)@[t] == old(vec)@[t],
        final(vec)@[old(vec)@.len() as int].0 == r.0,
        final(vec)@[old(vec)@.len() as int].1 == r.0 + (r.1 - r.0) / 2,
        final(vec)@.last().0 == r.0 + (r.1 - r.0) / 2,
        final(vec)@.last().1 == r.1,
{
    let mid = r.0 + (r.1 - r.0) / 2;
    vec.push((r.0, mid));
    vec.push((mid, r.1));
}

/// Subdivide `0..len` by `times` rounds of midpoint bisection, yielding
/// `2^times` contiguous chunks in index order.
pub fn subdivide(len: usize, times: usize) -> (r: Vec<(usize, usize)>)
    ensures
        ranges_ok(r@, len as int),
        r@.len() == pow2(times as nat),
        r@ == bisect((0, len), times as nat),
{
    let mut parts: Vec<(usize, usize)> = Vec::new();
    parts.push((0, len));
    proof {
        vstd::arithmetic::power2::lemma2_to64();
        assert(parts@.len() == pow2(0));
        assert(parts@ =~= bisect((0, len), 0));
    }
    let mut round: usize = 0;
    while round < times
        invariant
            round <= times,
            parts@.len() == pow2(round as nat),
            parts@.len() >= 1,
            ranges_ok(parts@, len as int),
            parts@ == bisect((0, len), round as nat),
        decreases times - round,
    {
        let l = parts.len();
        let mut next: Vec<(usize, usize)> = Vec::new();
        let mut idx: usize = 0;
        while idx < l
            invariant
                idx <= l == parts@.len(),
                ranges_ok(parts@, len as int),
                parts@ == bisect((0, len), round as nat),
                next@.len() == 2 * idx,
                forall|u: int|
                    0 <= u < idx ==> {
                        &&& (#[trigger] next@[2 * u]).0 == parts@[u].0
                        &&& next@[2 * u].1 == next@[2 * u + 1].0
                        &&& next@[2 * u + 1].1 == parts@[u].1
                        &&& parts@[u].0 <= next@[2 * u].1 <= parts@[u].1
                    },
                forall|u: int| 0 <= u < 2 * idx ==> #[trigger] next@[u] == split_all(parts@)[u],
            decreases l - idx,
        {
            let pr = parts[idx];
            split_and_push(pr, &mut next);
            proof {
                let i2: int = 2 * (idx as int);
                vstd::arithmetic::div_mod::lemma_fundamental_div_mod_converse(i2, 2, idx as int, 0);
                vstd::arithmetic::div_mod::lemma_fundamental_div_mod_converse(
                    i2 + 1,
                    2,
                    idx as int,
                    1,
                );
                assert(parts@[idx as int].0 <= parts@[idx as int].1 <= len);
                assert(mid_of(pr) == pr.0 + (pr.1 - pr.0) / 2);
                assert(next@[i2].0 == left_half(pr).0 && next@[i2].1 == left_half(pr).1);
                assert(next@[i2 + 1].0 == right_half(pr).0 && next@[i2 + 1].1 == right_half(
                    pr,
                ).1);
                assert(split_all(parts@)[i2] == left_half(pr));
                assert(split_all(parts@)[i2 + 1] == right_half(pr));
            }
            idx += 1;
        }
        proof {
            assert(ranges_ok(next@, len as int)) by {
                assert forall|j: int| 0 <= j < next@.len() implies (#[trigger] next@[j]).0
                    <= next@[j].1 <= len by {
                    let u = j / 2;
                    assert(next@[2 * u].0 == parts@[u].0);
                }
                if next@.len() > 0 {
                    let u0: int = 0;
                    assert(next@[2 * u0].0 == parts@[u0].0);
                    let ul: int = l - 1;
                    assert(next@[2 * ul].0 == parts@[ul].0);
                    assert(next@[2 * ul + 1].1 == parts@[ul].1);
                }
                assert forall|j: int| 0 <= j < next@.len() - 1 implies (#[trigger] next@[j]).1
                    == next@[j + 1].0 by {
                    let u = j / 2;
                    if j == 2 * u {
                        assert(next@[2 * u].1 == next@[2 * u + 1].0);
                    } else {
                        assert(j == 2 * u + 1);
                        assert(next@[2 * u].0 == parts@[u].0);
                        assert(next@[2 * u + 1].1 == parts@[u].1);
                        assert((parts@[u]).1 == (parts@[u + 1]).0);
                        assert(next@[2 * (u + 1)].0 == parts@[u + 1].0);
                    }
                }
            }
            assert(2 * pow2(round as nat) == pow2((round + 1) as nat)) by {
                vstd::arithmetic::power2::lemma_pow2_unfold((round + 1) as nat);
            }
            assert(next@ =~= split_all(parts@));
            lemma_bisect_unfold((0, len), round as nat);
            assert(next@ == bisect((0, len), (round + 1) as nat));
        }
        parts = next;
        round += 1;
    }
    parts
}

/// Split `0..len` into `n` contiguous chunks: the first `n - 1` of size
/// `len / n`, with the remainder left in the last chunk.
pub fn partition(len: usize, n: usize) -> (r: Vec<(usize, usize)>)
    requires
        1 <= n,
    ensures
        ranges_ok(r@, len as int),
        r@.len() == n,
        forall|j: int| 0 <= j < n - 1 ==> (#[trigger] r@[j]).1 - r@[j].0 == len / n,
{
    let size = len / n;
    proof {
        vstd::arithmetic::div_mod::lemma_fundamental_div_mod(len as int, n as int);
        assert(n * size <= len) by (nonlinear_arith)
            requires
                len == n * (len / n) + len % n,
                size == len / n,
                len % n >= 0,
        ;
    }
    let mut v: Vec<(usize, usize)> = Vec::new();
    let mut start: usize = 0;
    let mut j: usize = 0;
    while j < n - 1
        invariant
            1 <= n,
            j <= n - 1,
            size == len / n,
            n * size <= len,
            v@.len() == j,
            start == j * size,
            start <= len,
            forall|t: int|
                0 <= t < j ==> (#[trigger] v@[t]).0 == t * size && v@[t].1 == (t + 1) * size,
        decreases n - 1 - j,
    {
        proof {
            assert((j + 1) * size <= n * size) by (nonlinear_arith)
                requires
                    j + 1 <= n,
                    size >= 0,
            ;
            assert((j + 1) * size == j * size + size) by (nonlinear_arith);
        }
        v.push((start, start + size));
        start += size;
        j += 1;
    }
    v.push((start, len));
    proof {
        assert((n - 1) * size <= n * size) by (nonlinear_arith)
            requires
                size >= 0,
                n >= 1,
        ;
        assert(ranges_ok(v@, len as int)) by {
            assert forall|t: int| 0 <= t < v@.len() implies (#[trigger] v@[t]).0 <= v@[t].1
                <= len by {
                if t < n - 1 {
                    assert(v@[t].0 == t * size && v@[t].1 == (t + 1) * size);
                    assert(t * size <= (t + 1) * size && (t + 1) * size <= n * size)
                        by (nonlinear_arith)
                        requires
                            0 <= t < n,
                            size >= 0,
                    ;
                } else {
                    assert(v@[t].0 == start && v@[t].1 == len);
                }
            }
            assert(v@[0].0 == 0);
            assert forall|t: int| 0 <= t < v@.len() - 1 implies (#[trigger] v@[t]).1 == v@[t
                + 1].0 by {
                assert(v@[t].1 == (t + 1) * size);
                if t + 1 < n - 1 {
                    assert(v@[t + 1].0 == (t + 1) * size);
                }
            }
        }
        assert forall|t: int| 0 <= t < n - 1 implies (#[trigger] v@[t]).1 - v@[t].0 == len
            / n by {
            assert((t + 1) * size == t * size + size) by (nonlinear_arith);
        }
    }
    v
}

} // verus!

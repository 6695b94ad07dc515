//! The mapping strategies: nearest-neighbor distance, double-pass nearest,
//! signed "creative" rating, k-nearest-neighbor classification, and a
//! hardcoded manual override table.

use vstd::prelude::*;

use crate::Mapper;
use crate::palette::{
    Rgbx, ColorClass, man_dist, diff_rating_spec, rgba_seq, data_set_seq, base_colors,
    find_closest, first_min_px_at, man_dist_px, euclid_dist2, class_weight, syn_data_seq,
    syn_data_set,
};

verus! {

/// Index `i` is the first palette index attaining the minimum Manhattan
/// distance to the pixel: no entry is strictly closer, and every earlier
/// entry is strictly farther.
pub open spec fn first_min_man_at(palette: Seq<Rgbx>, px: Seq<u8>, i: int) -> bool {
    &&& 0 <= i < palette.len()
    &&& forall|j: int|
        0 <= j < palette.len() ==> man_dist(palette[i], px) <= man_dist(
            #[trigger] palette[j],
            px,
        )
    &&& forall|j: int| 0 <= j < i ==> man_dist(#[trigger] palette[j], px) > man_dist(palette[i], px)
}

/// The first palette index attaining the minimum Manhattan distance is
/// unique.
pub proof fn lemma_first_min_man_unique(palette: Seq<Rgbx>, px: Seq<u8>, i: int, j: int)
    requires
        first_min_man_at(palette, px, i),
        first_min_man_at(palette, px, j),
    ensures
        i == j,
{
    if i < j {
        assert(man_dist(palette[i], px) > man_dist(palette[j], px));
        assert(man_dist(palette[j], px) >= man_dist(palette[i], px));
    } else if j < i {
        assert(man_dist(palette[j], px) > man_dist(palette[i], px));
        assert(man_dist(palette[i], px) >= man_dist(palette[j], px));
    }
}

/// Every non-empty palette has a first index of minimum Manhattan distance.
pub proof fn lemma_first_min_man_exists(palette: Seq<Rgbx>, px: Seq<u8>)
    requires
        palette.len() >= 1,
    ensures
        exists|i: int| first_min_man_at(palette, px, i),
{
    lemma_first_min_man_prefix(palette, px, palette.len() as int);
    let i = choose|i: int|
        #[trigger] first_min_man_prefix_at(palette, px, palette.len() as int, i);
    assert(first_min_man_at(palette, px, i));
}

/// Helper for the existence proof: the prefix of length `n` has a first
/// minimal index.
proof fn lemma_first_min_man_prefix(palette: Seq<Rgbx>, px: Seq<u8>, n: int)
    requires
        1 <= n <= palette.len(),
    ensures
        exists|i: int| first_min_man_prefix_at(palette, px, n, i),
    decreases n,
{
    if n == 1 {
        assert(first_min_man_prefix_at(palette, px, 1, 0));
    } else {
        lemma_first_min_man_prefix(palette, px, n - 1);
        let i = choose|i: int| #[trigger] first_min_man_prefix_at(palette, px, n - 1, i);
        if man_dist(palette[n - 1], px) < man_dist(palette[i], px) {
            assert(first_min_man_prefix_at(palette, px, n, n - 1));
        } else {
            assert(first_min_man_prefix_at(palette, px, n, i));
        }
    }
}

/// Index `i` is the first index of minimum Manhattan distance among the
/// first `n` palette entries.
pub open spec fn first_min_man_prefix_at(palette: Seq<Rgbx>, px: Seq<u8>, n: int, i: int) -> bool {
    &&& 0 <= i < n <= palette.len()
    &&& forall|j: int| 0 <= j < n ==> man_dist(palette[i], px) <= man_dist(#[trigger] palette[j], px)
    &&& forall|j: int| 0 <= j < i ==> man_dist(#[trigger] palette[j], px) > man_dist(palette[i], px)
}

/// Scan for the first palette index of minimum Manhattan distance, ties
/// broken by the stable iteration order of the palette.
fn min_man_index(palette: &[Rgbx], pixel: &[u8; 4]) -> (best: usize)
    requires
        palette@.len() >= 1,
    ensures
        first_min_man_at(palette@, pixel@, best as int),
{
    let mut best: usize = 0;
    let mut bestd: u16 = palette[0].manhattan_dist(pixel);
    let n = palette.len();
    let mut j: usize = 1;
    while j < n
        invariant
            1 <= j <= n == palette@.len(),
            best < j,
            bestd == man_dist(palette@[best as int], pixel@),
            forall|t: int| 0 <= t < j ==> bestd <= man_dist(#[trigger] palette@[t], pixel@),
            forall|t: int| 0 <= t < best ==> man_dist(#[trigger] palette@[t], pixel@) > bestd,
        decreases n - j,
    {
        let d = palette[j].manhattan_dist(pixel);
        if d < bestd {
            best = j;
            bestd = d;
        }
        j += 1;
    }
    best
}

/// Nearest-neighbor strategy: the palette entry of minimum Manhattan
/// distance, ties broken by the first-encountered entry.
#[derive(Debug, Clone)]
pub struct Nearest;

/// What `Nearest` returns: the RGBA bytes of the first palette entry of
/// minimum Manhattan distance to the pixel.
pub open spec fn nearest_predicts(palette: Seq<Rgbx>, px: Seq<u8>, r: Seq<u8>) -> bool {
    exists|i: int| #[trigger] first_min_man_at(palette, px, i) && r == rgba_seq(palette[i])
}

impl Mapper for Nearest {
    open spec fn req(&self, palette: Seq<Rgbx>) -> bool {
        palette.len() >= 1
    }

    open spec fn inv(&self, palette: Seq<Rgbx>) -> bool {
        true
    }

    open spec fn shareable(&self) -> bool {
        true
    }

    open spec fn predicts(&self, palette: Seq<Rgbx>, px: Seq<u8>, r: Seq<u8>) -> bool {
        nearest_predicts(palette, px, r)
    }

    fn req_check(&self, palette: &[Rgbx]) -> (b: bool) {
        palette.len() >= 1
    }

    fn is_shareable(&self) -> (b: bool) {
        true
    }

    fn predict(&mut self, palette: &[Rgbx], pixel: &[u8; 4]) -> (r: [u8; 4]) {
        self.predict_shared(palette, pixel)
    }

    fn predict_shared(&self, palette: &[Rgbx], pixel: &[u8; 4]) -> (r: [u8; 4]) {
        let i = min_man_index(palette, pixel);
        palette[i].rgba_array()
    }
}

/// Index `b` is the first entry of the coarse base-color table at minimum
/// Manhattan distance from the pixel.
pub open spec fn first_min_base_at(px: Seq<u8>, b: int) -> bool {
    &&& 0 <= b < data_set_seq().len()
    &&& forall|j: int|
        0 <= j < data_set_seq().len() ==> man_dist(data_set_seq()[b], px) <= man_dist(
            #[trigger] data_set_seq()[j],
            px,
        )
    &&& forall|j: int|
        0 <= j < b ==> man_dist(#[trigger] data_set_seq()[j], px) > man_dist(
            data_set_seq()[b],
            px,
        )
}

/// What `NearestDoublePass` returns: the pixel is first quantized to the
/// nearest color of the coarse base table, and the palette entry nearest to
/// that intermediate color (not to the original pixel) wins.
pub open spec fn double_pass_predicts(palette: Seq<Rgbx>, px: Seq<u8>, r: Seq<u8>) -> bool {
    exists|b: int, i: int|
        #![trigger first_min_base_at(px, b), first_min_man_at(palette, rgba_seq(data_set_seq()[b]), i)]
        {
            &&& first_min_base_at(px, b)
            &&& first_min_man_at(palette, rgba_seq(data_set_seq()[b]), i)
            &&& r == rgba_seq(palette[i])
        }
}

/// Double-pass nearest strategy: coarse quantization against the fixed
/// base-color table, then a nearest match of the intermediate color against
/// the target palette.
#[derive(Debug, Clone)]
pub struct NearestDoublePass;

impl Mapper for NearestDoublePass {
    open spec fn req(&self, palette: Seq<Rgbx>) -> bool {
        palette.len() >= 1
    }

    open spec fn inv(&self, palette: Seq<Rgbx>) -> bool {
        true
    }

    open spec fn shareable(&self) -> bool {
        true
    }

    open spec fn predicts(&self, palette: Seq<Rgbx>, px: Seq<u8>, r: Seq<u8>) -> bool {
        double_pass_predicts(palette, px, r)
    }

    fn req_check(&self, palette: &[Rgbx]) -> (b: bool) {
        palette.len() >= 1
    }

    fn is_shareable(&self) -> (b: bool) {
        true
    }

    fn predict(&mut self, palette: &[Rgbx], pixel: &[u8; 4]) -> (r: [u8; 4]) {
        self.predict_shared(palette, pixel)
    }

    fn predict_shared(&self, palette: &[Rgbx], pixel: &[u8; 4]) -> (r: [u8; 4]) {
        let bc = base_colors();
        proof {
            assert(data_set_seq().len() >= 1);
        }
        let basic = find_closest(bc.as_slice(), pixel);
        proof {
            assert forall|j: int| 0 <= j < bc@.len() implies man_dist_px(
                #[trigger] bc@[j]@,
                pixel@,
            ) == man_dist(data_set_seq()[j], pixel@) by {
                assert(bc@[j]@ == rgba_seq(data_set_seq()[j]));
            }
            let b = choose|b: int| #[trigger] first_min_px_at(bc@, pixel@, b) && basic == bc@[b];
            assert(first_min_base_at(pixel@, b));
            assert(basic@ == rgba_seq(data_set_seq()[b]));
        }
        let i = min_man_index(palette, &basic);
        proof {
            let b = choose|b: int| #[trigger] first_min_base_at(pixel@, b) && basic@ == rgba_seq(
                data_set_seq()[b],
            );
            assert(first_min_man_at(palette@, rgba_seq(data_set_seq()[b]), i as int));
        }
        palette[i].rgba_array()
    }
}

/// Some palette entry rates the pixel non-negatively.
pub open spec fn has_nonneg(palette: Seq<Rgbx>, px: Seq<u8>) -> bool {
    exists|j: int| 0 <= j < palette.len() && diff_rating_spec(#[trigger] palette[j], px) >= 0
}

/// Some palette entry rates the pixel non-positively.
pub open spec fn has_nonpos(palette: Seq<Rgbx>, px: Seq<u8>) -> bool {
    exists|j: int| 0 <= j < palette.len() && diff_rating_spec(#[trigger] palette[j], px) <= 0
}

/// Index `i` is the first palette index attaining the minimum rating among
/// entries with non-negative rating.
pub open spec fn first_min_nonneg_at(palette: Seq<Rgbx>, px: Seq<u8>, i: int) -> bool {
    &&& 0 <= i < palette.len()
    &&& diff_rating_spec(palette[i], px) >= 0
    &&& forall|j: int|
        0 <= j < palette.len() && diff_rating_spec(#[trigger] palette[j], px) >= 0
            ==> diff_rating_spec(palette[i], px) <= diff_rating_spec(palette[j], px)
    &&& forall|j: int|
        0 <= j < i && diff_rating_spec(#[trigger] palette[j], px) >= 0 ==> diff_rating_spec(
            palette[j],
            px,
        ) > diff_rating_spec(palette[i], px)
}

/// Index `i` is the last palette index attaining the maximum rating among
/// entries with non-positive rating.
pub open spec fn last_max_nonpos_at(palette: Seq<Rgbx>, px: Seq<u8>, i: int) -> bool {
    &&& 0 <= i < palette.len()
    &&& diff_rating_spec(palette[i], px) <= 0
    &&& forall|j: int|
        0 <= j < palette.len() && diff_rating_spec(#[trigger] palette[j], px) <= 0
            ==> diff_rating_spec(palette[j], px) <= diff_rating_spec(palette[i], px)
    &&& forall|j: int|
        i < j < palette.len() && diff_rating_spec(#[trigger] palette[j], px) <= 0
            ==> diff_rating_spec(palette[j], px) < diff_rating_spec(palette[i], px)
}

/// What `Creative` returns. Among entries rating the pixel non-negatively
/// the minimum wins; among entries rating it non-positively the maximum
/// (least negative) wins; the negated non-positive champion beats the
/// non-negative champion only when strictly smaller. If only one side has
/// candidates it wins unconditionally; with no candidates at all (an empty
/// palette) the pixel passes through unchanged.
pub open spec fn creative_predicts(palette: Seq<Rgbx>, px: Seq<u8>, r: Seq<u8>) -> bool {
    if !has_nonneg(palette, px) && !has_nonpos(palette, px) {
        r == px
    } else if has_nonneg(palette, px) && has_nonpos(palette, px) {
        exists|pi: int, ni: int|
            #![trigger first_min_nonneg_at(palette, px, pi), last_max_nonpos_at(palette, px, ni)]
            {
                &&& first_min_nonneg_at(palette, px, pi)
                &&& last_max_nonpos_at(palette, px, ni)
                &&& r == (if -diff_rating_spec(palette[ni], px) < diff_rating_spec(
                    palette[pi],
                    px,
                ) {
                    rgba_seq(palette[ni])
                } else {
                    rgba_seq(palette[pi])
                })
            }
    } else if has_nonneg(palette, px) {
        exists|pi: int|
            #[trigger] first_min_nonneg_at(palette, px, pi) && r == rgba_seq(palette[pi])
    } else {
        exists|ni: int| #[trigger] last_max_nonpos_at(palette, px, ni) && r == rgba_seq(palette[ni])
    }
}

/// Creative strategy: picks the palette entry whose signed directional
/// rating is closest to zero, preferring the non-negative side on ties.
#[derive(Debug, Clone)]
pub struct Creative;

impl Mapper for Creative {
    open spec fn req(&self, palette: Seq<Rgbx>) -> bool {
        true
    }

    open spec fn inv(&self, palette: Seq<Rgbx>) -> bool {
        true
    }

    open spec fn shareable(&self) -> bool {
        true
    }

    open spec fn predicts(&self, palette: Seq<Rgbx>, px: Seq<u8>, r: Seq<u8>) -> bool {
        creative_predicts(palette, px, r)
    }

    fn req_check(&self, palette: &[Rgbx]) -> (b: bool) {
        true
    }

    fn is_shareable(&self) -> (b: bool) {
        true
    }

    fn predict(&mut self, palette: &[Rgbx], pixel: &[u8; 4]) -> (r: [u8; 4]) {
        self.predict_shared(palette, pixel)
    }

    fn predict_shared(&self, palette: &[Rgbx], pixel: &[u8; 4]) -> (r: [u8; 4]) {
        let n = palette.len();
        let mut pos: Option<(usize, i16)> = None;
        let mut neg: Option<(usize, i16)> = None;
        let mut j: usize = 0;
        while j < n
            invariant
                j <= n == palette@.len(),
                pos is None ==> forall|t: int|
                    0 <= t < j ==> diff_rating_spec(#[trigger] palette@[t], pixel@) < 0,
                pos matches Some(p) ==> {
                    &&& p.0 < j
                    &&& p.1 == diff_rating_spec(palette@[p.0 as int], pixel@)
                    &&& p.1 >= 0
                    &&& forall|t: int|
                        0 <= t < j && diff_rating_spec(#[trigger] palette@[t], pixel@) >= 0
                            ==> p.1 <= diff_rating_spec(palette@[t], pixel@)
                    &&& forall|t: int|
                        0 <= t < p.0 && diff_rating_spec(#[trigger] palette@[t], pixel@) >= 0
                            ==> diff_rating_spec(palette@[t], pixel@) > p.1
                },
                neg is None ==> forall|t: int|
                    0 <= t < j ==> diff_rating_spec(#[trigger] palette@[t], pixel@) > 0,
                neg matches Some(q) ==> {
                    &&& q.0 < j
                    &&& q.1 == diff_rating_spec(palette@[q.0 as int], pixel@)
                    &&& q.1 <= 0
                    &&& forall|t: int|
                        0 <= t < j && diff_rating_spec(#[trigger] palette@[t], pixel@) <= 0
                            ==> diff_rating_spec(palette@[t], pixel@) <= q.1
                    &&& forall|t: int|
                        q.0 < t < j && diff_rating_spec(#[trigger] palette@[t], pixel@) <= 0
                            ==> diff_rating_spec(palette@[t], pixel@) < q.1
                },
            decreases n - j,
        {
            let d = palette[j].diff_rating(pixel);
            if d >= 0 {
                match pos {
                    None => { pos = Some((j, d)); },
                    Some((_, pd)) => {
                        if d < pd {
                            pos = Some((j, d));
                        }
                    },
                }
            }
            if d <= 0 {
                match neg {
                    None => { neg = Some((j, d)); },
                    Some((_, nd)) => {
                        if d >= nd {
                            neg = Some((j, d));
                        }
                    },
                }
            }
            j += 1;
        }
        match (pos, neg) {
            (None, None) => *pixel,
            (Some((pi, pd)), Some((ni, nd))) => {
                proof {
                    assert(first_min_nonneg_at(palette@, pixel@, pi as int));
                    assert(last_max_nonpos_at(palette@, pixel@, ni as int));
                }
                if -nd < pd {
                    palette[ni].rgba_array()
                } else {
                    palette[pi].rgba_array()
                }
            },
            (Some((pi, _)), None) => {
                proof {
                    assert(first_min_nonneg_at(palette@, pixel@, pi as int));
                }
                palette[pi].rgba_array()
            },
            (None, Some((ni, _))) => {
                proof {
                    assert(last_max_nonpos_at(palette@, pixel@, ni as int));
                }
                palette[ni].rgba_array()
            },
        }
    }
}

/// Relies on fastrand::usize: a value drawn uniformly from the given range;
/// with a non-empty range the result lies inside it.
#[verifier::external_body]
fn random_below(n: usize) -> (r: usize)
    requires
        1 <= n,
    ensures
        r < n,
{
    fastrand::usize(..n)
}

/// The (squared distance, class) pair of every training color against a
/// pixel, in training-set order.
pub open spec fn dist_class_seq(dataset: Seq<Rgbx>, px: Seq<u8>) -> Seq<(u32, ColorClass)> {
    dataset.map(|i: int, c: Rgbx| (#[verifier::truncate] (euclid_dist2(c, px) as u32), c.3))
}

/// Non-decreasing by distance.
pub open spec fn sorted_by_dist(s: Seq<(u32, ColorClass)>) -> bool {
    forall|i: int, j: int| 0 <= i <= j < s.len() ==> (#[trigger] s[i]).0 <= (#[trigger] s[j]).0
}

/// Insert one pair into a distance ordering, after every entry of equal or
/// smaller distance: the stable insertion position.
pub open spec fn insert_sorted(
    s: Seq<(u32, ColorClass)>,
    x: (u32, ColorClass),
) -> Seq<(u32, ColorClass)>
    decreases s.len(),
{
    if s.len() == 0 {
        seq![x]
    } else if s[0].0 <= x.0 {
        seq![s[0]] + insert_sorted(s.drop_first(), x)
    } else {
        seq![x] + s
    }
}

/// The stable sort of the distance pairs: non-decreasing by distance, and
/// entries of equal distance keep their original order. This is the one
/// ordering classification works over.
pub open spec fn stable_sort(s: Seq<(u32, ColorClass)>) -> Seq<(u32, ColorClass)>
    decreases s.len(),
{
    if s.len() == 0 {
        Seq::empty()
    } else {
        insert_sorted(stable_sort(s.drop_last()), s.last())
    }
}

/// `insert_sorted` lands exactly at the first index whose distance is
/// strictly larger.
proof fn lemma_insert_sorted_at(s: Seq<(u32, ColorClass)>, x: (u32, ColorClass), p: int)
    requires
        0 <= p <= s.len(),
        forall|t: int| 0 <= t < p ==> (#[trigger] s[t]).0 <= x.0,
        p < s.len() ==> s[p].0 > x.0,
    ensures
        insert_sorted(s, x) == s.insert(p, x),
    decreases s.len(),
{
    if s.len() == 0 {
        assert(insert_sorted(s, x) =~= s.insert(0, x));
    } else if p == 0 {
        assert(insert_sorted(s, x) =~= s.insert(0, x));
    } else {
        assert(s[0].0 <= x.0);
        assert forall|t: int| 0 <= t < p - 1 implies (#[trigger] s.drop_first()[t]).0 <= x.0 by {
            assert(s.drop_first()[t] == s[t + 1]);
        }
        lemma_insert_sorted_at(s.drop_first(), x, p - 1);
        assert(insert_sorted(s, x) =~= s.insert(p, x));
    }
}

/// Votes for class `c`: how many of the first `k` entries carry it.
pub open spec fn votes_for(s: Seq<(u32, ColorClass)>, k: int, c: ColorClass) -> int
    decreases k,
{
    if k <= 0 {
        0
    } else {
        votes_for(s, k - 1, c) + if s[k - 1].1 == c {
            1int
        } else {
            0int
        }
    }
}

/// A class's score: its votes, plus its class weight when weighted voting
/// is on.
pub open spec fn score_of(s: Seq<(u32, ColorClass)>, k: int, weighted: bool, c: ColorClass) -> int {
    votes_for(s, k, c) + if weighted {
        class_weight(c)
    } else {
        0
    }
}

/// A fixed scan order over the classes, used to make the leading pick
/// deterministic.
pub open spec fn class_index(c: ColorClass) -> int {
    match c {
        ColorClass::Blues => 0,
        ColorClass::Whites => 1,
        ColorClass::Greys => 2,
        ColorClass::Red => 3,
        ColorClass::Purple => 4,
        ColorClass::Green => 5,
        ColorClass::Yellow => 6,
        ColorClass::Orange => 7,
    }
}

/// Class `c` is the leading pick over the `k` nearest entries of `s`: it
/// received at least one vote, no voted class scores higher, and no voted
/// class of smaller scan index scores as high.
pub open spec fn knn_leader_at(s: Seq<(u32, ColorClass)>, k: int, weighted: bool, c: ColorClass) -> bool {
    &&& votes_for(s, k, c) > 0
    &&& forall|d: ColorClass|
        votes_for(s, k, d) > 0 ==> #[trigger] score_of(s, k, weighted, d) <= score_of(
            s,
            k,
            weighted,
            c,
        )
    &&& forall|d: ColorClass|
        votes_for(s, k, d) > 0 && class_index(d) < class_index(c) ==> #[trigger] score_of(
            s,
            k,
            weighted,
            d,
        ) < score_of(s, k, weighted, c)
}

/// The leading pick over one distance ordering is unique: two leaders have
/// equal maximal scores, and the first-in-scan-order clause forces equal
/// scan indices.
pub proof fn lemma_knn_leader_unique(
    s: Seq<(u32, ColorClass)>,
    k: int,
    weighted: bool,
    c: ColorClass,
    d: ColorClass,
)
    requires
        knn_leader_at(s, k, weighted, c),
        knn_leader_at(s, k, weighted, d),
    ensures
        c == d,
{
    assert(score_of(s, k, weighted, c) == score_of(s, k, weighted, d));
    if class_index(c) < class_index(d) {
        assert(score_of(s, k, weighted, c) < score_of(s, k, weighted, d));
    } else if class_index(d) < class_index(c) {
        assert(score_of(s, k, weighted, d) < score_of(s, k, weighted, c));
    }
}

/// Class `d` is a tied challenger to the leading pick: it received a vote,
/// is not the leader, and its score equals the leader's.
pub open spec fn tied_challenger(
    s: Seq<(u32, ColorClass)>,
    k: int,
    weighted: bool,
    lead: ColorClass,
    d: ColorClass,
) -> bool {
    &&& d != lead
    &&& votes_for(s, k, d) > 0
    &&& score_of(s, k, weighted, d) == score_of(s, k, weighted, lead)
}

/// Some class ties the leading pick's score.
pub open spec fn has_tied_challenger(
    s: Seq<(u32, ColorClass)>,
    k: int,
    weighted: bool,
    lead: ColorClass,
) -> bool {
    exists|d: ColorClass| #[trigger] tied_challenger(s, k, weighted, lead, d)
}

/// One permitted outcome of classification over the distance ordering `s`.
/// Without the randomized tie-break the leading pick wins, full stop. With
/// it, whenever any tied challenger exists the outcome is one of the tied
/// challengers — the leader itself is excluded from the pool — and the
/// leader wins only when the pool is empty.
pub open spec fn valid_knn_outcome(
    s: Seq<(u32, ColorClass)>,
    k: int,
    random: bool,
    weighted: bool,
    grp: ColorClass,
) -> bool {
    exists|lead: ColorClass|
        #[trigger] knn_leader_at(s, k, weighted, lead) && (if random && has_tied_challenger(
            s,
            k,
            weighted,
            lead,
        ) {
            tied_challenger(s, k, weighted, lead, grp)
        } else {
            grp == lead
        })
}

/// The classification relation: the permitted outcomes over the stable
/// distance ordering of the training pairs. The ordering is pinned, so
/// with the randomized tie-break off the outcome is a single class.
pub open spec fn classification_of(
    dataset: Seq<Rgbx>,
    px: Seq<u8>,
    k: int,
    random: bool,
    weighted: bool,
    grp: ColorClass,
) -> bool {
    valid_knn_outcome(stable_sort(dist_class_seq(dataset, px)), k, random, weighted, grp)
}

/// Votes only grow as more neighbors are considered.
proof fn lemma_votes_monotone(s: Seq<(u32, ColorClass)>, k1: int, k2: int, c: ColorClass)
    requires
        0 <= k1 <= k2,
    ensures
        votes_for(s, k1, c) <= votes_for(s, k2, c),
    decreases k2,
{
    if k1 < k2 {
        lemma_votes_monotone(s, k1, k2 - 1, c);
    }
}

/// Votes are never negative.
proof fn lemma_votes_nonneg(s: Seq<(u32, ColorClass)>, k: int, c: ColorClass)
    ensures
        votes_for(s, k, c) >= 0,
    decreases k,
{
    if k > 0 {
        lemma_votes_nonneg(s, k - 1, c);
    }
}

/// Count the votes for one class among the first `k` entries.
fn count_votes(s: &Vec<(u32, ColorClass)>, k: usize, c: ColorClass) -> (n: usize)
    requires
        k <= s@.len(),
    ensures
        n == votes_for(s@, k as int, c),
{
    let mut n: usize = 0;
    let mut i: usize = 0;
    while i < k
        invariant
            i <= k <= s@.len(),
            n <= i,
            n == votes_for(s@, i as int, c),
        decreases k - i,
    {
        if s[i].1 == c {
            n += 1;
        }
        i += 1;
    }
    n
}

/// Sort the (distance, class) pairs by distance, non-decreasing. The result
/// is a permutation of the input.
fn sort_by_dist_vec(src: Vec<(u32, ColorClass)>) -> (out: Vec<(u32, ColorClass)>)
    ensures
        out@.len() == src@.len(),
        sorted_by_dist(out@),
        out@.to_multiset() == src@.to_multiset(),
        out@ == stable_sort(src@),
{
    broadcast use vstd::seq_lib::group_to_multiset_ensures;

    let n = src.len();
    let mut out: Vec<(u32, ColorClass)> = Vec::new();
    let mut i: usize = 0;
    while i < n
        invariant
            i <= n == src@.len(),
            out@.len() == i,
            sorted_by_dist(out@),
            out@.to_multiset() == src@.take(i as int).to_multiset(),
            out@ == stable_sort(src@.take(i as int)),
        decreases n - i,
    {
        let x = src[i];
        let mut p: usize = 0;
        while p < out.len() && out[p].0 <= x.0
            invariant
                p <= out@.len(),
                forall|t: int| 0 <= t < p ==> (#[trigger] out@[t]).0 <= x.0,
            decreases out@.len() - p,
        {
            p += 1;
        }
        let ghost pre = out@;
        out.insert(p, x);
        proof {
            assert(out@ == pre.insert(p as int, x));
            assert(sorted_by_dist(out@)) by {
                assert forall|a: int, b: int| 0 <= a <= b < out@.len() implies (
                #[trigger] out@[a]).0 <= (#[trigger] out@[b]).0 by {
                    if a < p && b < p {
                    } else if a >= p + 1 && b >= p + 1 {
                    } else if a == p {
                        if b > p {
                            assert(out@[b] == pre[b - 1]);
                            assert(pre[b - 1].0 > x.0 || pre[b - 1].0 >= pre[p as int].0);
                        }
                    } else if b == p {
                        if a < p {
                            assert(out@[a] == pre[a]);
                        }
                    } else {
                        assert(a < p && b > p);
                        assert(out@[a].0 <= x.0);
                        assert(out@[b] == pre[b - 1]);
                    }
                }
            }
            vstd::seq_lib::to_multiset_insert(pre, p as int, x);
            assert(out@.to_multiset() =~= pre.to_multiset().insert(x));
            let pushed = src@.take(i as int).push(x);
            vstd::seq_lib::to_multiset_build(src@.take(i as int), x);
            assert(src@.take(i + 1) =~= pushed);
            assert(pushed.to_multiset() =~= src@.take(i as int).to_multiset().insert(x));
            assert(out@.to_multiset() =~= src@.take(i + 1).to_multiset());
            lemma_insert_sorted_at(pre, x, p as int);
            assert(src@.take(i + 1).drop_last() =~= src@.take(i as int));
            assert(src@.take(i + 1).last() == x);
            assert(out@ == stable_sort(src@.take(i + 1)));
        }
        i += 1;
    }
    proof {
        assert(src@.take(n as int) =~= src@);
    }
    out
}

/// K-nearest-neighbor strategy: classify the pixel by voting among the `k`
/// nearest training colors, then pick the nearest palette entry of the
/// predicted class.
#[derive(Debug, Clone)]
pub struct Knn {
    /// How many nearest neighbors vote.
    pub k: usize,
    /// The training corpus the neighbors are drawn from.
    pub data: Vec<Rgbx>,
}

impl Default for Knn {
    /// The default classifier considers the twelve nearest training colors.
    fn default() -> (r: Knn)
        ensures
            r.k == 12,
            r.data@ == syn_data_seq(),
    {
        Knn { k: 12, data: syn_data_set() }
    }
}

/// Index `i` is the first palette index of minimum squared Euclidean
/// distance to the pixel among the entries of class `grp`.
pub open spec fn first_min_class_at(
    palette: Seq<Rgbx>,
    px: Seq<u8>,
    grp: ColorClass,
    i: int,
) -> bool {
    &&& 0 <= i < palette.len()
    &&& palette[i].3 == grp
    &&& forall|j: int|
        0 <= j < palette.len() && (#[trigger] palette[j]).3 == grp ==> euclid_dist2(
            palette[i],
            px,
        ) <= euclid_dist2(palette[j], px)
    &&& forall|j: int|
        0 <= j < i && (#[trigger] palette[j]).3 == grp ==> euclid_dist2(palette[j], px)
            > euclid_dist2(palette[i], px)
}

/// Some palette entry carries class `c`.
pub open spec fn has_class(palette: Seq<Rgbx>, c: ColorClass) -> bool {
    exists|j: int| 0 <= j < palette.len() && (#[trigger] palette[j]).3 == c
}

/// Every class is represented in the palette, so any classification
/// outcome has a nearest-in-class entry to map to.
pub open spec fn covers_all_classes(palette: Seq<Rgbx>) -> bool {
    forall|c: ColorClass| #[trigger] has_class(palette, c)
}

/// Scan for one class.
fn contains_class(palette: &[Rgbx], c: ColorClass) -> (b: bool)
    ensures
        b == has_class(palette@, c),
{
    let n = palette.len();
    let mut j: usize = 0;
    while j < n
        invariant
            j <= n == palette@.len(),
            forall|t: int| 0 <= t < j ==> (#[trigger] palette@[t]).3 != c,
        decreases n - j,
    {
        if palette[j].group() == c {
            return true;
        }
        j += 1;
    }
    false
}

impl Knn {
    /// A classifier that considers the `k` nearest training colors.
    pub fn with(k: usize) -> (r: Knn)
        ensures
            r.k == k,
            r.data@ == syn_data_seq(),
    {
        Knn { k, data: syn_data_set() }
    }

    /// Classify a pixel by voting among the `k` nearest entries of
    /// `dataset` under the Euclidean distance ordering. On a score tie the
    /// randomized mode picks uniformly among the tied non-leading classes;
    /// the leading pick itself stays out of the pool but wins when the pool
    /// is empty.
    pub fn classify(
        c: &[u8; 4],
        k: usize,
        dataset: &[Rgbx],
        random: bool,
        weighted: bool,
    ) -> (grp: ColorClass)
        requires
            1 <= k <= dataset@.len(),
        ensures
            classification_of(dataset@, c@, k as int, random, weighted, grp),
    {
        let n = dataset.len();
        let mut ratings: Vec<(u32, ColorClass)> = Vec::new();
        let mut i: usize = 0;
        while i < n
            invariant
                i <= n == dataset@.len(),
                ratings@.len() == i,
                forall|t: int|
                    0 <= t < i ==> #[trigger] ratings@[t] == (
                    euclid_dist2(dataset@[t], c@) as u32,
                    dataset@[t].3,
                ),
            decreases n - i,
        {
            ratings.push((dataset[i].euclid_dist_sq(c), dataset[i].group()));
            i += 1;
        }
        proof {
            assert(ratings@ =~= dist_class_seq(dataset@, c@));
        }
        let sorted = sort_by_dist_vec(ratings);

        let order = class_order();
        let mut lead: ColorClass = ColorClass::Blues;
        let mut lead_score: usize = 0;
        let mut found = false;
        let mut idx: usize = 0;
        while idx < order.len()
            invariant
                order@ == class_order_seq(),
                idx <= order@.len() == 8,
                k <= sorted@.len(),
                !found ==> forall|d: ColorClass|
                    class_index(d) < idx ==> #[trigger] votes_for(sorted@, k as int, d) <= 0,
                found ==> {
                    &&& votes_for(sorted@, k as int, lead) > 0
                    &&& class_index(lead) < idx
                    &&& lead_score == score_of(sorted@, k as int, weighted, lead)
                    &&& forall|d: ColorClass|
                        class_index(d) < idx && votes_for(sorted@, k as int, d) > 0
                            ==> #[trigger] score_of(sorted@, k as int, weighted, d) <= lead_score
                    &&& forall|d: ColorClass|
                        class_index(d) < class_index(lead) && votes_for(sorted@, k as int, d) > 0
                            ==> #[trigger] score_of(sorted@, k as int, weighted, d) < lead_score
                },
            decreases order@.len() - idx,
        {
            let cl = order[idx];
            proof {
                assert(class_index(cl) == idx);
            }
            let v = count_votes(&sorted, k, cl);
            if v > 0 {
                let w = if weighted {
                    cl.weight()
                } else {
                    0
                };
                let sc = v + w;
                if !found || sc > lead_score {
                    lead = cl;
                    lead_score = sc;
                    found = true;
                }
            }
            idx += 1;
        }
        proof {
            assert(votes_for(sorted@, k as int, sorted@[0].1) > 0) by {
                assert(votes_for(sorted@, 0, sorted@[0].1) == 0);
                assert(votes_for(sorted@, 1, sorted@[0].1) == 1);
                lemma_votes_monotone(sorted@, 1, k as int, sorted@[0].1);
            }
            assert(class_index(sorted@[0].1) < 8);
            assert(found);
            assert(knn_leader_at(sorted@, k as int, weighted, lead)) by {
                assert(forall|d: ColorClass| class_index(d) < 8);
            }
        }
        if random {
            let mut candidates: Vec<ColorClass> = Vec::new();
            let mut idx2: usize = 0;
            while idx2 < order.len()
                invariant
                    order@ == class_order_seq(),
                    idx2 <= order@.len() == 8,
                    k <= sorted@.len(),
                    votes_for(sorted@, k as int, lead) > 0,
                    lead_score == score_of(sorted@, k as int, weighted, lead),
                    knn_leader_at(sorted@, k as int, weighted, lead),
                    forall|t: int|
                        0 <= t < candidates@.len() ==> {
                            &&& #[trigger] candidates@[t] != lead
                            &&& votes_for(sorted@, k as int, candidates@[t]) > 0
                            &&& score_of(sorted@, k as int, weighted, candidates@[t]) == lead_score
                        },
                    candidates@.len() == 0 ==> forall|d: ColorClass|
                        class_index(d) < idx2 && d != lead && votes_for(sorted@, k as int, d) > 0
                            ==> #[trigger] score_of(sorted@, k as int, weighted, d) != lead_score,
                decreases order@.len() - idx2,
            {
                let cl = order[idx2];
                proof {
                    assert(class_index(cl) == idx2);
                }
                let v = count_votes(&sorted, k, cl);
                if v > 0 {
                    let w = if weighted {
                        cl.weight()
                    } else {
                        0
                    };
                    let sc = v + w;
                    if sc == lead_score && !(cl == lead) {
                        candidates.push(cl);
                    }
                }
                idx2 += 1;
            }
            let l = candidates.len();
            if l == 0 {
                proof {
                    assert forall|d: ColorClass| !(#[trigger] tied_challenger(
                        sorted@,
                        k as int,
                        weighted,
                        lead,
                        d,
                    )) by {
                        if tied_challenger(sorted@, k as int, weighted, lead, d) {
                            assert(class_index(d) < 8);
                            assert(score_of(sorted@, k as int, weighted, d) != lead_score);
                        }
                    }
                    assert(!has_tied_challenger(sorted@, k as int, weighted, lead));
                    assert(valid_knn_outcome(sorted@, k as int, random, weighted, lead));
                }
                lead
            } else {
                let pick = candidates[random_below(l)];
                proof {
                    assert(tied_challenger(sorted@, k as int, weighted, lead, pick));
                    assert(has_tied_challenger(sorted@, k as int, weighted, lead));
                    assert(valid_knn_outcome(sorted@, k as int, random, weighted, pick));
                }
                pick
            }
        } else {
            proof {
                assert(valid_knn_outcome(sorted@, k as int, random, weighted, lead));
            }
            lead
        }
    }
}

/// The classes in their fixed scan order.
pub open spec fn class_order_seq() -> Seq<ColorClass> {
    seq![
        ColorClass::Blues,
        ColorClass::Whites,
        ColorClass::Greys,
        ColorClass::Red,
        ColorClass::Purple,
        ColorClass::Green,
        ColorClass::Yellow,
        ColorClass::Orange,
    ]
}

/// The classes in their fixed scan order.
fn class_order() -> (r: Vec<ColorClass>)
    ensures
        r@ == class_order_seq(),
        r@.len() == 8,
{
    let mut v: Vec<ColorClass> = Vec::new();
    v.push(ColorClass::Blues);
    v.push(ColorClass::Whites);
    v.push(ColorClass::Greys);
    v.push(ColorClass::Red);
    v.push(ColorClass::Purple);
    v.push(ColorClass::Green);
    v.push(ColorClass::Yellow);
    v.push(ColorClass::Orange);
    proof {
        assert(v@ =~= class_order_seq());
    }
    v
}

impl Mapper for Knn {
    open spec fn req(&self, palette: Seq<Rgbx>) -> bool {
        &&& 1 <= self.k <= self.data@.len()
        &&& covers_all_classes(palette)
    }

    open spec fn inv(&self, palette: Seq<Rgbx>) -> bool {
        true
    }

    open spec fn shareable(&self) -> bool {
        true
    }

    open spec fn predicts(&self, palette: Seq<Rgbx>, px: Seq<u8>, r: Seq<u8>) -> bool {
        exists|grp: ColorClass, i: int|
            #![trigger classification_of(self.data@, px, self.k as int, true, false, grp), first_min_class_at(palette, px, grp, i)]
            {
                &&& classification_of(self.data@, px, self.k as int, true, false, grp)
                &&& first_min_class_at(palette, px, grp, i)
                &&& r == rgba_seq(palette[i])
            }
    }

    fn req_check(&self, palette: &[Rgbx]) -> (b: bool) {
        let sizes_ok = 1 <= self.k && self.k <= self.data.len();
        let cover = contains_class(palette, ColorClass::Blues) && contains_class(
            palette,
            ColorClass::Whites,
        ) && contains_class(palette, ColorClass::Greys) && contains_class(
            palette,
            ColorClass::Red,
        ) && contains_class(palette, ColorClass::Purple) && contains_class(
            palette,
            ColorClass::Green,
        ) && contains_class(palette, ColorClass::Yellow) && contains_class(
            palette,
            ColorClass::Orange,
        );
        proof {
            if cover {
                assert forall|c: ColorClass| #[trigger] has_class(palette@, c) by {
                    match c {
                        ColorClass::Blues => assert(has_class(palette@, ColorClass::Blues)),
                        ColorClass::Whites => assert(has_class(palette@, ColorClass::Whites)),
                        ColorClass::Greys => assert(has_class(palette@, ColorClass::Greys)),
                        ColorClass::Red => assert(has_class(palette@, ColorClass::Red)),
                        ColorClass::Purple => assert(has_class(palette@, ColorClass::Purple)),
                        ColorClass::Green => assert(has_class(palette@, ColorClass::Green)),
                        ColorClass::Yellow => assert(has_class(palette@, ColorClass::Yellow)),
                        ColorClass::Orange => assert(has_class(palette@, ColorClass::Orange)),
                    }
                }
            }
        }
        sizes_ok && cover
    }

    fn is_shareable(&self) -> (b: bool) {
        true
    }

    fn predict(&mut self, palette: &[Rgbx], pixel: &[u8; 4]) -> (r: [u8; 4]) {
        self.predict_shared(palette, pixel)
    }

    fn predict_shared(&self, palette: &[Rgbx], pixel: &[u8; 4]) -> (r: [u8; 4]) {
        let grp = Knn::classify(pixel, self.k, self.data.as_slice(), true, false);
        let n = palette.len();
        let mut best: usize = 0;
        let mut bestd: u32 = 0;
        let mut found = false;
        let mut j: usize = 0;
        while j < n
            invariant
                j <= n == palette@.len(),
                !found ==> forall|t: int| 0 <= t < j ==> (#[trigger] palette@[t]).3 != grp,
                found ==> {
                    &&& best < j
                    &&& palette@[best as int].3 == grp
                    &&& bestd == euclid_dist2(palette@[best as int], pixel@)
                    &&& forall|t: int|
                        0 <= t < j && (#[trigger] palette@[t]).3 == grp ==> bestd <= euclid_dist2(
                            palette@[t],
                            pixel@,
                        )
                    &&& forall|t: int|
                        0 <= t < best && (#[trigger] palette@[t]).3 == grp ==> euclid_dist2(
                            palette@[t],
                            pixel@,
                        ) > bestd
                },
            decreases n - j,
        {
            if palette[j].group() == grp {
                let d = palette[j].euclid_dist_sq(pixel);
                if !found || d < bestd {
                    best = j;
                    bestd = d;
                    found = true;
                }
            }
            j += 1;
        }
        proof {
            assert(has_class(palette@, grp));
            let w = choose|t: int| 0 <= t < palette@.len() && (#[trigger] palette@[t]).3 == grp;
            assert(found);
            assert(first_min_class_at(palette@, pixel@, grp, best as int));
        }
        palette[best].rgba_array()
    }
}

/// Manual override strategy: specific bright-red RGB ranges map to a fixed
/// orange reference color; every other pixel passes through unchanged. The
/// configured palette is ignored.
#[derive(Debug, Clone)]
pub struct ManualMap;

/// The fixed override target: the RGBA bytes of the orange entry of the
/// built-in reference palette.
pub open spec fn manual_target() -> Seq<u8> {
    seq![208u8, 135u8, 112u8, 255u8]
}

/// What `ManualMap` returns: the override target on the two hardcoded red
/// ranges, otherwise the pixel unchanged.
pub open spec fn manual_map_spec(px: Seq<u8>) -> Seq<u8> {
    if 100 <= px[0] && px[1] == 0 && px[2] == 0 {
        manual_target()
    } else if 185 <= px[0] && px[1] <= 68 && px[2] <= 68 {
        manual_target()
    } else {
        px
    }
}

impl Mapper for ManualMap {
    open spec fn req(&self, palette: Seq<Rgbx>) -> bool {
        true
    }

    open spec fn inv(&self, palette: Seq<Rgbx>) -> bool {
        true
    }

    open spec fn shareable(&self) -> bool {
        true
    }

    open spec fn predicts(&self, palette: Seq<Rgbx>, px: Seq<u8>, r: Seq<u8>) -> bool {
        r == manual_map_spec(px)
    }

    fn req_check(&self, palette: &[Rgbx]) -> (b: bool) {
        true
    }

    fn is_shareable(&self) -> (b: bool) {
        true
    }

    fn predict(&mut self, palette: &[Rgbx], pixel: &[u8; 4]) -> (r: [u8; 4]) {
        self.predict_shared(palette, pixel)
    }

    fn predict_shared(&self, palette: &[Rgbx], pixel: &[u8; 4]) -> (r: [u8; 4]) {
        if 100 <= pixel[0] && pixel[1] == 0 && pixel[2] == 0 {
            let out: [u8; 4] = [208, 135, 112, 255];
            proof {
                assert(out@ =~= manual_target());
            }
            out
        } else if 185 <= pixel[0] && pixel[1] <= 68 && pixel[2] <= 68 {
            let out: [u8; 4] = [208, 135, 112, 255];
            proof {
                assert(out@ =~= manual_target());
            }
            out
        } else {
            *pixel
        }
    }
}


/// The nearest strategy is deterministic: the prediction relation admits
/// one output per pixel.
pub proof fn lemma_nearest_deterministic(palette: Seq<Rgbx>)
    ensures
        crate::deterministic_on(Nearest, palette),
{
    assert forall|px: Seq<u8>, r1: Seq<u8>, r2: Seq<u8>|
        #[trigger] Nearest.predicts(palette, px, r1) && #[trigger] Nearest.predicts(
        palette,
        px,
        r2,
    ) implies r1 == r2 by {
        let i1 = choose|i: int| #[trigger] first_min_man_at(palette, px, i) && r1 == rgba_seq(
            palette[i],
        );
        let i2 = choose|i: int| #[trigger] first_min_man_at(palette, px, i) && r2 == rgba_seq(
            palette[i],
        );
        lemma_first_min_man_unique(palette, px, i1, i2);
    }
}

/// The first index of minimum non-negative rating is unique.
proof fn lemma_first_min_nonneg_unique(palette: Seq<Rgbx>, px: Seq<u8>, i: int, j: int)
    requires
        first_min_nonneg_at(palette, px, i),
        first_min_nonneg_at(palette, px, j),
    ensures
        i == j,
{
}

/// The last index of maximum non-positive rating is unique.
proof fn lemma_last_max_nonpos_unique(palette: Seq<Rgbx>, px: Seq<u8>, i: int, j: int)
    requires
        last_max_nonpos_at(palette, px, i),
        last_max_nonpos_at(palette, px, j),
    ensures
        i == j,
{
}

/// The creative strategy is deterministic: the prediction relation admits
/// one output per pixel.
pub proof fn lemma_creative_deterministic(palette: Seq<Rgbx>)
    ensures
        crate::deterministic_on(Creative, palette),
{
    assert forall|px: Seq<u8>, r1: Seq<u8>, r2: Seq<u8>|
        #[trigger] Creative.predicts(palette, px, r1) && #[trigger] Creative.predicts(
        palette,
        px,
        r2,
    ) implies r1 == r2 by {
        if has_nonneg(palette, px) && has_nonpos(palette, px) {
            let (p1, n1) = choose|pi: int, ni: int|
                #![trigger first_min_nonneg_at(palette, px, pi), last_max_nonpos_at(palette, px, ni)]
                first_min_nonneg_at(palette, px, pi) && last_max_nonpos_at(palette, px, ni) && r1
                    == (if -diff_rating_spec(palette[ni], px) < diff_rating_spec(palette[pi], px) {
                    rgba_seq(palette[ni])
                } else {
                    rgba_seq(palette[pi])
                });
            let (p2, n2) = choose|pi: int, ni: int|
                #![trigger first_min_nonneg_at(palette, px, pi), last_max_nonpos_at(palette, px, ni)]
                first_min_nonneg_at(palette, px, pi) && last_max_nonpos_at(palette, px, ni) && r2
                    == (if -diff_rating_spec(palette[ni], px) < diff_rating_spec(palette[pi], px) {
                    rgba_seq(palette[ni])
                } else {
                    rgba_seq(palette[pi])
                });
            lemma_first_min_nonneg_unique(palette, px, p1, p2);
            lemma_last_max_nonpos_unique(palette, px, n1, n2);
        } else if has_nonneg(palette, px) {
            let p1 = choose|pi: int|
                #[trigger] first_min_nonneg_at(palette, px, pi) && r1 == rgba_seq(palette[pi]);
            let p2 = choose|pi: int|
                #[trigger] first_min_nonneg_at(palette, px, pi) && r2 == rgba_seq(palette[pi]);
            lemma_first_min_nonneg_unique(palette, px, p1, p2);
        } else if has_nonpos(palette, px) {
            let n1 = choose|ni: int|
                #[trigger] last_max_nonpos_at(palette, px, ni) && r1 == rgba_seq(palette[ni]);
            let n2 = choose|ni: int|
                #[trigger] last_max_nonpos_at(palette, px, ni) && r2 == rgba_seq(palette[ni]);
            lemma_last_max_nonpos_unique(palette, px, n1, n2);
        }
    }
}

/// The manual override strategy is deterministic: the prediction relation
/// admits one output per pixel.
pub proof fn lemma_manual_map_deterministic(palette: Seq<Rgbx>)
    ensures
        crate::deterministic_on(ManualMap, palette),
{
}

/// The first base-table index of minimum Manhattan distance is unique.
proof fn lemma_first_min_base_unique(px: Seq<u8>, i: int, j: int)
    requires
        first_min_base_at(px, i),
        first_min_base_at(px, j),
    ensures
        i == j,
{
    if i < j {
        assert(man_dist(data_set_seq()[i], px) > man_dist(data_set_seq()[j], px));
        assert(man_dist(data_set_seq()[j], px) >= man_dist(data_set_seq()[i], px));
    } else if j < i {
        assert(man_dist(data_set_seq()[j], px) > man_dist(data_set_seq()[i], px));
        assert(man_dist(data_set_seq()[i], px) >= man_dist(data_set_seq()[j], px));
    }
}

/// The double-pass nearest strategy is deterministic: the prediction
/// relation admits one output per pixel.
pub proof fn lemma_double_pass_deterministic(palette: Seq<Rgbx>)
    ensures
        crate::deterministic_on(NearestDoublePass, palette),
{
    assert forall|px: Seq<u8>, r1: Seq<u8>, r2: Seq<u8>|
        #[trigger] NearestDoublePass.predicts(palette, px, r1)
            && #[trigger] NearestDoublePass.predicts(palette, px, r2) implies r1 == r2 by {
        let (b1, i1) = choose|b: int, i: int|
            #![trigger first_min_base_at(px, b), first_min_man_at(palette, rgba_seq(data_set_seq()[b]), i)]
            first_min_base_at(px, b) && first_min_man_at(palette, rgba_seq(data_set_seq()[b]), i)
                && r1 == rgba_seq(palette[i]);
        let (b2, i2) = choose|b: int, i: int|
            #![trigger first_min_base_at(px, b), first_min_man_at(palette, rgba_seq(data_set_seq()[b]), i)]
            first_min_base_at(px, b) && first_min_man_at(palette, rgba_seq(data_set_seq()[b]), i)
                && r2 == rgba_seq(palette[i]);
        lemma_first_min_base_unique(px, b1, b2);
        lemma_first_min_man_unique(palette, rgba_seq(data_set_seq()[b1]), i1, i2);
    }
}

/// Idempotence of the nearest strategy: every output pixel already equals
/// its own nearest match in the same palette, so a second pass over the
/// output is a fixed point.
pub proof fn lemma_nearest_idempotent(palette: Seq<Rgbx>, px: Seq<u8>, r: Seq<u8>)
    requires
        nearest_predicts(palette, px, r),
    ensures
        nearest_predicts(palette, r, r),
{
    let i = choose|i: int|
        #[trigger] first_min_man_at(palette, px, i) && r == rgba_seq(palette[i]);
    assert(r[0] == palette[i].0 && r[1] == palette[i].1 && r[2] == palette[i].2);
    assert(man_dist(palette[i], r) == 0);
    lemma_first_min_man_exists(palette, r);
    let j = choose|j: int| #[trigger] first_min_man_at(palette, r, j);
    assert(man_dist(palette[j], r) <= man_dist(palette[i], r));
    assert(man_dist(palette[j], r) == 0);
    assert(palette[j].0 == r[0] && palette[j].1 == r[1] && palette[j].2 == r[2]);
    assert(rgba_seq(palette[j]) =~= r);
}

} // verus!

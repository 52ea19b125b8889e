//! The cluster builder: raw centroids become canonical RGB8 colors with
//! derived HSV and Lab, per-cluster pixel share, empty clusters dropped, and
//! the list sorted by descending population (stable, so ties keep their
//! insertion order).
use vstd::prelude::*;

use crate::hsv::{hsv_wf, rgb8_to_hsv, rgb8_to_hsv_s, Hsv};
use crate::kmeans::usize_sum_s;
use crate::lab::{lab_canonical, rgb8_to_lab, rgb8_to_lab_s, Lab, Rgb8};
use crate::space::{rgb8_from_point, rgb8_from_point_s, ColorSpace, Point3};

verus! {

/// A representative color: canonical RGB8 with HSV and Lab derived from it,
/// the assigned pixel count, and the share of all sampled pixels in parts
/// per million.
#[derive(Clone, Copy, Debug, PartialEq, Eq, Structural)]
pub struct ColorCluster {
    pub rgb: Rgb8,
    pub hsv: Hsv,
    pub lab: Lab,
    pub count: usize,
    pub share_ppm: i64,
}

/// The canonicalization invariant: HSV and Lab are derived from the
/// canonical RGB8 value, the cluster is non-empty, and the share is a valid
/// parts-per-million value.
pub open spec fn cluster_wf(c: ColorCluster) -> bool {
    &&& c.hsv == rgb8_to_hsv_s(c.rgb)
    &&& c.lab == rgb8_to_lab_s(c.rgb)
    &&& hsv_wf(c.hsv)
    &&& lab_canonical(c.lab)
    &&& c.count >= 1
    &&& 0 <= c.share_ppm <= 1_000_000
}

pub open spec fn clusters_wf(s: Seq<ColorCluster>) -> bool {
    forall|i: int| 0 <= i < s.len() ==> cluster_wf(#[trigger] s[i])
}

/// Descending population order.
pub open spec fn sorted_desc(s: Seq<ColorCluster>) -> bool {
    forall|i: int, j: int| 0 <= i < j < s.len() ==> s[i].count >= s[j].count
}

/// Total pixel count of a cluster list.
pub open spec fn cluster_count_sum(s: Seq<ColorCluster>) -> int
    decreases s.len(),
{
    if s.len() == 0 {
        0
    } else {
        cluster_count_sum(s.drop_last()) + s.last().count
    }
}

/// The cluster built from one non-empty centroid: the centroid is snapped
/// to canonical RGB8 and HSV/Lab are derived from that RGB8 value, not from
/// the centroid itself.
pub open spec fn cluster_of_s(space: ColorSpace, p: Point3, count: int, total: int)
    -> ColorCluster {
    let rgb = rgb8_from_point_s(space, p);
    ColorCluster {
        rgb,
        hsv: rgb8_to_hsv_s(rgb),
        lab: rgb8_to_lab_s(rgb),
        count: count as usize,
        share_ppm: ((count * 1_000_000) / total) as i64,
    }
}

/// The unsorted cluster list of the first `n` centroids, empty ones
/// dropped.
pub open spec fn built_upto(
    space: ColorSpace,
    cents: Seq<Point3>,
    counts: Seq<usize>,
    total: int,
    n: int,
) -> Seq<ColorCluster>
    decreases n,
{
    if n <= 0 {
        Seq::empty()
    } else {
        let prev = built_upto(space, cents, counts, total, n - 1);
        if counts[n - 1] > 0 {
            prev.push(cluster_of_s(space, cents[n - 1], counts[n - 1] as int, total))
        } else {
            prev
        }
    }
}

/// Stable descending insertion: the new cluster goes after every cluster
/// with an equal or larger population.
pub open spec fn insert_desc_s(s: Seq<ColorCluster>, c: ColorCluster) -> Seq<ColorCluster>
    decreases s.len(),
{
    if s.len() == 0 {
        seq![c]
    } else if s.last().count >= c.count {
        s.push(c)
    } else {
        insert_desc_s(s.drop_last(), c).push(s.last())
    }
}

/// Stable insertion sort by descending population.
pub open spec fn sort_desc_s(s: Seq<ColorCluster>) -> Seq<ColorCluster>
    decreases s.len(),
{
    if s.len() == 0 {
        Seq::empty()
    } else {
        insert_desc_s(sort_desc_s(s.drop_last()), s.last())
    }
}

proof fn lemma_insert_desc(s: Seq<ColorCluster>, c: ColorCluster)
    requires
        sorted_desc(s),
    ensures
        insert_desc_s(s, c).len() == s.len() + 1,
        sorted_desc(insert_desc_s(s, c)),
        cluster_count_sum(insert_desc_s(s, c)) == cluster_count_sum(s) + c.count,
        clusters_wf(s) && cluster_wf(c) ==> clusters_wf(insert_desc_s(s, c)),
        forall|i: int|
            0 <= i < s.len() + 1 ==> (#[trigger] insert_desc_s(s, c)[i] == c || exists|j: int|
                0 <= j < s.len() && insert_desc_s(s, c)[i] == s[j]),
    decreases s.len(),
{
    if s.len() == 0 {
        assert(insert_desc_s(s, c) =~= seq![c]);
        assert(cluster_count_sum(seq![c].drop_last()) == 0) by {
            assert(seq![c].drop_last() =~= Seq::<ColorCluster>::empty());
        }
    } else if s.last().count >= c.count {
        let r = s.push(c);
        assert(r.drop_last() =~= s);
        assert forall|i: int, j: int| 0 <= i < j < r.len() implies r[i].count >= r[j].count by {
            if j < s.len() {
            } else {
                assert(r[j] == c);
                if i < s.len() - 1 {
                    assert(s[i].count >= s[s.len() - 1].count);
                }
            }
        }
    } else {
        let s0 = s.drop_last();
        assert(sorted_desc(s0));
        lemma_insert_desc(s0, c);
        let r0 = insert_desc_s(s0, c);
        let r = r0.push(s.last());
        assert(r.drop_last() =~= r0);
        assert(cluster_count_sum(s) == cluster_count_sum(s0) + s.last().count);
        assert forall|i: int, j: int| 0 <= i < j < r.len() implies r[i].count >= r[j].count by {
            if j < r0.len() {
            } else {
                assert(r[j] == s.last());
                assert(r[i] == r0[i]);
                assert(r0[i] == c || exists|jj: int| 0 <= jj < s0.len() && r0[i] == s0[jj]);
                if r0[i] == c {
                } else {
                    let jj = choose|jj: int| 0 <= jj < s0.len() && r0[i] == s0[jj];
                    assert(s[jj].count >= s[s.len() - 1].count);
                }
            }
        }
        assert(clusters_wf(s) && cluster_wf(c) ==> clusters_wf(r)) by {
            if clusters_wf(s) && cluster_wf(c) {
                assert(clusters_wf(s0));
                assert forall|i: int| 0 <= i < r.len() implies cluster_wf(#[trigger] r[i]) by {
                    if i < r0.len() {
                    } else {
                        assert(r[i] == s.last());
                    }
                }
            }
        }
        assert forall|i: int|
            0 <= i < s.len() + 1 implies (#[trigger] r[i] == c || exists|j: int|
                0 <= j < s.len() && r[i] == s[j]) by {
            if i < r0.len() {
                assert(r0[i] == c || exists|jj: int| 0 <= jj < s0.len() && r0[i] == s0[jj]);
                if r0[i] != c {
                    let jj = choose|jj: int| 0 <= jj < s0.len() && r0[i] == s0[jj];
                    assert(r[i] == s[jj]);
                }
            } else {
                assert(r[i] == s[s.len() - 1]);
            }
        }
    }
}

fn insert_desc(v: Vec<ColorCluster>, c: ColorCluster) -> (r: Vec<ColorCluster>)
    ensures
        r@ == insert_desc_s(v@, c),
    decreases v@.len(),
{
    let mut v = v;
    if v.len() == 0 {
        v.push(c);
        proof {
            assert(v@ =~= seq![c]);
        }
        v
    } else if v[v.len() - 1].count >= c.count {
        v.push(c);
        v
    } else {
        let last = v.pop().unwrap();
        let ghost s0 = v@;
        let mut r = insert_desc(v, c);
        r.push(last);
        r
    }
}

/// Convert non-empty centroids to clusters and sort them by descending
/// population; ties keep insertion order.
pub open spec fn build_clusters_s(
    space: ColorSpace,
    cents: Seq<Point3>,
    counts: Seq<usize>,
    total: int,
) -> Seq<ColorCluster> {
    sort_desc_s(built_upto(space, cents, counts, total, cents.len() as int))
}

/// The cluster builder. With at least one assigned point overall it returns
/// between 1 and `centroids.len()` clusters whose counts sum to the same
/// total as the input counts.
pub fn build_clusters(
    space: ColorSpace,
    cents: &Vec<Point3>,
    counts: &Vec<usize>,
    total: usize,
) -> (res: Vec<ColorCluster>)
    requires
        cents@.len() == counts@.len(),
        1 <= total <= 0x1_0000_0000,
        forall|j: int| 0 <= j < counts@.len() ==> #[trigger] counts@[j] <= total,
    ensures
        res@ == build_clusters_s(space, cents@, counts@, total as int),
        res@.len() <= cents@.len(),
        usize_sum_s(counts@, counts@.len() as int) >= 1 ==> res@.len() >= 1,
        clusters_wf(res@),
        sorted_desc(res@),
        cluster_count_sum(res@) == usize_sum_s(counts@, counts@.len() as int),
{
    let k = cents.len();
    let mut built: Vec<ColorCluster> = Vec::new();
    let mut i: usize = 0;
    while i < k
        invariant
            0 <= i <= k,
            cents@.len() == k,
            counts@.len() == k,
            1 <= total <= 0x1_0000_0000,
            forall|j: int| 0 <= j < counts@.len() ==> #[trigger] counts@[j] <= total,
            built@ == built_upto(space, cents@, counts@, total as int, i as int),
            clusters_wf(built@),
            built@.len() <= i,
            cluster_count_sum(built@) == usize_sum_s(counts@, i as int),
            usize_sum_s(counts@, i as int) >= 1 ==> built@.len() >= 1,
        decreases k - i,
    {
        let cnt = counts[i];
        if cnt > 0 {
            let rgb = rgb8_from_point(space, cents[i]);
            let hsv = rgb8_to_hsv(rgb);
            let lab = rgb8_to_lab(rgb);
            proof {
                vstd::arithmetic::div_mod::lemma_div_is_ordered(
                    cnt as int * 1_000_000,
                    total as int * 1_000_000,
                    total as int,
                );
                vstd::arithmetic::div_mod::lemma_div_basics_4(cnt as int * 1_000_000, total as int);
                vstd::arithmetic::div_mod::lemma_div_multiples_vanish(1_000_000, total as int);
            }
            let share_ppm = crate::fx::sdiv(cnt as i64 * 1_000_000, total as i64);
            let c = ColorCluster { rgb, hsv, lab, count: cnt, share_ppm };
            let ghost prev = built@;
            built.push(c);
            proof {
                assert(cluster_count_sum(built@) == cluster_count_sum(prev) + cnt) by {
                    assert(built@.drop_last() =~= prev);
                }
            }
        }
        i = i + 1;
    }
    let mut sorted: Vec<ColorCluster> = Vec::new();
    let mut i2: usize = 0;
    while i2 < built.len()
        invariant
            0 <= i2 <= built@.len(),
            clusters_wf(built@),
            sorted@ == sort_desc_s(built@.take(i2 as int)),
            sorted@.len() == i2,
            clusters_wf(sorted@),
            sorted_desc(sorted@),
            cluster_count_sum(sorted@) == cluster_count_sum(built@.take(i2 as int)),
        decreases built@.len() - i2,
    {
        let c = built[i2];
        proof {
            lemma_insert_desc(sorted@, c);
            let t1 = built@.take(i2 as int + 1);
            assert(t1.drop_last() =~= built@.take(i2 as int));
            assert(t1.last() == built@[i2 as int]);
            assert(cluster_count_sum(t1) == cluster_count_sum(built@.take(i2 as int))
                + built@[i2 as int].count);
        }
        sorted = insert_desc(sorted, c);
        i2 = i2 + 1;
    }
    proof {
        assert(built@.take(built@.len() as int) =~= built@);
    }
    sorted
}

} // verus!

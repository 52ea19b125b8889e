//! The clustering engine: k-means over points of the working color space,
//! with deterministic seeded initialization, optional warm-start centroids
//! and optional mini-batch subsampling. Every step has an exact
//! specification, so a run is a function of the dataset and the
//! configuration alone.
use vstd::prelude::*;

use crate::fx::{abs_s, clamp_i64, clamp_s, lemma_mul_abs_le, lemma_mul_le, lemma_sdiv_s_le, sdiv,
    sdiv_s};
use crate::space::{point_wf, Point3};

verus! {

/// Clustering configuration: cluster count, iteration budget, convergence
/// tolerance on centroid movement (milli-units, compared squared), the seed
/// of the deterministic initialization, optional warm-start centroids and an
/// optional mini-batch size.
pub struct KMeansConfig {
    pub k: usize,
    pub max_iters: usize,
    pub tol_milli: i64,
    pub seed: u64,
    pub warm_start: Option<Vec<Point3>>,
    pub mini_batch: Option<usize>,
}

/// Clustering result: final centroids in working-space coordinates, the
/// point count assigned to each, and the iterations actually used.
pub struct KMeansResult {
    pub centroids: Vec<Point3>,
    pub counts: Vec<usize>,
    pub iterations: usize,
}

/// Squared Euclidean distance between two working-space points.
pub open spec fn dist2_s(p: Point3, q: Point3) -> int {
    (p.x - q.x) * (p.x - q.x) + (p.y - q.y) * (p.y - q.y) + (p.z - q.z) * (p.z - q.z)
}

pub proof fn lemma_dist2_bounds(p: Point3, q: Point3)
    requires
        point_wf(p),
        point_wf(q),
    ensures
        0 <= dist2_s(p, q) <= 0x3_0000_0000_0000_0000,
{
    lemma_mul_abs_le(p.x - q.x, p.x - q.x, 16_000_000, 16_000_000);
    lemma_mul_abs_le(p.y - q.y, p.y - q.y, 16_000_000, 16_000_000);
    lemma_mul_abs_le(p.z - q.z, p.z - q.z, 16_000_000, 16_000_000);
    assert(0 <= (p.x - q.x) * (p.x - q.x)) by (nonlinear_arith);
    assert(0 <= (p.y - q.y) * (p.y - q.y)) by (nonlinear_arith);
    assert(0 <= (p.z - q.z) * (p.z - q.z)) by (nonlinear_arith);
}

pub fn dist2(p: Point3, q: Point3) -> (d: i64)
    requires
        point_wf(p),
        point_wf(q),
    ensures
        d == dist2_s(p, q),
        0 <= d,
{
    proof {
        lemma_dist2_bounds(p, q);
        lemma_mul_abs_le(p.x - q.x, p.x - q.x, 16_000_000, 16_000_000);
        lemma_mul_abs_le(p.y - q.y, p.y - q.y, 16_000_000, 16_000_000);
        lemma_mul_abs_le(p.z - q.z, p.z - q.z, 16_000_000, 16_000_000);
    }
    let dx = p.x - q.x;
    let dy = p.y - q.y;
    let dz = p.z - q.z;
    dx * dx + dy * dy + dz * dz
}

/// All points of a sequence are within the working-space coordinate bound.
pub open spec fn points_wf(s: Seq<Point3>) -> bool {
    forall|i: int| 0 <= i < s.len() ==> point_wf(#[trigger] s[i])
}

/// Among the centroids `0 .. n`, the index nearest to `p`; the lowest index
/// on a tie.
pub open spec fn nearest_upto(cents: Seq<Point3>, p: Point3, n: int) -> int
    decreases n,
{
    if n <= 1 {
        0
    } else {
        let b = nearest_upto(cents, p, n - 1);
        if dist2_s(cents[n - 1], p) < dist2_s(cents[b], p) {
            n - 1
        } else {
            b
        }
    }
}

/// The centroid index a point is assigned to.
pub open spec fn nearest_s(cents: Seq<Point3>, p: Point3) -> int {
    nearest_upto(cents, p, cents.len() as int)
}

pub proof fn lemma_nearest_upto_range(cents: Seq<Point3>, p: Point3, n: int)
    ensures
        0 <= nearest_upto(cents, p, n) < if n <= 1 {
            1int
        } else {
            n
        },
    decreases n,
{
    if n > 1 {
        lemma_nearest_upto_range(cents, p, n - 1);
    }
}

pub fn nearest_centroid(cents: &Vec<Point3>, p: Point3) -> (j: usize)
    requires
        1 <= cents@.len(),
        points_wf(cents@),
        point_wf(p),
    ensures
        j == nearest_s(cents@, p),
        0 <= j < cents@.len(),
{
    let mut best: usize = 0;
    let mut best_d: i64 = dist2(cents[0], p);
    let mut i: usize = 1;
    while i < cents.len()
        invariant
            1 <= i <= cents@.len(),
            points_wf(cents@),
            point_wf(p),
            best < i,
            best == nearest_upto(cents@, p, i as int),
            best_d == dist2_s(cents@[best as int], p),
        decreases cents@.len() - i,
    {
        let d = dist2(cents[i], p);
        if d < best_d {
            best = i;
            best_d = d;
        }
        i = i + 1;
    }
    best
}

/// The seeded deterministic initialization: `k` points taken at a seeded
/// offset and a fixed stride through the dataset.
pub open spec fn init_index_s(n: int, k: int, seed: int, j: int) -> int {
    ((seed % n) + j * (n / k)) % n
}

pub open spec fn init_centroids_s(data: Seq<Point3>, k: int, seed: int) -> Seq<Point3> {
    Seq::new(k as nat, |j: int| data[init_index_s(data.len() as int, k, seed, j)])
}

pub fn init_centroids(data: &Vec<Point3>, k: usize, seed: u64) -> (cents: Vec<Point3>)
    requires
        1 <= k <= data@.len(),
        data@.len() <= 0x1_0000_0000,
        points_wf(data@),
    ensures
        cents@ == init_centroids_s(data@, k as int, seed as int),
        cents@.len() == k,
        points_wf(cents@),
{
    let n = data.len();
    let n64 = n as u64;
    let stride = (n / k) as u64;
    let off = seed % n64;
    let mut cents: Vec<Point3> = Vec::new();
    let mut j: usize = 0;
    while j < k
        invariant
            0 <= j <= k,
            1 <= k <= data@.len(),
            data@.len() <= 0x1_0000_0000,
            points_wf(data@),
            n == data@.len(),
            n64 == n as u64,
            stride == (n as int) / (k as int),
            off == (seed as int) % (n as int),
            cents@.len() == j,
            forall|i: int|
                0 <= i < j ==> cents@[i] == data@[init_index_s(
                    data@.len() as int,
                    k as int,
                    seed as int,
                    i,
                )],
        decreases k - j,
    {
        proof {
            let kk = k as int;
            let ss = stride as int;
            let nn = n as int;
            lemma_mul_le(j as int, ss, kk - 1, ss);
            assert((kk - 1) * ss == kk * ss - ss) by (nonlinear_arith);
            vstd::arithmetic::div_mod::lemma_fundamental_div_mod(nn, kk);
            vstd::arithmetic::div_mod::lemma_mod_bound(nn, kk);
            assert(kk * ss <= nn);
        }
        let idx = ((off + (j as u64) * stride) % n64) as usize;
        proof {
            vstd::arithmetic::div_mod::lemma_mod_bound(
                off as int + (j as int) * (stride as int),
                n as int,
            );
        }
        cents.push(data[idx]);
        j = j + 1;
    }
    proof {
        assert(cents@ =~= init_centroids_s(data@, k as int, seed as int));
    }
    cents
}

/// Per-centroid accumulator of one assignment pass.
#[derive(Clone, Copy, Debug, PartialEq, Eq, Structural)]
struct Accum {
    sx: i64,
    sy: i64,
    sz: i64,
    n: i64,
}

/// Coordinate sums and count of the points among `data[0 .. n]` assigned to
/// centroid `j`.
pub open spec fn accum_s(data: Seq<Point3>, cents: Seq<Point3>, j: int, n: int) -> (
    int,
    int,
    int,
    int,
)
    decreases n,
{
    if n <= 0 {
        (0, 0, 0, 0)
    } else {
        let prev = accum_s(data, cents, j, n - 1);
        if nearest_s(cents, data[n - 1]) == j {
            (
                prev.0 + data[n - 1].x,
                prev.1 + data[n - 1].y,
                prev.2 + data[n - 1].z,
                prev.3 + 1,
            )
        } else {
            prev
        }
    }
}

pub proof fn lemma_accum_bounds(data: Seq<Point3>, cents: Seq<Point3>, j: int, n: int)
    requires
        points_wf(data),
        0 <= n <= data.len(),
    ensures
        0 <= accum_s(data, cents, j, n).3 <= n,
        abs_s(accum_s(data, cents, j, n).0) <= accum_s(data, cents, j, n).3 * 8_000_000,
        abs_s(accum_s(data, cents, j, n).1) <= accum_s(data, cents, j, n).3 * 8_000_000,
        abs_s(accum_s(data, cents, j, n).2) <= accum_s(data, cents, j, n).3 * 8_000_000,
    decreases n,
{
    if n > 0 {
        lemma_accum_bounds(data, cents, j, n - 1);
    }
}

/// The centroid `j` after one refinement step: the mean of its assigned
/// points, or the old centroid if none were assigned.
pub open spec fn update_centroid_s(data: Seq<Point3>, cents: Seq<Point3>, j: int) -> Point3 {
    let a = accum_s(data, cents, j, data.len() as int);
    if a.3 == 0 {
        cents[j]
    } else {
        Point3 {
            x: sdiv_s(a.0, a.3) as i64,
            y: sdiv_s(a.1, a.3) as i64,
            z: sdiv_s(a.2, a.3) as i64,
        }
    }
}

/// All centroids after one refinement step.
pub open spec fn step_cents_s(data: Seq<Point3>, cents: Seq<Point3>) -> Seq<Point3> {
    Seq::new(cents.len(), |j: int| update_centroid_s(data, cents, j))
}

/// The point count assigned to each centroid.
pub open spec fn counts_of_s(data: Seq<Point3>, cents: Seq<Point3>) -> Seq<int> {
    Seq::new(cents.len(), |j: int| accum_s(data, cents, j, data.len() as int).3)
}

/// One assignment-and-update pass: the new centroids and the per-centroid
/// counts of the assignment that produced them.
fn kmeans_step(data: &Vec<Point3>, cents: &Vec<Point3>) -> (r: (Vec<Point3>, Vec<i64>))
    requires
        1 <= data@.len() <= 0x1_0000_0000,
        1 <= cents@.len(),
        points_wf(data@),
        points_wf(cents@),
    ensures
        r.0@ == step_cents_s(data@, cents@),
        r.0@.len() == cents@.len(),
        points_wf(r.0@),
        r.1@.len() == cents@.len(),
        forall|j: int|
            0 <= j < cents@.len() ==> r.1@[j] as int == counts_of_s(data@, cents@)[j],
        forall|j: int| 0 <= j < cents@.len() ==> 0 <= #[trigger] r.1@[j] <= data@.len(),
{
    let k = cents.len();
    let mut accs: Vec<Accum> = Vec::new();
    let mut j0: usize = 0;
    while j0 < k
        invariant
            0 <= j0 <= k,
            accs@.len() == j0,
            forall|j: int|
                0 <= j < j0 ==> #[trigger] accs@[j] == (Accum { sx: 0i64, sy: 0i64, sz: 0i64, n: 0i64 }),
        decreases k - j0,
    {
        accs.push(Accum { sx: 0, sy: 0, sz: 0, n: 0 });
        j0 = j0 + 1;
    }
    let mut i: usize = 0;
    while i < data.len()
        invariant
            0 <= i <= data@.len(),
            data@.len() <= 0x1_0000_0000,
            1 <= cents@.len() == k,
            points_wf(data@),
            points_wf(cents@),
            accs@.len() == k,
            forall|j: int|
                0 <= j < k ==> {
                    let a = accum_s(data@, cents@, j, i as int);
                    (#[trigger] accs@[j]).sx == a.0 && accs@[j].sy == a.1 && accs@[j].sz == a.2
                        && accs@[j].n == a.3
                },
        decreases data@.len() - i,
    {
        let p = data[i];
        let j = nearest_centroid(cents, p);
        let a = accs[j];
        proof {
            lemma_accum_bounds(data@, cents@, j as int, i as int);
            assert(accum_s(data@, cents@, j as int, i as int).3 * 8_000_000 <= (i as int)
                * 8_000_000) by (nonlinear_arith)
                requires
                    accum_s(data@, cents@, j as int, i as int).3 <= i as int,
            {
            }
        }
        accs.set(j, Accum { sx: a.sx + p.x, sy: a.sy + p.y, sz: a.sz + p.z, n: a.n + 1 });
        i = i + 1;
        proof {
            assert forall|jj: int| 0 <= jj < k implies {
                let aa = accum_s(data@, cents@, jj, i as int);
                (#[trigger] accs@[jj]).sx == aa.0 && accs@[jj].sy == aa.1 && accs@[jj].sz == aa.2
                    && accs@[jj].n == aa.3
            } by {
                let prev = accum_s(data@, cents@, jj, i as int - 1);
                let q = data@[i as int - 1];
                assert(accum_s(data@, cents@, jj, i as int) == if nearest_s(cents@, q) == jj {
                    (prev.0 + q.x, prev.1 + q.y, prev.2 + q.z, prev.3 + 1)
                } else {
                    prev
                });
            }
        }
    }
    let mut new_cents: Vec<Point3> = Vec::new();
    let mut counts: Vec<i64> = Vec::new();
    let mut j: usize = 0;
    while j < k
        invariant
            0 <= j <= k,
            1 <= data@.len() <= 0x1_0000_0000,
            cents@.len() == k,
            points_wf(data@),
            points_wf(cents@),
            accs@.len() == k,
            forall|jj: int|
                0 <= jj < k ==> {
                    let a = accum_s(data@, cents@, jj, data@.len() as int);
                    (#[trigger] accs@[jj]).sx == a.0 && accs@[jj].sy == a.1 && accs@[jj].sz == a.2
                        && accs@[jj].n == a.3
                },
            new_cents@.len() == j,
            counts@.len() == j,
            forall|jj: int|
                0 <= jj < j ==> #[trigger] new_cents@[jj] == update_centroid_s(data@, cents@, jj)
                    && point_wf(new_cents@[jj]),
            forall|jj: int|
                0 <= jj < j ==> #[trigger] counts@[jj] as int == counts_of_s(data@, cents@)[jj]
                    && 0 <= counts@[jj] <= data@.len(),
        decreases k - j,
    {
        let a = accs[j];
        proof {
            lemma_accum_bounds(data@, cents@, j as int, data@.len() as int);
        }
        if a.n == 0 {
            new_cents.push(cents[j]);
        } else {
            proof {
                let aa = accum_s(data@, cents@, j as int, data@.len() as int);
                lemma_sdiv_s_le(aa.0, aa.3, 8_000_000);
                lemma_sdiv_s_le(aa.1, aa.3, 8_000_000);
                lemma_sdiv_s_le(aa.2, aa.3, 8_000_000);
            }
            new_cents.push(
                Point3 { x: sdiv(a.sx, a.n), y: sdiv(a.sy, a.n), z: sdiv(a.sz, a.n) },
            );
        }
        counts.push(a.n);
        j = j + 1;
    }
    proof {
        assert(new_cents@ =~= step_cents_s(data@, cents@));
    }
    (new_cents, counts)
}

/// The step converged: no centroid moved by more than the tolerance
/// (squared distances compared against the squared tolerance).
pub open spec fn converged_s(old: Seq<Point3>, new: Seq<Point3>, tol2: int) -> bool {
    forall|j: int| 0 <= j < new.len() ==> dist2_s(old[j], #[trigger] new[j]) <= tol2
}

fn converged(old: &Vec<Point3>, new: &Vec<Point3>, tol2: i64) -> (c: bool)
    requires
        old@.len() == new@.len(),
        points_wf(old@),
        points_wf(new@),
    ensures
        c == converged_s(old@, new@, tol2 as int),
{
    let mut j: usize = 0;
    let mut all: bool = true;
    while j < new.len()
        invariant
            0 <= j <= new@.len(),
            old@.len() == new@.len(),
            points_wf(old@),
            points_wf(new@),
            all == forall|jj: int|
                0 <= jj < j ==> dist2_s(old@[jj], #[trigger] new@[jj]) <= tol2 as int,
        decreases new@.len() - j,
    {
        let d = dist2(old[j], new[j]);
        all = all && d <= tol2;
        j = j + 1;
    }
    all
}

/// Iterative refinement from given centroids: repeat the step until it
/// converges or the iteration budget is spent; the counts are those of the
/// last assignment made.
pub open spec fn kmeans_run_s(data: Seq<Point3>, cents: Seq<Point3>, max_iters: int, tol2: int)
    -> (Seq<Point3>, Seq<int>, int)
    decreases max_iters,
{
    if max_iters <= 0 {
        (cents, counts_of_s(data, cents), 0)
    } else {
        let next = step_cents_s(data, cents);
        let cnts = counts_of_s(data, cents);
        if converged_s(cents, next, tol2) || max_iters == 1 {
            (next, cnts, 1)
        } else {
            let r = kmeans_run_s(data, next, max_iters - 1, tol2);
            (r.0, r.1, r.2 + 1)
        }
    }
}

/// The deterministic mini-batch size actually used: the configured size if
/// it can hold `k` centroids and is smaller than the dataset, else the whole
/// dataset.
pub open spec fn mini_eff_s(n: int, k: int, mini: Option<usize>) -> int {
    match mini {
        Some(m) => if k <= m < n {
            m as int
        } else {
            n
        },
        None => n,
    }
}

/// A deterministic stride subsample of `m` points.
pub open spec fn subsample_s(data: Seq<Point3>, m: int) -> Seq<Point3> {
    Seq::new(
        m as nat,
        |i: int|
            data[
                if (i * data.len()) / m < data.len() - 1 {
                    (i * data.len()) / m
                } else {
                    data.len() - 1
                }
            ],
    )
}

fn subsample(data: &Vec<Point3>, m: usize) -> (sub: Vec<Point3>)
    requires
        1 <= m <= data@.len(),
        data@.len() <= 0x1_0000_0000,
        points_wf(data@),
    ensures
        sub@ == subsample_s(data@, m as int),
        sub@.len() == m,
        points_wf(sub@),
{
    let n = data.len();
    let mut sub: Vec<Point3> = Vec::new();
    let mut i: usize = 0;
    while i < m
        invariant
            0 <= i <= m,
            1 <= m <= data@.len(),
            data@.len() <= 0x1_0000_0000,
            points_wf(data@),
            n == data@.len(),
            sub@.len() == i,
            forall|ii: int| 0 <= ii < i ==> #[trigger] sub@[ii] == subsample_s(data@, m as int)[ii],
        decreases m - i,
    {
        proof {
            lemma_mul_le(i as int, n as int, 0xFFFF_FFFF, 0x1_0000_0000);
            vstd::arithmetic::div_mod::lemma_div_basics_4((i as int) * (n as int), m as int);
        }
        let q = ((i as u64) * (n as u64)) / (m as u64);
        let idx64 = if q < (n as u64) - 1 {
            q
        } else {
            (n as u64) - 1
        };
        let idx = idx64 as usize;
        sub.push(data[idx]);
        proof {
            assert(sub@[i as int] == subsample_s(data@, m as int)[i as int]);
        }
        i = i + 1;
    }
    proof {
        assert(sub@ =~= subsample_s(data@, m as int));
    }
    sub
}

/// A point clamped into the working-space coordinate bound.
pub open spec fn clamp_point_s(p: Point3) -> Point3 {
    Point3 {
        x: clamp_s(p.x as int, -8_000_000, 8_000_000) as i64,
        y: clamp_s(p.y as int, -8_000_000, 8_000_000) as i64,
        z: clamp_s(p.z as int, -8_000_000, 8_000_000) as i64,
    }
}

/// Warm-start centroids, clamped coordinate-wise.
pub open spec fn clamp_points_s(ps: Seq<Point3>) -> Seq<Point3> {
    Seq::new(ps.len(), |i: int| clamp_point_s(ps[i]))
}

fn clamp_points(ps: &Vec<Point3>) -> (r: Vec<Point3>)
    ensures
        r@ == clamp_points_s(ps@),
        r@.len() == ps@.len(),
        points_wf(r@),
{
    let mut r: Vec<Point3> = Vec::new();
    let mut i: usize = 0;
    while i < ps.len()
        invariant
            0 <= i <= ps@.len(),
            r@.len() == i,
            forall|ii: int| 0 <= ii < i ==> #[trigger] r@[ii] == clamp_point_s(ps@[ii]),
        decreases ps@.len() - i,
    {
        let p = ps[i];
        r.push(
            Point3 {
                x: clamp_i64(p.x, -8_000_000, 8_000_000),
                y: clamp_i64(p.y, -8_000_000, 8_000_000),
                z: clamp_i64(p.z, -8_000_000, 8_000_000),
            },
        );
        i = i + 1;
    }
    proof {
        assert(r@ =~= clamp_points_s(ps@));
    }
    r
}

/// The initial centroids: valid warm-start centroids clamped, else the
/// seeded selection.
pub open spec fn initial_cents_s(base: Seq<Point3>, k: int, seed: int, warm: Option<Vec<Point3>>)
    -> Seq<Point3> {
    match warm {
        Some(ws) => if ws@.len() == k {
            clamp_points_s(ws@)
        } else {
            init_centroids_s(base, k, seed)
        },
        None => init_centroids_s(base, k, seed),
    }
}

/// The whole clustering run as a function of the dataset and the
/// configuration: centroids, per-centroid counts over the full dataset, and
/// iterations used.
pub open spec fn kmeans_spec(data: Seq<Point3>, cfg: KMeansConfig) -> (Seq<Point3>, Seq<int>, int) {
    let n = data.len() as int;
    let m = mini_eff_s(n, cfg.k as int, cfg.mini_batch);
    let base = subsample_s(data, m);
    let init = initial_cents_s(base, cfg.k as int, cfg.seed as int, cfg.warm_start);
    let r = kmeans_run_s(base, init, cfg.max_iters as int, cfg.tol_milli * cfg.tol_milli);
    if m == n {
        r
    } else {
        (r.0, counts_of_s(data, r.0), r.2)
    }
}

/// Partial sum of the first `upto` counts.
pub open spec fn counts_sum_s(counts: Seq<int>, upto: int) -> int
    decreases upto,
{
    if upto <= 0 {
        0
    } else {
        counts_sum_s(counts, upto - 1) + counts[upto - 1]
    }
}

/// Partial sum of per-centroid counts among the first `n` points.
spec fn accum_count_sum(data: Seq<Point3>, cents: Seq<Point3>, jmax: int, n: int) -> int
    decreases jmax,
{
    if jmax <= 0 {
        0
    } else {
        accum_count_sum(data, cents, jmax - 1, n) + accum_s(data, cents, jmax - 1, n).3
    }
}

proof fn lemma_accum_count_sum_step(data: Seq<Point3>, cents: Seq<Point3>, jmax: int, n: int)
    requires
        1 <= n <= data.len(),
        0 <= jmax,
    ensures
        accum_count_sum(data, cents, jmax, n) == accum_count_sum(data, cents, jmax, n - 1) + if
            nearest_s(cents, data[n - 1]) < jmax {
            1int
        } else {
            0int
        },
    decreases jmax,
{
    lemma_nearest_upto_range(cents, data[n - 1], cents.len() as int);
    if jmax > 0 {
        lemma_accum_count_sum_step(data, cents, jmax - 1, n);
        let prev = accum_s(data, cents, jmax - 1, n - 1);
        assert(accum_s(data, cents, jmax - 1, n).3 == prev.3 + if nearest_s(cents, data[n - 1])
            == jmax - 1 {
            1int
        } else {
            0int
        });
        assert(accum_count_sum(data, cents, jmax, n) == accum_count_sum(data, cents, jmax - 1, n)
            + accum_s(data, cents, jmax - 1, n).3);
        assert(accum_count_sum(data, cents, jmax, n - 1) == accum_count_sum(
            data,
            cents,
            jmax - 1,
            n - 1,
        ) + accum_s(data, cents, jmax - 1, n - 1).3);
    }
}

proof fn lemma_accum_count_total(data: Seq<Point3>, cents: Seq<Point3>, n: int)
    requires
        1 <= cents.len(),
        0 <= n <= data.len(),
    ensures
        accum_count_sum(data, cents, cents.len() as int, n) == n,
    decreases n,
{
    if n == 0 {
        assert forall|jmax: int| 0 <= jmax implies accum_count_sum(data, cents, jmax, 0) == 0 by {
            lemma_accum_count_sum_zero(data, cents, jmax);
        }
    } else {
        lemma_accum_count_total(data, cents, n - 1);
        lemma_nearest_upto_range(cents, data[n - 1], cents.len() as int);
        lemma_accum_count_sum_step(data, cents, cents.len() as int, n);
    }
}

proof fn lemma_accum_count_sum_zero(data: Seq<Point3>, cents: Seq<Point3>, jmax: int)
    ensures
        accum_count_sum(data, cents, jmax, 0) == 0,
    decreases jmax,
{
    if jmax > 0 {
        lemma_accum_count_sum_zero(data, cents, jmax - 1);
    }
}

proof fn lemma_counts_sum_is_accum(data: Seq<Point3>, cents: Seq<Point3>, jmax: int)
    requires
        0 <= jmax <= cents.len(),
    ensures
        counts_sum_s(counts_of_s(data, cents), jmax) == accum_count_sum(
            data,
            cents,
            jmax,
            data.len() as int,
        ),
    decreases jmax,
{
    if jmax > 0 {
        lemma_counts_sum_is_accum(data, cents, jmax - 1);
    }
}

/// The per-centroid counts of any assignment pass sum to the number of
/// points: every point lands in exactly one cluster.
pub proof fn lemma_counts_total(data: Seq<Point3>, cents: Seq<Point3>)
    requires
        1 <= cents.len(),
    ensures
        counts_sum_s(counts_of_s(data, cents), cents.len() as int) == data.len(),
{
    lemma_counts_sum_is_accum(data, cents, cents.len() as int);
    lemma_accum_count_total(data, cents, data.len() as int);
}

/// An integer count sequence as machine sizes.
pub open spec fn counts_usize_s(s: Seq<int>) -> Seq<usize> {
    Seq::new(s.len(), |j: int| s[j] as usize)
}

/// Partial sum of a vector of counts, for stating the count total of a
/// result.
pub open spec fn usize_sum_s(counts: Seq<usize>, upto: int) -> int
    decreases upto,
{
    if upto <= 0 {
        0
    } else {
        usize_sum_s(counts, upto - 1) + counts[upto - 1]
    }
}

/// Standard iterative k-means refinement, deterministic in the dataset and
/// the configuration. Never fails for `k >= 1` and a non-empty dataset;
/// callers clamp `k` to the dataset size beforehand.
pub fn run_kmeans(data: &Vec<Point3>, cfg: &KMeansConfig) -> (res: KMeansResult)
    requires
        1 <= data@.len() <= 0x1_0000_0000,
        1 <= cfg.k <= data@.len(),
        1 <= cfg.max_iters,
        0 <= cfg.tol_milli <= 1_000_000,
        points_wf(data@),
    ensures
        ({
            let spec_r = kmeans_spec(data@, *cfg);
            &&& res.centroids@ == spec_r.0
            &&& res.counts@.len() == spec_r.1.len()
            &&& forall|j: int| 0 <= j < res.counts@.len() ==> res.counts@[j] as int == spec_r.1[j]
            &&& res.iterations as int == spec_r.2
        }),
        res.centroids@.len() == cfg.k,
        res.counts@.len() == cfg.k,
        points_wf(res.centroids@),
        1 <= res.iterations <= cfg.max_iters,
        usize_sum_s(res.counts@, cfg.k as int) == data@.len(),
        forall|j: int| 0 <= j < res.counts@.len() ==> #[trigger] res.counts@[j] <= data@.len(),
{
    let n = data.len();
    let k = cfg.k;
    proof {
        assert(cfg.tol_milli * cfg.tol_milli <= 1_000_000_000_000) by (nonlinear_arith)
            requires
                0 <= cfg.tol_milli <= 1_000_000,
        {
        }
    }
    let tol2 = cfg.tol_milli * cfg.tol_milli;
    let m_eff = match &cfg.mini_batch {
        Some(m) => if k <= *m && *m < n {
            *m
        } else {
            n
        },
        None => n,
    };
    let base = subsample(data, m_eff);
    let mut cents = match &cfg.warm_start {
        Some(ws) => if ws.len() == k {
            clamp_points(ws)
        } else {
            init_centroids(&base, k, cfg.seed)
        },
        None => init_centroids(&base, k, cfg.seed),
    };
    let ghost init = cents@;
    let ghost full = kmeans_run_s(base@, init, cfg.max_iters as int, tol2 as int);
    let mut iters: usize = 0;
    let mut counts_i: Vec<i64> = Vec::new();
    loop
        invariant_except_break
            0 <= iters < cfg.max_iters,
            1 <= base@.len() <= 0x1_0000_0000,
            1 <= cents@.len() == k,
            points_wf(base@),
            points_wf(cents@),
            full == kmeans_run_s(base@, init, cfg.max_iters as int, tol2 as int),
            ({
                let r = kmeans_run_s(base@, cents@, cfg.max_iters as int - iters, tol2 as int);
                full.0 == r.0 && full.1 == r.1 && full.2 == r.2 + iters
            }),
        ensures
            cents@ == full.0,
            cents@.len() == k,
            counts_i@.len() == k,
            forall|j: int| 0 <= j < k ==> counts_i@[j] as int == full.1[j],
            forall|j: int| 0 <= j < k ==> 0 <= #[trigger] counts_i@[j] <= base@.len(),
            points_wf(cents@),
            1 <= iters <= cfg.max_iters,
            iters as int == full.2,
        decreases cfg.max_iters - iters,
    {
        let (next, cnts) = kmeans_step(&base, &cents);
        let conv = converged(&cents, &next, tol2);
        iters = iters + 1;
        if conv || iters == cfg.max_iters {
            proof {
                let left = cfg.max_iters as int - (iters - 1);
                let r = kmeans_run_s(base@, cents@, left, tol2 as int);
                assert(r.0 == next@ && r.1 == counts_of_s(base@, cents@) && r.2 == 1);
            }
            counts_i = cnts;
            cents = next;
            break ;
        }
        proof {
            let left = cfg.max_iters as int - (iters - 1);
            let r = kmeans_run_s(base@, cents@, left, tol2 as int);
            let r2 = kmeans_run_s(base@, next@, left - 1, tol2 as int);
            assert(r.0 == r2.0 && r.1 == r2.1 && r.2 == r2.2 + 1);
        }
        cents = next;
    }
    let final_counts_i: Vec<i64> = if m_eff < n {
        let step_res = kmeans_step(data, &cents);
        step_res.1
    } else {
        counts_i
    };
    proof {
        if m_eff < n {
            lemma_counts_total(data@, cents@);
        } else {
            lemma_run_counts(base@, init, cfg.max_iters as int, tol2 as int);
            lemma_init_for_counts_len(base@, init, cfg.max_iters as int, tol2 as int);
            lemma_counts_total(base@, init_for_counts(base@, init, cfg.max_iters as int,
                tol2 as int));
        }
    }
    let mut counts: Vec<usize> = Vec::new();
    let mut j: usize = 0;
    while j < k
        invariant
            0 <= j <= k,
            final_counts_i@.len() == k,
            counts@.len() == j,
            n == data@.len(),
            forall|jj: int| 0 <= jj < k ==> 0 <= #[trigger] final_counts_i@[jj] <= n,
            forall|jj: int| 0 <= jj < j ==> counts@[jj] as int == #[trigger] final_counts_i@[jj],
        decreases k - j,
    {
        counts.push(final_counts_i[j] as usize);
        j = j + 1;
    }
    proof {
        assert forall|j: int| 0 <= j < counts@.len() implies #[trigger] counts@[j]
            <= data@.len() by {
            assert(counts@[j] as int == final_counts_i@[j]);
        }
        assert(m_eff as int == mini_eff_s(data@.len() as int, k as int, cfg.mini_batch));
        assert(base@ == subsample_s(data@, m_eff as int));
        assert(init == initial_cents_s(base@, k as int, cfg.seed as int, cfg.warm_start));
        if m_eff < n {
            assert forall|jj: int| 0 <= jj < k implies counts@[jj] as int == counts_of_s(
                data@,
                cents@,
            )[jj] by {
                assert(counts@[jj] as int == final_counts_i@[jj] as int);
            }
            lemma_sum_transfer(counts@, counts_of_s(data@, cents@), k as int);
        } else {
            assert forall|jj: int| 0 <= jj < k implies counts@[jj] as int == full.1[jj] by {
                assert(counts@[jj] as int == final_counts_i@[jj] as int);
            }
            lemma_sum_transfer(counts@, full.1, k as int);
        }
    }
    KMeansResult { centroids: cents, counts, iterations: iters }
}

/// The centroids whose assignment produced the counts of a run: those of
/// the iteration before the last.
pub open spec fn init_for_counts(data: Seq<Point3>, cents: Seq<Point3>, max_iters: int, tol2: int)
    -> Seq<Point3>
    decreases max_iters,
{
    if max_iters <= 0 {
        cents
    } else {
        let next = step_cents_s(data, cents);
        if converged_s(cents, next, tol2) || max_iters == 1 {
            cents
        } else {
            init_for_counts(data, next, max_iters - 1, tol2)
        }
    }
}

proof fn lemma_init_for_counts_len(data: Seq<Point3>, cents: Seq<Point3>, max_iters: int,
    tol2: int)
    ensures
        init_for_counts(data, cents, max_iters, tol2).len() == cents.len(),
    decreases max_iters,
{
    if max_iters > 0 {
        let next = step_cents_s(data, cents);
        if !(converged_s(cents, next, tol2) || max_iters == 1) {
            lemma_init_for_counts_len(data, next, max_iters - 1, tol2);
        }
    }
}

/// The counts of a run are those of the assignment against the centroids of
/// the iteration before the last.
proof fn lemma_run_counts(data: Seq<Point3>, cents: Seq<Point3>, max_iters: int, tol2: int)
    ensures
        kmeans_run_s(data, cents, max_iters, tol2).1 == counts_of_s(
            data,
            init_for_counts(data, cents, max_iters, tol2),
        ),
    decreases max_iters,
{
    if max_iters > 0 {
        let next = step_cents_s(data, cents);
        if !(converged_s(cents, next, tol2) || max_iters == 1) {
            lemma_run_counts(data, next, max_iters - 1, tol2);
        }
    }
}

/// A `usize` count vector that matches an integer count sequence
/// element-wise has the same partial sums.
proof fn lemma_sum_transfer(counts: Seq<usize>, ints: Seq<int>, upto: int)
    requires
        0 <= upto <= counts.len(),
        upto <= ints.len(),
        forall|j: int| 0 <= j < upto ==> counts[j] as int == #[trigger] ints[j],
    ensures
        usize_sum_s(counts, upto) == counts_sum_s(ints, upto),
    decreases upto,
{
    if upto > 0 {
        lemma_sum_transfer(counts, ints, upto - 1);
    }
}

} // verus!

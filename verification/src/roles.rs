//! Single-color role heuristics: background, text and border selection over
//! the dominance-ordered cluster list, with their confidence values.
use vstd::prelude::*;

use crate::cluster::{cluster_wf, clusters_wf, ColorCluster};
use crate::hsv::{rgb8_to_hsv, rgb8_to_hsv_s, Hsv};
use crate::lab::{
    contrast_ratio, contrast_s, delta_e_cie76, delta_e_s, lab_canonical, lab_wf,
    lemma_canonical_is_wf, rgb8_to_lab, rgb8_to_lab_s, Lab, Rgb8,
};

verus! {

/// A cluster makes a good background when its saturation is below 0.4 and
/// its lightness is strictly between 15 and 85.
pub open spec fn good_background(c: ColorCluster) -> bool {
    c.hsv.s < 400 && 15_000 < c.lab.l < 85_000
}

/// The first cluster from `i` on that makes a good background.
pub open spec fn first_good_bg(clusters: Seq<ColorCluster>, i: int) -> Option<int>
    decreases clusters.len() - i,
{
    if i < 0 || i >= clusters.len() {
        None
    } else if good_background(clusters[i]) {
        Some(i)
    } else {
        first_good_bg(clusters, i + 1)
    }
}

/// A found background index lies within the cluster list.
pub proof fn lemma_first_good_bg_range(clusters: Seq<ColorCluster>, i: int)
    requires
        0 <= i,
        first_good_bg(clusters, i).is_some(),
    ensures
        i <= first_good_bg(clusters, i).unwrap() < clusters.len(),
    decreases clusters.len() - i,
{
    if i < clusters.len() && !good_background(clusters[i]) {
        lemma_first_good_bg_range(clusters, i + 1);
    }
}

/// Background selection: scan clusters in dominance order and take the
/// first good one at confidence 0.9; if none qualifies, fall back to the
/// most dominant cluster at confidence 0.5.
pub fn select_background(clusters: &Vec<ColorCluster>) -> (r: (usize, i64))
    requires
        1 <= clusters@.len(),
    ensures
        r == match first_good_bg(clusters@, 0) {
            Some(i) => (i as usize, 900i64),
            None => (0usize, 500i64),
        },
        0 <= r.0 < clusters@.len(),
        r.1 == 900 || r.1 == 500,
{
    let mut i: usize = 0;
    while i < clusters.len()
        invariant
            0 <= i <= clusters@.len(),
            first_good_bg(clusters@, 0) == first_good_bg(clusters@, i as int),
        decreases clusters@.len() - i,
    {
        let c = &clusters[i];
        if c.hsv.s < 400 && c.lab.l > 15_000 && c.lab.l < 85_000 {
            return (i, 900);
        }
        i = i + 1;
    }
    (0, 500)
}

/// Index and value of the highest contrast against the background among the
/// first `n` clusters; the earliest cluster on a tie.
pub open spec fn text_best_upto(clusters: Seq<ColorCluster>, bg: Lab, n: int) -> (int, int)
    decreases n,
{
    if n <= 1 {
        (0, contrast_s(bg, clusters[0].lab))
    } else {
        let prev = text_best_upto(clusters, bg, n - 1);
        let c = contrast_s(bg, clusters[n - 1].lab);
        if c > prev.1 {
            (n - 1, c)
        } else {
            prev
        }
    }
}

/// The best value is the contrast of the best index.
pub proof fn lemma_text_best_value(clusters: Seq<ColorCluster>, bg: Lab, n: int)
    requires
        1 <= n,
    ensures
        text_best_upto(clusters, bg, n).1 == contrast_s(
            bg,
            clusters[text_best_upto(clusters, bg, n).0].lab,
        ),
    decreases n,
{
    if n > 1 {
        lemma_text_best_value(clusters, bg, n - 1);
    }
}

/// Text selection: the cluster with the highest contrast ratio against the
/// background; confidence 0.9 when it clears the WCAG AA threshold of 4.5,
/// else 0.6. (The synthetic substitution below 4.5 is made by the pipeline.)
pub fn select_text_color(clusters: &Vec<ColorCluster>, bg_lab: Lab) -> (r: (usize, i64))
    requires
        1 <= clusters@.len(),
        clusters_wf(clusters@),
        lab_wf(bg_lab),
    ensures
        ({
            let best = text_best_upto(clusters@, bg_lab, clusters@.len() as int);
            &&& r.0 as int == best.0
            &&& r.1 == if best.1 >= 4500 {
                900i64
            } else {
                600i64
            }
        }),
        0 <= r.0 < clusters@.len(),
{
    proof {
        assert(cluster_wf(clusters@[0]));
        lemma_canonical_is_wf(clusters@[0].lab);
    }
    let mut best: usize = 0;
    let mut best_c: i64 = contrast_ratio(bg_lab, clusters[0].lab);
    let mut i: usize = 1;
    while i < clusters.len()
        invariant
            1 <= i <= clusters@.len(),
            clusters_wf(clusters@),
            lab_wf(bg_lab),
            best < i,
            (best as int, best_c as int) == text_best_upto(clusters@, bg_lab, i as int),
        decreases clusters@.len() - i,
    {
        proof {
            assert(cluster_wf(clusters@[i as int]));
            lemma_canonical_is_wf(clusters@[i as int].lab);
        }
        let c = contrast_ratio(bg_lab, clusters[i].lab);
        if c > best_c {
            best = i;
            best_c = c;
        }
        i = i + 1;
    }
    let conf: i64 = if best_c >= 4500 {
        900
    } else {
        600
    };
    (best, conf)
}

/// The border score of a cluster: perceptual distance from the background
/// (milli-units of distance over 100), plus the saturation when it lies in
/// the mid range 0.2 to 0.6.
pub open spec fn border_score_s(c: ColorCluster, bg: Lab) -> int {
    let d = delta_e_s(bg, c.lab);
    if 200 <= c.hsv.s <= 600 {
        d / 100 + c.hsv.s
    } else {
        d / 100
    }
}

/// Best border candidate among the first `n` clusters: the unused cluster
/// of maximum score whose distance from the background exceeds 20, taking
/// the earliest on a tie; `(0, 0)` when none qualifies.
pub open spec fn border_best_upto(
    clusters: Seq<ColorCluster>,
    bg: Lab,
    used: Seq<usize>,
    n: int,
) -> (int, int)
    decreases n,
{
    if n <= 0 {
        (0, 0)
    } else {
        let prev = border_best_upto(clusters, bg, used, n - 1);
        let score = border_score_s(clusters[n - 1], bg);
        if !used.contains((n - 1) as usize) && score > prev.1 && delta_e_s(bg, clusters[n - 1].lab)
            > 20_000 {
            (n - 1, score)
        } else {
            prev
        }
    }
}

/// The first cluster index not in the used set, or 0 when every cluster is
/// used.
pub open spec fn first_unused(used: Seq<usize>, n: int, i: int) -> int
    decreases n - i,
{
    if i < 0 || i >= n {
        0
    } else if !used.contains(i as usize) {
        i
    } else {
        first_unused(used, n, i + 1)
    }
}

fn contains_idx(used: &Vec<usize>, idx: usize) -> (r: bool)
    ensures
        r == used@.contains(idx),
{
    let mut i: usize = 0;
    while i < used.len()
        invariant
            0 <= i <= used@.len(),
            forall|j: int| 0 <= j < i ==> used@[j] != idx,
        decreases used@.len() - i,
    {
        if used[i] == idx {
            return true;
        }
        i = i + 1;
    }
    false
}

/// Border selection among clusters not yet used by other roles: the
/// maximum-score cluster with distance above 20 from the background, at
/// confidence 0.8 when the score exceeds 0.5 and 0.5 otherwise; if nothing
/// qualifies, the first unused cluster at confidence 0.5.
#[verifier::rlimit(80)]
pub fn select_border_color(clusters: &Vec<ColorCluster>, bg_lab: Lab, used: &Vec<usize>) -> (r: (
    usize,
    i64,
))
    requires
        1 <= clusters@.len(),
        clusters_wf(clusters@),
        lab_wf(bg_lab),
    ensures
        ({
            let best = border_best_upto(clusters@, bg_lab, used@, clusters@.len() as int);
            if best.1 > 0 {
                r.0 as int == best.0 && r.1 == if best.1 > 500 {
                    800i64
                } else {
                    500i64
                }
            } else {
                r.0 as int == first_unused(used@, clusters@.len() as int, 0) && r.1 == 500
            }
        }),
        0 <= r.0 < clusters@.len(),
{
    let mut best: usize = 0;
    let mut best_score: i64 = 0;
    let mut i: usize = 0;
    while i < clusters.len()
        invariant
            0 <= i <= clusters@.len(),
            clusters_wf(clusters@),
            lab_wf(bg_lab),
            best < clusters@.len() || best == 0,
            (best as int, best_score as int) == border_best_upto(clusters@, bg_lab, used@,
                i as int),
            best_score >= 0,
        decreases clusters@.len() - i,
    {
        proof {
            assert(cluster_wf(clusters@[i as int]));
            lemma_canonical_is_wf(clusters@[i as int].lab);
        }
        let is_used = contains_idx(used, i);
        if !is_used {
            let d = delta_e_cie76(bg_lab, clusters[i].lab);
            let s = clusters[i].hsv.s;
            let score = if 200 <= s && s <= 600 {
                crate::fx::sdiv(d, 100) + s
            } else {
                crate::fx::sdiv(d, 100)
            };
            if score > best_score && d > 20_000 {
                best = i;
                best_score = score;
            }
        } else {
            proof {
                assert(border_best_upto(clusters@, bg_lab, used@, i as int + 1)
                    == border_best_upto(clusters@, bg_lab, used@, i as int));
            }
        }
        i = i + 1;
    }
    if best_score > 0 {
        let conf: i64 = if best_score > 500 {
            800
        } else {
            500
        };
        (best, conf)
    } else {
        let mut j: usize = 0;
        while j < clusters.len()
            invariant
                0 <= j <= clusters@.len(),
                1 <= clusters@.len(),
                border_best_upto(clusters@, bg_lab, used@, clusters@.len() as int).1 == 0,
                first_unused(used@, clusters@.len() as int, 0) == first_unused(used@,
                    clusters@.len() as int, j as int),
            decreases clusters@.len() - j,
        {
            let is_used = contains_idx(used, j);
            if !is_used {
                return (j, 500);
            }
            j = j + 1;
        }
        (0, 500)
    }
}

/// The synthetic near-white text fallback (RGB 220, 220, 220).
pub fn generate_light_text() -> (r: (Rgb8, Hsv, Lab))
    ensures
        r.0 == (Rgb8 { r: 220, g: 220, b: 220 }),
        r.1 == rgb8_to_hsv_s(r.0),
        r.2 == rgb8_to_lab_s(r.0),
        lab_canonical(r.2),
{
    let rgb = Rgb8 { r: 220, g: 220, b: 220 };
    (rgb, rgb8_to_hsv(rgb), rgb8_to_lab(rgb))
}

/// The synthetic near-black text fallback (RGB 30, 30, 30).
pub fn generate_dark_text() -> (r: (Rgb8, Hsv, Lab))
    ensures
        r.0 == (Rgb8 { r: 30, g: 30, b: 30 }),
        r.1 == rgb8_to_hsv_s(r.0),
        r.2 == rgb8_to_lab_s(r.0),
        lab_canonical(r.2),
{
    let rgb = Rgb8 { r: 30, g: 30, b: 30 };
    (rgb, rgb8_to_hsv(rgb), rgb8_to_lab(rgb))
}

} // verus!

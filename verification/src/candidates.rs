//! The candidate generator: per role (accent, active item) a ranked,
//! deduplicated list of color candidates — direct cluster colors,
//! lightness-adjusted variants, synthesized interpolations between
//! background and text, and fixed neutral-gray anchors — each tested
//! against the role's guardrails.
use vstd::prelude::*;

use crate::cluster::{cluster_wf, clusters_wf, ColorCluster};
use crate::fx::{clamp_i64, clamp_s, sdiv, sdiv_s};
use crate::lab::{
    contrast_ratio, contrast_s, delta_e_cie76, delta_e_s, lab_canonical, lab_wf,
    lemma_canonical_is_wf, Lab,
};

verus! {

/// Provenance of a role-color candidate.
#[derive(Clone, Copy, Debug, PartialEq, Eq, Structural)]
pub enum Origin {
    /// Directly a cluster color.
    Cluster(usize),
    /// A cluster color with its lightness stepped by the given milli-amount.
    Adjusted(usize, i64),
    /// Interpolated between background and text.
    SyntheticMidline,
    /// A neutral gray anchor at the given milli-lightness.
    SyntheticGray(i64),
    /// Neutral at the background's lightness (last-resort fallback).
    SyntheticBgNeutral,
    /// Neutral at the text's lightness (last-resort fallback).
    SyntheticTextNeutral,
    /// The near-white or near-black text substitute used when no cluster
    /// reaches readable contrast against the background.
    SyntheticSubstitute,
}

/// A ranked cluster index.
#[derive(Clone, Copy, Debug, PartialEq, Eq, Structural)]
pub struct Candidate {
    pub index: usize,
    pub score: i64,
}

/// A role-color candidate: Lab coordinates, the source cluster when not
/// synthetic, its provenance, the provenance rank (0 direct, 1 adjusted,
/// 2 synthetic) and the role-specific base score in milli-units.
#[derive(Clone, Copy, Debug, PartialEq, Eq, Structural)]
pub struct RoleColorCandidate {
    pub lab: Lab,
    pub source_cluster_index: Option<usize>,
    pub origin: Origin,
    pub provenance_rank: u8,
    pub base_score: i64,
}

pub open spec fn candidate_wf(c: RoleColorCandidate) -> bool {
    &&& lab_wf(c.lab)
    &&& c.provenance_rank <= 2
    &&& 0 <= c.base_score <= 10_000
}

pub open spec fn candidates_wf(s: Seq<RoleColorCandidate>) -> bool {
    forall|i: int| 0 <= i < s.len() ==> candidate_wf(#[trigger] s[i])
}

/// Confidence of a resolved role color, from provenance rank and base
/// score: a direct cluster color scoring above 2.0 gets 0.9, other direct
/// colors 0.75, lightness-adjusted ones 0.7, synthetic ones 0.45.
pub open spec fn confidence_s(c: RoleColorCandidate) -> int {
    if c.provenance_rank == 0 {
        if c.base_score > 2000 {
            900
        } else {
            750
        }
    } else if c.provenance_rank == 1 {
        700
    } else {
        450
    }
}

impl RoleColorCandidate {
    /// Confidence is a pure function of the candidate, never stored.
    pub fn confidence(&self) -> (r: i64)
        ensures
            r == confidence_s(*self),
            0 < r <= 1000,
    {
        if self.provenance_rank == 0 {
            if self.base_score > 2000 {
                900
            } else {
                750
            }
        } else if self.provenance_rank == 1 {
            700
        } else {
            450
        }
    }
}

/// Guardrail thresholds for a single role: minimum contrast against
/// background and text, optional peer minimums, and the lightness
/// adjustment step and budget.
#[derive(Clone, Copy, Debug, PartialEq, Eq, Structural)]
pub struct GuardrailConfig {
    pub min_contrast_bg: i64,
    pub min_contrast_text: i64,
    pub min_contrast_peer: Option<i64>,
    pub min_delta_e_peer: Option<i64>,
    pub adjust_step: i64,
    pub max_adjust_steps: usize,
}

/// The pure guardrail predicate: passes iff both contrast floors hold and,
/// for each configured peer threshold, a peer value is present and meets
/// it. A missing peer value with a configured threshold fails.
pub open spec fn meets_guardrails_s(
    contrast_bg: int,
    contrast_text: int,
    cfg: GuardrailConfig,
    peer_contrast: Option<i64>,
    peer_delta_e: Option<i64>,
) -> bool {
    &&& contrast_bg >= cfg.min_contrast_bg
    &&& contrast_text >= cfg.min_contrast_text
    &&& match cfg.min_contrast_peer {
        Some(m) => match peer_contrast {
            Some(a) => a >= m,
            None => false,
        },
        None => true,
    }
    &&& match cfg.min_delta_e_peer {
        Some(m) => match peer_delta_e {
            Some(a) => a >= m,
            None => false,
        },
        None => true,
    }
}

pub fn meets_guardrails(
    contrast_bg: i64,
    contrast_text: i64,
    cfg: &GuardrailConfig,
    peer_contrast: Option<i64>,
    peer_delta_e: Option<i64>,
) -> (r: bool)
    ensures
        r == meets_guardrails_s(
            contrast_bg as int,
            contrast_text as int,
            *cfg,
            peer_contrast,
            peer_delta_e,
        ),
{
    if contrast_bg < cfg.min_contrast_bg || contrast_text < cfg.min_contrast_text {
        return false;
    }
    if let Some(m) = cfg.min_contrast_peer {
        match peer_contrast {
            Some(a) => if a < m {
                return false;
            },
            None => {
                return false;
            },
        }
    }
    if let Some(m) = cfg.min_delta_e_peer {
        match peer_delta_e {
            Some(a) => if a < m {
                return false;
            },
            None => {
                return false;
            },
        }
    }
    true
}

/// Two Lab colors are close when their perceptual distance is below the
/// tolerance.
pub open spec fn lab_close_s(a: Lab, b: Lab, tol: int) -> bool {
    delta_e_s(a, b) < tol
}

pub fn lab_close(a: Lab, b: Lab, tol: i64) -> (r: bool)
    requires
        lab_wf(a),
        lab_wf(b),
    ensures
        r == lab_close_s(a, b, tol as int),
{
    let d = delta_e_cie76(a, b);
    d < tol
}

/// A candidate list already holds a color close to this one.
pub open spec fn has_close_s(s: Seq<RoleColorCandidate>, lab: Lab) -> bool {
    exists|i: int| 0 <= i < s.len() && lab_close_s(#[trigger] s[i].lab, lab, 500)
}

/// Deduplicated push: the candidate is appended unless a collected one is
/// within 0.5 perceptual distance of it.
pub open spec fn push_unique_s(s: Seq<RoleColorCandidate>, c: RoleColorCandidate)
    -> Seq<RoleColorCandidate> {
    if has_close_s(s, c.lab) {
        s
    } else {
        s.push(c)
    }
}

pub fn push_candidate_if_unique(candidates: &mut Vec<RoleColorCandidate>, c: RoleColorCandidate)
    requires
        candidates_wf(old(candidates)@),
        candidate_wf(c),
    ensures
        final(candidates)@ == push_unique_s(old(candidates)@, c),
        candidates_wf(final(candidates)@),
        old(candidates)@.len() <= final(candidates)@.len() <= old(candidates)@.len() + 1,
{
    let mut i: usize = 0;
    let n = candidates.len();
    while i < n
        invariant
            0 <= i <= n,
            n == candidates@.len(),
            candidates_wf(candidates@),
            lab_wf(c.lab),
            forall|j: int| 0 <= j < i ==> !lab_close_s(#[trigger] candidates@[j].lab, c.lab, 500),
        decreases n - i,
    {
        proof {
            assert(candidate_wf(candidates@[i as int]));
        }
        if lab_close(candidates[i].lab, c.lab, 500) {
            return ;
        }
        i = i + 1;
    }
    candidates.push(c);
}

/// Stable descending insertion of a ranked cluster candidate.
pub open spec fn insert_cand_s(s: Seq<Candidate>, c: Candidate) -> Seq<Candidate>
    decreases s.len(),
{
    if s.len() == 0 {
        seq![c]
    } else if s.last().score >= c.score {
        s.push(c)
    } else {
        insert_cand_s(s.drop_last(), c).push(s.last())
    }
}

/// Stable insertion sort by descending score; scores are integers, so the
/// ordering is total and no not-a-number case arises.
pub open spec fn sort_cand_s(s: Seq<Candidate>) -> Seq<Candidate>
    decreases s.len(),
{
    if s.len() == 0 {
        Seq::empty()
    } else {
        insert_cand_s(sort_cand_s(s.drop_last()), s.last())
    }
}

proof fn lemma_insert_cand(s: Seq<Candidate>, c: Candidate, clen: int)
    requires
        cand_entries_ok(s, clen),
        0 <= c.index < clen,
        0 <= c.score <= 10_000,
    ensures
        insert_cand_s(s, c).len() == s.len() + 1,
        cand_entries_ok(insert_cand_s(s, c), clen),
    decreases s.len(),
{
    if s.len() == 0 {
        assert(insert_cand_s(s, c) =~= seq![c]);
    } else if s.last().score >= c.score {
    } else {
        lemma_insert_cand(s.drop_last(), c, clen);
    }
}

fn insert_cand(v: Vec<Candidate>, c: Candidate) -> (r: Vec<Candidate>)
    ensures
        r@ == insert_cand_s(v@, c),
    decreases v@.len(),
{
    let mut v = v;
    if v.len() == 0 {
        v.push(c);
        proof {
            assert(v@ =~= seq![c]);
        }
        v
    } else if v[v.len() - 1].score >= c.score {
        v.push(c);
        v
    } else {
        let last = v.pop().unwrap();
        let mut r = insert_cand(v, c);
        r.push(last);
        r
    }
}

/// Sort ranked candidates by descending score (stable).
pub fn sort_candidates_desc(v: Vec<Candidate>) -> (r: Vec<Candidate>)
    ensures
        r@ == sort_cand_s(v@),
{
    let mut r: Vec<Candidate> = Vec::new();
    let mut i: usize = 0;
    while i < v.len()
        invariant
            0 <= i <= v@.len(),
            r@ == sort_cand_s(v@.take(i as int)),
        decreases v@.len() - i,
    {
        proof {
            let t1 = v@.take(i as int + 1);
            assert(t1.drop_last() =~= v@.take(i as int));
            assert(t1.last() == v@[i as int]);
        }
        r = insert_cand(r, v[i]);
        i = i + 1;
    }
    proof {
        assert(v@.take(v@.len() as int) =~= v@);
    }
    r
}

/// The accent eligibility score of a cluster: twice the saturation plus
/// three times the contrast against the background normalized by 21.
pub open spec fn accent_score_s(c: ColorCluster, bg: Lab) -> int {
    2 * c.hsv.s + sdiv_s(3 * contrast_s(bg, c.lab), 21)
}

/// Unsorted accent candidates among the first `n` clusters: unused clusters
/// whose contrast against the background exceeds 1.5.
pub open spec fn accent_unsorted_upto(
    clusters: Seq<ColorCluster>,
    bg: Lab,
    used: Seq<usize>,
    n: int,
) -> Seq<Candidate>
    decreases n,
{
    if n <= 0 {
        Seq::empty()
    } else {
        let prev = accent_unsorted_upto(clusters, bg, used, n - 1);
        if !used.contains((n - 1) as usize) && contrast_s(bg, clusters[n - 1].lab) > 1500 {
            prev.push(
                Candidate { index: (n - 1) as usize, score: accent_score_s(clusters[n - 1], bg) as i64 },
            )
        } else {
            prev
        }
    }
}

/// Ranked accent candidates: high saturation with good contrast, sorted by
/// descending score.
pub open spec fn rank_accent_s(clusters: Seq<ColorCluster>, bg: Lab, used: Seq<usize>)
    -> Seq<Candidate> {
    sort_cand_s(accent_unsorted_upto(clusters, bg, used, clusters.len() as int))
}

/// The active-item eligibility score of a cluster: value plus saturation
/// plus the contrast against the background normalized by 21.
pub open spec fn active_score_s(c: ColorCluster, bg: Lab) -> int {
    c.hsv.v + c.hsv.s + sdiv_s(contrast_s(bg, c.lab), 21)
}

/// Unsorted active-item candidates among the first `n` clusters: unused
/// clusters whose value exceeds 0.4.
pub open spec fn active_unsorted_upto(
    clusters: Seq<ColorCluster>,
    bg: Lab,
    used: Seq<usize>,
    n: int,
) -> Seq<Candidate>
    decreases n,
{
    if n <= 0 {
        Seq::empty()
    } else {
        let prev = active_unsorted_upto(clusters, bg, used, n - 1);
        if !used.contains((n - 1) as usize) && clusters[n - 1].hsv.v > 400 {
            prev.push(
                Candidate { index: (n - 1) as usize, score: active_score_s(clusters[n - 1], bg) as i64 },
            )
        } else {
            prev
        }
    }
}

/// Ranked active-item candidates: bright and saturated, sorted by
/// descending score.
pub open spec fn rank_active_s(clusters: Seq<ColorCluster>, bg: Lab, used: Seq<usize>)
    -> Seq<Candidate> {
    sort_cand_s(active_unsorted_upto(clusters, bg, used, clusters.len() as int))
}

fn contains_idx(used: &Vec<usize>, idx: usize) -> (r: bool)
    ensures
        r == used@.contains(idx),
{
    let mut i: usize = 0;
    while i < used.len()
        invariant
            0 <= i <= used@.len(),
            forall|j: int| 0 <= j < i ==> used@[j] != idx,
        decreases used@.len() - i,
    {
        if used[i] == idx {
            return true;
        }
        i = i + 1;
    }
    false
}

/// Every ranked entry points into the cluster list and carries a bounded
/// score.
pub open spec fn cand_entries_ok(s: Seq<Candidate>, clen: int) -> bool {
    forall|i: int|
        0 <= i < s.len() ==> 0 <= (#[trigger] s[i]).index < clen && 0 <= s[i].score <= 10_000
}

/// Rank accent color candidates over the unused clusters.
#[verifier::rlimit(80)]
pub fn rank_accent_candidates(clusters: &Vec<ColorCluster>, bg_lab: Lab, used: &Vec<usize>) -> (r:
    Vec<Candidate>)
    requires
        clusters_wf(clusters@),
        lab_wf(bg_lab),
    ensures
        r@ == rank_accent_s(clusters@, bg_lab, used@),
        cand_entries_ok(r@, clusters@.len() as int),
{
    let mut unsorted: Vec<Candidate> = Vec::new();
    let mut i: usize = 0;
    while i < clusters.len()
        invariant
            0 <= i <= clusters@.len(),
            clusters_wf(clusters@),
            lab_wf(bg_lab),
            unsorted@ == accent_unsorted_upto(clusters@, bg_lab, used@, i as int),
            cand_entries_ok(unsorted@, clusters@.len() as int),
        decreases clusters@.len() - i,
    {
        proof {
            assert(cluster_wf(clusters@[i as int]));
            lemma_canonical_is_wf(clusters@[i as int].lab);
        }
        let is_used = contains_idx(used, i);
        if !is_used {
            let c = contrast_ratio(bg_lab, clusters[i].lab);
            if c > 1500 {
                let q = sdiv(3 * c, 21);
                proof {
                    vstd::arithmetic::div_mod::lemma_div_is_ordered(3 * c as int, 62_997, 21);
                    vstd::arithmetic::div_mod::lemma_div_basics_4(3 * c as int, 21);
                }
                let score = 2 * clusters[i].hsv.s + q;
                unsorted.push(Candidate { index: i, score });
            }
        }
        i = i + 1;
    }
    let ghost u = unsorted@;
    let r = sort_candidates_desc(unsorted);
    proof {
        lemma_sort_cand_entries(u, clusters@.len() as int);
    }
    r
}

proof fn lemma_sort_cand_entries(s: Seq<Candidate>, clen: int)
    requires
        cand_entries_ok(s, clen),
    ensures
        cand_entries_ok(sort_cand_s(s), clen),
        sort_cand_s(s).len() == s.len(),
    decreases s.len(),
{
    if s.len() > 0 {
        assert(cand_entries_ok(s.drop_last(), clen));
        lemma_sort_cand_entries(s.drop_last(), clen);
        lemma_insert_cand(sort_cand_s(s.drop_last()), s.last(), clen);
    }
}

/// Rank active item color candidates over the unused clusters.
#[verifier::rlimit(80)]
pub fn rank_active_item_candidates(clusters: &Vec<ColorCluster>, bg_lab: Lab, used: &Vec<usize>)
    -> (r: Vec<Candidate>)
    requires
        clusters_wf(clusters@),
        lab_wf(bg_lab),
    ensures
        r@ == rank_active_s(clusters@, bg_lab, used@),
        cand_entries_ok(r@, clusters@.len() as int),
{
    let mut unsorted: Vec<Candidate> = Vec::new();
    let mut i: usize = 0;
    while i < clusters.len()
        invariant
            0 <= i <= clusters@.len(),
            clusters_wf(clusters@),
            lab_wf(bg_lab),
            unsorted@ == active_unsorted_upto(clusters@, bg_lab, used@, i as int),
            cand_entries_ok(unsorted@, clusters@.len() as int),
        decreases clusters@.len() - i,
    {
        proof {
            assert(cluster_wf(clusters@[i as int]));
            lemma_canonical_is_wf(clusters@[i as int].lab);
        }
        let is_used = contains_idx(used, i);
        if !is_used && clusters[i].hsv.v > 400 {
            let c = contrast_ratio(bg_lab, clusters[i].lab);
            let q = sdiv(c, 21);
            proof {
                vstd::arithmetic::div_mod::lemma_div_is_ordered(c as int, 20_999, 21);
                vstd::arithmetic::div_mod::lemma_div_basics_4(c as int, 21);
            }
            let score = clusters[i].hsv.v + clusters[i].hsv.s + q;
            unsorted.push(Candidate { index: i, score });
        }
        i = i + 1;
    }
    let ghost u = unsorted@;
    let r = sort_candidates_desc(unsorted);
    proof {
        lemma_sort_cand_entries(u, clusters@.len() as int);
    }
    r
}


/// Peer contrast of a candidate color, when a peer is present.
pub open spec fn peer_contrast_opt(peer: Option<Lab>, lab: Lab) -> Option<i64> {
    match peer {
        Some(p) => Some(contrast_s(lab, p) as i64),
        None => None,
    }
}

/// Peer perceptual distance of a candidate color, when a peer is present.
pub open spec fn peer_delta_opt(peer: Option<Lab>, lab: Lab) -> Option<i64> {
    match peer {
        Some(p) => Some(delta_e_s(lab, p) as i64),
        None => None,
    }
}

/// A color passes the role guardrails against the given background, text
/// and optional peer.
pub open spec fn guard_pass_at(
    lab: Lab,
    bg: Lab,
    text: Lab,
    cfg: GuardrailConfig,
    peer: Option<Lab>,
) -> bool {
    meets_guardrails_s(
        contrast_s(lab, bg),
        contrast_s(lab, text),
        cfg,
        peer_contrast_opt(peer, lab),
        peer_delta_opt(peer, lab),
    )
}

pub open spec fn opt_lab_wf(peer: Option<Lab>) -> bool {
    match peer {
        Some(p) => lab_wf(p),
        None => true,
    }
}

fn guard_pass(lab: Lab, bg: Lab, text: Lab, cfg: &GuardrailConfig, peer: Option<Lab>) -> (r: bool)
    requires
        lab_wf(lab),
        lab_wf(bg),
        lab_wf(text),
        opt_lab_wf(peer),
    ensures
        r == guard_pass_at(lab, bg, text, *cfg, peer),
{
    let cbg = contrast_ratio(lab, bg);
    let ct = contrast_ratio(lab, text);
    let (pc, pd): (Option<i64>, Option<i64>) = match peer {
        Some(p) => (Some(contrast_ratio(lab, p)), Some(delta_e_cie76(lab, p))),
        None => (None, None),
    };
    meets_guardrails(cbg, ct, cfg, pc, pd)
}

/// Lightness search in one direction: step the lightness (clamped to the
/// valid range) up to `steps` times and stop at the first value that
/// passes the guardrails.
pub open spec fn adjust_from(
    base: Lab,
    bg: Lab,
    text: Lab,
    cfg: GuardrailConfig,
    peer: Option<Lab>,
    delta: int,
    l: int,
    steps: int,
) -> Option<i64>
    decreases steps,
{
    if steps <= 0 {
        None
    } else {
        let l2 = clamp_s(l + delta, 0, 100_000);
        let cand = Lab { l: l2 as i64, a: base.a, b: base.b };
        if guard_pass_at(cand, bg, text, cfg, peer) {
            Some(l2 as i64)
        } else {
            adjust_from(base, bg, text, cfg, peer, delta, l2, steps - 1)
        }
    }
}

fn adjust_search(
    base: Lab,
    bg: Lab,
    text: Lab,
    cfg: &GuardrailConfig,
    peer: Option<Lab>,
    delta: i64,
) -> (r: Option<i64>)
    requires
        lab_canonical(base),
        lab_wf(bg),
        lab_wf(text),
        opt_lab_wf(peer),
        -100_000 <= delta <= 100_000,
        cfg.max_adjust_steps <= 1000,
    ensures
        r == adjust_from(base, bg, text, *cfg, peer, delta as int, base.l as int,
            cfg.max_adjust_steps as int),
        match r {
            Some(l) => 0 <= l <= 100_000,
            None => true,
        },
{
    let mut cur_l: i64 = base.l;
    let mut step: usize = 0;
    let max = cfg.max_adjust_steps;
    while step < max
        invariant
            0 <= step <= max,
            max == cfg.max_adjust_steps <= 1000,
            lab_canonical(base),
            lab_wf(bg),
            lab_wf(text),
            opt_lab_wf(peer),
            -100_000 <= delta <= 100_000,
            0 <= cur_l <= 100_000 || cur_l == base.l,
            -500_000 <= cur_l <= 500_000,
            adjust_from(base, bg, text, *cfg, peer, delta as int, base.l as int, max as int)
                == adjust_from(base, bg, text, *cfg, peer, delta as int, cur_l as int, (max - step) as int),
        decreases max - step,
    {
        let l2 = clamp_i64(cur_l + delta, 0, 100_000);
        let cand = Lab { l: l2, a: base.a, b: base.b };
        if guard_pass(cand, bg, text, cfg, peer) {
            return Some(l2);
        }
        cur_l = l2;
        step = step + 1;
    }
    None
}

/// The lightness-adjusted variants of a base color: at most one found
/// downward and one found upward, the upward one dropped when it lands
/// within 0.5 perceptual distance of the downward one. Each variant comes
/// with its signed lightness change.
pub open spec fn adjusted_variants_s(
    base: Lab,
    bg: Lab,
    text: Lab,
    cfg: GuardrailConfig,
    peer: Option<Lab>,
) -> Seq<(Lab, i64)> {
    let down = adjust_from(base, bg, text, cfg, peer, -cfg.adjust_step, base.l as int,
        cfg.max_adjust_steps as int);
    let up = adjust_from(base, bg, text, cfg, peer, cfg.adjust_step as int, base.l as int,
        cfg.max_adjust_steps as int);
    let first: Seq<(Lab, i64)> = match down {
        Some(l) => seq![(Lab { l, a: base.a, b: base.b }, (l - base.l) as i64)],
        None => Seq::empty(),
    };
    match up {
        Some(l2) => {
            let labu = Lab { l: l2, a: base.a, b: base.b };
            let close = match down {
                Some(l) => lab_close_s(Lab { l, a: base.a, b: base.b }, labu, 500),
                None => false,
            };
            if close {
                first
            } else {
                first.push((labu, (l2 - base.l) as i64))
            }
        },
        None => first,
    }
}

/// Collect lightness-adjusted guardrail-passing variants of a base color,
/// searching downward then upward.
pub fn collect_adjusted_variants(
    base: Lab,
    bg: Lab,
    text: Lab,
    cfg: &GuardrailConfig,
    peer: Option<Lab>,
) -> (r: Vec<(Lab, i64)>)
    requires
        lab_canonical(base),
        lab_wf(bg),
        lab_wf(text),
        opt_lab_wf(peer),
        0 <= cfg.adjust_step <= 100_000,
        cfg.max_adjust_steps <= 1000,
    ensures
        r@ == adjusted_variants_s(base, bg, text, *cfg, peer),
        forall|i: int|
            0 <= i < r@.len() ==> lab_wf((#[trigger] r@[i]).0) && 0 <= r@[i].0.l <= 100_000
                && r@[i].0.a == base.a && r@[i].0.b == base.b,
        r@.len() <= 2,
{
    let mut r: Vec<(Lab, i64)> = Vec::new();
    let down = adjust_search(base, bg, text, cfg, peer, -cfg.adjust_step);
    if let Some(l) = down {
        r.push((Lab { l, a: base.a, b: base.b }, l - base.l));
    }
    let up = adjust_search(base, bg, text, cfg, peer, cfg.adjust_step);
    if let Some(l2) = up {
        let labu = Lab { l: l2, a: base.a, b: base.b };
        let close = match down {
            Some(l) => lab_close(Lab { l, a: base.a, b: base.b }, labu, 500),
            None => false,
        };
        if !close {
            r.push((labu, l2 - base.l));
        }
    }
    proof {
        assert(r@ =~= adjusted_variants_s(base, bg, text, *cfg, peer));
    }
    r
}

/// Linear interpolation between background and text in Lab, with the
/// parameter in milli-units.
pub open spec fn interp_lab_s(bg: Lab, text: Lab, t: int) -> Lab {
    Lab {
        l: (bg.l + sdiv_s((text.l - bg.l) * t, 1000)) as i64,
        a: (bg.a + sdiv_s((text.a - bg.a) * t, 1000)) as i64,
        b: (bg.b + sdiv_s((text.b - bg.b) * t, 1000)) as i64,
    }
}

/// Sweep the interpolation parameter from -0.3 to 1.3 in steps of 0.05 and
/// keep the first value that passes the guardrails.
pub open spec fn synth_from(bg: Lab, text: Lab, cfg: GuardrailConfig, peer: Option<Lab>, t: int)
    -> Option<Lab>
    decreases 1350 - t,
{
    if t > 1300 {
        None
    } else {
        let cand = interp_lab_s(bg, text, t);
        if guard_pass_at(cand, bg, text, cfg, peer) {
            Some(cand)
        } else {
            synth_from(bg, text, cfg, peer, t + 50)
        }
    }
}

/// Synthesize a color between background and text that passes the
/// guardrails, if the sweep finds one.
pub fn synthesize_color_between(bg: Lab, text: Lab, cfg: &GuardrailConfig, peer: Option<Lab>)
    -> (r: Option<Lab>)
    requires
        lab_canonical(bg),
        lab_canonical(text),
        opt_lab_wf(peer),
    ensures
        r == synth_from(bg, text, *cfg, peer, -300),
        match r {
            Some(lab) => lab_wf(lab),
            None => true,
        },
{
    let mut t: i64 = -300;
    while t <= 1300
        invariant
            -300 <= t <= 1350,
            lab_canonical(bg),
            lab_canonical(text),
            opt_lab_wf(peer),
            synth_from(bg, text, *cfg, peer, -300) == synth_from(bg, text, *cfg, peer, t as int),
        decreases 1350 - t,
    {
        proof {
            crate::fx::lemma_mul_abs_le(text.l - bg.l, t as int, 100_000, 1300);
            crate::fx::lemma_mul_abs_le(text.a - bg.a, t as int, 1_000_000, 1300);
            crate::fx::lemma_mul_abs_le(text.b - bg.b, t as int, 1_000_000, 1300);
            crate::fx::lemma_sdiv_s_le((text.l - bg.l) * t as int, 1000, 130_000);
            crate::fx::lemma_sdiv_s_le((text.a - bg.a) * t as int, 1000, 1_300_000);
            crate::fx::lemma_sdiv_s_le((text.b - bg.b) * t as int, 1000, 1_300_000);
        }
        let cand = Lab {
            l: bg.l + sdiv((text.l - bg.l) * t, 1000),
            a: bg.a + sdiv((text.a - bg.a) * t, 1000),
            b: bg.b + sdiv((text.b - bg.b) * t, 1000),
        };
        if guard_pass(cand, bg, text, cfg, peer) {
            return Some(cand);
        }
        t = t + 50;
    }
    None
}


/// The guardrails of the accent role.
pub open spec fn accent_guard_s() -> GuardrailConfig {
    GuardrailConfig {
        min_contrast_bg: 3000,
        min_contrast_text: 4500,
        min_contrast_peer: None,
        min_delta_e_peer: None,
        adjust_step: 4000,
        max_adjust_steps: 12,
    }
}

/// The guardrails of the active-item role.
pub open spec fn active_guard_s() -> GuardrailConfig {
    GuardrailConfig {
        min_contrast_bg: 2000,
        min_contrast_text: 4500,
        min_contrast_peer: None,
        min_delta_e_peer: None,
        adjust_step: 4000,
        max_adjust_steps: 12,
    }
}

/// The lightness-adjusted variant entry derived from a ranked cluster.
pub open spec fn adjusted_candidate_s(cand: Candidate, variant: (Lab, i64), scale_pct: int)
    -> RoleColorCandidate {
    RoleColorCandidate {
        lab: variant.0,
        source_cluster_index: Some(cand.index),
        origin: Origin::Adjusted(cand.index, variant.1),
        provenance_rank: 1,
        base_score: sdiv_s(cand.score * scale_pct, 100) as i64,
    }
}

/// Push the adjusted variants of one ranked cluster, deduplicated.
pub open spec fn push_variants_s(
    acc: Seq<RoleColorCandidate>,
    vars: Seq<(Lab, i64)>,
    cand: Candidate,
    scale_pct: int,
    i: int,
) -> Seq<RoleColorCandidate>
    decreases vars.len() - i,
{
    if i < 0 || i >= vars.len() {
        acc
    } else {
        push_variants_s(
            push_unique_s(acc, adjusted_candidate_s(cand, vars[i], scale_pct)),
            vars,
            cand,
            scale_pct,
            i + 1,
        )
    }
}

/// Process one ranked cluster: a direct candidate when it passes the
/// guardrails as it stands, then any lightness-adjusted variants.
pub open spec fn process_one_s(
    acc: Seq<RoleColorCandidate>,
    clusters: Seq<ColorCluster>,
    cand: Candidate,
    bg: Lab,
    text: Lab,
    cfg: GuardrailConfig,
    scale_pct: int,
) -> Seq<RoleColorCandidate> {
    let cl = clusters[cand.index as int];
    let acc1 = if guard_pass_at(cl.lab, bg, text, cfg, None) {
        push_unique_s(
            acc,
            RoleColorCandidate {
                lab: cl.lab,
                source_cluster_index: Some(cand.index),
                origin: Origin::Cluster(cand.index),
                provenance_rank: 0,
                base_score: cand.score,
            },
        )
    } else {
        acc
    };
    let vars = adjusted_variants_s(cl.lab, bg, text, cfg, None);
    push_variants_s(acc1, vars, cand, scale_pct, 0)
}

/// Process the first `n` ranked clusters in order.
pub open spec fn process_ranked_s(
    clusters: Seq<ColorCluster>,
    ranked: Seq<Candidate>,
    bg: Lab,
    text: Lab,
    cfg: GuardrailConfig,
    scale_pct: int,
    n: int,
) -> Seq<RoleColorCandidate>
    decreases n,
{
    if n <= 0 {
        Seq::empty()
    } else {
        process_one_s(
            process_ranked_s(clusters, ranked, bg, text, cfg, scale_pct, n - 1),
            clusters,
            ranked[n - 1],
            bg,
            text,
            cfg,
            scale_pct,
        )
    }
}

/// Append the midline interpolation candidate, if the sweep finds one.
pub open spec fn push_midline_s(
    acc: Seq<RoleColorCandidate>,
    bg: Lab,
    text: Lab,
    cfg: GuardrailConfig,
    base_score: int,
) -> Seq<RoleColorCandidate> {
    match synth_from(bg, text, cfg, None, -300) {
        Some(lab) => push_unique_s(
            acc,
            RoleColorCandidate {
                lab,
                source_cluster_index: None,
                origin: Origin::SyntheticMidline,
                provenance_rank: 2,
                base_score: base_score as i64,
            },
        ),
        None => acc,
    }
}

/// Append the guardrail-passing neutral gray anchors.
pub open spec fn push_grays_s(
    acc: Seq<RoleColorCandidate>,
    bg: Lab,
    text: Lab,
    cfg: GuardrailConfig,
    grays: Seq<i64>,
    i: int,
) -> Seq<RoleColorCandidate>
    decreases grays.len() - i,
{
    if i < 0 || i >= grays.len() {
        acc
    } else {
        let lab = Lab { l: grays[i], a: 0, b: 0 };
        let acc1 = if guard_pass_at(lab, bg, text, cfg, None) {
            push_unique_s(
                acc,
                RoleColorCandidate {
                    lab,
                    source_cluster_index: None,
                    origin: Origin::SyntheticGray(grays[i]),
                    provenance_rank: 2,
                    base_score: 350,
                },
            )
        } else {
            acc
        };
        push_grays_s(acc1, bg, text, cfg, grays, i + 1)
    }
}

/// The ranked prefix considered by a builder: the top 12 clusters.
pub open spec fn take_ranked_s(ranked: Seq<Candidate>) -> Seq<Candidate> {
    if ranked.len() <= 12 {
        ranked
    } else {
        ranked.take(12)
    }
}

/// The full accent candidate list: direct and adjusted colors of the top
/// ranked clusters, the midline interpolation at base score 0.5, and gray
/// anchors at lightness 25 and 75.
pub open spec fn build_accent_candidates_s(
    clusters: Seq<ColorCluster>,
    bg: Lab,
    text: Lab,
    used: Seq<usize>,
) -> Seq<RoleColorCandidate> {
    let taken = take_ranked_s(rank_accent_s(clusters, bg, used));
    let acc = process_ranked_s(clusters, taken, bg, text, accent_guard_s(), 85,
        taken.len() as int);
    push_grays_s(
        push_midline_s(acc, bg, text, accent_guard_s(), 500),
        bg,
        text,
        accent_guard_s(),
        seq![25_000i64, 75_000i64],
        0,
    )
}

/// The full active-item candidate list: direct and adjusted colors of the
/// top ranked clusters, the midline interpolation at base score 0.4, and
/// gray anchors at lightness 30, 50 and 70.
pub open spec fn build_active_candidates_s(
    clusters: Seq<ColorCluster>,
    bg: Lab,
    text: Lab,
    used: Seq<usize>,
) -> Seq<RoleColorCandidate> {
    let taken = take_ranked_s(rank_active_s(clusters, bg, used));
    let acc = process_ranked_s(clusters, taken, bg, text, active_guard_s(), 80,
        taken.len() as int);
    push_grays_s(
        push_midline_s(acc, bg, text, active_guard_s(), 400),
        bg,
        text,
        active_guard_s(),
        seq![30_000i64, 50_000i64, 70_000i64],
        0,
    )
}

/// Process the ranked prefix, emitting direct and adjusted candidates.
fn process_ranked(
    clusters: &Vec<ColorCluster>,
    ranked: &Vec<Candidate>,
    bg: Lab,
    text: Lab,
    cfg: &GuardrailConfig,
    scale_pct: i64,
    take_n: usize,
) -> (r: Vec<RoleColorCandidate>)
    requires
        clusters_wf(clusters@),
        lab_canonical(bg),
        lab_canonical(text),
        cand_entries_ok(ranked@, clusters@.len() as int),
        take_n <= ranked@.len(),
        0 <= scale_pct <= 100,
        0 <= cfg.adjust_step <= 100_000,
        cfg.max_adjust_steps <= 1000,
    ensures
        r@ == process_ranked_s(clusters@, ranked@.take(take_n as int), bg, text, *cfg,
            scale_pct as int, take_n as int),
        candidates_wf(r@),
        r@.len() <= 3 * take_n,
{
    let mut acc: Vec<RoleColorCandidate> = Vec::new();
    let mut i: usize = 0;
    let ghost taken = ranked@.take(take_n as int);
    while i < take_n
        invariant
            0 <= i <= take_n <= ranked@.len(),
            clusters_wf(clusters@),
            lab_canonical(bg),
            lab_canonical(text),
            cand_entries_ok(ranked@, clusters@.len() as int),
            0 <= scale_pct <= 100,
            0 <= cfg.adjust_step <= 100_000,
            cfg.max_adjust_steps <= 1000,
            taken == ranked@.take(take_n as int),
            acc@ == process_ranked_s(clusters@, taken, bg, text, *cfg, scale_pct as int, i as int),
            candidates_wf(acc@),
            acc@.len() <= 3 * i,
        decreases take_n - i,
    {
        let cand = ranked[i];
        let ghost acc0 = acc@;
        proof {
            assert(taken[i as int] == ranked@[i as int]);
            assert(cluster_wf(clusters@[cand.index as int]));
            lemma_canonical_is_wf(clusters@[cand.index as int].lab);
            lemma_canonical_is_wf(bg);
            lemma_canonical_is_wf(text);
        }
        let cl = clusters[cand.index];
        let passes = guard_pass(cl.lab, bg, text, cfg, None);
        if passes {
            push_candidate_if_unique(
                &mut acc,
                RoleColorCandidate {
                    lab: cl.lab,
                    source_cluster_index: Some(cand.index),
                    origin: Origin::Cluster(cand.index),
                    provenance_rank: 0,
                    base_score: cand.score,
                },
            );
        }
        let ghost acc1 = acc@;
        let vars = collect_adjusted_variants(cl.lab, bg, text, cfg, None);
        proof {
            crate::fx::lemma_mul_le(cand.score as int, scale_pct as int, 10_000, 100);
            crate::fx::lemma_sdiv_s_le(cand.score as int * scale_pct, 100, 10_000);
            vstd::arithmetic::div_mod::lemma_div_basics_4(cand.score as int * scale_pct, 100);
        }
        let scaled = sdiv(cand.score * scale_pct, 100);
        let mut j: usize = 0;
        while j < vars.len()
            invariant
                0 <= j <= vars@.len(),
                vars@ == adjusted_variants_s(clusters@[cand.index as int].lab, bg, text, *cfg,
                    None),
                forall|jj: int|
                    0 <= jj < vars@.len() ==> lab_wf((#[trigger] vars@[jj]).0),
                push_variants_s(acc@, vars@, cand, scale_pct as int, j as int)
                    == push_variants_s(acc1, vars@, cand, scale_pct as int, 0),
                candidates_wf(acc@),
                acc@.len() <= acc1.len() + j,
                acc1.len() <= acc0.len() + 1,
                vars@.len() <= 2,
                scaled as int == sdiv_s(cand.score as int * scale_pct, 100),
                0 <= scaled <= 10_000,
            decreases vars@.len() - j,
        {
            let v = vars[j];
            push_candidate_if_unique(
                &mut acc,
                RoleColorCandidate {
                    lab: v.0,
                    source_cluster_index: Some(cand.index),
                    origin: Origin::Adjusted(cand.index, v.1),
                    provenance_rank: 1,
                    base_score: scaled,
                },
            );
            j = j + 1;
        }
        i = i + 1;
        proof {
            assert(acc@ == process_one_s(acc0, clusters@, taken[i as int - 1], bg, text, *cfg,
                scale_pct as int));
            assert(process_ranked_s(clusters@, taken, bg, text, *cfg, scale_pct as int, i as int)
                == process_one_s(
                process_ranked_s(clusters@, taken, bg, text, *cfg, scale_pct as int, i as int - 1),
                clusters@,
                taken[i as int - 1],
                bg,
                text,
                *cfg,
                scale_pct as int,
            ));
        }
    }
    acc
}

/// Append the midline candidate and the gray anchors for one role.
fn push_synthetics(
    acc: Vec<RoleColorCandidate>,
    bg: Lab,
    text: Lab,
    cfg: &GuardrailConfig,
    midline_base: i64,
    grays: &Vec<i64>,
) -> (r: Vec<RoleColorCandidate>)
    requires
        candidates_wf(acc@),
        lab_canonical(bg),
        lab_canonical(text),
        0 <= midline_base <= 10_000,
        forall|i: int| 0 <= i < grays@.len() ==> 0 <= #[trigger] grays@[i] <= 100_000,
    ensures
        r@ == push_grays_s(
            push_midline_s(acc@, bg, text, *cfg, midline_base as int),
            bg,
            text,
            *cfg,
            grays@,
            0,
        ),
        candidates_wf(r@),
        r@.len() <= acc@.len() + 1 + grays@.len(),
{
    let mut acc = acc;
    let mid = synthesize_color_between(bg, text, cfg, None);
    if let Some(lab) = mid {
        push_candidate_if_unique(
            &mut acc,
            RoleColorCandidate {
                lab,
                source_cluster_index: None,
                origin: Origin::SyntheticMidline,
                provenance_rank: 2,
                base_score: midline_base,
            },
        );
    }
    let ghost acc1 = acc@;
    let mut i: usize = 0;
    while i < grays.len()
        invariant
            0 <= i <= grays@.len(),
            lab_canonical(bg),
            lab_canonical(text),
            forall|ii: int| 0 <= ii < grays@.len() ==> 0 <= #[trigger] grays@[ii] <= 100_000,
            push_grays_s(acc1, bg, text, *cfg, grays@, 0) == push_grays_s(acc@, bg, text, *cfg,
                grays@, i as int),
            candidates_wf(acc@),
            acc@.len() <= acc1.len() + i,
        decreases grays@.len() - i,
    {
        let l = grays[i];
        let lab = Lab { l, a: 0, b: 0 };
        proof {
            lemma_canonical_is_wf(bg);
            lemma_canonical_is_wf(text);
        }
        let passes = guard_pass(lab, bg, text, cfg, None);
        if passes {
            push_candidate_if_unique(
                &mut acc,
                RoleColorCandidate {
                    lab,
                    source_cluster_index: None,
                    origin: Origin::SyntheticGray(l),
                    provenance_rank: 2,
                    base_score: 350,
                },
            );
        }
        i = i + 1;
    }
    acc
}

/// Build the accent candidate list.
pub fn build_accent_candidates(
    clusters: &Vec<ColorCluster>,
    bg_lab: Lab,
    text_lab: Lab,
    used: &Vec<usize>,
) -> (r: Vec<RoleColorCandidate>)
    requires
        clusters_wf(clusters@),
        lab_canonical(bg_lab),
        lab_canonical(text_lab),
    ensures
        r@ == build_accent_candidates_s(clusters@, bg_lab, text_lab, used@),
        candidates_wf(r@),
        r@.len() <= 42,
{
    let guard = GuardrailConfig {
        min_contrast_bg: 3000,
        min_contrast_text: 4500,
        min_contrast_peer: None,
        min_delta_e_peer: None,
        adjust_step: 4000,
        max_adjust_steps: 12,
    };
    let ranked = rank_accent_candidates(clusters, bg_lab, used);
    let take_n = if ranked.len() <= 12 {
        ranked.len()
    } else {
        12
    };
    proof {
        assert(take_ranked_s(ranked@) == ranked@.take(take_n as int)) by {
            if ranked@.len() <= 12 {
                assert(ranked@.take(ranked@.len() as int) =~= ranked@);
            }
        }
    }
    let acc = process_ranked(clusters, &ranked, bg_lab, text_lab, &guard, 85, take_n);
    let mut grays: Vec<i64> = Vec::new();
    grays.push(25_000);
    grays.push(75_000);
    proof {
        assert(grays@ =~= seq![25_000i64, 75_000i64]);
    }
    push_synthetics(acc, bg_lab, text_lab, &guard, 500, &grays)
}

/// Build the active-item candidate list.
pub fn build_active_candidates(
    clusters: &Vec<ColorCluster>,
    bg_lab: Lab,
    text_lab: Lab,
    used: &Vec<usize>,
) -> (r: Vec<RoleColorCandidate>)
    requires
        clusters_wf(clusters@),
        lab_canonical(bg_lab),
        lab_canonical(text_lab),
    ensures
        r@ == build_active_candidates_s(clusters@, bg_lab, text_lab, used@),
        candidates_wf(r@),
        r@.len() <= 42,
{
    let guard = GuardrailConfig {
        min_contrast_bg: 2000,
        min_contrast_text: 4500,
        min_contrast_peer: None,
        min_delta_e_peer: None,
        adjust_step: 4000,
        max_adjust_steps: 12,
    };
    let ranked = rank_active_item_candidates(clusters, bg_lab, used);
    let take_n = if ranked.len() <= 12 {
        ranked.len()
    } else {
        12
    };
    proof {
        assert(take_ranked_s(ranked@) == ranked@.take(take_n as int)) by {
            if ranked@.len() <= 12 {
                assert(ranked@.take(ranked@.len() as int) =~= ranked@);
            }
        }
    }
    let acc = process_ranked(clusters, &ranked, bg_lab, text_lab, &guard, 80, take_n);
    let mut grays: Vec<i64> = Vec::new();
    grays.push(30_000);
    grays.push(50_000);
    grays.push(70_000);
    proof {
        assert(grays@ =~= seq![30_000i64, 50_000i64, 70_000i64]);
    }
    push_synthetics(acc, bg_lab, text_lab, &guard, 400, &grays)
}

} // verus!

//! The role pipeline: background, text, the accent/active pair through the
//! tiered solver, border, and the three alias roles, resolved strictly in
//! that order with a used-cluster set threaded through the steps.
use vstd::prelude::*;

use crate::candidates::{
    build_accent_candidates, build_accent_candidates_s, build_active_candidates,
    build_active_candidates_s, candidates_wf, candidate_wf, confidence_s, Origin,
    RoleColorCandidate,
};
use crate::cluster::{cluster_wf, clusters_wf, ColorCluster};
use crate::fmt::{hex_seq_s, rgb_to_hex};
use crate::fx::{clamp_i64, clamp_s};
use crate::hsv::{rgb8_to_hsv, rgb8_to_hsv_s, Hsv};
use crate::lab::{
    contrast_ratio, contrast_s, lab_canonical, lab_to_rgb8, lab_to_rgb8_s, lab_wf,
    lemma_canonical_is_wf, rgb8_to_lab, rgb8_to_lab_s, Lab, Rgb8,
};
use crate::pairwise::{
    build_pair_metrics, fallback_guardrails_s, lemma_solve_fallback_some, metrics_wf,
    pair_metrics_s, passes_pairwise_s, relaxed_guardrails_s, result_wf, solve_s,
    solve_with_guardrails, strict_guardrails_s, PairwiseGuardrails, PairwiseMetrics,
    PairwiseResult,
};

verus! {

/// The eight fixed UI roles.
#[derive(Clone, Copy, Debug, PartialEq, Eq, Structural)]
pub enum ColorRole {
    Background,
    Text,
    Accent,
    Border,
    ActiveItem,
    InactiveItem,
    ProgressBar,
    Scrollbar,
}

/// The guardrail tier the solver settled on.
#[derive(Clone, Copy, Debug, PartialEq, Eq, Structural)]
pub enum Tier {
    Strict,
    Relaxed,
    Fallback,
}

/// The guardrails of a tier; the fallback tier's are vacuous.
pub open spec fn tier_guard_s(t: Tier) -> PairwiseGuardrails {
    match t {
        Tier::Strict => strict_guardrails_s(),
        Tier::Relaxed => relaxed_guardrails_s(),
        Tier::Fallback => fallback_guardrails_s(),
    }
}

/// The final record of one role: canonical RGB8 with HSV, Lab and hex all
/// derived from it, the source cluster when not synthetic, the confidence,
/// and the contrasts against background and text where they apply.
#[derive(Clone, Debug)]
pub struct RoleAssignment {
    pub role: ColorRole,
    pub rgb: Rgb8,
    pub hsv: Hsv,
    pub lab: Lab,
    pub hex: String,
    pub source_cluster_index: Option<usize>,
    pub confidence: i64,
    pub contrast_against_background: Option<i64>,
    pub contrast_against_text: Option<i64>,
    pub origin: Option<Origin>,
}

/// The canonicalization invariant of a record: HSV, Lab and hex are all
/// derived from the single canonical RGB8 value, and the confidence is a
/// valid milli-unit value.
pub open spec fn assignment_wf(a: RoleAssignment) -> bool {
    &&& a.hsv == rgb8_to_hsv_s(a.rgb)
    &&& a.lab == rgb8_to_lab_s(a.rgb)
    &&& a.hex@ == hex_seq_s(a.rgb)
    &&& lab_canonical(a.lab)
    &&& 0 <= a.confidence <= 1000
}

/// The contrast of a canonical Lab value against an optional reference.
pub open spec fn opt_contrast_s(lab: Lab, reference: Option<Lab>) -> Option<i64> {
    match reference {
        Some(r) => Some(contrast_s(lab, r) as i64),
        None => None,
    }
}

pub open spec fn opt_lab_wf(reference: Option<Lab>) -> bool {
    match reference {
        Some(r) => lab_wf(r),
        None => true,
    }
}

/// Build a role record from a working Lab value: the value is snapped to
/// canonical RGB8, every derived field comes from that RGB8 value, and the
/// reported contrasts are computed on the canonicalized color.
pub fn role_assignment_from_lab(
    role: ColorRole,
    lab: Lab,
    source_cluster_index: Option<usize>,
    confidence: i64,
    origin: Option<Origin>,
    bg_lab: Option<Lab>,
    text_lab: Option<Lab>,
) -> (a: RoleAssignment)
    requires
        lab_wf(lab),
        0 <= confidence <= 1000,
        opt_lab_wf(bg_lab),
        opt_lab_wf(text_lab),
    ensures
        a.role == role,
        a.rgb == lab_to_rgb8_s(lab),
        a.hsv == rgb8_to_hsv_s(a.rgb),
        a.lab == rgb8_to_lab_s(a.rgb),
        a.hex@ == hex_seq_s(a.rgb),
        a.source_cluster_index == source_cluster_index,
        a.confidence == confidence,
        a.contrast_against_background == opt_contrast_s(a.lab, bg_lab),
        a.contrast_against_text == opt_contrast_s(a.lab, text_lab),
        a.origin == origin,
        assignment_wf(a),
{
    let rgb = lab_to_rgb8(lab);
    let hsv = rgb8_to_hsv(rgb);
    let canonical_lab = rgb8_to_lab(rgb);
    let hex = rgb_to_hex(rgb);
    let contrast_against_background = match bg_lab {
        Some(b) => Some(contrast_ratio(canonical_lab, b)),
        None => None,
    };
    let contrast_against_text = match text_lab {
        Some(t) => Some(contrast_ratio(canonical_lab, t)),
        None => None,
    };
    RoleAssignment {
        role,
        rgb,
        hsv,
        lab: canonical_lab,
        hex,
        source_cluster_index,
        confidence,
        contrast_against_background,
        contrast_against_text,
        origin,
    }
}

/// An alias role: the color of an already-resolved record under a new role
/// with an adjusted confidence.
pub fn clone_for_role(role: ColorRole, base: &RoleAssignment, confidence: i64) -> (a:
    RoleAssignment)
    requires
        0 <= confidence <= 1000,
        assignment_wf(*base),
    ensures
        a.role == role,
        a.rgb == base.rgb,
        a.hsv == base.hsv,
        a.lab == base.lab,
        a.hex@ == base.hex@,
        a.source_cluster_index == base.source_cluster_index,
        a.confidence == confidence,
        a.contrast_against_background == base.contrast_against_background,
        a.contrast_against_text == base.contrast_against_text,
        a.origin == base.origin,
        assignment_wf(a),
{
    RoleAssignment {
        role,
        rgb: base.rgb,
        hsv: base.hsv,
        lab: base.lab,
        hex: base.hex.clone(),
        source_cluster_index: base.source_cluster_index,
        confidence,
        contrast_against_background: base.contrast_against_background,
        contrast_against_text: base.contrast_against_text,
        origin: base.origin,
    }
}

/// The last-resort accent candidate: neutral at the background's lightness.
pub open spec fn bg_neutral_s(bg: Lab) -> RoleColorCandidate {
    RoleColorCandidate {
        lab: Lab { l: clamp_s(bg.l as int, 0, 100_000) as i64, a: 0, b: 0 },
        source_cluster_index: None,
        origin: Origin::SyntheticBgNeutral,
        provenance_rank: 2,
        base_score: 300,
    }
}

/// The last-resort active candidate: neutral at the text's lightness.
pub open spec fn text_neutral_s(text: Lab) -> RoleColorCandidate {
    RoleColorCandidate {
        lab: Lab { l: clamp_s(text.l as int, 0, 100_000) as i64, a: 0, b: 0 },
        source_cluster_index: None,
        origin: Origin::SyntheticTextNeutral,
        provenance_rank: 2,
        base_score: 300,
    }
}

/// The accent candidate list with its guaranteed fallback.
pub open spec fn accent_list_s(clusters: Seq<ColorCluster>, bg: Lab, text: Lab, used: Seq<usize>)
    -> Seq<RoleColorCandidate> {
    let l = build_accent_candidates_s(clusters, bg, text, used);
    if l.len() == 0 {
        seq![bg_neutral_s(bg)]
    } else {
        l
    }
}

/// The active candidate list with its guaranteed fallback.
pub open spec fn active_list_s(clusters: Seq<ColorCluster>, bg: Lab, text: Lab, used: Seq<usize>)
    -> Seq<RoleColorCandidate> {
    let l = build_active_candidates_s(clusters, bg, text, used);
    if l.len() == 0 {
        seq![text_neutral_s(text)]
    } else {
        l
    }
}

/// The tier the solver settles on: the first of strict, relaxed, fallback
/// whose search finds an admissible pair.
pub open spec fn tier_of_s(
    al: Seq<RoleColorCandidate>,
    acl: Seq<RoleColorCandidate>,
    bg: Lab,
    text: Lab,
) -> Tier {
    if solve_s(al, acl, bg, text, strict_guardrails_s()).is_some() {
        Tier::Strict
    } else if solve_s(al, acl, bg, text, relaxed_guardrails_s()).is_some() {
        Tier::Relaxed
    } else {
        Tier::Fallback
    }
}

/// The winning pair of the tier the solver settles on.
pub open spec fn winner_of_s(
    al: Seq<RoleColorCandidate>,
    acl: Seq<RoleColorCandidate>,
    bg: Lab,
    text: Lab,
) -> PairwiseResult {
    solve_s(al, acl, bg, text, tier_guard_s(tier_of_s(al, acl, bg, text))).unwrap()
}

/// Pairs evaluated across the attempted tiers: the full cross product once
/// per tier tried.
pub open spec fn evaluated_of_s(
    al: Seq<RoleColorCandidate>,
    acl: Seq<RoleColorCandidate>,
    bg: Lab,
    text: Lab,
) -> int {
    let tiers = match tier_of_s(al, acl, bg, text) {
        Tier::Strict => 1int,
        Tier::Relaxed => 2int,
        Tier::Fallback => 3int,
    };
    tiers * al.len() * acl.len()
}

/// A cluster index recorded as used, unless it is synthetic or already
/// recorded.
pub open spec fn push_used_s(used: Seq<usize>, idx: Option<usize>) -> Seq<usize> {
    match idx {
        Some(i) => if used.contains(i) {
            used
        } else {
            used.push(i)
        },
        None => used,
    }
}

fn push_used(used: &mut Vec<usize>, idx: Option<usize>)
    ensures
        final(used)@ == push_used_s(old(used)@, idx),
{
    if let Some(i) = idx {
        let mut k: usize = 0;
        let n = used.len();
        while k < n
            invariant
                idx == Some(i),
                0 <= k <= n,
                used@ == old(used)@,
                n == used@.len(),
                forall|j: int| 0 <= j < k ==> used@[j] != i,
            decreases n - k,
        {
            if used[k] == i {
                proof {
                    assert(old(used)@.contains(i)) by {
                        assert(old(used)@[k as int] == i);
                    }
                    assert(push_used_s(old(used)@, idx) == old(used)@);
                }
                return ;
            }
            k = k + 1;
        }
        used.push(i);
    }
}


/// One admissible pair rendered for the diagnostic trace.
#[derive(Clone, Debug)]
pub struct PairwiseDebugEntry {
    pub accent_hex: String,
    pub accent_origin: Origin,
    pub active_hex: String,
    pub active_origin: Origin,
    pub accent_bg: i64,
    pub accent_text: i64,
    pub accent_active: i64,
    pub active_bg: i64,
    pub active_text: i64,
    pub delta_e: i64,
    pub min_contrast: i64,
    pub brightness_separation: i64,
    pub provenance_score: u8,
}

/// One candidate rendered for the diagnostic trace.
#[derive(Clone, Debug)]
pub struct PairCandidateDebug {
    pub hex: String,
    pub origin: Origin,
    pub provenance_rank: u8,
    pub base_score: i64,
}

/// The solver's diagnostic trace: tier used, pairs evaluated across the
/// attempted tiers, the winning pair's full metrics, and both candidate
/// lists.
#[derive(Clone, Debug)]
pub struct PairwiseDebug {
    pub evaluated_pairs: u64,
    pub tier: Tier,
    pub winning_pair: PairwiseDebugEntry,
    pub top_pairs: Vec<PairwiseDebugEntry>,
    pub accent_candidates: Vec<PairCandidateDebug>,
    pub active_candidates: Vec<PairCandidateDebug>,
}

/// A debug entry faithfully renders a result's colors and metrics.
pub open spec fn debug_entry_matches(e: PairwiseDebugEntry, r: PairwiseResult) -> bool {
    &&& e.accent_hex@ == hex_seq_s(lab_to_rgb8_s(r.accent.lab))
    &&& e.accent_origin == r.accent.origin
    &&& e.active_hex@ == hex_seq_s(lab_to_rgb8_s(r.active.lab))
    &&& e.active_origin == r.active.origin
    &&& e.accent_bg == r.metrics.accent_bg
    &&& e.accent_text == r.metrics.accent_text
    &&& e.accent_active == r.metrics.accent_active
    &&& e.active_bg == r.metrics.active_bg
    &&& e.active_text == r.metrics.active_text
    &&& e.delta_e == r.metrics.delta_e
    &&& e.min_contrast == crate::pairwise::min_contrast_s(r.metrics)
    &&& e.brightness_separation == crate::pairwise::brightness_separation_s(r.metrics)
    &&& e.provenance_score == r.provenance_score
}

fn make_debug_entry(r: &PairwiseResult) -> (e: PairwiseDebugEntry)
    requires
        result_wf(*r),
    ensures
        debug_entry_matches(e, *r),
{
    let accent_rgb = lab_to_rgb8(r.accent.lab);
    let active_rgb = lab_to_rgb8(r.active.lab);
    PairwiseDebugEntry {
        accent_hex: rgb_to_hex(accent_rgb),
        accent_origin: r.accent.origin,
        active_hex: rgb_to_hex(active_rgb),
        active_origin: r.active.origin,
        accent_bg: r.metrics.accent_bg,
        accent_text: r.metrics.accent_text,
        accent_active: r.metrics.accent_active,
        active_bg: r.metrics.active_bg,
        active_text: r.metrics.active_text,
        delta_e: r.metrics.delta_e,
        min_contrast: r.metrics.min_contrast(),
        brightness_separation: r.metrics.brightness_separation(),
        provenance_score: r.provenance_score,
    }
}

/// A debug entry list faithfully renders a list of admissible pairs.
pub open spec fn debug_entries_match(d: Seq<PairwiseDebugEntry>, s: Seq<PairwiseResult>) -> bool {
    &&& d.len() == s.len()
    &&& forall|i: int| 0 <= i < s.len() ==> debug_entry_matches(#[trigger] d[i], s[i])
}

fn debug_entries_for(results: &Vec<PairwiseResult>) -> (d: Vec<PairwiseDebugEntry>)
    requires
        crate::pairwise::results_wf(results@),
    ensures
        debug_entries_match(d@, results@),
{
    let mut d: Vec<PairwiseDebugEntry> = Vec::new();
    let mut i: usize = 0;
    while i < results.len()
        invariant
            0 <= i <= results@.len(),
            crate::pairwise::results_wf(results@),
            d@.len() == i,
            forall|j: int| 0 <= j < i ==> debug_entry_matches(#[trigger] d@[j], results@[j]),
        decreases results@.len() - i,
    {
        proof {
            assert(result_wf(results@[i as int]));
        }
        d.push(make_debug_entry(&results[i]));
        i = i + 1;
    }
    d
}

/// A debug list faithfully renders a candidate list.
pub open spec fn debug_list_matches(d: Seq<PairCandidateDebug>, s: Seq<RoleColorCandidate>)
    -> bool {
    &&& d.len() == s.len()
    &&& forall|i: int|
        0 <= i < s.len() ==> {
            &&& (#[trigger] d[i]).hex@ == hex_seq_s(lab_to_rgb8_s(s[i].lab))
            &&& d[i].origin == s[i].origin
            &&& d[i].provenance_rank == s[i].provenance_rank
            &&& d[i].base_score == s[i].base_score
        }
}

fn candidate_list_for_debug(candidates: &Vec<RoleColorCandidate>) -> (d: Vec<PairCandidateDebug>)
    requires
        candidates_wf(candidates@),
    ensures
        debug_list_matches(d@, candidates@),
{
    let mut d: Vec<PairCandidateDebug> = Vec::new();
    let mut i: usize = 0;
    while i < candidates.len()
        invariant
            0 <= i <= candidates@.len(),
            candidates_wf(candidates@),
            d@.len() == i,
            forall|j: int|
                0 <= j < i ==> {
                    &&& (#[trigger] d@[j]).hex@ == hex_seq_s(lab_to_rgb8_s(candidates@[j].lab))
                    &&& d@[j].origin == candidates@[j].origin
                    &&& d@[j].provenance_rank == candidates@[j].provenance_rank
                    &&& d@[j].base_score == candidates@[j].base_score
                },
        decreases candidates@.len() - i,
    {
        proof {
            assert(candidate_wf(candidates@[i as int]));
        }
        let c = &candidates[i];
        let rgb = lab_to_rgb8(c.lab);
        d.push(
            PairCandidateDebug {
                hex: rgb_to_hex(rgb),
                origin: c.origin,
                provenance_rank: c.provenance_rank,
                base_score: c.base_score,
            },
        );
        i = i + 1;
    }
    d
}

/// What the accent and active records of the winning pair satisfy.
pub open spec fn pair_assignment_matches(
    a: RoleAssignment,
    role: ColorRole,
    cand: RoleColorCandidate,
    bg: Lab,
    text: Lab,
) -> bool {
    &&& a.role == role
    &&& a.rgb == lab_to_rgb8_s(cand.lab)
    &&& a.source_cluster_index == cand.source_cluster_index
    &&& a.confidence == confidence_s(cand)
    &&& a.origin == Some(cand.origin)
    &&& a.contrast_against_background == Some(contrast_s(a.lab, bg) as i64)
    &&& a.contrast_against_text == Some(contrast_s(a.lab, text) as i64)
    &&& assignment_wf(a)
}

/// Solve the accent/active pair jointly: build both candidate lists (with
/// their guaranteed fallbacks), run the strict, relaxed and fallback tiers
/// in order, and turn the winning pair into the two role records. The
/// winning pair always satisfies the guardrails of the tier settled on;
/// under the fallback tier those are vacuous.
pub fn select_accent_and_active(
    clusters: &Vec<ColorCluster>,
    used: &mut Vec<usize>,
    bg_lab: Lab,
    text_lab: Lab,
    debug_enabled: bool,
) -> (r: (RoleAssignment, RoleAssignment, Option<PairwiseDebug>))
    requires
        clusters_wf(clusters@),
        lab_canonical(bg_lab),
        lab_canonical(text_lab),
    ensures
        ({
            let al = accent_list_s(clusters@, bg_lab, text_lab, old(used)@);
            let acl = active_list_s(clusters@, bg_lab, text_lab, old(used)@);
            let t = tier_of_s(al, acl, bg_lab, text_lab);
            let w = winner_of_s(al, acl, bg_lab, text_lab);
            &&& pair_assignment_matches(r.0, ColorRole::Accent, w.accent, bg_lab, text_lab)
            &&& pair_assignment_matches(r.1, ColorRole::ActiveItem, w.active, bg_lab, text_lab)
            &&& w.metrics == pair_metrics_s(w.accent.lab, w.active.lab, bg_lab, text_lab)
            &&& passes_pairwise_s(w.metrics, tier_guard_s(t))
            &&& final(used)@ == push_used_s(
                push_used_s(old(used)@, w.accent.source_cluster_index),
                w.active.source_cluster_index,
            )
            &&& match r.2 {
                Some(d) => debug_enabled && d.tier == t && d.evaluated_pairs as int
                    == evaluated_of_s(al, acl, bg_lab, text_lab) && debug_entry_matches(
                    d.winning_pair,
                    w,
                ) && debug_entries_match(
                    d.top_pairs@,
                    crate::pairwise::top_pairs_s(al, acl, bg_lab, text_lab, tier_guard_s(t)),
                ) && debug_list_matches(d.accent_candidates@, al) && debug_list_matches(
                    d.active_candidates@,
                    acl,
                ),
                None => !debug_enabled,
            }
        }),
{
    proof {
        lemma_canonical_is_wf(bg_lab);
        lemma_canonical_is_wf(text_lab);
    }
    let mut accent_candidates = build_accent_candidates(clusters, bg_lab, text_lab, used);
    if accent_candidates.len() == 0 {
        accent_candidates.push(
            RoleColorCandidate {
                lab: Lab { l: clamp_i64(bg_lab.l, 0, 100_000), a: 0, b: 0 },
                source_cluster_index: None,
                origin: Origin::SyntheticBgNeutral,
                provenance_rank: 2,
                base_score: 300,
            },
        );
        proof {
            assert(accent_candidates@ =~= accent_list_s(clusters@, bg_lab, text_lab,
                old(used)@));
        }
    }
    let mut active_candidates = build_active_candidates(clusters, bg_lab, text_lab, used);
    if active_candidates.len() == 0 {
        active_candidates.push(
            RoleColorCandidate {
                lab: Lab { l: clamp_i64(text_lab.l, 0, 100_000), a: 0, b: 0 },
                source_cluster_index: None,
                origin: Origin::SyntheticTextNeutral,
                provenance_rank: 2,
                base_score: 300,
            },
        );
        proof {
            assert(active_candidates@ =~= active_list_s(clusters@, bg_lab, text_lab, old(used)@));
        }
    }
    let ghost al = accent_candidates@;
    let ghost acl = active_candidates@;
    let strict = PairwiseGuardrails {
        min_accent_vs_bg: 3000,
        min_accent_vs_text: 4500,
        min_active_vs_bg: 2000,
        min_active_vs_text: 4500,
        min_peer_contrast: 4500,
        min_peer_delta_e: 25_000,
        min_brightness_separation: 25_000,
    };
    let relaxed = PairwiseGuardrails {
        min_accent_vs_bg: 3000,
        min_accent_vs_text: 4500,
        min_active_vs_bg: 2000,
        min_active_vs_text: 4500,
        min_peer_contrast: 3500,
        min_peer_delta_e: 20_000,
        min_brightness_separation: 17_500,
    };
    let fallback = PairwiseGuardrails {
        min_accent_vs_bg: 0,
        min_accent_vs_text: 0,
        min_active_vs_bg: 0,
        min_active_vs_text: 0,
        min_peer_contrast: 0,
        min_peer_delta_e: 0,
        min_brightness_separation: 0,
    };
    proof {
        crate::fx::lemma_mul_le(al.len() as int, acl.len() as int, 100_000, 100_000);
    }
    let (strict_best, strict_eval, strict_passing) = solve_with_guardrails(
        &accent_candidates,
        &active_candidates,
        bg_lab,
        text_lab,
        &strict,
        debug_enabled,
    );
    let (winner, tier, evaluated, tier_passing): (PairwiseResult, Tier, u64, Vec<PairwiseResult>)
        = match strict_best {
        Some(b) => {
            proof {
                crate::pairwise::lemma_best_metrics(b, al, acl, bg_lab, text_lab, strict);
                assert(1int * al.len() as int * acl.len() as int == al.len() as int
                    * acl.len() as int) by (nonlinear_arith);
            }
            (b, Tier::Strict, strict_eval, strict_passing)
        },
        None => {
            let (relaxed_best, relaxed_eval, relaxed_passing) = solve_with_guardrails(
                &accent_candidates,
                &active_candidates,
                bg_lab,
                text_lab,
                &relaxed,
                debug_enabled,
            );
            match relaxed_best {
                Some(b) => {
                    proof {
                        crate::pairwise::lemma_best_metrics(b, al, acl, bg_lab, text_lab,
                            relaxed);
                        assert(2int * al.len() as int * acl.len() as int == al.len() as int
                            * acl.len() as int + al.len() as int * acl.len() as int)
                            by (nonlinear_arith);
                    }
                    (b, Tier::Relaxed, strict_eval + relaxed_eval, relaxed_passing)
                },
                None => {
                    let (fallback_best, fallback_eval, fallback_passing) = solve_with_guardrails(
                        &accent_candidates,
                        &active_candidates,
                        bg_lab,
                        text_lab,
                        &fallback,
                        debug_enabled,
                    );
                    proof {
                        lemma_solve_fallback_some(al, acl, bg_lab, text_lab);
                    }
                    match fallback_best {
                        Some(b) => {
                            proof {
                                crate::pairwise::lemma_best_metrics(b, al, acl, bg_lab,
                                    text_lab, fallback);
                                assert(3int * al.len() as int * acl.len() as int == al.len() as int
                                    * acl.len() as int + al.len() as int * acl.len() as int
                                    + al.len() as int * acl.len() as int) by (nonlinear_arith);
                            }
                            (b, Tier::Fallback, strict_eval + relaxed_eval + fallback_eval,
                            fallback_passing)
                        },
                        None => {
                            proof {
                                assert(false);
                            }
                            (
                                PairwiseResult {
                                    accent: accent_candidates[0],
                                    active: active_candidates[0],
                                    metrics: build_pair_metrics(
                                        accent_candidates[0].lab,
                                        active_candidates[0].lab,
                                        bg_lab,
                                        text_lab,
                                    ),
                                    provenance_score: 4,
                                },
                                Tier::Fallback,
                                0,
                                Vec::new(),
                            )
                        },
                    }
                },
            }
        },
    };
    let accent_assignment = role_assignment_from_lab(
        ColorRole::Accent,
        winner.accent.lab,
        winner.accent.source_cluster_index,
        winner.accent.confidence(),
        Some(winner.accent.origin),
        Some(bg_lab),
        Some(text_lab),
    );
    push_used(used, winner.accent.source_cluster_index);
    let active_assignment = role_assignment_from_lab(
        ColorRole::ActiveItem,
        winner.active.lab,
        winner.active.source_cluster_index,
        winner.active.confidence(),
        Some(winner.active.origin),
        Some(bg_lab),
        Some(text_lab),
    );
    push_used(used, winner.active.source_cluster_index);
    let debug = if debug_enabled {
        let top = crate::pairwise::rank_top_pairs(tier_passing);
        Some(
            PairwiseDebug {
                evaluated_pairs: evaluated,
                tier,
                winning_pair: make_debug_entry(&winner),
                top_pairs: debug_entries_for(&top),
                accent_candidates: candidate_list_for_debug(&accent_candidates),
                active_candidates: candidate_list_for_debug(&active_candidates),
            },
        )
    } else {
        None
    };
    (accent_assignment, active_assignment, debug)
}


/// The background choice: index and confidence.
pub open spec fn bg_pick_s(clusters: Seq<ColorCluster>) -> (int, int) {
    match crate::roles::first_good_bg(clusters, 0) {
        Some(i) => (i, 900int),
        None => (0int, 500int),
    }
}

/// The canonical background Lab: the chosen cluster's color snapped to RGB8
/// and re-derived.
pub open spec fn bg_lab_of_s(clusters: Seq<ColorCluster>) -> Lab {
    rgb8_to_lab_s(lab_to_rgb8_s(clusters[bg_pick_s(clusters).0].lab))
}

/// The text choice before canonicalization: the working Lab value, the
/// source cluster, the confidence and the origin. Below readable contrast
/// the near-white or near-black synthetic substitutes, by background
/// lightness.
pub open spec fn text_pick_s(clusters: Seq<ColorCluster>, bg: Lab) -> (
    Lab,
    Option<usize>,
    int,
    Origin,
) {
    let best = crate::roles::text_best_upto(clusters, bg, clusters.len() as int);
    if best.1 < 4500 {
        let sub = if bg.l < 50_000 {
            rgb8_to_lab_s(Rgb8 { r: 220, g: 220, b: 220 })
        } else {
            rgb8_to_lab_s(Rgb8 { r: 30, g: 30, b: 30 })
        };
        (sub, None, 450int, Origin::SyntheticSubstitute)
    } else {
        (clusters[best.0].lab, Some(best.0 as usize), 900int, Origin::Cluster(best.0 as usize))
    }
}

/// The canonical text Lab.
pub open spec fn text_lab_of_s(clusters: Seq<ColorCluster>, bg: Lab) -> Lab {
    rgb8_to_lab_s(lab_to_rgb8_s(text_pick_s(clusters, bg).0))
}

/// The used-cluster set after the background and text steps.
pub open spec fn used_after_text_s(clusters: Seq<ColorCluster>, bg: Lab) -> Seq<usize> {
    let base = seq![bg_pick_s(clusters).0 as usize];
    match text_pick_s(clusters, bg).1 {
        Some(i) => base.push(i),
        None => base,
    }
}

/// The used-cluster set after the accent/active step.
pub open spec fn used_after_pair_s(clusters: Seq<ColorCluster>, bg: Lab, text: Lab) -> Seq<usize> {
    let used2 = used_after_text_s(clusters, bg);
    let al = accent_list_s(clusters, bg, text, used2);
    let acl = active_list_s(clusters, bg, text, used2);
    let w = winner_of_s(al, acl, bg, text);
    push_used_s(push_used_s(used2, w.accent.source_cluster_index), w.active.source_cluster_index)
}

/// The border choice: index and confidence, over the clusters not yet used.
pub open spec fn border_pick_s(clusters: Seq<ColorCluster>, bg: Lab, used: Seq<usize>) -> (
    int,
    int,
) {
    let best = crate::roles::border_best_upto(clusters, bg, used, clusters.len() as int);
    if best.1 > 0 {
        (best.0, if best.1 > 500 {
            800int
        } else {
            500int
        })
    } else {
        (crate::roles::first_unused(used, clusters.len() as int, 0), 500int)
    }
}

/// One record equals the canonicalization of a working Lab value with the
/// given attribution.
pub open spec fn assignment_matches(
    a: RoleAssignment,
    role: ColorRole,
    source_lab: Lab,
    src: Option<usize>,
    conf: int,
    origin: Option<Origin>,
    bg_ref: Option<Lab>,
    text_ref: Option<Lab>,
) -> bool {
    &&& a.role == role
    &&& a.rgb == lab_to_rgb8_s(source_lab)
    &&& a.hsv == rgb8_to_hsv_s(a.rgb)
    &&& a.lab == rgb8_to_lab_s(a.rgb)
    &&& a.hex@ == hex_seq_s(a.rgb)
    &&& a.source_cluster_index == src
    &&& a.confidence == conf
    &&& a.contrast_against_background == opt_contrast_s(a.lab, bg_ref)
    &&& a.contrast_against_text == opt_contrast_s(a.lab, text_ref)
    &&& a.origin == origin
}

/// An alias record copies a resolved record's color under a new role and
/// confidence.
pub open spec fn alias_matches(a: RoleAssignment, base: RoleAssignment, role: ColorRole,
    conf: int) -> bool {
    &&& a.role == role
    &&& a.rgb == base.rgb
    &&& a.hsv == base.hsv
    &&& a.lab == base.lab
    &&& a.hex@ == base.hex@
    &&& a.source_cluster_index == base.source_cluster_index
    &&& a.confidence == conf
    &&& a.contrast_against_background == base.contrast_against_background
    &&& a.contrast_against_text == base.contrast_against_text
    &&& a.origin == base.origin
}

/// What the pipeline produces from a cluster list: exactly eight records,
/// one per fixed role in order, each field determined by the cluster list
/// alone.
pub open spec fn role_map_ok(clusters: Seq<ColorCluster>, r: Seq<RoleAssignment>) -> bool {
    let bgp = bg_pick_s(clusters);
    let bg = bg_lab_of_s(clusters);
    let tp = text_pick_s(clusters, bg);
    let text = text_lab_of_s(clusters, bg);
    let used2 = used_after_text_s(clusters, bg);
    let al = accent_list_s(clusters, bg, text, used2);
    let acl = active_list_s(clusters, bg, text, used2);
    let w = winner_of_s(al, acl, bg, text);
    let used3 = used_after_pair_s(clusters, bg, text);
    let bp = border_pick_s(clusters, bg, used3);
    &&& r.len() == 8
    &&& assignment_matches(r[0], ColorRole::Background, clusters[bgp.0].lab, Some(
        bgp.0 as usize,
    ), bgp.1, Some(Origin::Cluster(bgp.0 as usize)), None, None)
    &&& assignment_matches(r[1], ColorRole::Text, tp.0, tp.1, tp.2, Some(tp.3), Some(bg), None)
    &&& pair_assignment_matches(r[2], ColorRole::Accent, w.accent, bg, text)
    &&& assignment_matches(r[3], ColorRole::Border, clusters[bp.0].lab, Some(bp.0 as usize),
        bp.1, Some(Origin::Cluster(bp.0 as usize)), None, None)
    &&& pair_assignment_matches(r[4], ColorRole::ActiveItem, w.active, bg, text)
    &&& alias_matches(r[5], r[3], ColorRole::InactiveItem, 700)
    &&& alias_matches(r[6], r[2], ColorRole::ProgressBar, r[2].confidence as int)
    &&& alias_matches(r[7], r[4], ColorRole::Scrollbar, r[4].confidence as int)
    &&& forall|i: int| 0 <= i < 8 ==> assignment_wf(#[trigger] r[i])
}

/// The solver facts the pipeline reports: the tier settled on and the
/// guardrails its winner satisfies.
pub open spec fn pair_solution_ok(clusters: Seq<ColorCluster>) -> bool {
    let bg = bg_lab_of_s(clusters);
    let text = text_lab_of_s(clusters, bg);
    let used2 = used_after_text_s(clusters, bg);
    let al = accent_list_s(clusters, bg, text, used2);
    let acl = active_list_s(clusters, bg, text, used2);
    let w = winner_of_s(al, acl, bg, text);
    let t = tier_of_s(al, acl, bg, text);
    &&& w.metrics == pair_metrics_s(w.accent.lab, w.active.lab, bg, text)
    &&& passes_pairwise_s(w.metrics, tier_guard_s(t))
}

/// Map the cluster list to the eight role records, resolving background,
/// text, the accent/active pair, border, and the three alias roles in that
/// order.
pub fn map_colors_to_roles(clusters: &Vec<ColorCluster>, debug_enabled: bool) -> (r: (
    Vec<RoleAssignment>,
    Option<PairwiseDebug>,
))
    requires
        1 <= clusters@.len(),
        clusters_wf(clusters@),
    ensures
        role_map_ok(clusters@, r.0@),
        pair_solution_ok(clusters@),
        ({
            let bg = bg_lab_of_s(clusters@);
            let text = text_lab_of_s(clusters@, bg);
            let used2 = used_after_text_s(clusters@, bg);
            let al = accent_list_s(clusters@, bg, text, used2);
            let acl = active_list_s(clusters@, bg, text, used2);
            match r.1 {
                Some(d) => debug_enabled && d.tier == tier_of_s(al, acl, bg, text)
                    && d.evaluated_pairs as int == evaluated_of_s(al, acl, bg, text)
                    && debug_entry_matches(d.winning_pair, winner_of_s(al, acl, bg, text))
                    && debug_list_matches(d.accent_candidates@, al) && debug_list_matches(
                    d.active_candidates@,
                    acl,
                ),
                None => !debug_enabled,
            }
        }),
{
    let n_clusters = clusters.len();
    let (bg_idx, bg_conf) = crate::roles::select_background(clusters);
    proof {
        assert(clusters@.len() == n_clusters);
        match crate::roles::first_good_bg(clusters@, 0) {
            Some(i) => {
                crate::roles::lemma_first_good_bg_range(clusters@, 0);
                assert(bg_pick_s(clusters@) == (i, 900int));
            },
            None => {
                assert(bg_pick_s(clusters@) == (0int, 500int));
            },
        }
        assert(bg_pick_s(clusters@).0 == bg_idx as int);
        assert(bg_pick_s(clusters@).1 == bg_conf as int);
        assert(cluster_wf(clusters@[bg_idx as int]));
        lemma_canonical_is_wf(clusters@[bg_idx as int].lab);
    }
    let bg_assignment = role_assignment_from_lab(
        ColorRole::Background,
        clusters[bg_idx].lab,
        Some(bg_idx),
        bg_conf,
        Some(Origin::Cluster(bg_idx)),
        None,
        None,
    );
    let bg_lab = bg_assignment.lab;
    let mut used: Vec<usize> = Vec::new();
    used.push(bg_idx);
    proof {
        lemma_canonical_is_wf(bg_lab);
    }
    let (text_idx, _text_conf) = crate::roles::select_text_color(clusters, bg_lab);
    proof {
        assert(cluster_wf(clusters@[text_idx as int]));
        lemma_canonical_is_wf(clusters@[text_idx as int].lab);
    }
    let best_contrast = contrast_ratio(bg_lab, clusters[text_idx].lab);
    let (text_lab_pre, text_source, text_conf2, text_origin) = if best_contrast < 4500 {
        let sub = if bg_lab.l < 50_000 {
            crate::roles::generate_light_text()
        } else {
            crate::roles::generate_dark_text()
        };
        (sub.2, None, 450i64, Origin::SyntheticSubstitute)
    } else {
        used.push(text_idx);
        (clusters[text_idx].lab, Some(text_idx), 900i64, Origin::Cluster(text_idx))
    };
    proof {
        crate::roles::lemma_text_best_value(clusters@, bg_lab, clusters@.len() as int);
        assert((text_lab_pre, text_source, text_conf2 as int, text_origin) == text_pick_s(
            clusters@,
            bg_lab,
        ));
        assert(used@ =~= used_after_text_s(clusters@, bg_lab));
        lemma_canonical_is_wf(text_lab_pre);
    }
    let text_assignment = role_assignment_from_lab(
        ColorRole::Text,
        text_lab_pre,
        text_source,
        text_conf2,
        Some(text_origin),
        Some(bg_lab),
        None,
    );
    let text_lab = text_assignment.lab;
    proof {
        lemma_canonical_is_wf(text_lab);
    }
    let (accent_assignment, active_assignment, pairwise_debug) = select_accent_and_active(
        clusters,
        &mut used,
        bg_lab,
        text_lab,
        debug_enabled,
    );
    let (border_idx, border_conf) = crate::roles::select_border_color(clusters, bg_lab, &used);
    used.push(border_idx);
    proof {
        assert(cluster_wf(clusters@[border_idx as int]));
        lemma_canonical_is_wf(clusters@[border_idx as int].lab);
    }
    let border_assignment = role_assignment_from_lab(
        ColorRole::Border,
        clusters[border_idx].lab,
        Some(border_idx),
        border_conf,
        Some(Origin::Cluster(border_idx)),
        None,
        None,
    );
    let inactive = clone_for_role(ColorRole::InactiveItem, &border_assignment, 700);
    let progress = clone_for_role(
        ColorRole::ProgressBar,
        &accent_assignment,
        accent_assignment.confidence,
    );
    let scrollbar = clone_for_role(
        ColorRole::Scrollbar,
        &active_assignment,
        active_assignment.confidence,
    );
    let ghost g_bg = bg_assignment;
    let ghost g_text = text_assignment;
    let ghost g_accent = accent_assignment;
    let ghost g_border = border_assignment;
    let ghost g_active = active_assignment;
    let ghost g_inactive = inactive;
    let ghost g_progress = progress;
    let ghost g_scrollbar = scrollbar;
    let mut assignments: Vec<RoleAssignment> = Vec::new();
    assignments.push(bg_assignment);
    assignments.push(text_assignment);
    assignments.push(accent_assignment);
    assignments.push(border_assignment);
    assignments.push(active_assignment);
    assignments.push(inactive);
    assignments.push(progress);
    assignments.push(scrollbar);
    proof {
        assert(assignments@ =~= seq![
            g_bg,
            g_text,
            g_accent,
            g_border,
            g_active,
            g_inactive,
            g_progress,
            g_scrollbar,
        ]);
        assert(bg_lab == bg_lab_of_s(clusters@));
        assert(text_lab == text_lab_of_s(clusters@, bg_lab));
        assert(assignments@[0] == g_bg);
        assert(assignments@[1] == g_text);
        assert(assignments@[2] == g_accent);
        assert(assignments@[3] == g_border);
        assert(assignments@[4] == g_active);
        assert(assignments@[5] == g_inactive);
        assert(assignments@[6] == g_progress);
        assert(assignments@[7] == g_scrollbar);
    }
    (assignments, pairwise_debug)
}


/// The working-space points of the sample sequence.
pub open spec fn points_of_samples_s(space: crate::space::ColorSpace, samples: Seq<Rgb8>)
    -> Seq<crate::space::Point3> {
    Seq::new(samples.len(), |i: int| crate::space::point_from_rgb8_s(space, samples[i]))
}

/// The complete result of one pipeline run.
pub struct ThemeResult {
    pub clusters: Vec<ColorCluster>,
    pub assignments: Vec<RoleAssignment>,
    pub iterations: usize,
    pub debug: Option<PairwiseDebug>,
}

/// Everything a pipeline run returns, as a function of the sample sequence
/// and the configuration: the sorted cluster list from the clustering run,
/// the iteration count, and the eight role records.
pub open spec fn pipeline_post(
    samples: Seq<Rgb8>,
    total_sampled: usize,
    space: crate::space::ColorSpace,
    k: usize,
    max_iters: usize,
    tol_milli: i64,
    seed: u64,
    clusters: Seq<ColorCluster>,
    assignments: Seq<RoleAssignment>,
    iterations: int,
) -> bool {
    let pts = points_of_samples_s(space, samples);
    let cfg = crate::kmeans::KMeansConfig {
        k,
        max_iters,
        tol_milli,
        seed,
        warm_start: None,
        mini_batch: None,
    };
    let km = crate::kmeans::kmeans_spec(pts, cfg);
    &&& clusters == crate::cluster::build_clusters_s(
        space,
        km.0,
        crate::kmeans::counts_usize_s(km.1),
        total_sampled as int,
    )
    &&& iterations == km.2
    &&& role_map_ok(clusters, assignments)
    &&& pair_solution_ok(clusters)
}

/// Run the whole pipeline: convert the samples to the working color space,
/// cluster them, build the canonical cluster list, and resolve the eight
/// roles. Deterministic in the sample sequence and the configuration.
pub fn run_theme_pipeline(
    samples: &Vec<Rgb8>,
    total_sampled: usize,
    space: crate::space::ColorSpace,
    k: usize,
    max_iters: usize,
    tol_milli: i64,
    seed: u64,
    debug_enabled: bool,
) -> (r: ThemeResult)
    requires
        1 <= samples@.len(),
        samples@.len() <= total_sampled <= 0x1_0000_0000,
        1 <= k <= samples@.len(),
        1 <= max_iters,
        0 <= tol_milli <= 1_000_000,
    ensures
        pipeline_post(
            samples@,
            total_sampled,
            space,
            k,
            max_iters,
            tol_milli,
            seed,
            r.clusters@,
            r.assignments@,
            r.iterations as int,
        ),
        crate::cluster::clusters_wf(r.clusters@),
        crate::cluster::sorted_desc(r.clusters@),
        1 <= r.clusters@.len() <= k,
        crate::cluster::cluster_count_sum(r.clusters@) == samples@.len(),
        1 <= r.iterations <= max_iters,
        match r.debug {
            Some(_) => debug_enabled,
            None => !debug_enabled,
        },
{
    let mut pts: Vec<crate::space::Point3> = Vec::new();
    let mut i: usize = 0;
    while i < samples.len()
        invariant
            0 <= i <= samples@.len(),
            pts@.len() == i,
            forall|j: int|
                0 <= j < i ==> #[trigger] pts@[j] == crate::space::point_from_rgb8_s(
                    space,
                    samples@[j],
                ) && crate::space::point_wf(pts@[j]),
        decreases samples@.len() - i,
    {
        pts.push(crate::space::point_from_rgb8(space, samples[i]));
        i = i + 1;
    }
    proof {
        assert(pts@ =~= points_of_samples_s(space, samples@));
    }
    let cfg = crate::kmeans::KMeansConfig {
        k,
        max_iters,
        tol_milli,
        seed,
        warm_start: None,
        mini_batch: None,
    };
    let km = crate::kmeans::run_kmeans(&pts, &cfg);
    proof {
        let spec_km = crate::kmeans::kmeans_spec(pts@, cfg);
        assert(km.counts@ =~= crate::kmeans::counts_usize_s(spec_km.1));
    }
    let clusters = crate::cluster::build_clusters(space, &km.centroids, &km.counts,
        total_sampled);
    let (assignments, debug) = map_colors_to_roles(&clusters, debug_enabled);
    ThemeResult { clusters, assignments, iterations: km.iterations, debug }
}

/// Two records are byte-identical: every field is equal, the hex string by
/// its characters.
pub open spec fn assignments_equivalent(a: RoleAssignment, b: RoleAssignment) -> bool {
    &&& a.role == b.role
    &&& a.rgb == b.rgb
    &&& a.hsv == b.hsv
    &&& a.lab == b.lab
    &&& a.hex@ == b.hex@
    &&& a.source_cluster_index == b.source_cluster_index
    &&& a.confidence == b.confidence
    &&& a.contrast_against_background == b.contrast_against_background
    &&& a.contrast_against_text == b.contrast_against_text
    &&& a.origin == b.origin
}

/// The pipeline always returns exactly eight records, one per fixed role in
/// order, each with a confidence in the unit interval.
pub proof fn lemma_role_pipeline_shape(clusters: Seq<ColorCluster>, r: Seq<RoleAssignment>)
    requires
        role_map_ok(clusters, r),
    ensures
        r.len() == 8,
        r[0].role == ColorRole::Background,
        r[1].role == ColorRole::Text,
        r[2].role == ColorRole::Accent,
        r[3].role == ColorRole::Border,
        r[4].role == ColorRole::ActiveItem,
        r[5].role == ColorRole::InactiveItem,
        r[6].role == ColorRole::ProgressBar,
        r[7].role == ColorRole::Scrollbar,
        forall|i: int| 0 <= i < 8 ==> 0 <= #[trigger] r[i].confidence <= 1000,
{
    assert forall|i: int| 0 <= i < 8 implies 0 <= #[trigger] r[i].confidence <= 1000 by {
        assert(assignment_wf(r[i]));
    }
}

/// The role records are a function of the cluster list: two runs over the
/// same clusters produce byte-identical records.
pub proof fn lemma_role_map_deterministic(
    clusters: Seq<ColorCluster>,
    r1: Seq<RoleAssignment>,
    r2: Seq<RoleAssignment>,
)
    requires
        role_map_ok(clusters, r1),
        role_map_ok(clusters, r2),
    ensures
        r1.len() == r2.len(),
        forall|i: int| 0 <= i < r1.len() ==> assignments_equivalent(#[trigger] r1[i], r2[i]),
{
    assert forall|i: int| 0 <= i < r1.len() implies assignments_equivalent(
        #[trigger] r1[i],
        r2[i],
    ) by {
        assert(assignment_wf(r1[i]));
        assert(assignment_wf(r2[i]));
        if i == 5 {
            assert(assignment_wf(r1[3]));
            assert(assignment_wf(r2[3]));
        }
        if i == 6 {
            assert(assignment_wf(r1[2]));
            assert(assignment_wf(r2[2]));
        }
        if i == 7 {
            assert(assignment_wf(r1[4]));
            assert(assignment_wf(r2[4]));
        }
    }
}

/// Idempotence of the pipeline: two runs with the same sample sequence,
/// total, color space, cluster count, iteration budget, tolerance and seed
/// yield the same clusters, the same iteration count, and byte-identical
/// role records.
pub proof fn lemma_pipeline_idempotent(
    samples: Seq<Rgb8>,
    total_sampled: usize,
    space: crate::space::ColorSpace,
    k: usize,
    max_iters: usize,
    tol_milli: i64,
    seed: u64,
    c1: Seq<ColorCluster>,
    a1: Seq<RoleAssignment>,
    i1: int,
    c2: Seq<ColorCluster>,
    a2: Seq<RoleAssignment>,
    i2: int,
)
    requires
        pipeline_post(samples, total_sampled, space, k, max_iters, tol_milli, seed, c1, a1, i1),
        pipeline_post(samples, total_sampled, space, k, max_iters, tol_milli, seed, c2, a2, i2),
    ensures
        c1 == c2,
        i1 == i2,
        a1.len() == a2.len(),
        forall|i: int| 0 <= i < a1.len() ==> assignments_equivalent(#[trigger] a1[i], a2[i]),
{
    lemma_role_map_deterministic(c1, a1, a2);
}

} // verus!

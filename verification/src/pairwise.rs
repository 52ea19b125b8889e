//! The tiered pairwise solver for the accent/active pair: a cross-product
//! search over both candidate lists under strict, then relaxed, then
//! unconditional guardrails, selecting the best admissible pair by a fixed
//! total order with first-in-enumeration tie-breaking.
use vstd::prelude::*;

use crate::candidates::{candidates_wf, candidate_wf, RoleColorCandidate};
use crate::fx::{abs_i64, abs_s, lemma_mul_le, sdiv, sdiv_s};
use crate::lab::{contrast_ratio, contrast_s, delta_e_cie76, delta_e_s, lab_wf, Lab};

verus! {

/// The five contrast ratios of an accent/active pair, their perceptual
/// distance, and both lightness values, all in milli-units.
#[derive(Clone, Copy, Debug, PartialEq, Eq, Structural)]
pub struct PairwiseMetrics {
    pub accent_bg: i64,
    pub accent_text: i64,
    pub accent_active: i64,
    pub active_bg: i64,
    pub active_text: i64,
    pub delta_e: i64,
    pub accent_l: i64,
    pub active_l: i64,
}

/// The metrics of a pair are the contrast ratios and distance of its two
/// colors against background, text and each other.
pub open spec fn pair_metrics_s(accent: Lab, active: Lab, bg: Lab, text: Lab) -> PairwiseMetrics {
    PairwiseMetrics {
        accent_bg: contrast_s(accent, bg) as i64,
        accent_text: contrast_s(accent, text) as i64,
        accent_active: contrast_s(accent, active) as i64,
        active_bg: contrast_s(active, bg) as i64,
        active_text: contrast_s(active, text) as i64,
        delta_e: delta_e_s(accent, active) as i64,
        accent_l: accent.l,
        active_l: active.l,
    }
}

pub open spec fn metrics_wf(m: PairwiseMetrics) -> bool {
    &&& 1000 <= m.accent_bg <= 20999
    &&& 1000 <= m.accent_text <= 20999
    &&& 1000 <= m.accent_active <= 20999
    &&& 1000 <= m.active_bg <= 20999
    &&& 1000 <= m.active_text <= 20999
    &&& 0 <= m.delta_e <= 0x80_0000
    &&& -500_000 <= m.accent_l <= 500_000
    &&& -500_000 <= m.active_l <= 500_000
}

pub fn build_pair_metrics(accent: Lab, active: Lab, bg: Lab, text: Lab) -> (m: PairwiseMetrics)
    requires
        lab_wf(accent),
        lab_wf(active),
        lab_wf(bg),
        lab_wf(text),
    ensures
        m == pair_metrics_s(accent, active, bg, text),
        metrics_wf(m),
{
    PairwiseMetrics {
        accent_bg: contrast_ratio(accent, bg),
        accent_text: contrast_ratio(accent, text),
        accent_active: contrast_ratio(accent, active),
        active_bg: contrast_ratio(active, bg),
        active_text: contrast_ratio(active, text),
        delta_e: delta_e_cie76(accent, active),
        accent_l: accent.l,
        active_l: active.l,
    }
}

/// The smallest of the five contrasts.
pub open spec fn min_contrast_s(m: PairwiseMetrics) -> int {
    let a = if m.accent_bg <= m.accent_text {
        m.accent_bg as int
    } else {
        m.accent_text as int
    };
    let b = if m.accent_active <= m.active_bg {
        m.accent_active as int
    } else {
        m.active_bg as int
    };
    let c = if a <= b {
        a
    } else {
        b
    };
    if c <= m.active_text {
        c
    } else {
        m.active_text as int
    }
}

/// The absolute lightness difference of the pair.
pub open spec fn brightness_separation_s(m: PairwiseMetrics) -> int {
    abs_s(m.accent_l - m.active_l)
}

/// The mean of the five contrasts.
pub open spec fn avg_contrast_s(m: PairwiseMetrics) -> int {
    (m.accent_bg + m.accent_text + m.accent_active + m.active_bg + m.active_text) / 5
}

impl PairwiseMetrics {
    pub fn min_contrast(&self) -> (r: i64)
        ensures
            r == min_contrast_s(*self),
    {
        let mut r = self.accent_bg;
        if self.accent_text < r {
            r = self.accent_text;
        }
        let mut s = self.accent_active;
        if self.active_bg < s {
            s = self.active_bg;
        }
        if s < r {
            r = s;
        }
        if self.active_text < r {
            r = self.active_text;
        }
        r
    }

    pub fn brightness_separation(&self) -> (r: i64)
        requires
            metrics_wf(*self),
        ensures
            r == brightness_separation_s(*self),
    {
        abs_i64(self.accent_l - self.active_l)
    }

    pub fn avg_contrast(&self) -> (r: i64)
        requires
            metrics_wf(*self),
        ensures
            r == avg_contrast_s(*self),
    {
        sdiv(
            self.accent_bg + self.accent_text + self.accent_active + self.active_bg
                + self.active_text,
            5,
        )
    }
}

/// Guardrail thresholds of one solver tier.
#[derive(Clone, Copy, Debug, PartialEq, Eq, Structural)]
pub struct PairwiseGuardrails {
    pub min_accent_vs_bg: i64,
    pub min_accent_vs_text: i64,
    pub min_active_vs_bg: i64,
    pub min_active_vs_text: i64,
    pub min_peer_contrast: i64,
    pub min_peer_delta_e: i64,
    pub min_brightness_separation: i64,
}

/// The strict tier: the full contrast floors, peer distance 25 and
/// brightness separation 25.
pub open spec fn strict_guardrails_s() -> PairwiseGuardrails {
    PairwiseGuardrails {
        min_accent_vs_bg: 3000,
        min_accent_vs_text: 4500,
        min_active_vs_bg: 2000,
        min_active_vs_text: 4500,
        min_peer_contrast: 4500,
        min_peer_delta_e: 25_000,
        min_brightness_separation: 25_000,
    }
}

/// The relaxed tier: the same background/text floors, peer contrast 3.5,
/// peer distance 20 and brightness separation scaled by 0.7.
pub open spec fn relaxed_guardrails_s() -> PairwiseGuardrails {
    PairwiseGuardrails {
        min_accent_vs_bg: 3000,
        min_accent_vs_text: 4500,
        min_active_vs_bg: 2000,
        min_active_vs_text: 4500,
        min_peer_contrast: 3500,
        min_peer_delta_e: 20_000,
        min_brightness_separation: 17_500,
    }
}

/// The fallback tier: no thresholds, so every pair is admissible.
pub open spec fn fallback_guardrails_s() -> PairwiseGuardrails {
    PairwiseGuardrails {
        min_accent_vs_bg: 0,
        min_accent_vs_text: 0,
        min_active_vs_bg: 0,
        min_active_vs_text: 0,
        min_peer_contrast: 0,
        min_peer_delta_e: 0,
        min_brightness_separation: 0,
    }
}

/// A pair is admissible under a tier iff all five contrasts, the peer
/// distance and the brightness separation meet the tier's minimums.
pub open spec fn passes_pairwise_s(m: PairwiseMetrics, g: PairwiseGuardrails) -> bool {
    &&& m.accent_bg >= g.min_accent_vs_bg
    &&& m.accent_text >= g.min_accent_vs_text
    &&& m.active_bg >= g.min_active_vs_bg
    &&& m.active_text >= g.min_active_vs_text
    &&& m.accent_active >= g.min_peer_contrast
    &&& m.delta_e >= g.min_peer_delta_e
    &&& brightness_separation_s(m) >= g.min_brightness_separation
}

pub fn passes_pairwise_guardrails(m: &PairwiseMetrics, g: &PairwiseGuardrails) -> (r: bool)
    requires
        metrics_wf(*m),
    ensures
        r == passes_pairwise_s(*m, *g),
{
    if m.accent_bg < g.min_accent_vs_bg {
        return false;
    }
    if m.accent_text < g.min_accent_vs_text {
        return false;
    }
    if m.active_bg < g.min_active_vs_bg {
        return false;
    }
    if m.active_text < g.min_active_vs_text {
        return false;
    }
    if m.accent_active < g.min_peer_contrast {
        return false;
    }
    if m.delta_e < g.min_peer_delta_e {
        return false;
    }
    if m.brightness_separation() < g.min_brightness_separation {
        return false;
    }
    true
}

/// An admissible pair with its metrics and summed provenance rank.
#[derive(Clone, Copy, Debug, PartialEq, Eq, Structural)]
pub struct PairwiseResult {
    pub accent: RoleColorCandidate,
    pub active: RoleColorCandidate,
    pub metrics: PairwiseMetrics,
    pub provenance_score: u8,
}

pub open spec fn result_wf(r: PairwiseResult) -> bool {
    &&& candidate_wf(r.accent)
    &&& candidate_wf(r.active)
    &&& metrics_wf(r.metrics)
    &&& r.provenance_score <= 4
}

/// The solver's total order, strictly better first: higher minimum
/// contrast, then higher brightness separation, then lower summed
/// provenance rank, then higher average contrast, then higher summed base
/// score.
pub open spec fn is_better_s(lhs: PairwiseResult, rhs: PairwiseResult) -> bool {
    let lmc = min_contrast_s(lhs.metrics);
    let rmc = min_contrast_s(rhs.metrics);
    let lbs = brightness_separation_s(lhs.metrics);
    let rbs = brightness_separation_s(rhs.metrics);
    let lavg = avg_contrast_s(lhs.metrics);
    let ravg = avg_contrast_s(rhs.metrics);
    let lsum = lhs.accent.base_score + lhs.active.base_score;
    let rsum = rhs.accent.base_score + rhs.active.base_score;
    ||| lmc > rmc
    ||| (lmc == rmc && lbs > rbs)
    ||| (lmc == rmc && lbs == rbs && lhs.provenance_score < rhs.provenance_score)
    ||| (lmc == rmc && lbs == rbs && lhs.provenance_score == rhs.provenance_score && lavg > ravg)
    ||| (lmc == rmc && lbs == rbs && lhs.provenance_score == rhs.provenance_score && lavg == ravg
        && lsum > rsum)
}

/// Whether the left result strictly precedes the right one in the solver's
/// total order. Scores are integers, so the order is total with no
/// not-a-number case.
pub fn compare_pairwise_results(lhs: &PairwiseResult, rhs: &PairwiseResult) -> (r: bool)
    requires
        result_wf(*lhs),
        result_wf(*rhs),
    ensures
        r == is_better_s(*lhs, *rhs),
{
    let lmc = lhs.metrics.min_contrast();
    let rmc = rhs.metrics.min_contrast();
    if lmc != rmc {
        return lmc > rmc;
    }
    let lbs = lhs.metrics.brightness_separation();
    let rbs = rhs.metrics.brightness_separation();
    if lbs != rbs {
        return lbs > rbs;
    }
    if lhs.provenance_score != rhs.provenance_score {
        return lhs.provenance_score < rhs.provenance_score;
    }
    let lavg = lhs.metrics.avg_contrast();
    let ravg = rhs.metrics.avg_contrast();
    if lavg != ravg {
        return lavg > ravg;
    }
    lhs.accent.base_score + lhs.active.base_score > rhs.accent.base_score
        + rhs.active.base_score
}

/// The admissible pair of two candidates, as the solver records it.
pub open spec fn pair_result_s(
    accents: Seq<RoleColorCandidate>,
    actives: Seq<RoleColorCandidate>,
    bg: Lab,
    text: Lab,
    i: int,
    j: int,
) -> PairwiseResult {
    PairwiseResult {
        accent: accents[i],
        active: actives[j],
        metrics: pair_metrics_s(accents[i].lab, actives[j].lab, bg, text),
        provenance_score: (accents[i].provenance_rank + actives[j].provenance_rank) as u8,
    }
}

/// One selection step: an inadmissible pair is skipped; an admissible pair
/// replaces the best so far only when strictly better, so the first of
/// equals in enumeration order wins.
pub open spec fn solve_step_s(
    prev: Option<PairwiseResult>,
    cand: PairwiseResult,
    g: PairwiseGuardrails,
) -> Option<PairwiseResult> {
    if !passes_pairwise_s(cand.metrics, g) {
        prev
    } else {
        match prev {
            None => Some(cand),
            Some(b) => if is_better_s(cand, b) {
                Some(cand)
            } else {
                prev
            },
        }
    }
}

/// Fold the pairs of row `i` (accent `i` against actives `0 .. j`) onto a
/// previous best.
pub open spec fn solve_row_from_s(
    prev: Option<PairwiseResult>,
    accents: Seq<RoleColorCandidate>,
    actives: Seq<RoleColorCandidate>,
    bg: Lab,
    text: Lab,
    g: PairwiseGuardrails,
    i: int,
    j: int,
) -> Option<PairwiseResult>
    decreases j,
{
    if j <= 0 {
        prev
    } else {
        solve_step_s(
            solve_row_from_s(prev, accents, actives, bg, text, g, i, j - 1),
            pair_result_s(accents, actives, bg, text, i, j - 1),
            g,
        )
    }
}

/// Fold the first `i` rows of the cross product.
pub open spec fn solve_rows_s(
    accents: Seq<RoleColorCandidate>,
    actives: Seq<RoleColorCandidate>,
    bg: Lab,
    text: Lab,
    g: PairwiseGuardrails,
    i: int,
) -> Option<PairwiseResult>
    decreases i,
{
    if i <= 0 {
        None
    } else {
        solve_row_from_s(
            solve_rows_s(accents, actives, bg, text, g, i - 1),
            accents,
            actives,
            bg,
            text,
            g,
            i - 1,
            actives.len() as int,
        )
    }
}

/// The winner over the whole cross product.
pub open spec fn solve_s(
    accents: Seq<RoleColorCandidate>,
    actives: Seq<RoleColorCandidate>,
    bg: Lab,
    text: Lab,
    g: PairwiseGuardrails,
) -> Option<PairwiseResult> {
    solve_rows_s(accents, actives, bg, text, g, accents.len() as int)
}

/// What any intermediate best satisfies: it is an admissible pair of the
/// lists with its true metrics.
pub open spec fn best_prop_s(
    b: PairwiseResult,
    accents: Seq<RoleColorCandidate>,
    actives: Seq<RoleColorCandidate>,
    bg: Lab,
    text: Lab,
    g: PairwiseGuardrails,
) -> bool {
    exists|i: int, j: int|
        0 <= i < accents.len() && 0 <= j < actives.len() && b == pair_result_s(
            accents,
            actives,
            bg,
            text,
            i,
            j,
        ) && passes_pairwise_s(#[trigger] pair_result_s(accents, actives, bg, text, i, j).metrics,
            g)
}

proof fn lemma_solve_row_from_prop(
    prev: Option<PairwiseResult>,
    accents: Seq<RoleColorCandidate>,
    actives: Seq<RoleColorCandidate>,
    bg: Lab,
    text: Lab,
    g: PairwiseGuardrails,
    i: int,
    j: int,
)
    requires
        0 <= i < accents.len(),
        0 <= j <= actives.len(),
        match prev {
            Some(b) => best_prop_s(b, accents, actives, bg, text, g),
            None => true,
        },
    ensures
        match solve_row_from_s(prev, accents, actives, bg, text, g, i, j) {
            Some(b) => best_prop_s(b, accents, actives, bg, text, g),
            None => true,
        },
    decreases j,
{
    if j > 0 {
        lemma_solve_row_from_prop(prev, accents, actives, bg, text, g, i, j - 1);
    }
}

/// The solver's winner is an admissible pair of the candidate lists,
/// carrying the true metrics of its two colors.
pub proof fn lemma_solve_prop(
    accents: Seq<RoleColorCandidate>,
    actives: Seq<RoleColorCandidate>,
    bg: Lab,
    text: Lab,
    g: PairwiseGuardrails,
    i: int,
)
    requires
        0 <= i <= accents.len(),
    ensures
        match solve_rows_s(accents, actives, bg, text, g, i) {
            Some(b) => best_prop_s(b, accents, actives, bg, text, g),
            None => true,
        },
    decreases i,
{
    if i > 0 {
        lemma_solve_prop(accents, actives, bg, text, g, i - 1);
        lemma_solve_row_from_prop(
            solve_rows_s(accents, actives, bg, text, g, i - 1),
            accents,
            actives,
            bg,
            text,
            g,
            i - 1,
            actives.len() as int,
        );
    }
}

proof fn lemma_solve_row_from_some(
    prev: Option<PairwiseResult>,
    accents: Seq<RoleColorCandidate>,
    actives: Seq<RoleColorCandidate>,
    bg: Lab,
    text: Lab,
    g: PairwiseGuardrails,
    i: int,
    j: int,
)
    requires
        g == fallback_guardrails_s(),
        candidates_wf(accents),
        candidates_wf(actives),
        0 <= i < accents.len(),
        1 <= j <= actives.len(),
    ensures
        solve_row_from_s(prev, accents, actives, bg, text, g, i, j).is_some(),
    decreases j,
{
    assert(candidate_wf(accents[i]));
    assert(candidate_wf(actives[j - 1]));
    crate::lab::lemma_contrast_bounds(accents[i].lab, actives[j - 1].lab);
    crate::lab::lemma_contrast_bounds(accents[i].lab, bg);
    crate::lab::lemma_contrast_bounds(accents[i].lab, text);
    crate::lab::lemma_contrast_bounds(actives[j - 1].lab, bg);
    crate::lab::lemma_contrast_bounds(actives[j - 1].lab, text);
    crate::lab::lemma_delta_e_bounds(accents[i].lab, actives[j - 1].lab);
    if j > 1 {
        lemma_solve_row_from_some(prev, accents, actives, bg, text, g, i, j - 1);
    }
}

/// Under the fallback tier every pair is admissible, so the solver always
/// returns a winner for non-empty candidate lists.
pub proof fn lemma_solve_fallback_some(
    accents: Seq<RoleColorCandidate>,
    actives: Seq<RoleColorCandidate>,
    bg: Lab,
    text: Lab,
)
    requires
        accents.len() >= 1,
        actives.len() >= 1,
        candidates_wf(accents),
        candidates_wf(actives),
    ensures
        solve_s(accents, actives, bg, text, fallback_guardrails_s()).is_some(),
{
    let g = fallback_guardrails_s();
    let i = accents.len() as int;
    lemma_solve_row_from_some(
        solve_rows_s(accents, actives, bg, text, g, i - 1),
        accents,
        actives,
        bg,
        text,
        g,
        i - 1,
        actives.len() as int,
    );
}

/// A result satisfying `best_prop_s` carries the true metrics of its two
/// colors and passes the tier's guardrails.
pub proof fn lemma_best_metrics(
    b: PairwiseResult,
    accents: Seq<RoleColorCandidate>,
    actives: Seq<RoleColorCandidate>,
    bg: Lab,
    text: Lab,
    g: PairwiseGuardrails,
)
    requires
        best_prop_s(b, accents, actives, bg, text, g),
    ensures
        b.metrics == pair_metrics_s(b.accent.lab, b.active.lab, bg, text),
        passes_pairwise_s(b.metrics, g),
{
    let (i, j): (int, int) = choose|i: int, j: int|
        0 <= i < accents.len() && 0 <= j < actives.len() && b == pair_result_s(
            accents,
            actives,
            bg,
            text,
            i,
            j,
        ) && passes_pairwise_s(#[trigger] pair_result_s(accents, actives, bg, text, i, j).metrics,
            g);
}

/// The solver's order is transitive.
proof fn lemma_better_trans(a: PairwiseResult, b: PairwiseResult, c: PairwiseResult)
    requires
        is_better_s(a, b),
        is_better_s(b, c),
    ensures
        is_better_s(a, c),
{
}

/// The best-so-far beats (or ties) every admissible pair among the rows
/// before `i` and, within row `i`, the columns before `j`; when it is
/// `None`, none of those pairs was admissible.
pub open spec fn opt_prop_s(
    best: Option<PairwiseResult>,
    accents: Seq<RoleColorCandidate>,
    actives: Seq<RoleColorCandidate>,
    bg: Lab,
    text: Lab,
    g: PairwiseGuardrails,
    i: int,
    j: int,
) -> bool {
    forall|x: int, y: int|
        0 <= x < accents.len() && 0 <= y < actives.len() && (x < i || (x == i && y < j))
            && passes_pairwise_s(#[trigger] pair_result_s(accents, actives, bg, text, x, y).metrics,
            g) ==> match best {
            Some(b) => !is_better_s(pair_result_s(accents, actives, bg, text, x, y), b),
            None => false,
        }
}

proof fn lemma_solve_row_opt(
    prev: Option<PairwiseResult>,
    accents: Seq<RoleColorCandidate>,
    actives: Seq<RoleColorCandidate>,
    bg: Lab,
    text: Lab,
    g: PairwiseGuardrails,
    i: int,
    j: int,
)
    requires
        0 <= i < accents.len(),
        0 <= j <= actives.len(),
        opt_prop_s(prev, accents, actives, bg, text, g, i, 0),
    ensures
        opt_prop_s(
            solve_row_from_s(prev, accents, actives, bg, text, g, i, j),
            accents,
            actives,
            bg,
            text,
            g,
            i,
            j,
        ),
    decreases j,
{
    if j > 0 {
        lemma_solve_row_opt(prev, accents, actives, bg, text, g, i, j - 1);
        let before = solve_row_from_s(prev, accents, actives, bg, text, g, i, j - 1);
        let cand = pair_result_s(accents, actives, bg, text, i, j - 1);
        let after = solve_row_from_s(prev, accents, actives, bg, text, g, i, j);
        assert(after == solve_step_s(before, cand, g));
        assert forall|x: int, y: int|
            0 <= x < accents.len() && 0 <= y < actives.len() && (x < i || (x == i && y < j))
                && passes_pairwise_s(
                #[trigger] pair_result_s(accents, actives, bg, text, x, y).metrics,
                g,
            ) implies match after {
            Some(b) => !is_better_s(pair_result_s(accents, actives, bg, text, x, y), b),
            None => false,
        } by {
            let p = pair_result_s(accents, actives, bg, text, x, y);
            if x < i || (x == i && y < j - 1) {
                let b0 = before.unwrap();
                assert(!is_better_s(p, b0));
                match after {
                    Some(b1) => {
                        if b1 != b0 {
                            assert(is_better_s(b1, b0));
                            if is_better_s(p, b1) {
                                lemma_better_trans(p, b1, b0);
                            }
                        }
                    },
                    None => {
                        assert(false);
                    },
                }
            } else {
                assert(x == i && y == j - 1);
                assert(p == cand);
                let b1 = after.unwrap();
                if b1 == cand {
                } else {
                    assert(!is_better_s(cand, b1));
                }
            }
        }
    }
}

proof fn lemma_solve_rows_opt(
    accents: Seq<RoleColorCandidate>,
    actives: Seq<RoleColorCandidate>,
    bg: Lab,
    text: Lab,
    g: PairwiseGuardrails,
    i: int,
)
    requires
        0 <= i <= accents.len(),
    ensures
        opt_prop_s(
            solve_rows_s(accents, actives, bg, text, g, i),
            accents,
            actives,
            bg,
            text,
            g,
            i,
            0,
        ),
    decreases i,
{
    if i > 0 {
        lemma_solve_rows_opt(accents, actives, bg, text, g, i - 1);
        lemma_solve_row_opt(
            solve_rows_s(accents, actives, bg, text, g, i - 1),
            accents,
            actives,
            bg,
            text,
            g,
            i - 1,
            actives.len() as int,
        );
    }
}

/// The law of the pairwise selection: the winner is at least as good as
/// every admissible pair under the solver's total order, and when there is
/// no winner, no pair was admissible.
pub proof fn lemma_solver_optimal(
    accents: Seq<RoleColorCandidate>,
    actives: Seq<RoleColorCandidate>,
    bg: Lab,
    text: Lab,
    g: PairwiseGuardrails,
)
    ensures
        match solve_s(accents, actives, bg, text, g) {
            Some(b) => forall|x: int, y: int|
                0 <= x < accents.len() && 0 <= y < actives.len() && passes_pairwise_s(
                    #[trigger] pair_result_s(accents, actives, bg, text, x, y).metrics,
                    g,
                ) ==> !is_better_s(pair_result_s(accents, actives, bg, text, x, y), b),
            None => forall|x: int, y: int|
                0 <= x < accents.len() && 0 <= y < actives.len() ==> !passes_pairwise_s(
                    #[trigger] pair_result_s(accents, actives, bg, text, x, y).metrics,
                    g,
                ),
        },
{
    lemma_solve_rows_opt(accents, actives, bg, text, g, accents.len() as int);
}


/// The admissible pairs of the first `j` columns of row `i`, appended in
/// enumeration order.
pub open spec fn passing_row_from_s(
    prev: Seq<PairwiseResult>,
    accents: Seq<RoleColorCandidate>,
    actives: Seq<RoleColorCandidate>,
    bg: Lab,
    text: Lab,
    g: PairwiseGuardrails,
    i: int,
    j: int,
) -> Seq<PairwiseResult>
    decreases j,
{
    if j <= 0 {
        prev
    } else {
        let before = passing_row_from_s(prev, accents, actives, bg, text, g, i, j - 1);
        let cand = pair_result_s(accents, actives, bg, text, i, j - 1);
        if passes_pairwise_s(cand.metrics, g) {
            before.push(cand)
        } else {
            before
        }
    }
}

/// The admissible pairs of the first `i` rows, in enumeration order.
pub open spec fn passing_rows_s(
    accents: Seq<RoleColorCandidate>,
    actives: Seq<RoleColorCandidate>,
    bg: Lab,
    text: Lab,
    g: PairwiseGuardrails,
    i: int,
) -> Seq<PairwiseResult>
    decreases i,
{
    if i <= 0 {
        Seq::empty()
    } else {
        passing_row_from_s(
            passing_rows_s(accents, actives, bg, text, g, i - 1),
            accents,
            actives,
            bg,
            text,
            g,
            i - 1,
            actives.len() as int,
        )
    }
}

/// Stable insertion in the solver's order, best first: an equal pair goes
/// after the earlier one.
pub open spec fn insert_result_s(s: Seq<PairwiseResult>, c: PairwiseResult) -> Seq<PairwiseResult>
    decreases s.len(),
{
    if s.len() == 0 {
        seq![c]
    } else if !is_better_s(c, s.last()) {
        s.push(c)
    } else {
        insert_result_s(s.drop_last(), c).push(s.last())
    }
}

/// Stable insertion sort of admissible pairs, best first.
pub open spec fn sort_results_s(s: Seq<PairwiseResult>) -> Seq<PairwiseResult>
    decreases s.len(),
{
    if s.len() == 0 {
        Seq::empty()
    } else {
        insert_result_s(sort_results_s(s.drop_last()), s.last())
    }
}

/// The top-ranked admissible pairs reported in the diagnostic trace: the
/// sorted admissible pairs, at most eight of them.
pub open spec fn top_pairs_s(
    accents: Seq<RoleColorCandidate>,
    actives: Seq<RoleColorCandidate>,
    bg: Lab,
    text: Lab,
    g: PairwiseGuardrails,
) -> Seq<PairwiseResult> {
    let sorted = sort_results_s(passing_rows_s(accents, actives, bg, text, g,
        accents.len() as int));
    if sorted.len() <= 8 {
        sorted
    } else {
        sorted.take(8)
    }
}

pub open spec fn results_wf(s: Seq<PairwiseResult>) -> bool {
    forall|i: int| 0 <= i < s.len() ==> result_wf(#[trigger] s[i])
}

proof fn lemma_insert_result_wf(s: Seq<PairwiseResult>, c: PairwiseResult)
    requires
        results_wf(s),
        result_wf(c),
    ensures
        results_wf(insert_result_s(s, c)),
        insert_result_s(s, c).len() == s.len() + 1,
    decreases s.len(),
{
    if s.len() == 0 {
        assert(insert_result_s(s, c) =~= seq![c]);
    } else if !is_better_s(c, s.last()) {
    } else {
        assert(results_wf(s.drop_last()));
        lemma_insert_result_wf(s.drop_last(), c);
    }
}

fn insert_result(v: Vec<PairwiseResult>, c: PairwiseResult) -> (r: Vec<PairwiseResult>)
    requires
        results_wf(v@),
        result_wf(c),
    ensures
        r@ == insert_result_s(v@, c),
        results_wf(r@),
    decreases v@.len(),
{
    proof {
        lemma_insert_result_wf(v@, c);
    }
    let mut v = v;
    if v.len() == 0 {
        v.push(c);
        proof {
            assert(v@ =~= seq![c]);
        }
        v
    } else {
        proof {
            assert(result_wf(v@[v@.len() - 1]));
        }
        let better = compare_pairwise_results(&c, &v[v.len() - 1]);
        if !better {
            v.push(c);
            v
        } else {
            let last = v.pop().unwrap();
            proof {
                assert(results_wf(v@));
            }
            let mut r = insert_result(v, c);
            r.push(last);
            r
        }
    }
}

/// Sort the collected admissible pairs best first and keep at most eight.
pub fn rank_top_pairs(passing: Vec<PairwiseResult>) -> (r: Vec<PairwiseResult>)
    requires
        results_wf(passing@),
    ensures
        ({
            let sorted = sort_results_s(passing@);
            r@ == if sorted.len() <= 8 {
                sorted
            } else {
                sorted.take(8)
            }
        }),
        results_wf(r@),
{
    let mut sorted: Vec<PairwiseResult> = Vec::new();
    let mut i: usize = 0;
    while i < passing.len()
        invariant
            0 <= i <= passing@.len(),
            results_wf(passing@),
            sorted@ == sort_results_s(passing@.take(i as int)),
            results_wf(sorted@),
            sorted@.len() == i,
        decreases passing@.len() - i,
    {
        proof {
            let t1 = passing@.take(i as int + 1);
            assert(t1.drop_last() =~= passing@.take(i as int));
            assert(t1.last() == passing@[i as int]);
            assert(result_wf(passing@[i as int]));
            lemma_insert_result_wf(sorted@, passing@[i as int]);
        }
        sorted = insert_result(sorted, passing[i]);
        i = i + 1;
    }
    proof {
        assert(passing@.take(passing@.len() as int) =~= passing@);
    }
    let mut r: Vec<PairwiseResult> = Vec::new();
    let mut j: usize = 0;
    let keep = if sorted.len() <= 8 {
        sorted.len()
    } else {
        8
    };
    while j < keep
        invariant
            0 <= j <= keep <= sorted@.len(),
            results_wf(sorted@),
            r@.len() == j,
            forall|t: int| 0 <= t < j ==> #[trigger] r@[t] == sorted@[t],
        decreases keep - j,
    {
        r.push(sorted[j]);
        j = j + 1;
    }
    proof {
        if sorted@.len() <= 8 {
            assert(r@ =~= sort_results_s(passing@));
        } else {
            assert(r@ =~= sort_results_s(passing@).take(8));
        }
        assert forall|t: int| 0 <= t < r@.len() implies result_wf(#[trigger] r@[t]) by {
            assert(r@[t] == sorted@[t]);
        }
    }
    r
}

/// Cross-product search under one tier's guardrails: the best admissible
/// pair (if any) and the number of pairs evaluated.
pub fn solve_with_guardrails(
    accent_candidates: &Vec<RoleColorCandidate>,
    active_candidates: &Vec<RoleColorCandidate>,
    bg_lab: Lab,
    text_lab: Lab,
    guardrails: &PairwiseGuardrails,
    collect_passing: bool,
) -> (r: (Option<PairwiseResult>, u64, Vec<PairwiseResult>))
    requires
        candidates_wf(accent_candidates@),
        candidates_wf(active_candidates@),
        accent_candidates@.len() <= 100_000,
        active_candidates@.len() <= 100_000,
        lab_wf(bg_lab),
        lab_wf(text_lab),
    ensures
        r.0 == solve_s(accent_candidates@, active_candidates@, bg_lab, text_lab, *guardrails),
        r.1 == accent_candidates@.len() * active_candidates@.len(),
        match r.0 {
            Some(b) => result_wf(b) && best_prop_s(b, accent_candidates@, active_candidates@,
                bg_lab, text_lab, *guardrails),
            None => true,
        },
        collect_passing ==> r.2@ == passing_rows_s(accent_candidates@, active_candidates@,
            bg_lab, text_lab, *guardrails, accent_candidates@.len() as int),
        !collect_passing ==> r.2@.len() == 0,
        results_wf(r.2@),
{
    let na = accent_candidates.len();
    let nb = active_candidates.len();
    proof {
        lemma_mul_le(na as int, nb as int, 100_000, 100_000);
    }
    let mut best: Option<PairwiseResult> = None;
    let mut evaluated: u64 = 0;
    let mut passing: Vec<PairwiseResult> = Vec::new();
    let mut i: usize = 0;
    while i < na
        invariant
            0 <= i <= na,
            na == accent_candidates@.len() <= 100_000,
            nb == active_candidates@.len() <= 100_000,
            candidates_wf(accent_candidates@),
            candidates_wf(active_candidates@),
            lab_wf(bg_lab),
            lab_wf(text_lab),
            evaluated == i as int * nb as int,
            best == solve_rows_s(accent_candidates@, active_candidates@, bg_lab, text_lab,
                *guardrails, i as int),
            match best {
                Some(b) => result_wf(b),
                None => true,
            },
            collect_passing ==> passing@ == passing_rows_s(accent_candidates@,
                active_candidates@, bg_lab, text_lab, *guardrails, i as int),
            !collect_passing ==> passing@.len() == 0,
            results_wf(passing@),
        decreases na - i,
    {
        let ghost row_prev = best;
        let ghost pass_prev = passing@;
        let accent = accent_candidates[i];
        let mut j: usize = 0;
        while j < nb
            invariant
                0 <= j <= nb,
                0 <= i < na,
                na == accent_candidates@.len() <= 100_000,
                nb == active_candidates@.len() <= 100_000,
                candidates_wf(accent_candidates@),
                candidates_wf(active_candidates@),
                lab_wf(bg_lab),
                lab_wf(text_lab),
                accent == accent_candidates@[i as int],
                evaluated == i as int * nb as int + j as int,
                best == solve_row_from_s(row_prev, accent_candidates@, active_candidates@,
                    bg_lab, text_lab, *guardrails, i as int, j as int),
                match best {
                    Some(b) => result_wf(b),
                    None => true,
                },
                collect_passing ==> passing@ == passing_row_from_s(pass_prev,
                    accent_candidates@, active_candidates@, bg_lab, text_lab, *guardrails,
                    i as int, j as int),
                !collect_passing ==> passing@.len() == 0,
                results_wf(passing@),
            decreases nb - j,
        {
            proof {
                assert(candidate_wf(accent_candidates@[i as int]));
                assert(candidate_wf(active_candidates@[j as int]));
                lemma_mul_le(i as int, nb as int, 100_000 - 1, 100_000);
            }
            let active = active_candidates[j];
            evaluated = evaluated + 1;
            let metrics = build_pair_metrics(accent.lab, active.lab, bg_lab, text_lab);
            let passes = passes_pairwise_guardrails(&metrics, guardrails);
            if passes {
                let cand = PairwiseResult {
                    accent,
                    active,
                    metrics,
                    provenance_score: accent.provenance_rank + active.provenance_rank,
                };
                match &best {
                    Some(current) => {
                        let better = compare_pairwise_results(&cand, current);
                        if better {
                            best = Some(cand);
                        }
                    },
                    None => {
                        best = Some(cand);
                    },
                }
                if collect_passing {
                    passing.push(cand);
                }
            }
            j = j + 1;
        }
        proof {
            assert((i as int + 1) * nb as int == i as int * nb as int + nb as int)
                by (nonlinear_arith);
        }
        i = i + 1;
    }
    proof {
        if best.is_some() {
            lemma_solve_prop(accent_candidates@, active_candidates@, bg_lab, text_lab,
                *guardrails, na as int);
        }
    }
    (best, evaluated, passing)
}

} // verus!

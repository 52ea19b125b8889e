use rmpc_theme_gen::candidates::{meets_guardrails, GuardrailConfig, Origin, RoleColorCandidate};
use rmpc_theme_gen::lab::{contrast_ratio, Lab, Rgb8};
use rmpc_theme_gen::pipeline::{run_theme_pipeline, ColorRole, RoleAssignment, Tier};
use rmpc_theme_gen::space::ColorSpace;

const ROLE_ORDER: [ColorRole; 8] = [
    ColorRole::Background,
    ColorRole::Text,
    ColorRole::Accent,
    ColorRole::Border,
    ColorRole::ActiveItem,
    ColorRole::InactiveItem,
    ColorRole::ProgressBar,
    ColorRole::Scrollbar,
];

fn assert_eight_roles(assignments: &[RoleAssignment]) {
    assert_eq!(assignments.len(), 8);
    for (i, a) in assignments.iter().enumerate() {
        assert_eq!(a.role, ROLE_ORDER[i]);
        assert!(a.confidence >= 0 && a.confidence <= 1000);
        assert_eq!(a.hex.len(), 7);
    }
}

fn assert_same_assignment(a: &RoleAssignment, b: &RoleAssignment) {
    assert_eq!(a.role, b.role);
    assert_eq!(a.rgb, b.rgb);
    assert_eq!(a.hsv, b.hsv);
    assert_eq!(a.lab, b.lab);
    assert_eq!(a.hex, b.hex);
    assert_eq!(a.source_cluster_index, b.source_cluster_index);
    assert_eq!(a.confidence, b.confidence);
    assert_eq!(a.contrast_against_background, b.contrast_against_background);
    assert_eq!(a.contrast_against_text, b.contrast_against_text);
    assert_eq!(a.origin, b.origin);
}

#[test]
fn single_black_cluster_scenario() {
    let samples = vec![Rgb8 { r: 0, g: 0, b: 0 }; 50];
    let r = run_theme_pipeline(&samples, 50, ColorSpace::Lab, 1, 40, 1, 1, true);
    assert_eq!(r.clusters.len(), 1);
    assert_eq!(r.clusters[0].count, 50);
    assert_eight_roles(&r.assignments);
    let bg = &r.assignments[0];
    assert_eq!(bg.rgb, Rgb8 { r: 0, g: 0, b: 0 });
    assert_eq!(bg.confidence, 500);
    let text = &r.assignments[1];
    assert_eq!(text.rgb, Rgb8 { r: 220, g: 220, b: 220 });
    assert_eq!(text.confidence, 450);
    assert_eq!(text.source_cluster_index, None);
    let accent = &r.assignments[2];
    let active = &r.assignments[4];
    assert_ne!(accent.hex, "#000000");
    assert_ne!(active.hex, "#000000");
    assert_ne!(accent.hex, active.hex);
    match accent.origin {
        Some(Origin::Cluster(_)) | Some(Origin::Adjusted(_, _)) => {
            panic!("accent must be synthetic when only black exists")
        },
        _ => {},
    }
}

#[test]
fn dominant_white_secondary_red_scenario() {
    let mut samples = Vec::new();
    for _ in 0..900 {
        samples.push(Rgb8 { r: 240, g: 240, b: 240 });
    }
    for _ in 0..100 {
        samples.push(Rgb8 { r: 200, g: 30, b: 30 });
    }
    let r = run_theme_pipeline(&samples, 1000, ColorSpace::Lab, 2, 40, 1, 1, false);
    assert_eq!(r.clusters.len(), 2);
    assert_eq!(r.clusters[0].count, 900);
    assert_eq!(r.clusters[1].count, 100);
    assert_eight_roles(&r.assignments);
    let bg = &r.assignments[0];
    assert_eq!(bg.rgb, Rgb8 { r: 240, g: 240, b: 240 });
    assert_eq!(bg.confidence, 500);
    let text = &r.assignments[1];
    let red_contrast = contrast_ratio(r.clusters[0].lab, r.clusters[1].lab);
    if red_contrast >= 4500 {
        assert_eq!(text.source_cluster_index, Some(1));
        assert_eq!(text.rgb, Rgb8 { r: 200, g: 30, b: 30 });
    } else {
        assert_eq!(text.source_cluster_index, None);
        assert_eq!(text.rgb, Rgb8 { r: 30, g: 30, b: 30 });
    }
}

#[test]
fn degenerate_single_color_returns_eight_roles() {
    let samples = vec![Rgb8 { r: 128, g: 128, b: 128 }; 7];
    let r = run_theme_pipeline(&samples, 7, ColorSpace::Lab, 1, 40, 1, 9, false);
    assert_eight_roles(&r.assignments);
    let bg = &r.assignments[0];
    assert_eq!(bg.confidence, 900);
    let text = &r.assignments[1];
    assert_eq!(text.source_cluster_index, None);
    assert_eq!(text.rgb, Rgb8 { r: 30, g: 30, b: 30 });
}

#[test]
fn pipeline_idempotent() {
    let mut samples = Vec::new();
    for i in 0..300u32 {
        let v = (i * 37 % 256) as u8;
        let w = (i * 91 % 256) as u8;
        samples.push(Rgb8 { r: v, g: w, b: (255 - v) });
    }
    let a = run_theme_pipeline(&samples, 300, ColorSpace::Lab, 6, 40, 1, 3, false);
    let b = run_theme_pipeline(&samples, 300, ColorSpace::Lab, 6, 40, 1, 3, false);
    assert_eq!(a.clusters.len(), b.clusters.len());
    for (x, y) in a.clusters.iter().zip(b.clusters.iter()) {
        assert_eq!(x.rgb, y.rgb);
        assert_eq!(x.count, y.count);
        assert_eq!(x.share_ppm, y.share_ppm);
    }
    assert_eq!(a.iterations, b.iterations);
    assert_eq!(a.assignments.len(), b.assignments.len());
    for (x, y) in a.assignments.iter().zip(b.assignments.iter()) {
        assert_same_assignment(x, y);
    }
}

#[test]
fn winning_pair_meets_reported_tier_guardrails() {
    let mut samples = Vec::new();
    for _ in 0..500 {
        samples.push(Rgb8 { r: 20, g: 24, b: 34 });
    }
    for _ in 0..200 {
        samples.push(Rgb8 { r: 230, g: 230, b: 220 });
    }
    for _ in 0..150 {
        samples.push(Rgb8 { r: 250, g: 140, b: 40 });
    }
    for _ in 0..150 {
        samples.push(Rgb8 { r: 80, g: 200, b: 120 });
    }
    let r = run_theme_pipeline(&samples, 1000, ColorSpace::Lab, 4, 40, 1, 1, true);
    assert_eight_roles(&r.assignments);
    let d = r.debug.expect("debug trace requested");
    assert!(d.evaluated_pairs > 0);
    let w = &d.winning_pair;
    match d.tier {
        Tier::Strict => {
            assert!(w.accent_bg >= 3000);
            assert!(w.accent_text >= 4500);
            assert!(w.active_bg >= 2000);
            assert!(w.active_text >= 4500);
            assert!(w.accent_active >= 4500);
            assert!(w.delta_e >= 25_000);
            assert!(w.brightness_separation >= 25_000);
        },
        Tier::Relaxed => {
            assert!(w.accent_bg >= 3000);
            assert!(w.accent_text >= 4500);
            assert!(w.active_bg >= 2000);
            assert!(w.active_text >= 4500);
            assert!(w.accent_active >= 3500);
            assert!(w.delta_e >= 20_000);
            assert!(w.brightness_separation >= 17_500);
        },
        Tier::Fallback => {},
    }
    assert!(!d.accent_candidates.is_empty());
    assert!(!d.active_candidates.is_empty());
}

#[test]
fn guardrail_evaluator_cases() {
    let cfg = GuardrailConfig {
        min_contrast_bg: 3000,
        min_contrast_text: 4500,
        min_contrast_peer: None,
        min_delta_e_peer: None,
        adjust_step: 4000,
        max_adjust_steps: 12,
    };
    assert!(meets_guardrails(3000, 4500, &cfg, None, None));
    assert!(!meets_guardrails(2999, 4500, &cfg, None, None));
    assert!(!meets_guardrails(3000, 4499, &cfg, None, None));
    let with_peer = GuardrailConfig { min_contrast_peer: Some(4500), ..cfg };
    assert!(!meets_guardrails(3000, 4500, &with_peer, None, None));
    assert!(meets_guardrails(3000, 4500, &with_peer, Some(4500), None));
    assert!(!meets_guardrails(3000, 4500, &with_peer, Some(4499), None));
    let with_de = GuardrailConfig { min_delta_e_peer: Some(25_000), ..cfg };
    assert!(!meets_guardrails(3000, 4500, &with_de, None, None));
    assert!(meets_guardrails(3000, 4500, &with_de, None, Some(25_000)));
}

#[test]
fn candidate_confidence_tiers() {
    let mk = |rank: u8, score: i64| RoleColorCandidate {
        lab: Lab { l: 50_000, a: 0, b: 0 },
        source_cluster_index: None,
        origin: Origin::SyntheticMidline,
        provenance_rank: rank,
        base_score: score,
    };
    assert_eq!(mk(0, 2500).confidence(), 900);
    assert_eq!(mk(0, 2000).confidence(), 750);
    assert_eq!(mk(1, 9000).confidence(), 700);
    assert_eq!(mk(2, 9000).confidence(), 450);
}

#[test]
fn alias_roles_copy_their_sources() {
    let samples = vec![
        Rgb8 { r: 30, g: 60, b: 90 },
        Rgb8 { r: 220, g: 220, b: 210 },
        Rgb8 { r: 200, g: 80, b: 20 },
        Rgb8 { r: 90, g: 180, b: 60 },
    ];
    let r = run_theme_pipeline(&samples, 4, ColorSpace::Lab, 4, 40, 1, 11, false);
    assert_eight_roles(&r.assignments);
    let border = &r.assignments[3];
    let inactive = &r.assignments[5];
    assert_eq!(inactive.rgb, border.rgb);
    assert_eq!(inactive.hex, border.hex);
    assert_eq!(inactive.confidence, 700);
    let accent = &r.assignments[2];
    let progress = &r.assignments[6];
    assert_eq!(progress.rgb, accent.rgb);
    assert_eq!(progress.confidence, accent.confidence);
    let active = &r.assignments[4];
    let scrollbar = &r.assignments[7];
    assert_eq!(scrollbar.rgb, active.rgb);
    assert_eq!(scrollbar.confidence, active.confidence);
}

#[test]
fn pipeline_runs_in_every_working_space() {
    let mut samples = Vec::new();
    for i in 0..200u32 {
        let v = (i * 53 % 256) as u8;
        samples.push(Rgb8 { r: v, g: (v / 2) + 40, b: 255 - v });
    }
    let spaces = [
        ColorSpace::Rgb,
        ColorSpace::Hsl,
        ColorSpace::Hsv,
        ColorSpace::Yuv,
        ColorSpace::Lab,
        ColorSpace::Luv,
    ];
    for space in spaces.iter() {
        let r = run_theme_pipeline(&samples, 200, *space, 5, 40, 1, 2, false);
        assert_eight_roles(&r.assignments);
        assert!(r.clusters.len() >= 1 && r.clusters.len() <= 5);
        let total: usize = r.clusters.iter().map(|c| c.count).sum();
        assert_eq!(total, samples.len());
    }
}

//! Accessibility-aware color palette generation: a clustering engine reduces a
//! sampled set of pixel colors to weighted representative colors, and a tiered
//! combinatorial solver assigns them to eight fixed UI roles under WCAG-style
//! contrast and perceptual-distance guardrails.
//!
//! All color arithmetic is carried out in fixed-point integers: linear-light
//! channel values are scaled by 65536, and Lab/HSV/HSL/YUV/Luv coordinates,
//! contrast ratios, scores and confidences are scaled by 1000 ("milli" units).
pub mod candidates;
pub mod cluster;
pub mod fmt;
pub mod fx;
pub mod hsv;
pub mod kmeans;
pub mod lab;
pub mod pairwise;
pub mod pipeline;
pub mod roles;
pub mod space;
pub mod srgb;

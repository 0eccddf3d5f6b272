//! Evaluation engine for scoring the open-source-security posture of
//! repositories: dependency-manifest resolution, a persistent probe cache
//! with a staleness policy, argument construction for the external probe
//! runner, and a weighted-normalization scoring algorithm.
//!
//! Weights, scores and thresholds are fixed-point numbers with three
//! decimal places ("milli units"); scores are exact rationals built from
//! those integers.

pub mod cumulated_probe;
pub mod ecosystem;
pub mod error;
pub mod input;
pub mod metric;
pub mod post_evaluate;
pub mod probe;
pub mod probe_name;
pub mod repodata;
pub mod score;
pub mod scorecard;
pub mod target;
pub mod text;
pub mod url;

//! The post-evaluation threshold check: resolving the error and warn
//! thresholds and deciding whether any repository scored too low.

use vstd::prelude::*;

use crate::error::Error;
use crate::metric::Metric;
use crate::repodata::{scores_valid, RepoData};
use crate::score::milli;

verus! {

/// The error threshold used when neither the command line nor the
/// metric file names one, in milli units.
pub const DEFAULT_ERROR_THRESHOLD: i64 = 3000;

/// The resolved thresholds a score is held against, in milli units.
#[derive(Debug, Clone, Copy, PartialEq, Eq, Structural)]
pub struct Thresholds {
    pub error: i64,
    pub warn: i64,
}

/// The resolved error threshold: the explicit override wins over the
/// metric file's value, which wins over the built-in default.
pub open spec fn resolved_error(metric: Metric, error_override: Option<i64>) -> int {
    match error_override {
        Some(e) => e as int,
        None => match metric.error_threshold {
            Some(e) => e as int,
            None => DEFAULT_ERROR_THRESHOLD as int,
        },
    }
}

/// The resolved warn threshold: override, then metric file, then one
/// unit above the resolved error threshold.
pub open spec fn resolved_warn(metric: Metric, warn_override: Option<i64>, error: int) -> int {
    match warn_override {
        Some(w) => w as int,
        None => match metric.warn_threshold {
            Some(w) => w as int,
            None => error + 1000,
        },
    }
}

impl Thresholds {
    /// Whether the warn threshold lies below the error threshold, which
    /// makes the warning unreachable; worth a diagnostic.
    pub fn warn_unreachable(&self) -> (r: bool)
        ensures
            r == (self.warn < self.error),
    {
        self.warn < self.error
    }

    /// Whether the error threshold lies outside the attainable score
    /// range of 0 to 10; worth a diagnostic.
    pub fn error_out_of_range(&self) -> (r: bool)
        ensures
            r == !(0 <= self.error <= 10000),
    {
        self.error < 0 || self.error > 10000
    }

    /// Whether the warn threshold lies outside the attainable score
    /// range of 0 to 10; worth a diagnostic.
    pub fn warn_out_of_range(&self) -> (r: bool)
        ensures
            r == !(0 <= self.warn <= 10000),
    {
        self.warn < 0 || self.warn > 10000
    }
}

/// Resolves the thresholds: an explicit override always wins over the
/// metric file's value, which wins over the defaults of 3.0 for error
/// and error plus 1.0 for warn.
pub fn get_thresholds(metric: &Metric, error_override: Option<i64>, warn_override: Option<i64>)
    -> (r: Thresholds)
    requires
        error_override matches Some(e) ==> e <= i64::MAX - 1000,
        error_override is None ==> (metric.error_threshold matches Some(e) ==> e <= i64::MAX - 1000),
    ensures
        r.error as int == resolved_error(*metric, error_override),
        r.warn as int == resolved_warn(*metric, warn_override, resolved_error(
            *metric,
            error_override,
        )),
{
    let error = match error_override {
        Some(e) => e,
        None => match metric.error_threshold {
            Some(e) => e,
            None => DEFAULT_ERROR_THRESHOLD,
        },
    };
    let warn = match warn_override {
        Some(w) => w,
        None => match metric.warn_threshold {
            Some(w) => w,
            None => error + 1000,
        },
    };
    Thresholds { error, warn }
}

/// Whether some repository in the list scored below the threshold.
pub open spec fn some_score_below(results: Seq<RepoData>, threshold: int) -> bool {
    exists|k: int| 0 <= k < results.len() && milli((#[trigger] results[k]).total_score) < threshold
}

/// Holds every score against the resolved thresholds: the run fails
/// with `ScoreTooLow` exactly when some repository scores below the
/// error threshold. Which repositories warrant a warning instead is the
/// caller's reporting concern, read off `get_thresholds` and the scores.
pub fn post_evaluate_repos(
    results: &Vec<RepoData>,
    metric: &Metric,
    error_override: Option<i64>,
    warn_override: Option<i64>,
) -> (r: Result<(), Error>)
    requires
        scores_valid(results@),
        error_override matches Some(e) ==> e <= i64::MAX - 1000,
        error_override is None ==> (metric.error_threshold matches Some(e) ==> e <= i64::MAX - 1000),
    ensures
        some_score_below(results@, resolved_error(*metric, error_override)) <==> (r matches Err(e)
            && e is ScoreTooLow),
        !some_score_below(results@, resolved_error(*metric, error_override)) <==> r is Ok,
{
    let thresholds = get_thresholds(metric, error_override, warn_override);
    let mut contains_error = false;
    let mut i: usize = 0;
    while i < results.len()
        invariant
            i <= results@.len(),
            scores_valid(results@),
            contains_error == some_score_below(
                results@.take(i as int),
                thresholds.error as int,
            ),
            thresholds.error as int == resolved_error(*metric, error_override),
        decreases results@.len() - i,
    {
        let score = results[i].total_score.score_milli();
        proof {
            assert(forall|k: int|
                0 <= k < i ==> results@.take(i + 1)[k] == #[trigger] results@.take(i as int)[k]);
            assert(results@.take(i + 1)[i as int] == results@[i as int]);
        }
        if score < thresholds.error {
            contains_error = true;
        }
        proof {
            if !contains_error {
                assert(forall|k: int|
                    0 <= k < i + 1 ==> milli((#[trigger] results@.take(i + 1)[k]).total_score)
                        >= thresholds.error as int);
            }
        }
        i += 1;
    }
    proof {
        assert(results@.take(results@.len() as int) =~= results@);
    }
    if contains_error {
        Err(Error::ScoreTooLow)
    } else {
        Ok(())
    }
}

} // verus!

//! The metric: which probes matter, with what weight, and the thresholds
//! a score is later held against.
//!
//! Weights and thresholds are fixed-point numbers in milli units (three
//! decimal places). Decoding a metric document into entries happens
//! outside of this crate; validation of the entries happens here.

use vstd::prelude::*;

use crate::error::Error;
use crate::probe_name::ProbeName;

verus! {

/// The largest weight or threshold magnitude the engine works with, in
/// milli units. Keeping every weight within this bound is what lets the
/// scoring sums stay exact machine integers.
pub const WEIGHT_LIMIT: i64 = 1_000_000_000_000;

/// One probe selection of a metric: the probe, its weight in milli units,
/// and an optional cap on how many findings of the probe may count.
#[derive(Debug, Clone, Copy, PartialEq, Eq)]
pub struct ProbeInput {
    pub name: ProbeName,
    pub weight: i64,
    pub max_times: Option<usize>,
}

impl ProbeInput {
    /// Whether this entry carries no weight and is dropped on load.
    pub fn is_zeroweight(&self) -> (r: bool)
        ensures
            r == (self.weight == 0),
    {
        self.weight == 0
    }

    /// Whether this entry may count zero times and is dropped on load.
    pub fn is_zero_times(&self) -> (r: bool)
        ensures
            r == (self.max_times == Some(0usize)),
    {
        match self.max_times {
            Some(times) => times == 0,
            None => false,
        }
    }
}

/// Whether one metric entry survives loading: zero-weight entries and
/// entries capped at zero occurrences are silently dropped.
pub open spec fn surviving(p: ProbeInput) -> bool {
    p.weight != 0 && p.max_times != Some(0usize)
}

/// The entries of a raw metric that survive loading, in order.
pub open spec fn surviving_probes(probes: Seq<ProbeInput>) -> Seq<ProbeInput> {
    probes.filter(|p: ProbeInput| surviving(p))
}

/// Whether two entries of the list name the same probe.
pub open spec fn has_duplicate_names(probes: Seq<ProbeInput>) -> bool {
    exists|i: int, j: int|
        0 <= i < j < probes.len() && #[trigger] probes[i].name == #[trigger] probes[j].name
}

/// The metric: the ordered probe selections that survived loading, plus
/// the optional score thresholds of the metric document, in milli units.
#[derive(Debug, Clone, PartialEq, Eq)]
pub struct Metric {
    pub error_threshold: Option<i64>,
    pub warn_threshold: Option<i64>,
    pub probes: Vec<ProbeInput>,
}

impl Metric {
    /// What every loaded metric guarantees: at least one surviving probe,
    /// every weight nonzero and within the representable range, no entry
    /// capped at zero, and no probe named twice.
    pub open spec fn well_formed(self) -> bool {
        &&& self.probes@.len() > 0
        &&& forall|k: int|
            0 <= k < self.probes@.len() ==> surviving(#[trigger] self.probes@[k])
                && -WEIGHT_LIMIT <= self.probes@[k].weight <= WEIGHT_LIMIT
        &&& !has_duplicate_names(self.probes@)
    }

    /// Builds a metric from decoded document entries: drops zero-weight
    /// and zero-cap entries, then rejects a metric with no surviving
    /// entry or with a probe named twice.
    pub fn new(
        error_threshold: Option<i64>,
        warn_threshold: Option<i64>,
        probes: Vec<ProbeInput>,
    ) -> (r: Result<Metric, Error>)
        requires
            forall|k: int|
                0 <= k < probes@.len() ==> -WEIGHT_LIMIT <= #[trigger] probes@[k].weight
                    <= WEIGHT_LIMIT,
        ensures
            match r {
                Ok(m) => {
                    &&& m.probes@ == surviving_probes(probes@)
                    &&& m.error_threshold == error_threshold
                    &&& m.warn_threshold == warn_threshold
                    &&& m.well_formed()
                    &&& surviving_probes(probes@).len() > 0
                    &&& !has_duplicate_names(surviving_probes(probes@))
                },
                Err(e) => {
                    &&& (surviving_probes(probes@).len() == 0 || has_duplicate_names(
                        surviving_probes(probes@),
                    ))
                    &&& (e matches Error::Other(m) && (if surviving_probes(probes@).len() == 0 {
                        m@ == "Metric needs to contain at least one probe"@
                    } else {
                        m@ == "Metric contains duplicate probes"@
                    }))
                },
            },
    {
        let mut kept: Vec<ProbeInput> = Vec::new();
        let mut i: usize = 0;
        proof {
            reveal(Seq::filter);
            assert(probes@.take(0).filter(|p: ProbeInput| surviving(p)) =~= Seq::<
                ProbeInput,
            >::empty());
        }
        while i < probes.len()
            invariant
                i <= probes@.len(),
                kept@ == probes@.take(i as int).filter(|p: ProbeInput| surviving(p)),
                forall|k: int|
                    0 <= k < probes@.len() ==> -WEIGHT_LIMIT <= #[trigger] probes@[k].weight
                        <= WEIGHT_LIMIT,
                forall|k: int|
                    0 <= k < kept@.len() ==> surviving(#[trigger] kept@[k]) && -WEIGHT_LIMIT
                        <= kept@[k].weight <= WEIGHT_LIMIT,
            decreases probes@.len() - i,
        {
            let entry = probes[i];
            proof {
                reveal(Seq::filter);
                assert(probes@.take(i + 1).drop_last() =~= probes@.take(i as int));
                assert(probes@.take(i + 1).last() == probes@[i as int]);
            }
            if !entry.is_zeroweight() && !entry.is_zero_times() {
                kept.push(entry);
            }
            i += 1;
        }
        proof {
            assert(probes@.take(probes@.len() as int) =~= probes@);
        }
        if kept.len() == 0 {
            let mut message = String::new();
            message.append("Metric needs to contain at least one probe");
            assert(Seq::<char>::empty() + "Metric needs to contain at least one probe"@
                =~= "Metric needs to contain at least one probe"@);
            return Err(Error::Other(message));
        }
        // Look for two entries naming the same probe.
        let mut a: usize = 0;
        while a < kept.len()
            invariant
                a <= kept@.len(),
                kept@ == surviving_probes(probes@),
                kept@.len() > 0,
                forall|k: int|
                    0 <= k < kept@.len() ==> surviving(#[trigger] kept@[k]) && -WEIGHT_LIMIT
                        <= kept@[k].weight <= WEIGHT_LIMIT,
                forall|i0: int, j0: int|
                    0 <= i0 < j0 < kept@.len() && j0 < a ==> #[trigger] kept@[i0].name
                        != #[trigger] kept@[j0].name,
            decreases kept@.len() - a,
        {
            let mut b: usize = 0;
            while b < a
                invariant
                    b <= a,
                    a < kept@.len(),
                    kept@ == surviving_probes(probes@),
                    kept@.len() > 0,
                    forall|i0: int|
                        0 <= i0 < b ==> #[trigger] kept@[i0].name != kept@[a as int].name,
                decreases a - b,
            {
                if kept[b].name == kept[a].name {
                    let mut message = String::new();
                    message.append("Metric contains duplicate probes");
                    assert(Seq::<char>::empty() + "Metric contains duplicate probes"@
                        =~= "Metric contains duplicate probes"@);
                    assert(has_duplicate_names(kept@));
                    return Err(Error::Other(message));
                }
                b += 1;
            }
            a += 1;
        }
        assert(!has_duplicate_names(kept@));
        Ok(Metric { error_threshold, warn_threshold, probes: kept })
    }
}

/// The path of the default metric file inside the data directory; the
/// directory itself is chosen outside of this crate.
pub fn default_metric_file_path(data_dir: &str) -> (r: String)
    ensures
        r@ == data_dir@ + "/default_metric.toml"@,
{
    let mut path = String::new();
    path.append(data_dir);
    path.append("/default_metric.toml");
    assert(Seq::<char>::empty() + data_dir@ + "/default_metric.toml"@ =~= data_dir@
        + "/default_metric.toml"@);
    path
}

} // verus!

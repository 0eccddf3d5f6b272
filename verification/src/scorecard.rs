//! What the orchestrator needs decided: where the runner binary comes
//! from, the argument list of one invocation, and whether a target's
//! stored record is fresh enough to be reused.
//!
//! Spawning the runner, racing it against the timeout and draining its
//! output happen outside of this crate.

use vstd::prelude::*;

use crate::ecosystem::Ecosystem;
use crate::error::Error;
use crate::metric::Metric;
use crate::probe::{needs_rerun, needs_rerun_spec, ProbeResult};
use crate::target::{SingleTarget, SingleTargetV};
use crate::url::Url;

verus! {

/// The address the runner binary of the current version is downloaded
/// from for one platform.
pub fn scorecard_url(os_str: &str, arch_str: &str) -> (r: String)
    ensures
        r@ == "https://github.com/ossf/scorecard/releases/download/v5.2.1/scorecard_5.2.1_"@
            + os_str@ + "_"@ + arch_str@ + ".tar.gz"@,
{
    let mut url = String::new();
    url.append("https://github.com/ossf/scorecard/releases/download/v5.2.1/scorecard_5.2.1_");
    url.append(os_str);
    url.append("_");
    url.append(arch_str);
    url.append(".tar.gz");
    assert(Seq::<char>::empty()
        + "https://github.com/ossf/scorecard/releases/download/v5.2.1/scorecard_5.2.1_"@ + os_str@
        + "_"@ + arch_str@ + ".tar.gz"@
        =~= "https://github.com/ossf/scorecard/releases/download/v5.2.1/scorecard_5.2.1_"@
        + os_str@ + "_"@ + arch_str@ + ".tar.gz"@);
    url
}

/// The comma-joined names of the metric's probes, in metric order.
pub open spec fn probes_joined(probes: Seq<crate::metric::ProbeInput>) -> Seq<char>
    decreases probes.len(),
{
    if probes.len() == 0 {
        Seq::empty()
    } else if probes.len() == 1 {
        probes[0].name.name_chars()
    } else {
        probes_joined(probes.drop_last()) + ","@ + probes.last().name.name_chars()
    }
}

/// Builds the runner's argument list for one target: the target
/// selector, the comma-joined probe list, and the machine-readable
/// output format. A metric without probes is rejected; a Rust package
/// without an externally resolved repository URL fails like the
/// selector itself does.
pub fn scorecard_args(metric: &Metric, target: &SingleTarget, rust_repo: Option<&Url>) -> (r:
    Result<Vec<String>, Error>)
    ensures
        ({
            let selector_fails = (target@ matches SingleTargetV::Package(_, e) && e
                == Ecosystem::Rust && rust_repo is None);
            if selector_fails {
                r matches Err(e) && e matches Error::Other(m) && (target@ matches
                    SingleTargetV::Package(name, _) ==> m@ == "Could not obtain repo for crate "@
                    + name)
            } else if metric.probes@.len() == 0 {
                r matches Err(e) && e matches Error::Input(m) && m@
                    == "At least one probe needs to be specified."@
            } else {
                r matches Ok(args) && args@.len() == 3 && args@[1]@ == "--probes="@
                    + probes_joined(metric.probes@) && args@[2]@ == "--format=probe"@ && (match
                    target@ {
                    SingleTargetV::Url(u) => args@[0]@ == "--repo="@ + u,
                    SingleTargetV::Package(name, ecosystem) => match ecosystem {
                        Ecosystem::NodeJs => args@[0]@ == "--npm="@ + name,
                        Ecosystem::NuGet => args@[0]@ == "--nuget="@ + name,
                        Ecosystem::Rust => rust_repo matches Some(u) && args@[0]@ == "--repo="@
                            + u@,
                    },
                })
            }
        }),
{
    let mut args: Vec<String> = Vec::new();
    let selector = match target.to_scorecard_arg(rust_repo) {
        Ok(s) => s,
        Err(e) => {
            return Err(e);
        },
    };
    args.push(selector);
    if metric.probes.len() == 0 {
        let mut message = String::new();
        message.append("At least one probe needs to be specified.");
        assert(Seq::<char>::empty() + "At least one probe needs to be specified."@
            =~= "At least one probe needs to be specified."@);
        return Err(Error::Input(message));
    }
    let mut probes = String::new();
    let mut k: usize = 0;
    proof {
        assert(metric.probes@.take(0) =~= Seq::<crate::metric::ProbeInput>::empty());
    }
    while k < metric.probes.len()
        invariant
            k <= metric.probes@.len(),
            probes@ == probes_joined(metric.probes@.take(k as int)),
        decreases metric.probes@.len() - k,
    {
        proof {
            assert(metric.probes@.take(k + 1).drop_last() =~= metric.probes@.take(k as int));
            assert(metric.probes@.take(k + 1).last() == metric.probes@[k as int]);
        }
        if k > 0 {
            probes.append(",");
        }
        let name = metric.probes[k].name.as_str();
        probes.append(name);
        proof {
            if k == 0 {
                assert(probes@ =~= probes_joined(metric.probes@.take(1)));
            } else {
                assert(probes@ =~= probes_joined(metric.probes@.take(k + 1)));
            }
        }
        k += 1;
    }
    proof {
        assert(metric.probes@.take(metric.probes@.len() as int) =~= metric.probes@);
    }
    let mut probes_arg = String::new();
    probes_arg.append("--probes=");
    probes_arg.append(probes.as_str());
    assert(Seq::<char>::empty() + "--probes="@ + probes_joined(metric.probes@) =~= "--probes="@
        + probes_joined(metric.probes@));
    args.push(probes_arg);
    let mut format_arg = String::new();
    format_arg.append("--format=probe");
    assert(Seq::<char>::empty() + "--format=probe"@ =~= "--format=probe"@);
    args.push(format_arg);
    Ok(args)
}

/// Decides whether a target's probe must actually be run: always when
/// forced or when nothing is stored, otherwise exactly when the stored
/// record is stale for today's date.
pub fn should_run_probe(
    force_rerun: bool,
    stored: Option<&ProbeResult>,
    metric: &Metric,
    today: i64,
) -> (r: bool)
    ensures
        stored is None ==> r == true,
        stored matches Some(p) ==> r == (force_rerun || needs_rerun_spec(
            *p,
            *metric,
            today as int,
        )),
{
    match stored {
        None => true,
        Some(stored_probe) => force_rerun || needs_rerun(stored_probe, metric, today),
    }
}

} // verus!

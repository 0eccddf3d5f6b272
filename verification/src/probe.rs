//! Stored probe results: the record kept per target, the cache filename
//! it is kept under, and the staleness rule that decides when a stored
//! record must be refreshed.
//!
//! Dates are day numbers: days since the common-era epoch, as the
//! calendar library counts them. Reading and writing the cache files
//! happens outside of this crate.

use vstd::prelude::*;

use crate::metric::Metric;
use crate::probe_name::ProbeName;
use crate::target::{SingleTarget, SingleTargetV};
use crate::text::push_char;
use crate::url::{without_protocol, Url};

verus! {

/// How many days a stored probe result stays fresh.
pub const PROBE_VALIDITY_DAYS: i64 = 7;

/// The outcome of one probe, as the external runner reports it.
#[derive(Debug, Clone, Copy, PartialEq, Eq, Structural)]
pub enum ProbeOutcome {
    False,
    NotAvailable,
    Error,
    True,
    NotSupported,
    NotApplicable,
}

impl ProbeOutcome {
    /// Whether the outcome is a plain yes or no; only those take part in
    /// scoring.
    pub fn is_boolean(&self) -> (r: bool)
        ensures
            r == (*self == ProbeOutcome::True || *self == ProbeOutcome::False),
    {
        *self == ProbeOutcome::True || *self == ProbeOutcome::False
    }
}

/// One observed outcome of one probe for one target.
#[derive(Debug, Clone, Copy, PartialEq, Eq, Structural)]
pub struct ProbeFinding {
    pub probe: ProbeName,
    pub outcome: ProbeOutcome,
}

/// The repository a probe result belongs to, as the runner names it.
#[derive(Debug, Clone, PartialEq, Eq)]
pub struct Repo {
    pub name: Url,
}

/// One stored probe record: when it was taken, for which repository,
/// what the probes found, and the runner's error text if the run failed.
#[derive(Debug, Clone, PartialEq, Eq)]
pub struct ProbeResult {
    pub date: i64,
    pub repo: Repo,
    pub findings: Vec<ProbeFinding>,
    pub scorecard_error_message: Option<String>,
}

impl ProbeResult {
    /// Builds the record persisted when the runner failed for one
    /// target: no findings, the runner's message, dated `date`.
    pub fn from_scorecard_error(target: &SingleTarget, message: String, date: i64) -> (r:
        ProbeResult)
        ensures
            r.date == date,
            r.findings@.len() == 0,
            r.scorecard_error_message matches Some(m) && m@ == message@,
            r.repo.name@ == match target@ {
                SingleTargetV::Package(name, ecosystem) => ecosystem.name_chars() + ": "@ + name,
                SingleTargetV::Url(url) => url,
            },
    {
        let name: Url = match target {
            SingleTarget::Package(package, ecosystem) => {
                let mut text = String::new();
                text.append(ecosystem.as_str());
                text.append(": ");
                text.append(package.as_str());
                proof {
                    assert(Seq::<char>::empty() + ecosystem.name_chars() + ": "@ + package@
                        =~= ecosystem.name_chars() + ": "@ + package@);
                }
                Url(text)
            },
            SingleTarget::Url(url) => Url::new(url.0.as_str()),
        };
        ProbeResult {
            date,
            repo: Repo { name },
            findings: Vec::new(),
            scorecard_error_message: Some(message),
        }
    }
}

/// Whether a character may appear in a cache filename as it is: lower
/// case letters, digits, `-`, `_` and `@`.
pub open spec fn keeps_char(c: char) -> bool {
    (97 <= c as int <= 122) || (48 <= c as int <= 57) || c as int == 45 || c as int == 95
        || c as int == 64
}

/// Whether a character is an upper case ASCII letter, which a cache
/// filename carries in lower case.
pub open spec fn upper_char(c: char) -> bool {
    65 <= c as int <= 90
}

/// The lower case form of an upper case ASCII letter.
pub open spec fn lower_char(c: char) -> char
    recommends
        upper_char(c),
{
    ((c as u8) + 32) as char
}

/// The sanitized form of `s` from some position on: kept characters stay
/// (upper case letters in lower case), and each maximal run of any other
/// characters becomes a single `_`. `in_run` says whether the position
/// sits inside such a run already begun.
pub open spec fn sanitized_from(s: Seq<char>, in_run: bool) -> Seq<char>
    decreases s.len(),
{
    if s.len() == 0 {
        Seq::empty()
    } else if keeps_char(s[0]) {
        seq![s[0]] + sanitized_from(s.skip(1), false)
    } else if upper_char(s[0]) {
        seq![lower_char(s[0])] + sanitized_from(s.skip(1), false)
    } else if in_run {
        sanitized_from(s.skip(1), true)
    } else {
        seq!['_'] + sanitized_from(s.skip(1), true)
    }
}

/// The sanitized form of a whole name.
pub open spec fn sanitized(s: Seq<char>) -> Seq<char> {
    sanitized_from(s, false)
}

/// Replaces everything a filename must not carry: upper case letters are
/// lowered, and each run of other unsafe characters becomes one `_`.
pub fn sanitize_filename(filename: &str) -> (r: String)
    ensures
        r@ == sanitized(filename@),
{
    let len = filename.unicode_len();
    let mut out = String::new();
    let mut in_run = false;
    let mut i: usize = 0;
    proof {
        assert(filename@.skip(0) =~= filename@);
        assert(Seq::<char>::empty() + sanitized(filename@) =~= sanitized(filename@));
    }
    while i < len
        invariant
            i <= len,
            len == filename@.len(),
            sanitized(filename@) == out@ + sanitized_from(filename@.skip(i as int), in_run),
        decreases len - i,
    {
        let c = filename.get_char(i);
        let code = c as u32;
        let ghost before = out@;
        let ghost rest = filename@.skip(i as int);
        proof {
            assert(rest[0] == filename@[i as int]);
            assert(rest.skip(1) =~= filename@.skip(i + 1));
        }
        if (97 <= code && code <= 122) || (48 <= code && code <= 57) || code == 45 || code == 95
            || code == 64 {
            push_char(&mut out, c);
            in_run = false;
            assert(before.push(c) =~= before + seq![c]);
            assert(out@ + sanitized_from(filename@.skip(i + 1), false) =~= before + sanitized_from(
                rest,
                in_run,
            ));
        } else if 65 <= code && code <= 90 {
            let lowered = ((code + 32) as u8) as char;
            assert(lowered == lower_char(c));
            push_char(&mut out, lowered);
            in_run = false;
            assert(before.push(lowered) =~= before + seq![lower_char(c)]);
            assert(out@ + sanitized_from(filename@.skip(i + 1), false) =~= before + sanitized_from(
                rest,
                in_run,
            ));
        } else if in_run {
            assert(out@ + sanitized_from(filename@.skip(i + 1), true) =~= before + sanitized_from(
                rest,
                true,
            ));
        } else {
            push_char(&mut out, '_');
            in_run = true;
            assert(before.push('_') =~= before + seq!['_']);
            assert(out@ + sanitized_from(filename@.skip(i + 1), true) =~= before + sanitized_from(
                rest,
                false,
            ));
        }
        i += 1;
    }
    proof {
        assert(filename@.skip(len as int) =~= Seq::<char>::empty());
        assert(sanitized_from(Seq::empty(), in_run) =~= Seq::<char>::empty());
        assert(out@ + Seq::<char>::empty() =~= out@);
    }
    out
}

/// The cache filename of a target: the sanitized, protocol-stripped
/// identity plus `.json`.
pub open spec fn probe_file_chars(t: SingleTargetV) -> Seq<char> {
    match t {
        SingleTargetV::Package(name, ecosystem) => sanitized(ecosystem.name_chars() + "_"@ + name)
            + ".json"@,
        SingleTargetV::Url(url) => sanitized(without_protocol(url)) + ".json"@,
    }
}

/// The name of the cache file that holds the stored probe record of a
/// target. The caller combines it with the cache directory.
pub fn probe_file(target: &SingleTarget) -> (r: String)
    ensures
        r@ == probe_file_chars(target@),
{
    let package: String = match target {
        SingleTarget::Package(package, ecosystem) => {
            let mut text = String::new();
            text.append(ecosystem.as_str());
            text.append("_");
            text.append(package.as_str());
            proof {
                assert(Seq::<char>::empty() + ecosystem.name_chars() + "_"@ + package@
                    =~= ecosystem.name_chars() + "_"@ + package@);
            }
            text
        },
        SingleTarget::Url(url) => url.str_without_protocol(),
    };
    let mut filename = sanitize_filename(package.as_str());
    filename.append(".json");
    filename
}

/// Whether the stored findings carry at least one outcome for `name`.
pub open spec fn has_finding_for(findings: Seq<ProbeFinding>, name: ProbeName) -> bool {
    exists|k: int| 0 <= k < findings.len() && findings[k].probe == name
}

/// When a stored record must be refreshed: it is at least
/// `PROBE_VALIDITY_DAYS` old, or it is younger, carries no error marker,
/// and some probe of the current metric has no finding in it. A younger
/// record with an error marker is never refreshed: the error consumes
/// the whole validity window.
pub open spec fn needs_rerun_spec(stored: ProbeResult, metric: Metric, today: int) -> bool {
    today - stored.date >= PROBE_VALIDITY_DAYS || (stored.scorecard_error_message is None
        && exists|k: int|
        0 <= k < metric.probes@.len() && !has_finding_for(
            stored.findings@,
            (#[trigger] metric.probes@[k]).name,
        ))
}

/// Decides whether the stored record of a target is stale, measured
/// against the current metric and today's date.
pub fn needs_rerun(stored_probe: &ProbeResult, metric: &Metric, today: i64) -> (r: bool)
    ensures
        r == needs_rerun_spec(*stored_probe, *metric, today as int),
{
    let age = (today as i128) - (stored_probe.date as i128);
    if age >= PROBE_VALIDITY_DAYS as i128 {
        return true;
    }
    if stored_probe.scorecard_error_message.is_some() {
        return false;
    }
    let mut k: usize = 0;
    while k < metric.probes.len()
        invariant
            k <= metric.probes@.len(),
            stored_probe.scorecard_error_message is None,
            forall|k0: int|
                0 <= k0 < k ==> has_finding_for(
                    stored_probe.findings@,
                    (#[trigger] metric.probes@[k0]).name,
                ),
        decreases metric.probes@.len() - k,
    {
        let name = metric.probes[k].name;
        let mut found = false;
        let mut j: usize = 0;
        while j < stored_probe.findings.len()
            invariant
                j <= stored_probe.findings@.len(),
                name == metric.probes@[k as int].name,
                k < metric.probes@.len(),
                found ==> has_finding_for(stored_probe.findings@, name),
                !found ==> forall|j0: int|
                    0 <= j0 < j ==> (#[trigger] stored_probe.findings@[j0]).probe != name,
            decreases stored_probe.findings@.len() - j,
        {
            if stored_probe.findings[j].probe == name {
                found = true;
            }
            j += 1;
        }
        if !found {
            assert(!has_finding_for(stored_probe.findings@, metric.probes@[k as int].name));
            return true;
        }
        k += 1;
    }
    false
}

/// Relies on chrono's `Utc::now` and `Datelike::num_days_from_ce`: the
/// current UTC date as a day number. The result depends on the clock, so
/// nothing is promised of it.
#[verifier::external_body]
pub fn current_day_number() -> i64 {
    chrono::Datelike::num_days_from_ce(&chrono::Utc::now().date_naive()) as i64
}

/// Decides whether the stored record of a target is stale today, and
/// returns the day number the decision was measured against.
pub fn needs_rerun_now(stored_probe: &ProbeResult, metric: &Metric) -> (r: (bool, i64))
    ensures
        r.0 == needs_rerun_spec(*stored_probe, *metric, r.1 as int),
{
    let today = current_day_number();
    (needs_rerun(stored_probe, metric, today), today)
}

} // verus!

//! The per-repository result shown to the user: the repository, its
//! total score, and the per-probe aggregates; and the descending-score
//! order the report lists repositories in.

use vstd::prelude::*;
use vstd::seq_lib::lemma_multiset_commutative;

use crate::cumulated_probe::{cumulated_of, cumulated_outcomes, CumulatedProbeOutcome};
use crate::metric::{Metric, WEIGHT_LIMIT};
use crate::probe::ProbeResult;
use crate::score::{achieved_sum, calculate_total_score, highest_sum, lemma_sums_permutation,
    lowest_sum, milli, score_valid, sorted_by_weight, weighed_findings, weighed_selection, Score,
    WeighedFinding};
use crate::text::{lemma_seq_char_lt_connected, lemma_seq_char_lt_transitive, seq_char_lt,
    str_equal, str_less};
use crate::url::Url;

verus! {

/// Everything the report shows for one repository.
#[derive(Debug, Clone, PartialEq, Eq)]
pub struct RepoData {
    pub repo: Url,
    pub total_score: Score,
    pub probe_outcomes: Vec<CumulatedProbeOutcome>,
}

/// The mathematical shape of one repository's result.
#[verifier::ext_equal]
pub struct RepoDataV {
    pub repo: Seq<char>,
    pub total_score: Score,
    pub probe_outcomes: Seq<CumulatedProbeOutcome>,
}

impl View for RepoData {
    type V = RepoDataV;

    open spec fn view(&self) -> RepoDataV {
        RepoDataV {
            repo: self.repo@,
            total_score: self.total_score,
            probe_outcomes: self.probe_outcomes@,
        }
    }
}

impl RepoData {
    /// Weighs the stored findings of one repository against the current
    /// metric, scores them, and aggregates them per probe. The score is
    /// that of the weighed selection; the aggregates describe the same
    /// selection, handed over in its sorted display order.
    pub fn new(result: &ProbeResult, metric: &Metric) -> (r: RepoData)
        requires
            forall|k: int|
                0 <= k < metric.probes@.len() ==> -WEIGHT_LIMIT <= (
                #[trigger] metric.probes@[k]).weight <= WEIGHT_LIMIT,
        ensures
            r.repo@ == result.repo.name@,
            score_valid(r.total_score),
            ({
                let sel = weighed_selection(result.findings@, metric.probes@);
                &&& (highest_sum(sel) - lowest_sum(sel) == 0 ==> r.total_score == (Score {
                    num: 0,
                    den: 1,
                }))
                &&& (highest_sum(sel) - lowest_sum(sel) != 0 ==> r.total_score.num == 10 * (
                achieved_sum(sel) - lowest_sum(sel)) && r.total_score.den == highest_sum(sel)
                    - lowest_sum(sel))
            }),
            exists|w: Seq<WeighedFinding>|
                {
                    &&& #[trigger] w.to_multiset() == weighed_selection(
                        result.findings@,
                        metric.probes@,
                    ).to_multiset()
                    &&& sorted_by_weight(w)
                    &&& cumulated_of(w, r.probe_outcomes@)
                },
    {
        let findings = weighed_findings(&result.findings, metric);
        let total_score = calculate_total_score(&findings);
        proof {
            lemma_sums_permutation(findings@, weighed_selection(result.findings@, metric.probes@));
        }
        let repo = Url::new(result.repo.name.0.as_str());
        let probe_outcomes = cumulated_outcomes(&findings);
        let data = RepoData { repo, total_score, probe_outcomes };
        proof {
            let w = findings@;
            assert(w.to_multiset() == weighed_selection(
                result.findings@,
                metric.probes@,
            ).to_multiset() && sorted_by_weight(w) && cumulated_of(w, data.probe_outcomes@));
        }
        data
    }
}

/// The report order: descending score (rounded to thousandths), ties
/// broken by repository name ascending.
pub open spec fn repo_before(a: RepoDataV, b: RepoDataV) -> bool {
    milli(a.total_score) > milli(b.total_score) || (milli(a.total_score) == milli(b.total_score)
        && (seq_char_lt(a.repo, b.repo) || a.repo == b.repo))
}

/// Any two repository results are ordered one way or the other.
proof fn lemma_repo_before_total(a: RepoDataV, b: RepoDataV)
    ensures
        repo_before(a, b) || repo_before(b, a),
{
    if milli(a.total_score) == milli(b.total_score) && a.repo != b.repo {
        lemma_seq_char_lt_connected(a.repo, b.repo);
    }
}

/// The report order is transitive.
proof fn lemma_repo_before_transitive(a: RepoDataV, b: RepoDataV, c: RepoDataV)
    requires
        repo_before(a, b),
        repo_before(b, c),
    ensures
        repo_before(a, c),
{
    if milli(a.total_score) == milli(b.total_score) && milli(b.total_score) == milli(
        c.total_score,
    ) {
        if seq_char_lt(a.repo, b.repo) && seq_char_lt(b.repo, c.repo) {
            lemma_seq_char_lt_transitive(a.repo, b.repo, c.repo);
        }
    }
}

/// The views of a list of repository results.
pub open spec fn repo_views(s: Seq<RepoData>) -> Seq<RepoDataV> {
    s.map_values(|r: RepoData| r@)
}

/// Sorted in report order.
pub open spec fn sorted_report(s: Seq<RepoDataV>) -> bool {
    forall|i: int, j: int| 0 <= i < j < s.len() ==> repo_before(#[trigger] s[i], #[trigger] s[j])
}

/// All scores in the list are well formed.
pub open spec fn scores_valid(s: Seq<RepoData>) -> bool {
    forall|k: int| 0 <= k < s.len() ==> score_valid((#[trigger] s[k]).total_score)
}

/// Tests whether `a` may stand before `b` in the report.
fn repo_before_exec(a: &RepoData, b: &RepoData) -> (r: bool)
    requires
        score_valid(a.total_score),
        score_valid(b.total_score),
    ensures
        r == repo_before(a@, b@),
{
    let ma = a.total_score.score_milli();
    let mb = b.total_score.score_milli();
    if ma > mb {
        true
    } else if ma == mb {
        str_less(a.repo.0.as_str(), b.repo.0.as_str()) || str_equal(
            a.repo.0.as_str(),
            b.repo.0.as_str(),
        )
    } else {
        false
    }
}

/// Places `item` into the report-ordered list `out`, keeping the order.
fn insert_repo_sorted(out: &mut Vec<RepoData>, item: RepoData)
    requires
        sorted_report(repo_views(old(out)@)),
        scores_valid(old(out)@),
        score_valid(item.total_score),
    ensures
        sorted_report(repo_views(final(out)@)),
        scores_valid(final(out)@),
        repo_views(final(out)@).to_multiset() == repo_views(old(out)@).to_multiset().insert(item@),
{
    broadcast use vstd::seq_lib::group_to_multiset_ensures;

    let ghost orig = out@;
    let ghost prior = repo_views(orig);
    let mut i: usize = 0;
    while i < out.len() && repo_before_exec(&out[i], &item)
        invariant
            i <= out@.len(),
            out@ == orig,
            sorted_report(repo_views(out@)),
            scores_valid(out@),
            score_valid(item.total_score),
            forall|k: int| 0 <= k < i ==> repo_before(#[trigger] repo_views(out@)[k], item@),
        decreases out@.len() - i,
    {
        assert(repo_views(out@)[i as int] == out@[i as int]@);
        i += 1;
    }
    out.insert(i, item);
    proof {
        let updated = repo_views(out@);
        assert(updated =~= prior.insert(i as int, item@));
        assert forall|p: int, q: int| 0 <= p < q < updated.len() implies repo_before(
            #[trigger] updated[p],
            #[trigger] updated[q],
        ) by {
            if p < i && q == i {
                assert(updated[p] == prior[p] && updated[q] == item@);
            } else if p == i && q > i {
                assert(updated[p] == item@ && updated[q] == prior[q - 1]);
                assert(prior[i as int] == orig[i as int]@);
                assert(!repo_before(prior[i as int], item@));
                lemma_repo_before_total(prior[i as int], item@);
                if q - 1 > i {
                    assert(repo_before(prior[i as int], prior[q - 1]));
                    lemma_repo_before_transitive(item@, prior[i as int], prior[q - 1]);
                }
            } else if p < i && q > i {
                assert(updated[p] == prior[p] && updated[q] == prior[q - 1]);
                assert(repo_before(prior[p], prior[q - 1]));
            } else if p > i && q > i {
                assert(updated[p] == prior[p - 1] && updated[q] == prior[q - 1]);
            } else if p < i && q < i {
                assert(updated[p] == prior[p] && updated[q] == prior[q]);
            }
        }
        assert(updated =~= prior.take(i as int) + (seq![item@] + prior.skip(i as int)));
        lemma_multiset_commutative(prior.take(i as int), seq![item@] + prior.skip(i as int));
        lemma_multiset_commutative(seq![item@], prior.skip(i as int));
        lemma_multiset_commutative(prior.take(i as int), prior.skip(i as int));
        assert(prior.take(i as int) + prior.skip(i as int) =~= prior);
        assert(seq![item@] =~= Seq::<RepoDataV>::empty().push(item@));
        assert(Seq::<RepoDataV>::empty().to_multiset() =~= vstd::multiset::Multiset::<
            RepoDataV,
        >::empty());
        assert(updated.to_multiset() =~= prior.to_multiset().insert(item@));
    }
}

/// Sorts the repository results into report order: descending score,
/// ties broken by repository name ascending.
pub fn sort_repo_data(results: Vec<RepoData>) -> (r: Vec<RepoData>)
    requires
        scores_valid(results@),
    ensures
        sorted_report(repo_views(r@)),
        scores_valid(r@),
        repo_views(r@).to_multiset() == repo_views(results@).to_multiset(),
{
    broadcast use vstd::seq_lib::group_to_multiset_ensures;

    let ghost whole = results@;
    let mut remaining = results;
    let mut out: Vec<RepoData> = Vec::new();
    proof {
        assert(remaining@ =~= whole.skip(0));
        assert(repo_views(out@).to_multiset() =~= repo_views(whole.take(0)).to_multiset());
    }
    while remaining.len() > 0
        invariant
            remaining@.len() <= whole.len(),
            remaining@ == whole.skip(whole.len() - remaining@.len()),
            scores_valid(whole),
            scores_valid(out@),
            sorted_report(repo_views(out@)),
            repo_views(out@).to_multiset() == repo_views(
                whole.take(whole.len() - remaining@.len()),
            ).to_multiset(),
        decreases remaining@.len(),
    {
        let ghost i = whole.len() - remaining@.len();
        let item = remaining.remove(0);
        proof {
            assert(item == whole[i]);
            assert(remaining@ =~= whole.skip(i + 1));
            assert(score_valid(item.total_score));
        }
        insert_repo_sorted(&mut out, item);
        proof {
            assert(repo_views(whole.take(i + 1)) =~= repo_views(whole.take(i)).push(whole[i]@));
            repo_views(whole.take(i)).to_multiset_ensures();
            assert(repo_views(whole.take(i)).push(whole[i]@).to_multiset() =~= repo_views(
                whole.take(i),
            ).to_multiset().insert(whole[i]@));
        }
    }
    proof {
        assert(whole.take(whole.len() as int) =~= whole);
    }
    out
}

} // verus!

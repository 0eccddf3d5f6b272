//! The weighted-normalization scoring algorithm: weighing findings
//! against the metric, and the affine map that sends the worst attainable
//! outcome profile to 0 and the best to 10.
//!
//! Weights are milli-unit integers, so every sum here is exact, and a
//! score is an exact rational: `num / den` with `den >= 1`.

use vstd::arithmetic::mul::lemma_mul_inequality;
use vstd::multiset::Multiset;
use vstd::prelude::*;
use vstd::seq_lib::lemma_multiset_commutative;

use crate::metric::{Metric, ProbeInput, WEIGHT_LIMIT};
use crate::probe::{ProbeFinding, ProbeOutcome};
use crate::probe_name::ProbeName;

verus! {

/// One finding weighed with the weight the *current* metric gives its
/// probe; recomputed every scoring pass and never persisted.
#[derive(Debug, Clone, Copy, PartialEq, Eq, Structural)]
pub struct WeighedFinding {
    pub probe: ProbeName,
    pub weight: i64,
    pub outcome: ProbeOutcome,
}

/// Whether every weight in the list is within the representable range.
pub open spec fn weights_bounded(s: Seq<WeighedFinding>) -> bool {
    forall|k: int|
        0 <= k < s.len() ==> -WEIGHT_LIMIT <= (#[trigger] s[k]).weight <= WEIGHT_LIMIT
}

/// Whether an outcome takes part in scoring.
pub open spec fn boolean_outcome(o: ProbeOutcome) -> bool {
    o == ProbeOutcome::True || o == ProbeOutcome::False
}

/// What one finding contributes to the lowest attainable sum: its weight
/// if it is boolean and negative.
pub open spec fn low_part(f: WeighedFinding) -> int {
    if boolean_outcome(f.outcome) && f.weight < 0 {
        f.weight as int
    } else {
        0
    }
}

/// What one finding contributes to the highest attainable sum: its
/// weight if it is boolean and positive.
pub open spec fn high_part(f: WeighedFinding) -> int {
    if boolean_outcome(f.outcome) && f.weight > 0 {
        f.weight as int
    } else {
        0
    }
}

/// What one finding contributes to the achieved sum: its weight if its
/// outcome is `True`.
pub open spec fn achieved_part(f: WeighedFinding) -> int {
    if f.outcome == ProbeOutcome::True {
        f.weight as int
    } else {
        0
    }
}

/// The sum of `f` over all findings of the list.
pub open spec fn sum_by(s: Seq<WeighedFinding>, f: spec_fn(WeighedFinding) -> int) -> int
    decreases s.len(),
{
    if s.len() == 0 {
        0
    } else {
        sum_by(s.drop_last(), f) + f(s.last())
    }
}

/// The lowest attainable weighed sum: all negative boolean weights.
pub open spec fn lowest_sum(s: Seq<WeighedFinding>) -> int {
    sum_by(s, |f: WeighedFinding| low_part(f))
}

/// The highest attainable weighed sum: all positive boolean weights.
pub open spec fn highest_sum(s: Seq<WeighedFinding>) -> int {
    sum_by(s, |f: WeighedFinding| high_part(f))
}

/// The achieved weighed sum: the weights of the findings whose outcome
/// is `True`.
pub open spec fn achieved_sum(s: Seq<WeighedFinding>) -> int {
    sum_by(s, |f: WeighedFinding| achieved_part(f))
}

/// Removing one element takes exactly its contribution out of the sum.
proof fn lemma_sum_by_remove(s: Seq<WeighedFinding>, f: spec_fn(WeighedFinding) -> int, k: int)
    requires
        0 <= k < s.len(),
    ensures
        sum_by(s, f) == sum_by(s.remove(k), f) + f(s[k]),
    decreases s.len(),
{
    if k == s.len() - 1 {
        assert(s.remove(k) =~= s.drop_last());
    } else {
        assert(s.remove(k).drop_last() =~= s.drop_last().remove(k));
        assert(s.remove(k).last() == s.last());
        lemma_sum_by_remove(s.drop_last(), f, k);
    }
}

/// The sum of `f` does not depend on the order of the findings: two
/// lists with the same multiset of findings have the same sum.
pub proof fn lemma_sum_by_permutation(
    s1: Seq<WeighedFinding>,
    s2: Seq<WeighedFinding>,
    f: spec_fn(WeighedFinding) -> int,
)
    requires
        s1.to_multiset() == s2.to_multiset(),
    ensures
        sum_by(s1, f) == sum_by(s2, f),
    decreases s1.len(),
{
    broadcast use vstd::seq_lib::group_to_multiset_ensures;

    if s1.len() == 0 {
        assert(s1.to_multiset().len() == 0);
        assert(s2.len() == 0);
    } else {
        let x = s1.last();
        assert(s1.contains(x));
        assert(s2.to_multiset().count(x) > 0);
        assert(s2.contains(x));
        let k = choose|k: int| 0 <= k < s2.len() && s2[k] == x;
        lemma_sum_by_remove(s2, f, k);
        assert(s1.drop_last() =~= s1.remove(s1.len() - 1));
        assert(s1.remove(s1.len() - 1).to_multiset() =~= s1.to_multiset().remove(x));
        assert(s2.remove(k).to_multiset() =~= s2.to_multiset().remove(x));
        lemma_sum_by_permutation(s1.drop_last(), s2.remove(k), f);
    }
}

/// Reordering the weighed findings changes none of the three scoring
/// sums, so the total score is the same before and after sorting.
pub proof fn lemma_sums_permutation(s1: Seq<WeighedFinding>, s2: Seq<WeighedFinding>)
    requires
        s1.to_multiset() == s2.to_multiset(),
    ensures
        lowest_sum(s1) == lowest_sum(s2),
        highest_sum(s1) == highest_sum(s2),
        achieved_sum(s1) == achieved_sum(s2),
{
    lemma_sum_by_permutation(s1, s2, |f: WeighedFinding| low_part(f));
    lemma_sum_by_permutation(s1, s2, |f: WeighedFinding| high_part(f));
    lemma_sum_by_permutation(s1, s2, |f: WeighedFinding| achieved_part(f));
}

/// The three sums stay within `len * WEIGHT_LIMIT`, and the achieved sum
/// always lies between the lowest and the highest attainable one.
pub proof fn lemma_sums_bounded(s: Seq<WeighedFinding>)
    requires
        weights_bounded(s),
    ensures
        -((s.len() as int) * (WEIGHT_LIMIT as int)) <= lowest_sum(s) <= 0,
        0 <= highest_sum(s) <= (s.len() as int) * (WEIGHT_LIMIT as int),
        lowest_sum(s) <= achieved_sum(s) <= highest_sum(s),
    decreases s.len(),
{
    if s.len() > 0 {
        assert(weights_bounded(s.drop_last())) by {
            assert(forall|k: int| 0 <= k < s.len() - 1 ==> #[trigger] s.drop_last()[k] == s[k]);
        }
        lemma_sums_bounded(s.drop_last());
        assert((s.len() as int) * (WEIGHT_LIMIT as int) == ((s.len() - 1) as int) * (
        WEIGHT_LIMIT as int) + (WEIGHT_LIMIT as int)) by (nonlinear_arith);
    }
}

/// If no finding has a boolean outcome, the attainable range is empty:
/// both the lowest and the highest attainable sum are zero, so
/// `calculate_total_score` returns the zero score rather than dividing.
pub proof fn lemma_all_non_boolean_scores_zero(s: Seq<WeighedFinding>)
    requires
        forall|k: int| 0 <= k < s.len() ==> !boolean_outcome((#[trigger] s[k]).outcome),
    ensures
        lowest_sum(s) == 0,
        highest_sum(s) == 0,
        achieved_sum(s) == 0,
    decreases s.len(),
{
    if s.len() > 0 {
        assert(forall|k: int|
            0 <= k < s.len() - 1 ==> !boolean_outcome((#[trigger] s.drop_last()[k]).outcome));
        lemma_all_non_boolean_scores_zero(s.drop_last());
        assert(!boolean_outcome(s.last().outcome));
    }
}

/// A total score: the exact rational `num / den`, between 0 and 10.
#[derive(Debug, Clone, Copy, PartialEq, Eq, Structural)]
pub struct Score {
    pub num: i128,
    pub den: i128,
}

/// The largest denominator a score can carry; follows from the weight
/// range and the largest possible number of findings.
pub const SCALE_LIMIT: i128 = 36_893_488_147_419_103_232_000_000_000_000;

/// What every score returned by `calculate_total_score` satisfies.
pub open spec fn score_valid(s: Score) -> bool {
    1 <= s.den <= SCALE_LIMIT && 0 <= s.num <= 10 * s.den
}

/// The score rounded down to thousandths.
pub open spec fn milli(s: Score) -> int {
    (s.num as int) * 1000 / (s.den as int)
}

impl Score {
    /// The score rounded down to thousandths, between 0 and 10000. A
    /// comparison of this value against a milli-unit threshold is exact:
    /// for an integer `t`, `num/den < t/1000` holds iff
    /// `score_milli() < t`.
    pub fn score_milli(&self) -> (r: i64)
        requires
            score_valid(*self),
        ensures
            r as int == milli(*self),
            0 <= r <= 10000,
    {
        proof {
            assert((self.num as int) * 1000 <= 10 * (self.den as int) * 1000) by (nonlinear_arith)
                requires
                    0 <= self.num as int <= 10 * (self.den as int),
            ;
            assert(0 <= (self.num as int) * 1000 / (self.den as int) <= 10000) by (
            nonlinear_arith)
                requires
                    0 <= (self.num as int) * 1000 <= 10000 * (self.den as int),
                    1 <= self.den as int,
            ;
        }
        let m = (self.num * 1000) / self.den;
        m as i64
    }
}

/// Computes the lowest and the highest attainable weighed sum of the
/// findings: the sums of the negative and of the positive weights among
/// the boolean-outcome findings.
pub fn lowest_and_highest_possible_value(findings: &Vec<WeighedFinding>) -> (r: (i128, i128))
    requires
        weights_bounded(findings@),
    ensures
        r.0 == lowest_sum(findings@),
        r.1 == highest_sum(findings@),
{
    let n = findings.len();
    let mut low: i128 = 0;
    let mut high: i128 = 0;
    let mut i: usize = 0;
    proof {
        assert(findings@.take(0) =~= Seq::<WeighedFinding>::empty());
    }
    while i < n
        invariant
            i <= n,
            n == findings@.len(),
            weights_bounded(findings@),
            low == lowest_sum(findings@.take(i as int)),
            high == highest_sum(findings@.take(i as int)),
            -((i as int) * (WEIGHT_LIMIT as int)) <= low <= 0,
            0 <= high <= (i as int) * (WEIGHT_LIMIT as int),
        decreases n - i,
    {
        let f = findings[i];
        proof {
            assert(findings@.take(i + 1).drop_last() =~= findings@.take(i as int));
            assert(findings@.take(i + 1).last() == findings@[i as int]);
            assert((i as int) * (WEIGHT_LIMIT as int) + (WEIGHT_LIMIT as int) == ((i + 1) as int)
                * (WEIGHT_LIMIT as int)) by (nonlinear_arith);
            lemma_mul_inequality(i + 1 as int, n as int, WEIGHT_LIMIT as int);
            lemma_mul_inequality(n as int, 0x1_0000_0000_0000_0000, WEIGHT_LIMIT as int);
        }
        if f.outcome.is_boolean() {
            if f.weight < 0 {
                low = low + (f.weight as i128);
            } else if f.weight > 0 {
                high = high + (f.weight as i128);
            }
        }
        i += 1;
    }
    proof {
        assert(findings@.take(n as int) =~= findings@);
    }
    (low, high)
}

/// Computes the achieved weighed sum: the weights of the findings whose
/// outcome is `True`.
fn achieved_value(findings: &Vec<WeighedFinding>) -> (r: i128)
    requires
        weights_bounded(findings@),
    ensures
        r == achieved_sum(findings@),
{
    let n = findings.len();
    let mut achieved: i128 = 0;
    let mut i: usize = 0;
    proof {
        assert(findings@.take(0) =~= Seq::<WeighedFinding>::empty());
    }
    while i < n
        invariant
            i <= n,
            n == findings@.len(),
            weights_bounded(findings@),
            achieved == achieved_sum(findings@.take(i as int)),
            -((i as int) * (WEIGHT_LIMIT as int)) <= achieved <= (i as int) * (WEIGHT_LIMIT as int),
        decreases n - i,
    {
        let f = findings[i];
        proof {
            assert(findings@.take(i + 1).drop_last() =~= findings@.take(i as int));
            assert(findings@.take(i + 1).last() == findings@[i as int]);
            assert((i as int) * (WEIGHT_LIMIT as int) + (WEIGHT_LIMIT as int) == ((i + 1) as int)
                * (WEIGHT_LIMIT as int)) by (nonlinear_arith);
            lemma_mul_inequality(i + 1 as int, n as int, WEIGHT_LIMIT as int);
            lemma_mul_inequality(n as int, 0x1_0000_0000_0000_0000, WEIGHT_LIMIT as int);
        }
        match f.outcome {
            ProbeOutcome::True => {
                achieved = achieved + (f.weight as i128);
            },
            _ => {},
        }
        i += 1;
    }
    proof {
        assert(findings@.take(n as int) =~= findings@);
    }
    achieved
}

/// Computes the total score of the weighed findings: the achieved sum,
/// mapped affinely so that the lowest attainable sum gives 0 and the
/// highest gives 10. An empty attainable range (no boolean-capable
/// finding) gives the zero score, with no division.
pub fn calculate_total_score(findings: &Vec<WeighedFinding>) -> (r: Score)
    requires
        weights_bounded(findings@),
    ensures
        highest_sum(findings@) - lowest_sum(findings@) == 0 ==> r == (Score { num: 0, den: 1 }),
        highest_sum(findings@) - lowest_sum(findings@) != 0 ==> r.num == 10 * (achieved_sum(
            findings@,
        ) - lowest_sum(findings@)) && r.den == highest_sum(findings@) - lowest_sum(findings@),
        score_valid(r),
{
    let n = findings.len();
    proof {
        lemma_sums_bounded(findings@);
        lemma_mul_inequality(n as int, 0x1_0000_0000_0000_0000, WEIGHT_LIMIT as int);
    }
    let (lowest, highest) = lowest_and_highest_possible_value(findings);
    let scale = highest - lowest;
    if scale == 0 {
        return Score { num: 0, den: 1 };
    }
    let achieved = achieved_value(findings);
    let num = 10 * (achieved - lowest);
    Score { num, den: scale }
}

/// The weighed form of one finding under one metric entry, if the
/// finding belongs to that entry's probe.
pub fn weighed_finding(input: &ProbeInput, finding: &ProbeFinding) -> (r: Option<WeighedFinding>)
    ensures
        finding.probe == input.name ==> r == Some(
            WeighedFinding { probe: input.name, weight: input.weight, outcome: finding.outcome },
        ),
        finding.probe != input.name ==> r is None,
{
    if finding.probe == input.name {
        Some(
            WeighedFinding { probe: input.name, weight: input.weight, outcome: finding.outcome },
        )
    } else {
        None
    }
}

/// The findings selected for one metric entry, scanning `findings` in
/// order with `quota` selections left: each finding of the entry's probe
/// is weighed and kept until the quota runs out.
pub open spec fn selected(findings: Seq<ProbeFinding>, p: ProbeInput, quota: int) -> Seq<
    WeighedFinding,
>
    decreases findings.len(),
{
    if findings.len() == 0 || quota <= 0 {
        Seq::empty()
    } else if findings[0].probe == p.name {
        seq![
            WeighedFinding { probe: p.name, weight: p.weight, outcome: findings[0].outcome },
        ] + selected(findings.skip(1), p, quota - 1)
    } else {
        selected(findings.skip(1), p, quota)
    }
}

/// How many findings one metric entry may select: its `max_times` cap,
/// or all of them.
pub open spec fn quota_of(p: ProbeInput, findings: Seq<ProbeFinding>) -> int {
    match p.max_times {
        Some(t) => t as int,
        None => findings.len() as int,
    }
}

/// The whole weighed selection of a metric over the findings, in metric
/// order, before sorting.
pub open spec fn weighed_selection(findings: Seq<ProbeFinding>, probes: Seq<ProbeInput>) -> Seq<
    WeighedFinding,
> {
    probes.flat_map(|p: ProbeInput| selected(findings, p, quota_of(p, findings)))
}

/// The display order of weighed findings: descending absolute weight,
/// ties broken by probe name ascending.
pub open spec fn abs_val(w: int) -> int {
    if w < 0 {
        -w
    } else {
        w
    }
}

/// Whether `a` may stand before `b` in the sorted weighed list.
pub open spec fn wf_before(a: WeighedFinding, b: WeighedFinding) -> bool {
    abs_val(a.weight as int) > abs_val(b.weight as int) || (abs_val(a.weight as int) == abs_val(
        b.weight as int,
    ) && a.probe.order() <= b.probe.order())
}

/// Sorted by descending absolute weight, ties by probe name ascending.
pub open spec fn sorted_by_weight(s: Seq<WeighedFinding>) -> bool {
    forall|i: int, j: int| 0 <= i < j < s.len() ==> wf_before(#[trigger] s[i], #[trigger] s[j])
}

/// Tests whether `a` may stand before `b` in the sorted weighed list.
fn wf_before_exec(a: &WeighedFinding, b: &WeighedFinding) -> (r: bool)
    requires
        -WEIGHT_LIMIT <= a.weight <= WEIGHT_LIMIT,
        -WEIGHT_LIMIT <= b.weight <= WEIGHT_LIMIT,
    ensures
        r == wf_before(*a, *b),
{
    let abs_a = if a.weight < 0 {
        -a.weight
    } else {
        a.weight
    };
    let abs_b = if b.weight < 0 {
        -b.weight
    } else {
        b.weight
    };
    abs_a > abs_b || (abs_a == abs_b && a.probe.position() <= b.probe.position())
}

/// Places `item` into the sorted list `out`, keeping it sorted; equal
/// keys stay, the new entry goes after them.
fn sorted_insert_weighed(out: &mut Vec<WeighedFinding>, item: WeighedFinding)
    requires
        sorted_by_weight(old(out)@),
        weights_bounded(old(out)@),
        -WEIGHT_LIMIT <= item.weight <= WEIGHT_LIMIT,
    ensures
        sorted_by_weight(final(out)@),
        weights_bounded(final(out)@),
        final(out)@.to_multiset() == old(out)@.to_multiset().insert(item),
{
    broadcast use vstd::multiset::group_multiset_axioms;

    let ghost orig = out@;
    let mut i: usize = 0;
    while i < out.len() && wf_before_exec(&out[i], &item)
        invariant
            i <= out@.len(),
            out@ == orig,
            sorted_by_weight(out@),
            weights_bounded(out@),
            -WEIGHT_LIMIT <= item.weight <= WEIGHT_LIMIT,
            forall|k: int| 0 <= k < i ==> wf_before(#[trigger] out@[k], item),
        decreases out@.len() - i,
    {
        i += 1;
    }
    out.insert(i, item);
    proof {
        let updated = out@;
        assert(updated =~= orig.insert(i as int, item));
        assert forall|p: int, q: int| 0 <= p < q < updated.len() implies wf_before(
            #[trigger] updated[p],
            #[trigger] updated[q],
        ) by {
            if p < i && q == i {
                assert(updated[p] == orig[p] && updated[q] == item);
            } else if p == i && q > i {
                assert(updated[p] == item && updated[q] == orig[q - 1]);
                assert(!wf_before(orig[i as int], item));
                if q - 1 > i {
                    assert(wf_before(orig[i as int], orig[q - 1]));
                }
            } else if p < i && q > i {
                assert(updated[p] == orig[p] && updated[q] == orig[q - 1]);
                assert(wf_before(orig[p], orig[q - 1]));
            } else if p > i && q > i {
                assert(updated[p] == orig[p - 1] && updated[q] == orig[q - 1]);
            } else if p < i && q < i {
                assert(updated[p] == orig[p] && updated[q] == orig[q]);
            }
        }
        assert(updated =~= orig.take(i as int) + (seq![item] + orig.skip(i as int)));
        lemma_multiset_commutative(orig.take(i as int), seq![item] + orig.skip(i as int));
        lemma_multiset_commutative(seq![item], orig.skip(i as int));
        lemma_multiset_commutative(orig.take(i as int), orig.skip(i as int));
        assert(orig.take(i as int) + orig.skip(i as int) =~= orig);
        assert(seq![item] =~= Seq::<WeighedFinding>::empty().push(item));
        broadcast use vstd::seq_lib::group_to_multiset_ensures;

        assert(Seq::<WeighedFinding>::empty().to_multiset() =~= Multiset::<
            WeighedFinding,
        >::empty());
        assert(updated.to_multiset() =~= orig.to_multiset().insert(item));
    }
}

/// Every finding selected for one metric entry carries that entry's
/// weight.
proof fn lemma_selected_weights(findings: Seq<ProbeFinding>, p: ProbeInput, quota: int)
    ensures
        forall|k: int|
            0 <= k < selected(findings, p, quota).len() ==> (#[trigger] selected(
                findings,
                p,
                quota,
            )[k]).weight == p.weight,
    decreases findings.len(),
{
    if findings.len() == 0 || quota <= 0 {
    } else if findings[0].probe == p.name {
        lemma_selected_weights(findings.skip(1), p, quota - 1);
    } else {
        lemma_selected_weights(findings.skip(1), p, quota);
    }
}

/// Collects the findings of one metric entry's probe, in original order,
/// each weighed with the entry's weight, keeping only the first
/// `max_times` of them if the entry is capped.
fn select_for_probe(findings: &Vec<ProbeFinding>, probe: ProbeInput) -> (r: Vec<WeighedFinding>)
    ensures
        r@ == selected(findings@, probe, quota_of(probe, findings@)),
{
    let ghost quota = quota_of(probe, findings@);
    let mut out: Vec<WeighedFinding> = Vec::new();
    let mut taken: usize = 0;
    let mut j: usize = 0;
    proof {
        assert(findings@.skip(0) =~= findings@);
        assert(Seq::<WeighedFinding>::empty() + selected(findings@, probe, quota) =~= selected(
            findings@,
            probe,
            quota,
        ));
    }
    while j < findings.len()
        invariant
            j <= findings@.len(),
            taken <= j,
            taken == out@.len(),
            quota == quota_of(probe, findings@),
            match probe.max_times {
                Some(t) => taken <= t,
                None => true,
            },
            selected(findings@, probe, quota) == out@ + selected(
                findings@.skip(j as int),
                probe,
                quota - taken,
            ),
        decreases findings@.len() - j,
    {
        let ghost rest = findings@.skip(j as int);
        proof {
            assert(rest[0] == findings@[j as int]);
            assert(rest.skip(1) =~= findings@.skip(j + 1));
        }
        let finding = findings[j];
        if finding.probe == probe.name {
            let may_take = match probe.max_times {
                Some(t) => taken < t,
                None => true,
            };
            if may_take {
                let ghost before = out@;
                let weighed = WeighedFinding {
                    probe: probe.name,
                    weight: probe.weight,
                    outcome: finding.outcome,
                };
                out.push(weighed);
                taken += 1;
                proof {
                    assert(quota - (taken - 1) > 0);
                    assert(selected(rest, probe, quota - (taken - 1)) == seq![weighed] + selected(
                        findings@.skip(j + 1),
                        probe,
                        quota - taken,
                    ));
                    assert(before + (seq![weighed] + selected(
                        findings@.skip(j + 1),
                        probe,
                        quota - taken,
                    )) =~= out@ + selected(findings@.skip(j + 1), probe, quota - taken));
                }
            } else {
                proof {
                    assert(quota - taken <= 0);
                    assert(selected(rest, probe, quota - taken) =~= Seq::<
                        WeighedFinding,
                    >::empty());
                    assert(selected(findings@.skip(j + 1), probe, quota - taken) =~= Seq::<
                        WeighedFinding,
                    >::empty());
                }
            }
        } else {
            proof {
                assert(selected(rest, probe, quota - taken) == selected(
                    findings@.skip(j + 1),
                    probe,
                    quota - taken,
                ));
            }
        }
        j += 1;
    }
    proof {
        assert(findings@.skip(findings@.len() as int) =~= Seq::<ProbeFinding>::empty());
        assert(selected(Seq::<ProbeFinding>::empty(), probe, quota - taken) =~= Seq::<
            WeighedFinding,
        >::empty());
        assert(out@ + Seq::<WeighedFinding>::empty() =~= out@);
    }
    out
}

/// Collects, for each probe of the metric in metric order, the findings
/// of that probe (the first `max_times` of them if capped), each weighed
/// with the metric's weight, and sorts the result by descending absolute
/// weight, ties by probe name ascending. A probe with no finding
/// contributes nothing.
pub fn weighed_findings(findings: &Vec<ProbeFinding>, metric: &Metric) -> (r: Vec<WeighedFinding>)
    requires
        forall|k: int|
            0 <= k < metric.probes@.len() ==> -WEIGHT_LIMIT <= (#[trigger] metric.probes@[k]).weight
                <= WEIGHT_LIMIT,
    ensures
        r@.to_multiset() == weighed_selection(findings@, metric.probes@).to_multiset(),
        sorted_by_weight(r@),
        weights_bounded(r@),
{
    broadcast use vstd::seq_lib::group_to_multiset_ensures;

    let ghost sel = |p: ProbeInput| selected(findings@, p, quota_of(p, findings@));
    let mut out: Vec<WeighedFinding> = Vec::new();
    let ghost mut processed: Seq<WeighedFinding> = Seq::empty();
    proof {
        assert(metric.probes@.take(0).flat_map(sel) =~= Seq::<WeighedFinding>::empty());
        assert(out@.to_multiset() =~= processed.to_multiset());
    }
    let mut k: usize = 0;
    while k < metric.probes.len()
        invariant
            k <= metric.probes@.len(),
            sel == (|p: ProbeInput| selected(findings@, p, quota_of(p, findings@))),
            forall|k0: int|
                0 <= k0 < metric.probes@.len() ==> -WEIGHT_LIMIT <= (
                #[trigger] metric.probes@[k0]).weight <= WEIGHT_LIMIT,
            processed == metric.probes@.take(k as int).flat_map(sel),
            out@.to_multiset() == processed.to_multiset(),
            sorted_by_weight(out@),
            weights_bounded(out@),
        decreases metric.probes@.len() - k,
    {
        let probe = metric.probes[k];
        let picked = select_for_probe(findings, probe);
        let ghost these = sel(probe);
        proof {
            assert(picked@ == these);
            lemma_selected_weights(findings@, probe, quota_of(probe, findings@));
        }
        let mut t: usize = 0;
        proof {
            assert(processed + these.take(0) =~= processed);
        }
        let ghost outer = processed;
        while t < picked.len()
            invariant
                t <= picked@.len(),
                picked@ == these,
                forall|k0: int|
                    0 <= k0 < these.len() ==> -WEIGHT_LIMIT <= (#[trigger] these[k0]).weight
                        <= WEIGHT_LIMIT,
                processed == outer + these.take(t as int),
                out@.to_multiset() == processed.to_multiset(),
                sorted_by_weight(out@),
                weights_bounded(out@),
            decreases picked@.len() - t,
        {
            let item = picked[t];
            sorted_insert_weighed(&mut out, item);
            proof {
                let before = processed;
                processed = processed.push(item);
                before.to_multiset_ensures();
                assert(before.push(item).to_multiset() =~= before.to_multiset().insert(item));
                assert(out@.to_multiset() =~= processed.to_multiset());
                assert(outer + these.take(t + 1) =~= (outer + these.take(t as int)).push(
                    these[t as int],
                ));
            }
            t += 1;
        }
        proof {
            assert(these.take(these.len() as int) =~= these);
            metric.probes@.lemma_flat_map_take_append(sel, k as int);
            assert(processed == metric.probes@.take(k + 1).flat_map(sel));
        }
        k += 1;
    }
    proof {
        assert(metric.probes@.take(metric.probes@.len() as int) =~= metric.probes@);
        assert(weighed_selection(findings@, metric.probes@) == metric.probes@.flat_map(sel));
    }
    out
}

} // verus!

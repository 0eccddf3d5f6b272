//! The compact per-probe aggregate shown per repository: for each probe
//! that produced findings, its weight and how often it came out true.

use vstd::prelude::*;

use crate::probe_name::ProbeName;
use crate::score::WeighedFinding;
use crate::text::{dec_chars, decimal_string};
use crate::probe::ProbeOutcome;

verus! {

/// The aggregate of one probe's findings for one repository: the probe,
/// its weight, and the number of `True` outcomes — absent when no
/// finding of the probe was boolean.
#[derive(Debug, Clone, Copy, PartialEq, Eq)]
pub struct CumulatedProbeOutcome {
    pub probe: ProbeName,
    pub weight: i64,
    pub true_outcomes: Option<usize>,
}

/// Renders an optional count: the number, or `N/A` when there is none.
pub fn display_option_usize(option: &Option<usize>) -> (r: String)
    ensures
        match option {
            Some(value) => r@ == dec_chars(*value as int),
            None => r@ == "N/A"@,
        },
{
    match option {
        Some(value) => decimal_string(*value as u64),
        None => {
            let mut text = String::new();
            text.append("N/A");
            assert(Seq::<char>::empty() + "N/A"@ =~= "N/A"@);
            text
        },
    }
}

/// Whether any finding belongs to the probe.
pub open spec fn probe_present(s: Seq<WeighedFinding>, p: ProbeName) -> bool {
    exists|k: int| 0 <= k < s.len() && (#[trigger] s[k]).probe == p
}

/// Whether any finding of the probe came out `False`.
pub open spec fn group_has_false(s: Seq<WeighedFinding>, p: ProbeName) -> bool {
    exists|k: int|
        0 <= k < s.len() && (#[trigger] s[k]).probe == p && s[k].outcome == ProbeOutcome::False
}

/// How many findings of the probe came out `True`.
pub open spec fn count_true(s: Seq<WeighedFinding>, p: ProbeName) -> int
    decreases s.len(),
{
    if s.len() == 0 {
        0
    } else {
        count_true(s.drop_last(), p) + (if s.last().probe == p && s.last().outcome
            == ProbeOutcome::True {
            1int
        } else {
            0int
        })
    }
}

/// The weight of the first finding of the probe.
pub open spec fn first_weight(s: Seq<WeighedFinding>, p: ProbeName) -> int
    recommends
        probe_present(s, p),
    decreases s.len(),
{
    if s.len() == 0 {
        0
    } else if s[0].probe == p {
        s[0].weight as int
    } else {
        first_weight(s.skip(1), p)
    }
}

/// What the aggregate reports of one probe's group: any `False` present
/// forces the count to zero, otherwise the count of `True` outcomes,
/// absent when the group has no boolean outcome at all.
pub open spec fn group_count_matches(
    s: Seq<WeighedFinding>,
    p: ProbeName,
    reported: Option<usize>,
) -> bool {
    if group_has_false(s, p) {
        reported == Some(0usize)
    } else if count_true(s, p) > 0 {
        reported matches Some(c) && c as int == count_true(s, p)
    } else {
        reported is None
    }
}

/// What the aggregate list of a findings list satisfies: one entry per
/// probe that occurs, sorted by probe name, each carrying the weight of
/// the probe's first finding and the reported `True` count of its group.
pub open spec fn cumulated_of(
    findings: Seq<WeighedFinding>,
    entries: Seq<CumulatedProbeOutcome>,
) -> bool {
    &&& forall|i: int, j: int|
        0 <= i < j < entries.len() ==> (#[trigger] entries[i]).probe.order() < (
        #[trigger] entries[j]).probe.order()
    &&& forall|j: int|
        0 <= j < entries.len() ==> {
            let entry = #[trigger] entries[j];
            probe_present(findings, entry.probe) && entry.weight as int == first_weight(
                findings,
                entry.probe,
            ) && group_count_matches(findings, entry.probe, entry.true_outcomes)
        }
    &&& forall|p: ProbeName|
        probe_present(findings, p) ==> exists|j: int|
            0 <= j < entries.len() && (#[trigger] entries[j]).probe == p
}

/// Distinct probe names have distinct positions in the fixed order.
proof fn lemma_order_injective(a: ProbeName, b: ProbeName)
    requires
        a.order() == b.order(),
    ensures
        a == b,
{
}

/// Places `p` into the sorted, duplicate-free list of probe names,
/// keeping it sorted and duplicate-free; a name already present is
/// dropped.
fn insert_probe_sorted(names: &mut Vec<ProbeName>, p: ProbeName)
    requires
        forall|i: int, j: int|
            0 <= i < j < old(names)@.len() ==> (#[trigger] old(names)@[i]).order() < (
            #[trigger] old(names)@[j]).order(),
    ensures
        forall|i: int, j: int|
            0 <= i < j < final(names)@.len() ==> (#[trigger] final(names)@[i]).order() < (
            #[trigger] final(names)@[j]).order(),
        final(names)@.to_set() == old(names)@.to_set().insert(p),
{
    let ghost orig = names@;
    let mut i: usize = 0;
    while i < names.len() && names[i].position() < p.position()
        invariant
            i <= names@.len(),
            names@ == orig,
            forall|i0: int, j0: int|
                0 <= i0 < j0 < names@.len() ==> (#[trigger] names@[i0]).order() < (
                #[trigger] names@[j0]).order(),
            forall|k: int| 0 <= k < i ==> (#[trigger] names@[k]).order() < p.order(),
        decreases names@.len() - i,
    {
        i += 1;
    }
    if i < names.len() && names[i] == p {
        assert(names@.to_set() =~= names@.to_set().insert(p)) by {
            assert(names@[i as int] == p);
            assert(names@.to_set().contains(p));
        }
        return ;
    }
    proof {
        if i < orig.len() {
            assert(orig[i as int] != p);
            assert(orig[i as int].order() != p.order()) by {
                if orig[i as int].order() == p.order() {
                    lemma_order_injective(orig[i as int], p);
                }
            }
        }
    }
    names.insert(i, p);
    proof {
        let updated = names@;
        assert(updated =~= orig.insert(i as int, p));
        assert forall|p0: int, q0: int| 0 <= p0 < q0 < updated.len() implies (
        #[trigger] updated[p0]).order() < (#[trigger] updated[q0]).order() by {
            if p0 < i && q0 == i {
                assert(updated[p0] == orig[p0] && updated[q0] == p);
            } else if p0 == i && q0 > i {
                assert(updated[p0] == p && updated[q0] == orig[q0 - 1]);
            } else if p0 < i && q0 > i {
                assert(updated[p0] == orig[p0] && updated[q0] == orig[q0 - 1]);
            } else if p0 > i && q0 > i {
                assert(updated[p0] == orig[p0 - 1] && updated[q0] == orig[q0 - 1]);
            } else if p0 < i && q0 < i {
                assert(updated[p0] == orig[p0] && updated[q0] == orig[q0]);
            }
        }
        assert(updated.to_set() =~= orig.to_set().insert(p)) by {
            assert forall|t: ProbeName| updated.to_set().contains(t) implies orig.to_set().insert(
                p,
            ).contains(t) by {
                let k = choose|k: int| 0 <= k < updated.len() && updated[k] == t;
                if k != i {
                    let k0 = if k < i {
                        k
                    } else {
                        k - 1
                    };
                    assert(orig[k0] == t);
                }
            }
            assert forall|t: ProbeName| orig.to_set().insert(p).contains(t) implies updated.to_set(
            ).contains(t) by {
                if t == p {
                    assert(updated[i as int] == t);
                } else {
                    let k0 = choose|k0: int| 0 <= k0 < orig.len() && orig[k0] == t;
                    let k = if k0 < i {
                        k0
                    } else {
                        k0 + 1
                    };
                    assert(updated[k] == t);
                }
            }
        }
    }
}

/// The distinct probes of the findings, sorted by name.
fn distinct_probes(findings: &Vec<WeighedFinding>) -> (r: Vec<ProbeName>)
    ensures
        forall|i: int, j: int|
            0 <= i < j < r@.len() ==> (#[trigger] r@[i]).order() < (#[trigger] r@[j]).order(),
        forall|j: int| 0 <= j < r@.len() ==> probe_present(findings@, (#[trigger] r@[j])),
        forall|p: ProbeName| probe_present(findings@, p) ==> r@.to_set().contains(p),
{
    let mut names: Vec<ProbeName> = Vec::new();
    let mut i: usize = 0;
    while i < findings.len()
        invariant
            i <= findings@.len(),
            forall|i0: int, j0: int|
                0 <= i0 < j0 < names@.len() ==> (#[trigger] names@[i0]).order() < (
                #[trigger] names@[j0]).order(),
            forall|j: int|
                0 <= j < names@.len() ==> probe_present(findings@, (#[trigger] names@[j])),
            forall|k: int| 0 <= k < i ==> names@.to_set().contains((#[trigger] findings@[k]).probe),
        decreases findings@.len() - i,
    {
        let ghost before = names@;
        let p = findings[i].probe;
        insert_probe_sorted(&mut names, p);
        proof {
            assert forall|j: int| 0 <= j < names@.len() implies probe_present(
                findings@,
                (#[trigger] names@[j]),
            ) by {
                assert(names@.to_set().contains(names@[j]));
                if names@[j] != p {
                    assert(before.to_set().contains(names@[j]));
                    let k = choose|k: int| 0 <= k < before.len() && before[k] == names@[j];
                }
            }
        }
        i += 1;
    }
    names
}

/// The weight the findings carry for one probe: that of its first
/// finding.
fn first_weight_of(findings: &Vec<WeighedFinding>, p: ProbeName) -> (r: i64)
    requires
        probe_present(findings@, p),
    ensures
        r as int == first_weight(findings@, p),
{
    let mut i: usize = 0;
    proof {
        assert(findings@.skip(0) =~= findings@);
    }
    while i < findings.len()
        invariant
            i <= findings@.len(),
            probe_present(findings@, p),
            first_weight(findings@.skip(i as int), p) == first_weight(findings@, p),
            forall|k: int| 0 <= k < i ==> (#[trigger] findings@[k]).probe != p,
        decreases findings@.len() - i,
    {
        proof {
            assert(findings@.skip(i as int)[0] == findings@[i as int]);
            assert(findings@.skip(i as int).skip(1) =~= findings@.skip(i + 1));
        }
        if findings[i].probe == p {
            return findings[i].weight;
        }
        i += 1;
    }
    proof {
        let k = choose|k: int| 0 <= k < findings@.len() && (#[trigger] findings@[k]).probe == p;
        assert(false);
    }
    0
}

/// Whether any finding of the probe came out `False`.
fn group_has_false_exec(findings: &Vec<WeighedFinding>, p: ProbeName) -> (r: bool)
    ensures
        r == group_has_false(findings@, p),
{
    let mut i: usize = 0;
    while i < findings.len()
        invariant
            i <= findings@.len(),
            forall|k: int|
                0 <= k < i ==> !((#[trigger] findings@[k]).probe == p && findings@[k].outcome
                    == ProbeOutcome::False),
        decreases findings@.len() - i,
    {
        if findings[i].probe == p && findings[i].outcome == ProbeOutcome::False {
            return true;
        }
        i += 1;
    }
    false
}

/// Counts the `True` outcomes of the probe.
fn count_true_exec(findings: &Vec<WeighedFinding>, p: ProbeName) -> (r: usize)
    ensures
        r as int == count_true(findings@, p),
{
    let mut count: usize = 0;
    let mut i: usize = 0;
    proof {
        assert(findings@.take(0) =~= Seq::<WeighedFinding>::empty());
    }
    while i < findings.len()
        invariant
            i <= findings@.len(),
            count <= i,
            count as int == count_true(findings@.take(i as int), p),
        decreases findings@.len() - i,
    {
        proof {
            assert(findings@.take(i + 1).drop_last() =~= findings@.take(i as int));
            assert(findings@.take(i + 1).last() == findings@[i as int]);
        }
        if findings[i].probe == p && findings[i].outcome == ProbeOutcome::True {
            count += 1;
        }
        i += 1;
    }
    proof {
        assert(findings@.take(findings@.len() as int) =~= findings@);
    }
    count
}

/// Groups the weighed findings by probe and reports, per probe and
/// sorted by probe name: the probe's weight, and its `True` count — zero
/// as soon as any `False` is present, absent when the group carries no
/// boolean outcome at all.
pub fn cumulated_outcomes(findings: &Vec<WeighedFinding>) -> (r: Vec<CumulatedProbeOutcome>)
    ensures
        cumulated_of(findings@, r@),
{
    let names = distinct_probes(findings);
    let mut out: Vec<CumulatedProbeOutcome> = Vec::new();
    let mut m: usize = 0;
    while m < names.len()
        invariant
            m <= names@.len(),
            out@.len() == m,
            forall|i0: int, j0: int|
                0 <= i0 < j0 < names@.len() ==> (#[trigger] names@[i0]).order() < (
                #[trigger] names@[j0]).order(),
            forall|j: int|
                0 <= j < names@.len() ==> probe_present(findings@, (#[trigger] names@[j])),
            forall|p: ProbeName| probe_present(findings@, p) ==> names@.to_set().contains(p),
            forall|j: int| 0 <= j < m ==> (#[trigger] out@[j]).probe == names@[j],
            forall|j: int|
                0 <= j < m ==> {
                    let entry = #[trigger] out@[j];
                    probe_present(findings@, entry.probe) && entry.weight as int == first_weight(
                        findings@,
                        entry.probe,
                    ) && group_count_matches(findings@, entry.probe, entry.true_outcomes)
                },
        decreases names@.len() - m,
    {
        let probe = names[m];
        let weight = first_weight_of(findings, probe);
        let true_outcomes: Option<usize> = if group_has_false_exec(findings, probe) {
            Some(0)
        } else {
            let c = count_true_exec(findings, probe);
            if c > 0 {
                Some(c)
            } else {
                None
            }
        };
        out.push(CumulatedProbeOutcome { probe, weight, true_outcomes });
        m += 1;
    }
    proof {
        assert forall|p: ProbeName| probe_present(findings@, p) implies exists|j: int|
            0 <= j < out@.len() && (#[trigger] out@[j]).probe == p by {
            assert(names@.to_set().contains(p));
            let k = choose|k: int| 0 <= k < names@.len() && names@[k] == p;
            assert(out@[k].probe == p);
        }
    }
    out
}

} // verus!

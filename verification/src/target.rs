//! Units of evaluation: literal repository URLs and packages declared in
//! dependency manifests, and their normalization into one canonical,
//! deduplicated, sorted list.

use vstd::prelude::*;

use crate::ecosystem::{DepFile, Ecosystem};
use crate::error::Error;
use crate::input::is_url_chars;
use crate::text::{has_prefix, lemma_seq_char_lt_connected, lemma_seq_char_lt_irreflexive,
    lemma_seq_char_lt_transitive, matches_at, seq_char_lt};
use crate::url::Url;

verus! {

/// A raw target as the user gave it: either a literal repository URL or a
/// dependency manifest, kept with its path.
#[derive(Debug, Clone, PartialEq, Eq)]
pub enum Target {
    Url(Url),
    DepFile(String, DepFile),
}

/// One unit of evaluation: a package within an ecosystem, or a literal
/// repository URL.
#[derive(Debug, Clone, PartialEq, Eq, PartialOrd, Ord)]
pub enum SingleTarget {
    Package(String, Ecosystem),
    Url(Url),
}

/// The mathematical shape of a single target.
#[verifier::ext_equal]
pub enum SingleTargetV {
    Package(Seq<char>, Ecosystem),
    Url(Seq<char>),
}

impl View for SingleTarget {
    type V = SingleTargetV;

    open spec fn view(&self) -> SingleTargetV {
        match self {
            SingleTarget::Package(name, ecosystem) => SingleTargetV::Package(name@, *ecosystem),
            SingleTarget::Url(url) => SingleTargetV::Url(url@),
        }
    }
}

/// The total order on single targets used for sorting and deduplication:
/// packages before URLs, packages by name and then by ecosystem, URLs by
/// their string.
pub open spec fn target_lt(a: SingleTargetV, b: SingleTargetV) -> bool {
    match (a, b) {
        (SingleTargetV::Package(n1, e1), SingleTargetV::Package(n2, e2)) => seq_char_lt(n1, n2)
            || (n1 == n2 && e1.order() < e2.order()),
        (SingleTargetV::Package(_, _), SingleTargetV::Url(_)) => true,
        (SingleTargetV::Url(_), SingleTargetV::Package(_, _)) => false,
        (SingleTargetV::Url(u1), SingleTargetV::Url(u2)) => seq_char_lt(u1, u2),
    }
}

/// The order on single targets never holds of a target and itself.
pub proof fn lemma_target_lt_irreflexive(a: SingleTargetV)
    ensures
        !target_lt(a, a),
{
    match a {
        SingleTargetV::Package(n, _) => lemma_seq_char_lt_irreflexive(n),
        SingleTargetV::Url(u) => lemma_seq_char_lt_irreflexive(u),
    }
}

/// A strictly sorted target list holds each target at most once: this
/// is what makes the normalized list of `collect_single_targets` free
/// of duplicates.
pub proof fn lemma_strictly_sorted_distinct(s: Seq<SingleTargetV>)
    requires
        strictly_sorted(s),
    ensures
        forall|i: int, j: int| 0 <= i < j < s.len() ==> #[trigger] s[i] != #[trigger] s[j],
{
    assert forall|i: int, j: int| 0 <= i < j < s.len() implies #[trigger] s[i] != #[trigger] s[j] by {
        if s[i] == s[j] {
            lemma_target_lt_irreflexive(s[i]);
        }
    }
}

/// Two distinct single targets are ordered one way or the other.
pub proof fn lemma_target_lt_connected(a: SingleTargetV, b: SingleTargetV)
    requires
        a != b,
    ensures
        target_lt(a, b) || target_lt(b, a),
{
    match (a, b) {
        (SingleTargetV::Package(n1, e1), SingleTargetV::Package(n2, e2)) => {
            if n1 != n2 {
                lemma_seq_char_lt_connected(n1, n2);
            } else {
                assert(e1 != e2) by {
                    if e1 == e2 {
                        assert(a =~= b);
                    }
                }
            }
        },
        (SingleTargetV::Url(u1), SingleTargetV::Url(u2)) => {
            assert(u1 != u2) by {
                if u1 == u2 {
                    assert(a =~= b);
                }
            }
            lemma_seq_char_lt_connected(u1, u2);
        },
        _ => {},
    }
}

/// The order on single targets is transitive.
pub proof fn lemma_target_lt_transitive(a: SingleTargetV, b: SingleTargetV, c: SingleTargetV)
    requires
        target_lt(a, b),
        target_lt(b, c),
    ensures
        target_lt(a, c),
{
    match (a, b, c) {
        (
            SingleTargetV::Package(n1, e1),
            SingleTargetV::Package(n2, e2),
            SingleTargetV::Package(n3, e3),
        ) => {
            if seq_char_lt(n1, n2) && seq_char_lt(n2, n3) {
                lemma_seq_char_lt_transitive(n1, n2, n3);
            }
        },
        (SingleTargetV::Url(u1), SingleTargetV::Url(u2), SingleTargetV::Url(u3)) => {
            lemma_seq_char_lt_transitive(u1, u2, u3);
        },
        _ => {},
    }
}

impl Target {
    /// The single targets this raw target stands for: the URL itself, or
    /// the first-level dependencies of the manifest.
    pub open spec fn singles(self) -> Seq<SingleTargetV> {
        match self {
            Target::Url(url) => seq![SingleTargetV::Url(url.0@)],
            Target::DepFile(_, depfile) => depfile.deps(),
        }
    }

    /// Classifies a raw input: a literal URL stands for itself; anything
    /// else must be a dependency manifest whose decoded content, if any
    /// format decoder accepted the file, is handed in as `depfile`.
    /// Inputs that are neither are rejected before any further work.
    pub fn parse(path: String, depfile: Option<DepFile>) -> (r: Result<Target, Error>)
        ensures
            is_url_chars(path@) ==> (r matches Ok(t) && t matches Target::Url(u) && u@ == path@),
            !is_url_chars(path@) ==> match depfile {
                Some(d) => r matches Ok(t) && t == Target::DepFile(path, d),
                None => r matches Err(e) && e matches Error::Input(m) && m@
                    == "Unable to understand "@ + path@,
            },
    {
        if is_url(path.as_str()) {
            return Ok(Target::Url(Url(path)));
        }
        if let Some(d) = depfile {
            return Ok(Target::DepFile(path, d));
        }
        let mut message = String::new();
        message.append("Unable to understand ");
        message.append(path.as_str());
        assert(Seq::<char>::empty() + "Unable to understand "@ + path@ =~= "Unable to understand "@
            + path@);
        Err(Error::Input(message))
    }
}

impl SingleTarget {
    /// The runner argument that selects this target: `--repo=<url>` for a
    /// URL, or the ecosystem-specific package argument. For a Rust
    /// package the externally resolved repository URL is handed in as
    /// `rust_repo`; see `Ecosystem::dep_to_scorecard_arg`.
    pub fn to_scorecard_arg(&self, rust_repo: Option<&Url>) -> (r: Result<String, Error>)
        ensures
            match self@ {
                SingleTargetV::Url(u) => r matches Ok(a) && a@ == "--repo="@ + u,
                SingleTargetV::Package(name, ecosystem) => match ecosystem {
                    Ecosystem::NodeJs => r matches Ok(a) && a@ == "--npm="@ + name,
                    Ecosystem::NuGet => r matches Ok(a) && a@ == "--nuget="@ + name,
                    Ecosystem::Rust => match rust_repo {
                        Some(url) => r matches Ok(a) && a@ == "--repo="@ + url@,
                        None => r matches Err(e) && e matches Error::Other(m) && m@
                            == "Could not obtain repo for crate "@ + name,
                    },
                },
            },
    {
        match self {
            SingleTarget::Package(package, ecosystem) => ecosystem.dep_to_scorecard_arg(
                package.as_str(),
                rust_repo,
            ),
            SingleTarget::Url(url) => {
                let mut arg = String::new();
                arg.append("--repo=");
                arg.append(url.0.as_str());
                assert(Seq::<char>::empty() + "--repo="@ + url@ =~= "--repo="@ + url@);
                Ok(arg)
            },
        }
    }
}

/// Tests whether a raw input is a literal URL.
pub fn is_url(str: &str) -> (r: bool)
    ensures
        r == is_url_chars(str@),
{
    has_prefix(str, "https://") || has_prefix(str, "http://")
}

/// Tests whether `a` comes strictly before `b` in the target order.
fn target_less(a: &SingleTarget, b: &SingleTarget) -> (r: bool)
    ensures
        r == target_lt(a@, b@),
{
    match (a, b) {
        (SingleTarget::Package(n1, e1), SingleTarget::Package(n2, e2)) => {
            if crate::text::str_less(n1.as_str(), n2.as_str()) {
                true
            } else if crate::text::str_equal(n1.as_str(), n2.as_str()) {
                e1.position() < e2.position()
            } else {
                false
            }
        },
        (SingleTarget::Package(_, _), SingleTarget::Url(_)) => true,
        (SingleTarget::Url(_), SingleTarget::Package(_, _)) => false,
        (SingleTarget::Url(u1), SingleTarget::Url(u2)) => crate::text::str_less(
            u1.0.as_str(),
            u2.0.as_str(),
        ),
    }
}

/// Tests whether two single targets are the same target.
fn target_equal(a: &SingleTarget, b: &SingleTarget) -> (r: bool)
    ensures
        r == (a@ == b@),
{
    match (a, b) {
        (SingleTarget::Package(n1, e1), SingleTarget::Package(n2, e2)) => {
            let r = crate::text::str_equal(n1.as_str(), n2.as_str()) && *e1 == *e2;
            proof {
                if r {
                    assert(a@ =~= b@);
                }
            }
            r
        },
        (SingleTarget::Url(u1), SingleTarget::Url(u2)) => {
            let r = crate::text::str_equal(u1.0.as_str(), u2.0.as_str());
            proof {
                if r {
                    assert(a@ =~= b@);
                }
            }
            r
        },
        _ => false,
    }
}

/// Appending one element to a sequence adds exactly that element to the
/// set of its members.
proof fn lemma_push_to_set(s: Seq<SingleTargetV>, x: SingleTargetV)
    ensures
        s.push(x).to_set() == s.to_set().insert(x),
{
    assert forall|t: SingleTargetV| s.push(x).to_set().contains(t) implies s.to_set().insert(
        x,
    ).contains(t) by {
        let k = choose|k: int| 0 <= k < s.push(x).len() && s.push(x)[k] == t;
        if k < s.len() {
            assert(s[k] == t);
        } else {
            assert(t == x);
        }
    }
    assert forall|t: SingleTargetV| s.to_set().insert(x).contains(t) implies s.push(
        x,
    ).to_set().contains(t) by {
        if t == x {
            assert(s.push(x)[s.len() as int] == t);
        } else {
            let k = choose|k: int| 0 <= k < s.len() && s[k] == t;
            assert(s.push(x)[k] == t);
        }
    }
    assert(s.push(x).to_set() =~= s.to_set().insert(x));
}

/// The views of a list of single targets.
pub open spec fn target_views(s: Seq<SingleTarget>) -> Seq<SingleTargetV> {
    s.map_values(|t: SingleTarget| t@)
}

/// Strictly ascending in the target order: sorted, with no duplicates.
pub open spec fn strictly_sorted(s: Seq<SingleTargetV>) -> bool {
    forall|i: int, j: int| 0 <= i < j < s.len() ==> target_lt(#[trigger] s[i], #[trigger] s[j])
}

/// Places `item` into the sorted, duplicate-free list `out`, keeping it
/// sorted and duplicate-free; a target already present is dropped.
fn sorted_insert_unique(out: &mut Vec<SingleTarget>, item: SingleTarget)
    requires
        strictly_sorted(target_views(old(out)@)),
    ensures
        strictly_sorted(target_views(final(out)@)),
        target_views(final(out)@).to_set() == target_views(old(out)@).to_set().insert(item@),
{
    let ghost orig = out@;
    let mut i: usize = 0;
    while i < out.len() && target_less(&out[i], &item)
        invariant
            i <= out@.len(),
            out@ == orig,
            strictly_sorted(target_views(out@)),
            forall|k: int| 0 <= k < i ==> target_lt(#[trigger] target_views(out@)[k], item@),
        decreases out@.len() - i,
    {
        assert(target_views(out@)[i as int] == out@[i as int]@);
        i += 1;
    }
    if i < out.len() && target_equal(&out[i], &item) {
        // Already present: the set below the view does not change.
        assert(target_views(out@).to_set() =~= target_views(out@).to_set().insert(item@)) by {
            assert(target_views(out@)[i as int] == item@);
            assert(target_views(out@).to_set().contains(item@));
        }
        return ;
    }
    let ghost prior = target_views(out@);
    proof {
        if i < out@.len() {
            assert(prior[i as int] == out@[i as int]@);
            lemma_target_lt_connected(prior[i as int], item@);
        }
    }
    out.insert(i, item);
    proof {
        let updated = target_views(out@);
        assert(updated =~= prior.insert(i as int, item@));
        assert forall|p: int, q: int| 0 <= p < q < updated.len() implies target_lt(
            #[trigger] updated[p],
            #[trigger] updated[q],
        ) by {
            if p < i && q == i {
                assert(updated[p] == prior[p] && updated[q] == item@);
            } else if p == i && q > i {
                assert(updated[p] == item@ && updated[q] == prior[q - 1]);
                assert(!target_lt(prior[i as int], item@));
                assert(target_lt(item@, prior[i as int]));
                if q - 1 > i {
                    lemma_target_lt_transitive(item@, prior[i as int], prior[q - 1]);
                }
            } else if p < i && q > i {
                assert(updated[p] == prior[p] && updated[q] == prior[q - 1]);
                assert(target_lt(prior[p], prior[q - 1]));
            } else if p > i && q > i {
                assert(updated[p] == prior[p - 1] && updated[q] == prior[q - 1]);
            } else if p < i && q < i {
                assert(updated[p] == prior[p] && updated[q] == prior[q]);
            }
        }
        assert(updated.to_set() =~= prior.to_set().insert(item@)) by {
            assert forall|t: SingleTargetV| updated.to_set().contains(t) implies prior.to_set(
            ).insert(item@).contains(t) by {
                let k = choose|k: int| 0 <= k < updated.len() && updated[k] == t;
                if k != i {
                    let k0 = if k < i {
                        k
                    } else {
                        k - 1
                    };
                    assert(prior[k0] == t);
                }
            }
            assert forall|t: SingleTargetV| prior.to_set().insert(item@).contains(t) implies updated
                .to_set().contains(t) by {
                if t == item@ {
                    assert(updated[i as int] == t);
                } else {
                    let k0 = choose|k0: int| 0 <= k0 < prior.len() && prior[k0] == t;
                    let k = if k0 < i {
                        k0
                    } else {
                        k0 + 1
                    };
                    assert(updated[k] == t);
                }
            }
        }
    }
}

/// The single targets a list of raw targets stands for, one after the
/// other.
pub open spec fn all_singles(targets: Seq<Target>) -> Seq<SingleTargetV> {
    targets.flat_map(|t: Target| t.singles())
}

/// The single targets one raw target stands for.
pub fn get_single_targets(target: Target) -> (r: Vec<SingleTarget>)
    ensures
        target_views(r@) == target.singles(),
{
    match target {
        Target::Url(url) => {
            let mut out: Vec<SingleTarget> = Vec::new();
            out.push(SingleTarget::Url(url));
            assert(target_views(out@) =~= target.singles());
            out
        },
        Target::DepFile(_, dep_file) => dep_file.first_level_deps(),
    }
}

/// Expands every raw target into its single targets and returns them as
/// one sorted list without duplicates: exactly the targets that some raw
/// target stands for, each once.
pub fn collect_single_targets(targets: Vec<Target>) -> (r: Vec<SingleTarget>)
    ensures
        strictly_sorted(target_views(r@)),
        target_views(r@).to_set() == all_singles(targets@).to_set(),
{
    let ghost whole = targets@;
    let mut remaining = targets;
    let mut out: Vec<SingleTarget> = Vec::new();
    let ghost mut processed: Seq<SingleTargetV> = Seq::empty();
    proof {
        assert(remaining@ =~= whole.skip(0));
        assert(whole.take(0).flat_map(|t: Target| t.singles()) =~= Seq::<SingleTargetV>::empty());
        assert(target_views(out@).to_set() =~= processed.to_set());
    }
    while remaining.len() > 0
        invariant
            remaining@.len() <= whole.len(),
            remaining@ == whole.skip(whole.len() - remaining@.len()),
            strictly_sorted(target_views(out@)),
            processed == whole.take(whole.len() - remaining@.len()).flat_map(
                |t: Target| t.singles(),
            ),
            target_views(out@).to_set() == processed.to_set(),
        decreases remaining@.len(),
    {
        let ghost i = whole.len() - remaining@.len();
        let target = remaining.remove(0);
        proof {
            assert(target == whole[i]);
            assert(remaining@ =~= whole.skip(i + 1));
        }
        let ghost these = target.singles();
        let mut singles = get_single_targets(target);
        while singles.len() > 0
            invariant
                singles@.len() <= these.len(),
                target_views(singles@) == these.skip(these.len() - singles@.len()),
                strictly_sorted(target_views(out@)),
                processed == whole.take(i).flat_map(|t: Target| t.singles()) + these.take(
                    these.len() - singles@.len(),
                ),
                target_views(out@).to_set() == processed.to_set(),
            decreases singles@.len(),
        {
            let ghost j = these.len() - singles@.len();
            let ghost before = singles@;
            let single = singles.remove(0);
            proof {
                assert(single@ == target_views(before)[0]);
                assert(single@ == these[j]);
                assert(target_views(singles@) =~= target_views(before).skip(1));
                assert(target_views(singles@) =~= these.skip(j + 1));
            }
            let ghost prior_set = target_views(out@).to_set();
            sorted_insert_unique(&mut out, single);
            proof {
                let earlier = processed;
                processed = processed.push(these[j]);
                assert(whole.take(i).flat_map(|t: Target| t.singles()) + these.take(j + 1)
                    =~= (whole.take(i).flat_map(|t: Target| t.singles()) + these.take(j)).push(
                    these[j],
                ));
                lemma_push_to_set(earlier, these[j]);
                assert(target_views(out@).to_set() == prior_set.insert(these[j]));
            }
        }
        proof {
            assert(these.take(these.len() as int) =~= these);
            whole.lemma_flat_map_take_append(|t: Target| t.singles(), i);
            assert(processed == whole.take(i + 1).flat_map(|t: Target| t.singles()));
        }
    }
    proof {
        assert(whole.take(whole.len() as int) =~= whole);
    }
    out
}

} // verus!

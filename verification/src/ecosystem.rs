//! The package ecosystems whose dependency manifests are understood, and
//! the manifest contents themselves.
//!
//! Reading a manifest file from disk and decoding its document format
//! (TOML, JSON, XML) happens outside of this crate; what arrives here is
//! the structural content: the declared first-level dependency names,
//! grouped as the document grouped them.

use vstd::prelude::*;

use crate::error::Error;
use crate::target::{SingleTarget, SingleTargetV};
use crate::text::{replace_seq, replace_all, strip_prefix_rep, strip_prefix_repeated,
    strip_suffix_rep, strip_suffix_repeated};
use crate::url::Url;

verus! {

/// A package-management system whose manifest format is understood.
#[derive(Debug, Clone, Copy, PartialEq, Eq, PartialOrd, Ord, Structural)]
pub enum Ecosystem {
    NodeJs,
    NuGet,
    Rust,
}

impl Ecosystem {
    /// The characters of this ecosystem's display name.
    pub open spec fn name_chars(self) -> Seq<char> {
        match self {
            Ecosystem::NodeJs => "Node.js"@,
            Ecosystem::NuGet => "NuGet"@,
            Ecosystem::Rust => "Rust"@,
        }
    }

    /// The position of this ecosystem in the fixed order used for sorting
    /// targets.
    pub open spec fn order(self) -> int {
        match self {
            Ecosystem::NodeJs => 0,
            Ecosystem::NuGet => 1,
            Ecosystem::Rust => 2,
        }
    }

    /// The display name of the ecosystem.
    pub fn as_str(&self) -> (r: &'static str)
        ensures
            r@ == self.name_chars(),
    {
        match self {
            Ecosystem::NodeJs => "Node.js",
            Ecosystem::NuGet => "NuGet",
            Ecosystem::Rust => "Rust",
        }
    }

    /// The position of this ecosystem in the fixed order, as a number the
    /// sorting routines can compare.
    pub fn position(&self) -> (r: u64)
        ensures
            r == self.order(),
    {
        match self {
            Ecosystem::NodeJs => 0,
            Ecosystem::NuGet => 1,
            Ecosystem::Rust => 2,
        }
    }

    /// The runner argument that selects a package of this ecosystem.
    ///
    /// The runner addresses Node.js and NuGet packages directly. A Rust
    /// crate it only takes as a repository URL, which a registry lookup
    /// outside of this crate resolves; the resolved URL, if any, is handed
    /// in as `rust_repo`. Without one the crate's repository is unknown
    /// and an error naming the crate is returned.
    pub fn dep_to_scorecard_arg(&self, dep: &str, rust_repo: Option<&Url>) -> (r: Result<
        String,
        Error,
    >)
        ensures
            match self {
                Ecosystem::NodeJs => r matches Ok(a) && a@ == "--npm="@ + dep@,
                Ecosystem::NuGet => r matches Ok(a) && a@ == "--nuget="@ + dep@,
                Ecosystem::Rust => match rust_repo {
                    Some(url) => r matches Ok(a) && a@ == "--repo="@ + url@,
                    None => r matches Err(e) && e matches Error::Other(m) && m@
                        == "Could not obtain repo for crate "@ + dep@,
                },
            },
    {
        match self {
            Ecosystem::NodeJs => {
                let mut arg = String::new();
                arg.append("--npm=");
                arg.append(dep);
                assert(Seq::<char>::empty() + "--npm="@ + dep@ =~= "--npm="@ + dep@);
                Ok(arg)
            },
            Ecosystem::NuGet => {
                let mut arg = String::new();
                arg.append("--nuget=");
                arg.append(dep);
                assert(Seq::<char>::empty() + "--nuget="@ + dep@ =~= "--nuget="@ + dep@);
                Ok(arg)
            },
            Ecosystem::Rust => match rust_repo {
                Some(url) => {
                    let mut arg = String::new();
                    arg.append("--repo=");
                    arg.append(url.0.as_str());
                    assert(Seq::<char>::empty() + "--repo="@ + url@ =~= "--repo="@ + url@);
                    Ok(arg)
                },
                None => {
                    let mut message = String::new();
                    message.append("Could not obtain repo for crate ");
                    message.append(dep);
                    assert(Seq::<char>::empty() + "Could not obtain repo for crate "@ + dep@
                        =~= "Could not obtain repo for crate "@ + dep@);
                    Err(Error::Other(message))
                },
            },
        }
    }
}

/// What a registry's `git clone` style repository field turns into before
/// it is handed to the runner: a leading `git+` and a trailing `.git` are
/// stripped, and `git@` becomes `https://`.
pub open spec fn extracted_repo_url(arg: Seq<char>) -> Seq<char> {
    replace_seq(
        strip_suffix_rep(strip_prefix_rep(arg, "git+"@), ".git"@),
        "git@"@,
        "https://"@,
    )
}

/// Turns the repository field of a registry answer into a plain URL.
pub fn extract_repo_url(git_clone_arg: &str) -> (r: Url)
    ensures
        r@ == extracted_repo_url(git_clone_arg@),
{
    proof {
        reveal_strlit("git+");
        reveal_strlit(".git");
        reveal_strlit("git@");
    }
    let no_prefix = strip_prefix_repeated(git_clone_arg, "git+");
    let no_suffix = strip_suffix_repeated(no_prefix.as_str(), ".git");
    let replaced = replace_all(no_suffix.as_str(), "git@", "https://");
    Url(replaced)
}

/// The dependency declarations of a `package.json` manifest: the keys of
/// its `dependencies` object.
#[derive(Debug, Clone, PartialEq, Eq)]
pub struct PackageJson {
    pub dependencies: Vec<String>,
}

/// The dependency declarations of a `Cargo.toml` manifest: the keys of
/// its `[dependencies]` table.
#[derive(Debug, Clone, PartialEq, Eq)]
pub struct CargoToml {
    pub dependencies: Vec<String>,
}

/// One top-level element of a `.csproj` project file. Only `ItemGroup`
/// elements carry package references; everything else is opaque.
#[derive(Debug, Clone, PartialEq, Eq)]
pub enum CsprojElement {
    ItemGroup(ItemGroup),
    Other,
}

/// The `Include` names of the `PackageReference` entries of one
/// `ItemGroup`.
#[derive(Debug, Clone, PartialEq, Eq)]
pub struct ItemGroup {
    pub package_references: Vec<String>,
}

/// The elements of a `.csproj` project file, in document order. The
/// groups that carry package references may sit anywhere in the document,
/// separated by other elements.
#[derive(Debug, Clone, PartialEq, Eq)]
pub struct Csproj {
    pub elements: Vec<CsprojElement>,
}

/// The package ids of a `packages.config` file.
#[derive(Debug, Clone, PartialEq, Eq)]
pub struct PackagesConfig {
    pub packages: Vec<String>,
}

/// The package targets declared by one `ItemGroup`.
pub open spec fn element_deps(e: CsprojElement) -> Seq<SingleTargetV> {
    match e {
        CsprojElement::ItemGroup(group) => group.package_references@.map_values(
            |name: String| SingleTargetV::Package(name@, Ecosystem::NuGet),
        ),
        CsprojElement::Other => Seq::empty(),
    }
}

/// Pushes one package target per name in `names` onto `out`.
fn push_package_targets(out: &mut Vec<SingleTarget>, names: &Vec<String>, ecosystem: Ecosystem)
    ensures
        final(out)@.map_values(|t: SingleTarget| t@) == old(out)@.map_values(
            |t: SingleTarget| t@,
        ) + names@.map_values(|name: String| SingleTargetV::Package(name@, ecosystem)),
{
    let ghost previous = out@.map_values(|t: SingleTarget| t@);
    let mut i: usize = 0;
    while i < names.len()
        invariant
            i <= names@.len(),
            out@.map_values(|t: SingleTarget| t@) =~= previous + names@.take(i as int).map_values(
                |name: String| SingleTargetV::Package(name@, ecosystem),
            ),
        decreases names@.len() - i,
    {
        let dep = names[i].clone();
        let ghost before_map = out@.map_values(|t: SingleTarget| t@);
        out.push(SingleTarget::Package(dep, ecosystem));
        assert(out@.map_values(|t: SingleTarget| t@) =~= before_map.push(
            SingleTargetV::Package(names@[i as int]@, ecosystem),
        ));
        assert(names@.take(i + 1).map_values(
            |name: String| SingleTargetV::Package(name@, ecosystem),
        ) =~= names@.take(i as int).map_values(
            |name: String| SingleTargetV::Package(name@, ecosystem),
        ).push(SingleTargetV::Package(names@[i as int]@, ecosystem)));
        assert(before_map.push(SingleTargetV::Package(names@[i as int]@, ecosystem))
            =~= previous + names@.take(i + 1).map_values(
            |name: String| SingleTargetV::Package(name@, ecosystem),
        ));
        i += 1;
    }
    assert(names@.take(names@.len() as int) =~= names@);
}

impl PackageJson {
    /// The package targets this manifest declares.
    pub open spec fn deps(self) -> Seq<SingleTargetV> {
        self.dependencies@.map_values(
            |name: String| SingleTargetV::Package(name@, Ecosystem::NodeJs),
        )
    }

    /// The ecosystem this manifest belongs to.
    pub fn ecosystem(&self) -> (r: Ecosystem)
        ensures
            r == Ecosystem::NodeJs,
    {
        Ecosystem::NodeJs
    }

    /// The first-level dependencies declared in this manifest, as package
    /// targets, in declaration order.
    pub fn first_level_deps(&self) -> (r: Vec<SingleTarget>)
        ensures
            r@.map_values(|t: SingleTarget| t@) == self.deps(),
    {
        let mut out: Vec<SingleTarget> = Vec::new();
        push_package_targets(&mut out, &self.dependencies, Ecosystem::NodeJs);
        assert(out@.map_values(|t: SingleTarget| t@) =~= self.deps());
        out
    }
}

impl CargoToml {
    /// The package targets this manifest declares.
    pub open spec fn deps(self) -> Seq<SingleTargetV> {
        self.dependencies@.map_values(
            |name: String| SingleTargetV::Package(name@, Ecosystem::Rust),
        )
    }

    /// The ecosystem this manifest belongs to.
    pub fn ecosystem(&self) -> (r: Ecosystem)
        ensures
            r == Ecosystem::Rust,
    {
        Ecosystem::Rust
    }

    /// The first-level dependencies declared in this manifest, as package
    /// targets, in declaration order.
    pub fn first_level_deps(&self) -> (r: Vec<SingleTarget>)
        ensures
            r@.map_values(|t: SingleTarget| t@) == self.deps(),
    {
        let mut out: Vec<SingleTarget> = Vec::new();
        push_package_targets(&mut out, &self.dependencies, Ecosystem::Rust);
        assert(out@.map_values(|t: SingleTarget| t@) =~= self.deps());
        out
    }
}

impl PackagesConfig {
    /// The package targets this manifest declares.
    pub open spec fn deps(self) -> Seq<SingleTargetV> {
        self.packages@.map_values(|name: String| SingleTargetV::Package(name@, Ecosystem::NuGet))
    }

    /// The ecosystem this manifest belongs to.
    pub fn ecosystem(&self) -> (r: Ecosystem)
        ensures
            r == Ecosystem::NuGet,
    {
        Ecosystem::NuGet
    }

    /// The first-level dependencies declared in this manifest, as package
    /// targets, in declaration order.
    pub fn first_level_deps(&self) -> (r: Vec<SingleTarget>)
        ensures
            r@.map_values(|t: SingleTarget| t@) == self.deps(),
    {
        let mut out: Vec<SingleTarget> = Vec::new();
        push_package_targets(&mut out, &self.packages, Ecosystem::NuGet);
        assert(out@.map_values(|t: SingleTarget| t@) =~= self.deps());
        out
    }
}

impl Csproj {
    /// The package targets this manifest declares: the references of all
    /// its item groups, wherever in the document they sit.
    pub open spec fn deps(self) -> Seq<SingleTargetV> {
        self.elements@.flat_map(|e: CsprojElement| element_deps(e))
    }

    /// The ecosystem this manifest belongs to.
    pub fn ecosystem(&self) -> (r: Ecosystem)
        ensures
            r == Ecosystem::NuGet,
    {
        Ecosystem::NuGet
    }

    /// The first-level dependencies declared in this manifest, as package
    /// targets, in document order. All item groups are collected, not
    /// just the first.
    pub fn first_level_deps(&self) -> (r: Vec<SingleTarget>)
        ensures
            r@.map_values(|t: SingleTarget| t@) == self.deps(),
    {
        broadcast use vstd::seq_lib::group_seq_properties;

        let mut out: Vec<SingleTarget> = Vec::new();
        let mut i: usize = 0;
        assert(self.elements@.take(0).flat_map(|e: CsprojElement| element_deps(e))
            =~= Seq::<SingleTargetV>::empty());
        while i < self.elements.len()
            invariant
                i <= self.elements@.len(),
                out@.map_values(|t: SingleTarget| t@) =~= self.elements@.take(i as int).flat_map(
                    |e: CsprojElement| element_deps(e),
                ),
            decreases self.elements@.len() - i,
        {
            proof {
                self.elements@.lemma_flat_map_take_append(
                    |e: CsprojElement| element_deps(e),
                    i as int,
                );
            }
            match &self.elements[i] {
                CsprojElement::ItemGroup(group) => {
                    push_package_targets(&mut out, &group.package_references, Ecosystem::NuGet);
                },
                CsprojElement::Other => {
                    assert(element_deps(self.elements@[i as int]) =~= Seq::<
                        SingleTargetV,
                    >::empty());
                },
            }
            assert(out@.map_values(|t: SingleTarget| t@) =~= self.elements@.take(i + 1).flat_map(
                |e: CsprojElement| element_deps(e),
            ));
            i += 1;
        }
        assert(self.elements@.take(self.elements@.len() as int) =~= self.elements@);
        assert(out@.map_values(|t: SingleTarget| t@) =~= self.deps());
        out
    }
}

/// The parsed content of a dependency manifest, one variant per supported
/// format.
#[derive(Debug, Clone, PartialEq, Eq)]
pub enum DepFile {
    CargoToml(CargoToml),
    Csproj(Csproj),
    PackageJson(PackageJson),
    PackagesConfig(PackagesConfig),
}

impl DepFile {
    /// The package targets this manifest declares.
    pub open spec fn deps(self) -> Seq<SingleTargetV> {
        match self {
            DepFile::CargoToml(f) => f.deps(),
            DepFile::Csproj(f) => f.deps(),
            DepFile::PackageJson(f) => f.deps(),
            DepFile::PackagesConfig(f) => f.deps(),
        }
    }

    /// The ecosystem this manifest belongs to.
    pub fn ecosystem(&self) -> (r: Ecosystem)
        ensures
            r == match self {
                DepFile::CargoToml(_) => Ecosystem::Rust,
                DepFile::Csproj(_) => Ecosystem::NuGet,
                DepFile::PackageJson(_) => Ecosystem::NodeJs,
                DepFile::PackagesConfig(_) => Ecosystem::NuGet,
            },
    {
        match self {
            DepFile::CargoToml(f) => f.ecosystem(),
            DepFile::Csproj(f) => f.ecosystem(),
            DepFile::PackageJson(f) => f.ecosystem(),
            DepFile::PackagesConfig(f) => f.ecosystem(),
        }
    }

    /// The first-level dependencies declared in this manifest, as package
    /// targets.
    pub fn first_level_deps(&self) -> (r: Vec<SingleTarget>)
        ensures
            r@.map_values(|t: SingleTarget| t@) == self.deps(),
    {
        match self {
            DepFile::CargoToml(f) => f.first_level_deps(),
            DepFile::Csproj(f) => f.first_level_deps(),
            DepFile::PackageJson(f) => f.first_level_deps(),
            DepFile::PackagesConfig(f) => f.first_level_deps(),
        }
    }
}

/// Picks the manifest interpretation of a file whose raw document several
/// format decoders have already tried: the first format that decoded
/// without error wins, in the fixed priority order. A file no format
/// could decode is rejected with an error naming its path.
pub fn try_parse_all_ecosystems(
    path: &str,
    cargo_toml: Option<CargoToml>,
    csproj: Option<Csproj>,
    package_json: Option<PackageJson>,
    packages_config: Option<PackagesConfig>,
) -> (r: Result<DepFile, Error>)
    ensures
        match r {
            Ok(depfile) => match depfile {
                DepFile::CargoToml(f) => cargo_toml == Some(f),
                DepFile::Csproj(f) => cargo_toml is None && csproj == Some(f),
                DepFile::PackageJson(f) => cargo_toml is None && csproj is None && package_json
                    == Some(f),
                DepFile::PackagesConfig(f) => cargo_toml is None && csproj is None && package_json
                    is None && packages_config == Some(f),
            },
            Err(e) => cargo_toml is None && csproj is None && package_json is None
                && packages_config is None && (e matches Error::Other(m) && m@
                == "Could not parse "@ + path@ + " as a dependency file."@),
        },
{
    if let Some(f) = cargo_toml {
        return Ok(DepFile::CargoToml(f));
    }
    if let Some(f) = csproj {
        return Ok(DepFile::Csproj(f));
    }
    if let Some(f) = package_json {
        return Ok(DepFile::PackageJson(f));
    }
    if let Some(f) = packages_config {
        return Ok(DepFile::PackagesConfig(f));
    }
    let mut message = String::new();
    message.append("Could not parse ");
    message.append(path);
    message.append(" as a dependency file.");
    assert(Seq::<char>::empty() + "Could not parse "@ + path@ + " as a dependency file."@
        =~= "Could not parse "@ + path@ + " as a dependency file."@);
    Err(Error::Other(message))
}

/// Picks the manifest interpretation of a file, exactly as
/// `try_parse_all_ecosystems` does.
pub fn parse(
    path: &str,
    cargo_toml: Option<CargoToml>,
    csproj: Option<Csproj>,
    package_json: Option<PackageJson>,
    packages_config: Option<PackagesConfig>,
) -> (r: Result<DepFile, Error>)
    ensures
        match r {
            Ok(depfile) => match depfile {
                DepFile::CargoToml(f) => cargo_toml == Some(f),
                DepFile::Csproj(f) => cargo_toml is None && csproj == Some(f),
                DepFile::PackageJson(f) => cargo_toml is None && csproj is None && package_json
                    == Some(f),
                DepFile::PackagesConfig(f) => cargo_toml is None && csproj is None && package_json
                    is None && packages_config == Some(f),
            },
            Err(e) => cargo_toml is None && csproj is None && package_json is None
                && packages_config is None && (e matches Error::Other(m) && m@
                == "Could not parse "@ + path@ + " as a dependency file."@),
        },
{
    try_parse_all_ecosystems(path, cargo_toml, csproj, package_json, packages_config)
}

} // verus!

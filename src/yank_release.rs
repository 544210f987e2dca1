//! Choosing which crates of a release to yank.
use vstd::prelude::*;
use std::path::PathBuf;

verus! {

/// Which crates of a release to yank.
#[derive(Copy, Clone, Debug, Eq, PartialEq, Ord, PartialOrd, Structural)]
pub enum CrateSet {
    /// (default) Yank all crates associated with the release.
    All,
    /// Yank all AWS SDK crates.
    AllAwsSdk,
    /// Yank generated AWS SDK crates.
    GeneratedAwsSdk,
}

/// The category of a crate, as its name tells it.
#[derive(Copy, Clone, Debug, Eq, PartialEq, Structural)]
pub enum PackageCategory {
    SmithyRuntime,
    AwsRuntime,
    AwsSdk,
    Unknown,
}

/// One crate of a release: its name, its version and its category.
#[derive(Clone, Debug)]
pub struct ReleaseCrate {
    pub name: String,
    pub version: String,
    pub category: PackageCategory,
}

/// Where the release to yank is described.
pub enum ReleaseSource<'a> {
    /// By the release's tag.
    Tag(&'a String),
    /// By a versions manifest on disk.
    File(&'a PathBuf),
}

/// The arguments of the yank-release command.
#[derive(Debug)]
pub struct YankReleaseArgs {
    /// The release tag to yank.
    pub github_release_tag: Option<String>,
    /// Path to a versions manifest with a release section to yank.
    pub versions_toml: Option<PathBuf>,
    pub crate_set: Option<CrateSet>,
}

/// The arguments name both or neither of the tag and the manifest.
#[derive(Clone, Copy, Debug, PartialEq, Eq, Structural)]
pub struct AmbiguousReleaseSource;

impl YankReleaseArgs {
    /// The release's description: exactly one of the tag and the manifest
    /// must be given.
    pub fn release_source(&self) -> (r: Result<ReleaseSource<'_>, AmbiguousReleaseSource>)
        ensures
            match (self.github_release_tag, self.versions_toml) {
                (Some(t), None) => r matches Ok(ReleaseSource::Tag(x)) && *x == t,
                (None, Some(p)) => r matches Ok(ReleaseSource::File(x)) && *x == p,
                _ => r is Err,
            },
    {
        match (&self.github_release_tag, &self.versions_toml) {
            (Some(tag), None) => Ok(ReleaseSource::Tag(tag)),
            (None, Some(path)) => Ok(ReleaseSource::File(path)),
            _ => Err(AmbiguousReleaseSource),
        }
    }
}

/// SDK crates are the AWS runtime crates and the generated SDK crates.
pub open spec fn is_sdk(c: PackageCategory) -> bool {
    c == PackageCategory::AwsRuntime || c == PackageCategory::AwsSdk
}

/// Whether a crate of this category belongs to the set.
pub open spec fn in_set(set: CrateSet, c: PackageCategory) -> bool {
    match set {
        CrateSet::All => true,
        CrateSet::AllAwsSdk => is_sdk(c),
        CrateSet::GeneratedAwsSdk => c == PackageCategory::AwsSdk,
    }
}

/// The crates of the set, in their order.
pub open spec fn selected(set: CrateSet, crates: Seq<ReleaseCrate>) -> Seq<ReleaseCrate>
    decreases crates.len(),
{
    if crates.len() == 0 {
        Seq::empty()
    } else {
        let init = selected(set, crates.drop_last());
        if in_set(set, crates.last().category) {
            init.push(crates.last())
        } else {
            init
        }
    }
}

fn belongs(set: CrateSet, c: PackageCategory) -> (r: bool)
    ensures
        r == in_set(set, c),
{
    match set {
        CrateSet::All => true,
        CrateSet::AllAwsSdk => c == PackageCategory::AwsRuntime || c == PackageCategory::AwsSdk,
        CrateSet::GeneratedAwsSdk => c == PackageCategory::AwsSdk,
    }
}

/// The crates of the release that belong to the set, in their order.
pub fn filter_crates(crate_set: CrateSet, crates: Vec<ReleaseCrate>) -> (r: Vec<ReleaseCrate>)
    ensures
        r@ == selected(crate_set, crates@),
{
    if crate_set == CrateSet::All {
        proof {
            lemma_all_selects_everything(crates@);
        }
        return crates;
    }
    let ghost all = crates@;
    let mut rest = crates;
    let mut out: Vec<ReleaseCrate> = Vec::new();
    let n = rest.len();
    let mut k: usize = 0;
    while k < n
        invariant
            n == all.len(),
            k <= n,
            rest@ == all.skip(k as int),
            out@ == selected(crate_set, all.take(k as int)),
        decreases n - k,
    {
        let c = rest.remove(0);
        assert(rest@ =~= all.skip(k + 1));
        assert(all.take(k + 1).drop_last() =~= all.take(k as int));
        assert(c == all[k as int]);
        if belongs(crate_set, c.category) {
            out.push(c);
        }
        k += 1;
    }
    assert(all.take(n as int) =~= all);
    out
}

proof fn lemma_all_selects_everything(crates: Seq<ReleaseCrate>)
    ensures
        selected(CrateSet::All, crates) == crates,
    decreases crates.len(),
{
    if crates.len() > 0 {
        lemma_all_selects_everything(crates.drop_last());
        assert(crates.drop_last().push(crates.last()) =~= crates);
    }
}

} // verus!

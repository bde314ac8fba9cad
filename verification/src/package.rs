//! Package candidates and dependency declarations.

use vstd::prelude::*;
use crate::version::{DependencyRange, UnityVersion, Version};

verus! {

/// One declared dependency: a package name and the acceptable range.
#[derive(Debug, Clone, PartialEq, Eq)]
pub struct VpmDependency {
    pub name: String,
    pub range: DependencyRange,
}

impl VpmDependency {
    pub fn new(name: String, range: DependencyRange) -> (r: VpmDependency)
        ensures
            r == (VpmDependency { name, range }),
    {
        VpmDependency { name, range }
    }
}

/// An immutable candidate package as a source returns it: name, version,
/// its own dependency declarations, the engine-version floor it needs,
/// and the legacy names it supersedes.
#[derive(Debug, Clone, PartialEq, Eq)]
pub struct PackageInfo {
    pub name: String,
    pub version: Version,
    pub vpm_dependencies: Vec<VpmDependency>,
    pub legacy_packages: Vec<String>,
    pub min_unity: Option<UnityVersion>,
}

impl PackageInfo {
    pub fn new(name: String, version: Version) -> (r: PackageInfo)
        ensures
            r.name == name,
            r.version == version,
            r.vpm_dependencies@ =~= Seq::<VpmDependency>::empty(),
            r.legacy_packages@ =~= Seq::<String>::empty(),
            r.min_unity is None,
    {
        PackageInfo {
            name,
            version,
            vpm_dependencies: Vec::new(),
            legacy_packages: Vec::new(),
            min_unity: None,
        }
    }

    pub fn name(&self) -> (r: &String)
        ensures
            r == &self.name,
    {
        &self.name
    }

    pub fn version(&self) -> (r: &Version)
        ensures
            r == &self.version,
    {
        &self.version
    }

    /// Does this candidate list `n` among the names it supersedes?
    pub open spec fn spec_lists_legacy(self, n: Seq<char>) -> bool {
        spec_names_contain(self.legacy_packages@, n)
    }

    /// May this candidate be used under the given project engine version?
    /// A candidate without a floor fits everywhere; an unknown project
    /// engine version rejects nothing.
    pub open spec fn spec_engine_ok(self, engine: Option<UnityVersion>) -> bool {
        match (self.min_unity, engine) {
            (Some(mu), Some(e)) => mu.spec_le(e),
            _ => true,
        }
    }

    pub fn engine_ok(&self, engine: &Option<UnityVersion>) -> (r: bool)
        ensures
            r == self.spec_engine_ok(*engine),
    {
        match (&self.min_unity, engine) {
            (Some(mu), Some(e)) => mu.le(e),
            _ => true,
        }
    }
}

/// Does some element of `names` have exactly the characters `n`?
pub open spec fn spec_names_contain(names: Seq<String>, n: Seq<char>) -> bool {
    exists|i: int| 0 <= i < names.len() && names[i]@ == n
}

/// Decides `spec_names_contain` by a scan.
pub fn names_contain(names: &Vec<String>, n: &String) -> (r: bool)
    ensures
        r == spec_names_contain(names@, n@),
{
    let len = names.len();
    let mut i: usize = 0;
    while i < len
        invariant
            len == names@.len(),
            i <= len,
            forall|j: int| 0 <= j < i ==> names@[j]@ != n@,
        decreases len - i,
    {
        if names[i].eq(n) {
            return true;
        }
        i = i + 1;
    }
    false
}

} // verus!

//! The package source: the collection of candidate packages a resolution
//! pass may draw from, with best-first selection.

use vstd::prelude::*;
use crate::package::{PackageInfo, VpmDependency};
use crate::version::{DependencyRange, UnityVersion};

verus! {

/// May `p` answer a query for `name` under `range`, the project's engine
/// version, and the prerelease policy?
pub open spec fn spec_candidate_ok(
    p: PackageInfo,
    name: Seq<char>,
    range: DependencyRange,
    engine: Option<UnityVersion>,
    allow_prerelease: bool,
) -> bool {
    &&& p.name@ == name
    &&& range.spec_matches(p.version)
    &&& p.spec_engine_ok(engine)
    &&& (allow_prerelease || !p.version.spec_is_prerelease())
}

/// The best candidate for a query: the highest acceptable version, and the
/// earliest entry of that version on a tie.
pub open spec fn spec_find_best(
    pkgs: Seq<PackageInfo>,
    name: Seq<char>,
    range: DependencyRange,
    engine: Option<UnityVersion>,
    allow_prerelease: bool,
) -> Option<PackageInfo>
    decreases pkgs.len(),
{
    if pkgs.len() == 0 {
        None
    } else {
        let prev = spec_find_best(pkgs.drop_last(), name, range, engine, allow_prerelease);
        let last = pkgs.last();
        if !spec_candidate_ok(last, name, range, engine, allow_prerelease) {
            prev
        } else {
            match prev {
                None => Some(last),
                Some(b) => if b.version.spec_lt(last.version) {
                    Some(last)
                } else {
                    prev
                },
            }
        }
    }
}

/// An in-memory package source: the candidates a resolution pass may see.
/// Selection is a pure function of the stored packages, so equal queries
/// always give equal answers.
#[derive(Debug, Clone, PartialEq, Eq)]
pub struct PackageCollection {
    pub packages: Vec<PackageInfo>,
}

impl PackageCollection {
    pub fn new() -> (r: PackageCollection)
        ensures
            r.packages@ =~= Seq::<PackageInfo>::empty(),
    {
        PackageCollection { packages: Vec::new() }
    }

    pub fn add(&mut self, p: PackageInfo)
        ensures
            final(self).packages@ == old(self).packages@.push(p),
    {
        self.packages.push(p);
    }

    /// Finds the best candidate for `name` satisfying `range` under the
    /// engine version and prerelease policy, best-first as
    /// `spec_find_best` states it.
    pub fn find(
        &self,
        name: &String,
        range: &DependencyRange,
        engine: &Option<UnityVersion>,
        allow_prerelease: bool,
    ) -> (r: Option<&PackageInfo>)
        ensures
            match r {
                Some(p) => spec_find_best(self.packages@, name@, *range, *engine, allow_prerelease)
                    == Some(*p),
                None => spec_find_best(self.packages@, name@, *range, *engine, allow_prerelease)
                    is None,
            },
    {
        let pkgs = &self.packages;
        let len = pkgs.len();
        let mut best: Option<usize> = None;
        let mut i: usize = 0;
        proof {
            assert(pkgs@.take(0) =~= Seq::<PackageInfo>::empty());
        }
        while i < len
            invariant
                len == pkgs@.len(),
                i <= len,
                match best {
                    Some(bi) => bi < i && spec_find_best(
                        pkgs@.take(i as int),
                        name@,
                        *range,
                        *engine,
                        allow_prerelease,
                    ) == Some(pkgs@[bi as int]),
                    None => spec_find_best(
                        pkgs@.take(i as int),
                        name@,
                        *range,
                        *engine,
                        allow_prerelease,
                    ) is None,
                },
            decreases len - i,
        {
            proof {
                assert(pkgs@.take(i as int + 1).drop_last() =~= pkgs@.take(i as int));
                assert(pkgs@.take(i as int + 1).last() == pkgs@[i as int]);
            }
            let cand = &pkgs[i];
            let ok = cand.name.eq(name) && range.matches(&cand.version) && cand.engine_ok(engine)
                && (allow_prerelease || !cand.version.is_prerelease());
            if ok {
                match best {
                    None => {
                        best = Some(i);
                    },
                    Some(bi) => {
                        if pkgs[bi].version.lt(&cand.version) {
                            best = Some(i);
                        }
                    },
                }
            }
            i = i + 1;
        }
        proof {
            assert(pkgs@.take(len as int) =~= pkgs@);
        }
        match best {
            Some(bi) => Some(&pkgs[bi]),
            None => None,
        }
    }
}

/// Copies a dependency list, value for value.
pub fn clone_dependencies(v: &Vec<VpmDependency>) -> (r: Vec<VpmDependency>)
    ensures
        r@ == v@,
{
    let len = v.len();
    let mut out: Vec<VpmDependency> = Vec::new();
    let mut i: usize = 0;
    while i < len
        invariant
            len == v@.len(),
            i <= len,
            out@ =~= v@.take(i as int),
        decreases len - i,
    {
        let d = VpmDependency { name: v[i].name.clone(), range: v[i].range };
        proof {
            assert(v@.take(i as int + 1) =~= v@.take(i as int).push(v@[i as int]));
        }
        out.push(d);
        i = i + 1;
    }
    proof {
        assert(v@.take(len as int) =~= v@);
    }
    out
}

/// Copies a name list, value for value.
pub fn clone_names(v: &Vec<String>) -> (r: Vec<String>)
    ensures
        r@ == v@,
{
    let len = v.len();
    let mut out: Vec<String> = Vec::new();
    let mut i: usize = 0;
    while i < len
        invariant
            len == v@.len(),
            i <= len,
            out@ =~= v@.take(i as int),
        decreases len - i,
    {
        let s = v[i].clone();
        proof {
            assert(v@.take(i as int + 1) =~= v@.take(i as int).push(v@[i as int]));
        }
        out.push(s);
        i = i + 1;
    }
    proof {
        assert(v@.take(len as int) =~= v@);
    }
    out
}

/// Field-for-field agreement of two candidate packages, with list fields
/// compared by contents.
pub open spec fn spec_same_package(a: PackageInfo, b: PackageInfo) -> bool {
    &&& a.name == b.name
    &&& a.version == b.version
    &&& a.vpm_dependencies@ == b.vpm_dependencies@
    &&& a.legacy_packages@ == b.legacy_packages@
    &&& a.min_unity == b.min_unity
}

/// Copies a candidate package, value for value.
pub fn clone_package(p: &PackageInfo) -> (r: PackageInfo)
    ensures
        spec_same_package(r, *p),
{
    PackageInfo {
        name: p.name.clone(),
        version: p.version,
        vpm_dependencies: clone_dependencies(&p.vpm_dependencies),
        legacy_packages: clone_names(&p.legacy_packages),
        min_unity: p.min_unity,
    }
}

} // verus!

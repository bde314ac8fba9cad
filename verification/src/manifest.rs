//! The project manifest: declared top-level dependencies and the locked,
//! fully resolved dependency graph. Read-only during resolution; edits
//! happen only through a staged plan.

use vstd::prelude::*;
use crate::package::VpmDependency;
use crate::version::{DependencyRange, Version};

verus! {

/// One locked entry: a package name, the exact resolved version, and the
/// dependency declarations of that resolved package.
#[derive(Debug, Clone, PartialEq, Eq)]
pub struct LockedDependency {
    pub name: String,
    pub version: Version,
    pub dependencies: Vec<VpmDependency>,
}

/// The range declared for `name`, taking the first entry of that name.
pub open spec fn spec_dep_range_of(deps: Seq<VpmDependency>, name: Seq<char>) -> Option<
    DependencyRange,
>
    decreases deps.len(),
{
    if deps.len() == 0 {
        None
    } else {
        let prev = spec_dep_range_of(deps.drop_last(), name);
        if prev is Some {
            prev
        } else if deps.last().name@ == name {
            Some(deps.last().range)
        } else {
            None
        }
    }
}

/// The locked entry for `name`, taking the first entry of that name.
pub open spec fn spec_locked_of(locked: Seq<LockedDependency>, name: Seq<char>) -> Option<
    LockedDependency,
>
    decreases locked.len(),
{
    if locked.len() == 0 {
        None
    } else {
        let prev = spec_locked_of(locked.drop_last(), name);
        if prev is Some {
            prev
        } else if locked.last().name@ == name {
            Some(locked.last())
        } else {
            None
        }
    }
}

/// The version locked for `name`, if any.
pub open spec fn spec_locked_version_of(locked: Seq<LockedDependency>, name: Seq<char>) -> Option<
    Version,
> {
    match spec_locked_of(locked, name) {
        Some(l) => Some(l.version),
        None => None,
    }
}

/// The project manifest. `dependencies` and `locked` are each meant to be
/// unique by name; lookups take the first entry of a name.
#[derive(Debug, Clone, PartialEq, Eq)]
pub struct VpmManifest {
    pub dependencies: Vec<VpmDependency>,
    pub locked: Vec<LockedDependency>,
}

impl VpmManifest {
    pub fn new() -> (r: VpmManifest)
        ensures
            r.dependencies@ =~= Seq::<VpmDependency>::empty(),
            r.locked@ =~= Seq::<LockedDependency>::empty(),
    {
        VpmManifest { dependencies: Vec::new(), locked: Vec::new() }
    }

    /// Appends a top-level declaration. The caller keeps names unique.
    pub fn add_dependency(&mut self, name: String, range: DependencyRange)
        ensures
            final(self).dependencies@ == old(self).dependencies@.push(
                VpmDependency { name, range },
            ),
            final(self).locked == old(self).locked,
    {
        self.dependencies.push(VpmDependency { name, range });
    }

    /// Appends a locked entry. The caller keeps names unique.
    pub fn add_locked(&mut self, name: String, version: Version, dependencies: Vec<VpmDependency>)
        ensures
            final(self).locked@ == old(self).locked@.push(
                LockedDependency { name, version, dependencies },
            ),
            final(self).dependencies == old(self).dependencies,
    {
        self.locked.push(LockedDependency { name, version, dependencies });
    }

    /// The declared range for `name`, if one is declared.
    pub fn get_dependency(&self, name: &String) -> (r: Option<DependencyRange>)
        ensures
            r == spec_dep_range_of(self.dependencies@, name@),
    {
        let deps = &self.dependencies;
        let len = deps.len();
        let mut found: Option<DependencyRange> = None;
        let mut i: usize = 0;
        proof {
            assert(deps@.take(0) =~= Seq::<VpmDependency>::empty());
        }
        while i < len
            invariant
                len == deps@.len(),
                i <= len,
                found == spec_dep_range_of(deps@.take(i as int), name@),
            decreases len - i,
        {
            proof {
                assert(deps@.take(i as int + 1).drop_last() =~= deps@.take(i as int));
                assert(deps@.take(i as int + 1).last() == deps@[i as int]);
            }
            if matches!(found, None) && deps[i].name.eq(name) {
                found = Some(deps[i].range);
            }
            i = i + 1;
        }
        proof {
            assert(deps@.take(len as int) =~= deps@);
        }
        found
    }

    /// The locked entry for `name`, if one exists.
    pub fn get_locked(&self, name: &String) -> (r: Option<&LockedDependency>)
        ensures
            match r {
                Some(l) => spec_locked_of(self.locked@, name@) == Some(*l),
                None => spec_locked_of(self.locked@, name@) is None,
            },
    {
        let locked = &self.locked;
        let len = locked.len();
        let mut found: Option<usize> = None;
        let mut i: usize = 0;
        proof {
            assert(locked@.take(0) =~= Seq::<LockedDependency>::empty());
        }
        while i < len
            invariant
                len == locked@.len(),
                i <= len,
                match found {
                    Some(fi) => fi < i && spec_locked_of(locked@.take(i as int), name@) == Some(
                        locked@[fi as int],
                    ),
                    None => spec_locked_of(locked@.take(i as int), name@) is None,
                },
            decreases len - i,
        {
            proof {
                assert(locked@.take(i as int + 1).drop_last() =~= locked@.take(i as int));
                assert(locked@.take(i as int + 1).last() == locked@[i as int]);
            }
            if matches!(found, None) && locked[i].name.eq(name) {
                found = Some(i);
            }
            i = i + 1;
        }
        proof {
            assert(locked@.take(len as int) =~= locked@);
        }
        match found {
            Some(fi) => Some(&locked[fi]),
            None => None,
        }
    }

    /// Is `name` present in the locked graph?
    pub fn is_locked(&self, name: &String) -> (r: bool)
        ensures
            r == (spec_locked_of(self.locked@, name@) is Some),
    {
        matches!(self.get_locked(name), Some(_))
    }

    /// The whole locked graph.
    pub fn all_locked(&self) -> (r: &Vec<LockedDependency>)
        ensures
            r == &self.locked,
    {
        &self.locked
    }
}

} // verus!

//! The staged transition plan: a mutable builder populated by the
//! resolver and orchestrator, finalized exactly once into an immutable
//! `PendingProjectChanges` value. The library never applies a plan itself.

use vstd::prelude::*;
use crate::manifest::{spec_locked_of, VpmManifest};
use crate::package::{PackageInfo, VpmDependency};
use crate::version::DependencyRange;

verus! {

/// Why a locked package leaves the graph.
#[derive(Debug, Clone, Copy, PartialEq, Eq)]
#[non_exhaustive]
pub enum RemoveReason {
    /// Superseded by a newly installed package that lists it as legacy.
    Legacy,
    /// No remaining dependent requires it.
    Unused,
}

/// One staged removal.
#[derive(Debug, Clone, PartialEq, Eq)]
pub struct RemovedPackage {
    pub name: String,
    pub reason: RemoveReason,
}

/// One conflict: a dependency name and the requesting package names that
/// need mutually unsatisfiable versions of it, in first-seen order.
#[derive(Debug, Clone, PartialEq, Eq)]
pub struct ConflictEntry {
    pub name: String,
    pub conflicts_with: Vec<String>,
}

/// Does some removal entry bear exactly the characters `n`?
pub open spec fn spec_removed_contains(rs: Seq<RemovedPackage>, n: Seq<char>) -> bool {
    exists|i: int| 0 <= i < rs.len() && rs[i].name@ == n
}

/// Does some conflict entry bear exactly the characters `n`?
pub open spec fn spec_conflict_names_have(cs: Seq<ConflictEntry>, n: Seq<char>) -> bool {
    exists|i: int| 0 <= i < cs.len() && cs[i].name@ == n
}

/// The staged removals that are still locked in `locked`, in order.
pub open spec fn spec_filter_removed(
    rs: Seq<RemovedPackage>,
    locked: Seq<crate::manifest::LockedDependency>,
) -> Seq<RemovedPackage>
    decreases rs.len(),
{
    if rs.len() == 0 {
        Seq::empty()
    } else {
        let prev = spec_filter_removed(rs.drop_last(), locked);
        if spec_locked_of(locked, rs.last().name@) is Some {
            prev.push(rs.last())
        } else {
            prev
        }
    }
}

/// Filtering by locked membership keeps a removal list whose every entry
/// is locked exactly as it is.
pub proof fn lemma_filter_removed_identity(
    rs: Seq<RemovedPackage>,
    locked: Seq<crate::manifest::LockedDependency>,
)
    requires
        forall|a: int| 0 <= a < rs.len() ==> spec_locked_of(locked, #[trigger] rs[a].name@) is Some,
    ensures
        spec_filter_removed(rs, locked) == rs,
    decreases rs.len(),
{
    if rs.len() > 0 {
        lemma_filter_removed_identity(rs.drop_last(), locked);
        assert(rs.drop_last().push(rs.last()) =~= rs);
    }
}

/// The finalized plan: an in-memory diff the caller may apply or discard.
#[derive(Debug, Clone, PartialEq, Eq)]
pub struct PendingProjectChanges {
    /// Additions or overwrites of top-level dependency declarations.
    pub dependencies: Vec<VpmDependency>,
    /// Packages to install into the locked graph, in install order.
    pub locked_added: Vec<PackageInfo>,
    /// Locked packages to remove, with the reason.
    pub removed: Vec<RemovedPackage>,
    /// Dependency names needing caller adjudication.
    pub conflicts: Vec<ConflictEntry>,
}

/// Accumulates staged edits; finalized exactly once, by value, through
/// `build_no_resolve` or `build_resolve`.
pub struct Builder {
    dependencies: Vec<VpmDependency>,
    locked_added: Vec<PackageInfo>,
    removed: Vec<RemovedPackage>,
    conflicts: Vec<ConflictEntry>,
}

impl Builder {
    pub closed spec fn spec_dependencies(self) -> Seq<VpmDependency> {
        self.dependencies@
    }

    pub closed spec fn spec_locked_added(self) -> Seq<PackageInfo> {
        self.locked_added@
    }

    pub closed spec fn spec_removed(self) -> Seq<RemovedPackage> {
        self.removed@
    }

    pub closed spec fn spec_conflicts(self) -> Seq<ConflictEntry> {
        self.conflicts@
    }

    pub fn new() -> (r: Builder)
        ensures
            r.spec_dependencies() =~= Seq::<VpmDependency>::empty(),
            r.spec_locked_added() =~= Seq::<PackageInfo>::empty(),
            r.spec_removed() =~= Seq::<RemovedPackage>::empty(),
            r.spec_conflicts() =~= Seq::<ConflictEntry>::empty(),
    {
        Builder {
            dependencies: Vec::new(),
            locked_added: Vec::new(),
            removed: Vec::new(),
            conflicts: Vec::new(),
        }
    }

    /// Stages a top-level declaration edit.
    pub fn add_to_dependencies(&mut self, name: String, range: DependencyRange)
        ensures
            final(self).spec_dependencies() == old(self).spec_dependencies().push(
                VpmDependency { name, range },
            ),
            final(self).spec_locked_added() == old(self).spec_locked_added(),
            final(self).spec_removed() == old(self).spec_removed(),
            final(self).spec_conflicts() == old(self).spec_conflicts(),
    {
        self.dependencies.push(VpmDependency { name, range });
    }

    /// Stages a package for installation into the locked graph.
    pub fn install_to_locked(&mut self, info: PackageInfo)
        ensures
            final(self).spec_locked_added() == old(self).spec_locked_added().push(info),
            final(self).spec_dependencies() == old(self).spec_dependencies(),
            final(self).spec_removed() == old(self).spec_removed(),
            final(self).spec_conflicts() == old(self).spec_conflicts(),
    {
        self.locked_added.push(info);
    }

    /// Stages the removal of a locked package.
    pub fn remove(&mut self, name: String, reason: RemoveReason)
        ensures
            final(self).spec_removed() == old(self).spec_removed().push(
                RemovedPackage { name, reason },
            ),
            final(self).spec_dependencies() == old(self).spec_dependencies(),
            final(self).spec_locked_added() == old(self).spec_locked_added(),
            final(self).spec_conflicts() == old(self).spec_conflicts(),
    {
        self.removed.push(RemovedPackage { name, reason });
    }

    /// Stages a conflict entry with all its requesting package names.
    pub fn conflict_multiple(&mut self, name: String, conflicts_with: Vec<String>)
        ensures
            final(self).spec_conflicts() == old(self).spec_conflicts().push(
                ConflictEntry { name, conflicts_with },
            ),
            final(self).spec_dependencies() == old(self).spec_dependencies(),
            final(self).spec_locked_added() == old(self).spec_locked_added(),
            final(self).spec_removed() == old(self).spec_removed(),
    {
        self.conflicts.push(ConflictEntry { name, conflicts_with });
    }

    /// The fast finalization path for when nothing needed resolution:
    /// only the staged top-level edits are kept.
    pub fn build_no_resolve(self) -> (r: PendingProjectChanges)
        ensures
            r.dependencies@ == self.spec_dependencies(),
            r.locked_added@ =~= Seq::<PackageInfo>::empty(),
            r.removed@ =~= Seq::<RemovedPackage>::empty(),
            r.conflicts@ =~= Seq::<ConflictEntry>::empty(),
    {
        PendingProjectChanges {
            dependencies: self.dependencies,
            locked_added: Vec::new(),
            removed: Vec::new(),
            conflicts: Vec::new(),
        }
    }

    /// The full finalization path: re-reads the current manifest and keeps
    /// only the staged removals that are still locked, guarding against
    /// concurrent external edits.
    pub fn build_resolve(self, manifest: &VpmManifest) -> (r: PendingProjectChanges)
        ensures
            r.dependencies@ == self.spec_dependencies(),
            r.locked_added@ == self.spec_locked_added(),
            r.conflicts@ == self.spec_conflicts(),
            r.removed@ == spec_filter_removed(self.spec_removed(), manifest.locked@),
    {
        let rs = &self.removed;
        let len = rs.len();
        let mut kept: Vec<RemovedPackage> = Vec::new();
        let mut i: usize = 0;
        proof {
            assert(rs@.take(0) =~= Seq::<RemovedPackage>::empty());
        }
        while i < len
            invariant
                len == rs@.len(),
                i <= len,
                kept@ =~= spec_filter_removed(rs@.take(i as int), manifest.locked@),
            decreases len - i,
        {
            proof {
                assert(rs@.take(i as int + 1).drop_last() =~= rs@.take(i as int));
                assert(rs@.take(i as int + 1).last() == rs@[i as int]);
            }
            if manifest.is_locked(&rs[i].name) {
                let kept_entry = RemovedPackage { name: rs[i].name.clone(), reason: rs[i].reason };
                kept.push(kept_entry);
            }
            i = i + 1;
        }
        proof {
            assert(rs@.take(len as int) =~= rs@);
        }
        PendingProjectChanges {
            dependencies: self.dependencies,
            locked_added: self.locked_added,
            removed: kept,
            conflicts: self.conflicts,
        }
    }
}

} // verus!

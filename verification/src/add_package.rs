//! The request orchestrator: turns a set of requested packages into a
//! staged transition plan, through one of two operation modes.

use vstd::prelude::*;
use vstd::string::*;
use crate::manifest::{spec_dep_range_of, spec_locked_of, spec_locked_version_of, VpmManifest};
use crate::package::{PackageInfo, VpmDependency};
use crate::pending_changes::{
    lemma_filter_removed_identity, spec_conflict_names_have, Builder, PendingProjectChanges,
    RemoveReason,
};
use crate::resolution::{
    collect_adding_packages, lemma_err_justified_unresolvable, lemma_err_justified_weaken,
    lemma_needed_weaken, spec_addition_needed, spec_all_decls_resolvable, spec_all_from,
    spec_all_needed, spec_conflicts_wf, spec_err_justified, spec_monotone,
    spec_pkg_names_distinct, spec_pkg_names_have, spec_plan_closed, ResolveResult,
};
use crate::source::{clone_package, spec_find_best, spec_same_package, PackageCollection};
use crate::version::{DependencyRange, UnityVersion};

verus! {

/// Why a request could not produce a plan. New kinds may be added;
/// callers keep a default arm.
#[derive(Debug, PartialEq, Eq)]
#[non_exhaustive]
pub enum AddPackageErr {
    /// Some package in the transitive closure has no candidate satisfying
    /// its range, engine and prerelease constraints. Fatal to the whole
    /// resolution: no partial plan is returned.
    DependencyNotFound { dependency_name: String },
    /// An upgrade request targeted a name absent from the locked graph.
    UpgradingNonLockedPackage { package_name: String },
}

impl AddPackageErr {
    /// A human-readable description of the failure.
    pub fn message(&self) -> (r: String)
        ensures
            match self {
                AddPackageErr::DependencyNotFound { dependency_name } => r@ == "Package "@
                    + dependency_name@ + " (maybe dependencies of the package) not found"@,
                AddPackageErr::UpgradingNonLockedPackage { package_name } => r@ == "Package "@
                    + package_name@ + " is not locked, so it cannot be upgraded"@,
            },
    {
        match self {
            AddPackageErr::DependencyNotFound { dependency_name } => String::from_str(
                "Package ",
            ).concat(dependency_name.as_str()).concat(
                " (maybe dependencies of the package) not found",
            ),
            AddPackageErr::UpgradingNonLockedPackage { package_name } => String::from_str(
                "Package ",
            ).concat(package_name.as_str()).concat(" is not locked, so it cannot be upgraded"),
        }
    }
}

/// The two operation modes of a request.
#[derive(Debug, Clone, Copy, PartialEq, Eq, Structural)]
#[non_exhaustive]
pub enum AddPackageOperation {
    /// Add or overwrite the top-level declaration and install the package,
    /// unless a strictly newer version is already locked.
    InstallToDependencies,
    /// Upgrade a package that is already locked; requesting a name that is
    /// not locked is an error, and an older-or-equal request is a no-op.
    UpgradeLocked,
}

/// Is a locked version of this request's name already `>=` the requested
/// version? Such a request stays out of the adding set.
pub open spec fn spec_locked_ge(m: VpmManifest, p: PackageInfo) -> bool {
    match spec_locked_version_of(m.locked@, p.name@) {
        Some(lv) => p.version.spec_le(lv),
        None => false,
    }
}

/// Is this request's name already declared at a single version `>=` the
/// requested version? Such a request needs no declaration edit.
pub open spec fn spec_declared_single_ge(m: VpmManifest, p: PackageInfo) -> bool {
    match spec_dep_range_of(m.dependencies@, p.name@) {
        Some(rng) => match rng.spec_as_single_version() {
            Some(sv) => p.version.spec_le(sv),
            None => false,
        },
        None => false,
    }
}

/// Appends the request to the adding set exactly when no locked version of
/// its name is `>=` the requested version.
fn check_and_add_adding_package(
    request: &PackageInfo,
    adding_packages: &mut Vec<PackageInfo>,
    manifest: &VpmManifest,
)
    ensures
        spec_locked_ge(*manifest, *request) ==> final(adding_packages)@ == old(adding_packages)@,
        !spec_locked_ge(*manifest, *request) ==> {
            &&& final(adding_packages)@.len() == old(adding_packages)@.len() + 1
            &&& final(adding_packages)@.drop_last() == old(adding_packages)@
            &&& spec_same_package(final(adding_packages)@.last(), *request)
        },
{
    let push_it = match manifest.get_locked(&request.name) {
        Some(l) => l.version.lt(&request.version),
        None => true,
    };
    if push_it {
        let c = clone_package(request);
        adding_packages.push(c);
        proof {
            assert(final(adding_packages)@.drop_last() =~= old(adding_packages)@);
        }
    }
}

/// A project: its manifest and the engine version it targets.
#[derive(Debug, Clone, PartialEq, Eq)]
pub struct UnityProject {
    pub manifest: VpmManifest,
    pub unity_version: Option<UnityVersion>,
}

impl UnityProject {
    pub fn new(manifest: VpmManifest, unity_version: Option<UnityVersion>) -> (r: UnityProject)
        ensures
            r == (UnityProject { manifest, unity_version }),
    {
        UnityProject { manifest, unity_version }
    }

    pub fn unity_version(&self) -> (r: Option<UnityVersion>)
        ensures
            r == self.unity_version,
    {
        self.unity_version
    }

    pub fn is_locked(&self, name: &String) -> (r: bool)
        ensures
            r == (spec_locked_of(self.manifest.locked@, name@) is Some),
    {
        self.manifest.is_locked(name)
    }

    /// Plans the addition or upgrade of the requested packages: a staged,
    /// in-memory diff that the caller may apply or discard.
    ///
    /// Succeeds with an empty plan when every request is a no-op, and is
    /// owed success whenever every declaration of the requested and
    /// source packages is resolvable. Fails with
    /// `UpgradingNonLockedPackage` exactly when an upgrade targets an
    /// unlocked name (reporting the first such request), and with
    /// `DependencyNotFound` only for a name some requested or source
    /// package declares under a range the locked graph does not satisfy
    /// and the source cannot serve. On success the plan's locked
    /// additions are pairwise distinct by name, strictly newer than
    /// anything locked for the same name, drawn from the request or the
    /// source, warranted by a request or an unsatisfied declaration,
    /// disjoint from the conflict names, and closed over declarations;
    /// conflict entries are well-formed and bear known names; a removal
    /// is staged exactly for the locked names some addition supersedes.
    #[verifier::rlimit(100)]
    pub fn add_package_request(
        &self,
        env: &PackageCollection,
        packages: Vec<PackageInfo>,
        operation: AddPackageOperation,
        allow_prerelease: bool,
    ) -> (r: Result<PendingProjectChanges, AddPackageErr>)
        ensures
            match r {
                Ok(plan) => {
                    &&& spec_pkg_names_distinct(plan.locked_added@)
                    &&& spec_monotone(plan.locked_added@, self.manifest.locked@)
                    &&& spec_all_from(plan.locked_added@, packages@, env.packages@)
                    &&& spec_plan_closed(plan.locked_added@, plan.conflicts@, self.manifest.locked@)
                    &&& spec_all_needed(
                        plan.locked_added@,
                        packages@,
                        env.packages@,
                        self.manifest.locked@,
                    )
                    &&& spec_conflicts_wf(plan.conflicts@)
                    &&& forall|e: int|
                        0 <= e < plan.conflicts@.len() ==> (spec_locked_of(
                            self.manifest.locked@,
                            (#[trigger] plan.conflicts@[e]).name@,
                        ) is Some || spec_pkg_names_have(packages@, plan.conflicts@[e].name@)
                            || spec_pkg_names_have(env.packages@, plan.conflicts@[e].name@))
                    &&& forall|i: int, j: int|
                        0 <= i < plan.conflicts@.len() && 0 <= j < plan.locked_added@.len()
                            ==> plan.conflicts@[i].name@ != plan.locked_added@[j].name@
                    &&& forall|j: int|
                        0 <= j < packages@.len() && !spec_locked_ge(
                            self.manifest,
                            #[trigger] packages@[j],
                        ) ==> spec_pkg_names_have(plan.locked_added@, packages@[j].name@)
                            || spec_conflict_names_have(plan.conflicts@, packages@[j].name@)
                    &&& forall|a: int|
                        0 <= a < plan.removed@.len() ==> (#[trigger] plan.removed@[a].reason
                            is Legacy && spec_locked_of(
                            self.manifest.locked@,
                            plan.removed@[a].name@,
                        ) is Some && exists|i: int, k: int|
                            0 <= i < plan.locked_added@.len() && 0 <= k
                                < plan.locked_added@[i].legacy_packages@.len()
                                && plan.locked_added@[i].legacy_packages@[k]@
                                == plan.removed@[a].name@)
                    &&& forall|i: int, k: int|
                        0 <= i < plan.locked_added@.len() && 0 <= k
                            < plan.locked_added@[i].legacy_packages@.len() && spec_locked_of(
                            self.manifest.locked@,
                            #[trigger] plan.locked_added@[i].legacy_packages@[k]@,
                        ) is Some ==> exists|a: int|
                            0 <= a < plan.removed@.len() && plan.removed@[a].name@
                                == plan.locked_added@[i].legacy_packages@[k]@
                    &&& (operation is UpgradeLocked ==> plan.dependencies@.len() == 0)
                    &&& forall|e: int|
                        0 <= e < plan.dependencies@.len() ==> exists|j: int|
                            0 <= j < packages@.len() && (#[trigger] plan.dependencies@[e]).name@
                                == packages@[j].name@ && plan.dependencies@[e].range
                                == DependencyRange::Exact(packages@[j].version)
                                && !spec_declared_single_ge(self.manifest, packages@[j])
                    &&& (operation is InstallToDependencies ==> forall|j: int|
                        0 <= j < packages@.len() && !spec_declared_single_ge(
                            self.manifest,
                            #[trigger] packages@[j],
                        ) ==> exists|e: int|
                            0 <= e < plan.dependencies@.len() && plan.dependencies@[e].name@
                                == packages@[j].name@ && plan.dependencies@[e].range
                                == DependencyRange::Exact(packages@[j].version))
                },
                Err(e) => match e {
                    AddPackageErr::DependencyNotFound { .. } => spec_err_justified(
                        e,
                        packages@,
                        env.packages@,
                        self.manifest.locked@,
                        self.unity_version,
                        allow_prerelease,
                    ),
                    AddPackageErr::UpgradingNonLockedPackage { package_name } => {
                        &&& operation is UpgradeLocked
                        &&& exists|j: int|
                            0 <= j < packages@.len() && #[trigger] packages@[j].name@
                                == package_name@ && spec_locked_of(
                                self.manifest.locked@,
                                packages@[j].name@,
                            ) is None && (forall|j2: int|
                                0 <= j2 < j ==> spec_locked_of(
                                    self.manifest.locked@,
                                    #[trigger] packages@[j2].name@,
                                ) is Some)
                    },
                },
            },
            operation is UpgradeLocked && (exists|j: int|
                0 <= j < packages@.len() && spec_locked_of(
                    self.manifest.locked@,
                    #[trigger] packages@[j].name@,
                ) is None) ==> r matches Err(AddPackageErr::UpgradingNonLockedPackage { .. }),
            operation is InstallToDependencies && spec_all_decls_resolvable(
                packages@,
                env.packages@,
                self.manifest.locked@,
                self.unity_version,
                allow_prerelease,
            ) ==> r is Ok,
            operation is UpgradeLocked && (forall|j: int|
                0 <= j < packages@.len() ==> spec_locked_of(
                    self.manifest.locked@,
                    #[trigger] packages@[j].name@,
                ) is Some) && spec_all_decls_resolvable(
                packages@,
                env.packages@,
                self.manifest.locked@,
                self.unity_version,
                allow_prerelease,
            ) ==> r is Ok,
            operation is InstallToDependencies && (forall|j: int|
                0 <= j < packages@.len() ==> spec_locked_ge(self.manifest, #[trigger] packages@[j])
                    && spec_declared_single_ge(self.manifest, packages@[j])) ==> match r {
                Ok(plan) => plan.dependencies@.len() == 0 && plan.locked_added@.len() == 0
                    && plan.removed@.len() == 0 && plan.conflicts@.len() == 0,
                Err(_) => false,
            },
            operation is UpgradeLocked && (forall|j: int|
                0 <= j < packages@.len() ==> spec_locked_ge(self.manifest, #[trigger] packages@[j]))
                ==> match r {
                Ok(plan) => plan.dependencies@.len() == 0 && plan.locked_added@.len() == 0
                    && plan.removed@.len() == 0 && plan.conflicts@.len() == 0,
                Err(_) => false,
            },
    {
        let n_req = packages.len();
        let mut adding_packages: Vec<PackageInfo> = Vec::new();
        let mut changes = Builder::new();

        let mut i: usize = 0;
        while i < n_req
            invariant
                n_req == packages@.len(),
                i <= n_req,
                forall|a: int|
                    0 <= a < adding_packages@.len() ==> match spec_locked_version_of(
                        self.manifest.locked@,
                        #[trigger] adding_packages@[a].name@,
                    ) {
                        Some(lv) => lv.spec_lt(adding_packages@[a].version),
                        None => true,
                    },
                forall|a: int|
                    0 <= a < adding_packages@.len() ==> exists|j: int|
                        0 <= j < packages@.len() && spec_same_package(
                            #[trigger] adding_packages@[a],
                            packages@[j],
                        ),
                (forall|j: int|
                    0 <= j < i ==> spec_locked_ge(self.manifest, #[trigger] packages@[j]))
                    ==> adding_packages@.len() == 0,
                forall|j: int|
                    0 <= j < i && !spec_locked_ge(self.manifest, #[trigger] packages@[j])
                        ==> spec_pkg_names_have(adding_packages@, packages@[j].name@),
                operation is UpgradeLocked ==> changes.spec_dependencies().len() == 0,
                operation is UpgradeLocked ==> forall|j: int|
                    0 <= j < i ==> spec_locked_of(
                        self.manifest.locked@,
                        #[trigger] packages@[j].name@,
                    ) is Some,
                (forall|j: int|
                    0 <= j < i ==> spec_declared_single_ge(self.manifest, #[trigger] packages@[j]))
                    ==> changes.spec_dependencies().len() == 0,
                forall|e: int|
                    0 <= e < changes.spec_dependencies().len() ==> exists|j: int|
                        0 <= j < packages@.len() && (#[trigger] changes.spec_dependencies()[e]).name@
                            == packages@[j].name@ && changes.spec_dependencies()[e].range
                            == DependencyRange::Exact(packages@[j].version)
                            && !spec_declared_single_ge(self.manifest, packages@[j]),
                operation is InstallToDependencies ==> forall|j: int|
                    0 <= j < i && !spec_declared_single_ge(self.manifest, #[trigger] packages@[j])
                        ==> exists|e: int|
                        0 <= e < changes.spec_dependencies().len()
                            && changes.spec_dependencies()[e].name@ == packages@[j].name@
                            && changes.spec_dependencies()[e].range == DependencyRange::Exact(
                            packages@[j].version,
                        ),
                changes.spec_locked_added().len() == 0,
                changes.spec_removed().len() == 0,
                changes.spec_conflicts().len() == 0,
            decreases n_req - i,
        {
            let request = &packages[i];
            let ghost prev_adding = adding_packages@;
            let ghost prev_deps = changes.spec_dependencies();
            proof {
                match spec_dep_range_of(self.manifest.dependencies@, packages@[i as int].name@) {
                    Some(rng) => match rng.spec_as_single_version() {
                        Some(sv) => crate::version::lemma_version_order_total(
                            sv,
                            packages@[i as int].version,
                        ),
                        None => {},
                    },
                    None => {},
                }
                match spec_locked_version_of(self.manifest.locked@, packages@[i as int].name@) {
                    Some(lv) => crate::version::lemma_version_order_total(
                        lv,
                        packages@[i as int].version,
                    ),
                    None => {},
                }
            }
            match operation {
                AddPackageOperation::InstallToDependencies => {
                    let add_to_dependencies = match self.manifest.get_dependency(&request.name) {
                        Some(range) => match range.as_single_version() {
                            Some(full) => full.lt(&request.version),
                            None => true,
                        },
                        None => true,
                    };
                    if add_to_dependencies {
                        changes.add_to_dependencies(
                            request.name.clone(),
                            DependencyRange::version(request.version),
                        );
                    }
                    check_and_add_adding_package(request, &mut adding_packages, &self.manifest);
                },
                AddPackageOperation::UpgradeLocked => {
                    if matches!(self.manifest.get_locked(&request.name), None) {
                        return Err(
                            AddPackageErr::UpgradingNonLockedPackage {
                                package_name: request.name.clone(),
                            },
                        );
                    }
                    check_and_add_adding_package(request, &mut adding_packages, &self.manifest);
                },
            }
            proof {
                let cur = adding_packages@;
                if cur.len() > prev_adding.len() {
                    assert(cur.drop_last() == prev_adding);
                    assert(forall|a: int|
                        0 <= a < cur.len() - 1 ==> #[trigger] cur[a] == cur.drop_last()[a]);
                    assert(spec_same_package(cur.last(), packages@[i as int]));
                }
                assert forall|a: int| 0 <= a < cur.len() implies exists|j2: int|
                    0 <= j2 < packages@.len() && spec_same_package(
                        #[trigger] cur[a],
                        packages@[j2],
                    ) by {
                    if a < prev_adding.len() {
                        assert(cur[a] == prev_adding[a]);
                        let j2 = choose|j2: int|
                            0 <= j2 < packages@.len() && spec_same_package(
                                prev_adding[a],
                                packages@[j2],
                            );
                        assert(spec_same_package(cur[a], packages@[j2]));
                    } else {
                        assert(spec_same_package(cur[a], packages@[i as int]));
                    }
                }
                assert forall|j2: int|
                    0 <= j2 < i + 1 && !spec_locked_ge(self.manifest, #[trigger] packages@[j2])
                        implies spec_pkg_names_have(cur, packages@[j2].name@) by {
                    if j2 < i {
                        let a = choose|a: int|
                            0 <= a < prev_adding.len() && prev_adding[a].name@
                                == packages@[j2].name@;
                        assert(cur[a] == prev_adding[a]);
                        assert(spec_pkg_names_have(cur, packages@[j2].name@));
                    } else {
                        assert(cur.last().name@ == packages@[i as int].name@);
                        assert(cur[cur.len() - 1].name@ == packages@[j2].name@);
                    }
                }
                let cur_deps = changes.spec_dependencies();
                if cur_deps.len() > prev_deps.len() {
                    assert(cur_deps.drop_last() == prev_deps);
                    assert(forall|e: int|
                        0 <= e < cur_deps.len() - 1 ==> #[trigger] cur_deps[e]
                            == cur_deps.drop_last()[e]);
                }
                assert forall|e: int| 0 <= e < cur_deps.len() implies exists|j2: int|
                    0 <= j2 < packages@.len() && (#[trigger] cur_deps[e]).name@
                        == packages@[j2].name@ && cur_deps[e].range == DependencyRange::Exact(
                        packages@[j2].version,
                    ) && !spec_declared_single_ge(self.manifest, packages@[j2]) by {
                    if e < prev_deps.len() {
                        assert(cur_deps[e] == prev_deps[e]);
                        let j2 = choose|j2: int|
                            0 <= j2 < packages@.len() && prev_deps[e].name@ == packages@[j2].name@
                                && prev_deps[e].range == DependencyRange::Exact(
                                packages@[j2].version,
                            ) && !spec_declared_single_ge(self.manifest, packages@[j2]);
                        assert(cur_deps[e].name@ == packages@[j2].name@);
                    } else {
                        assert(cur_deps[e].name@ == packages@[i as int].name@);
                    }
                }
                if operation is InstallToDependencies {
                    assert forall|j2: int|
                        0 <= j2 < i + 1 && !spec_declared_single_ge(
                            self.manifest,
                            #[trigger] packages@[j2],
                        ) implies exists|e: int|
                        0 <= e < cur_deps.len() && cur_deps[e].name@ == packages@[j2].name@
                            && cur_deps[e].range == DependencyRange::Exact(packages@[j2].version) by {
                        if j2 < i {
                            let e = choose|e: int|
                                0 <= e < prev_deps.len() && prev_deps[e].name@
                                    == packages@[j2].name@ && prev_deps[e].range
                                    == DependencyRange::Exact(packages@[j2].version);
                            assert(cur_deps[e] == prev_deps[e]);
                        } else {
                            assert(cur_deps[cur_deps.len() - 1].name@ == packages@[j2].name@);
                        }
                    }
                }
            }
            i = i + 1;
        }

        if adding_packages.len() == 0 {
            return Ok(changes.build_no_resolve());
        }

        let result = match collect_adding_packages(
            &self.manifest,
            &self.unity_version,
            env,
            &adding_packages,
            allow_prerelease,
        ) {
            Ok(res) => res,
            Err(e) => {
                proof {
                    lemma_err_justified_weaken(
                        e,
                        adding_packages@,
                        packages@,
                        env.packages@,
                        self.manifest.locked@,
                        self.unity_version,
                        allow_prerelease,
                    );
                    lemma_err_justified_unresolvable(
                        e,
                        packages@,
                        env.packages@,
                        self.manifest.locked@,
                        self.unity_version,
                        allow_prerelease,
                    );
                }
                return Err(e);
            },
        };

        let ghost g_legacy = result.found_legacy_packages@;
        let plan = build_plan_from_result(&self.manifest, changes, result);
        proof {
            assert forall|i: int| 0 <= i < plan.locked_added@.len() implies spec_addition_needed(
                #[trigger] plan.locked_added@[i],
                packages@,
                env.packages@,
                self.manifest.locked@,
            ) by {
                assert(spec_addition_needed(
                    plan.locked_added@[i],
                    adding_packages@,
                    env.packages@,
                    self.manifest.locked@,
                ));
                lemma_needed_weaken(
                    plan.locked_added@[i],
                    adding_packages@,
                    packages@,
                    env.packages@,
                    self.manifest.locked@,
                );
            }
            assert forall|i2: int, k2: int|
                0 <= i2 < plan.locked_added@.len() && 0 <= k2
                    < plan.locked_added@[i2].legacy_packages@.len() && spec_locked_of(
                    self.manifest.locked@,
                    #[trigger] plan.locked_added@[i2].legacy_packages@[k2]@,
                ) is Some implies exists|a: int|
                0 <= a < plan.removed@.len() && plan.removed@[a].name@
                    == plan.locked_added@[i2].legacy_packages@[k2]@ by {
                let n = plan.locked_added@[i2].legacy_packages@[k2]@;
                assert(crate::package::spec_names_contain(g_legacy, n));
                let idx = choose|idx: int| 0 <= idx < g_legacy.len() && g_legacy[idx]@ == n;
                assert(plan.removed@[idx].name@ == n);
            }
            assert forall|j: int|
                0 <= j < packages@.len() && !spec_locked_ge(self.manifest, #[trigger] packages@[j])
                    implies spec_pkg_names_have(plan.locked_added@, packages@[j].name@)
                || spec_conflict_names_have(plan.conflicts@, packages@[j].name@) by {
                let a = choose|a: int|
                    0 <= a < adding_packages@.len() && adding_packages@[a].name@
                        == packages@[j].name@;
                assert(spec_pkg_names_have(plan.locked_added@, adding_packages@[a].name@)
                    || spec_conflict_names_have(plan.conflicts@, adding_packages@[a].name@));
            }
        }
        Ok(plan)
    }
}

/// Stages one resolution result into the builder and finalizes it against
/// the manifest: additions, conflicts and legacy removals carry over in
/// order, and a removal is staged exactly for the reported legacy names.
fn build_plan_from_result(
    manifest: &VpmManifest,
    changes: Builder,
    result: ResolveResult,
) -> (plan: PendingProjectChanges)
    requires
        changes.spec_locked_added().len() == 0,
        changes.spec_removed().len() == 0,
        changes.spec_conflicts().len() == 0,
        forall|a: int|
            0 <= a < result.found_legacy_packages@.len() ==> spec_locked_of(
                manifest.locked@,
                #[trigger] result.found_legacy_packages@[a]@,
            ) is Some,
    ensures
        plan.dependencies@ == changes.spec_dependencies(),
        plan.locked_added@ == result.new_packages@,
        plan.conflicts@ == result.conflicts@,
        plan.removed@.len() == result.found_legacy_packages@.len(),
        forall|a: int|
            0 <= a < plan.removed@.len() ==> (#[trigger] plan.removed@[a]).name
                == result.found_legacy_packages@[a] && plan.removed@[a].reason is Legacy,
{
    let mut changes = changes;
    let ghost g_new = result.new_packages@;
    let ghost g_conflicts = result.conflicts@;
    let ghost g_legacy = result.found_legacy_packages@;
    let ghost g_deps = changes.spec_dependencies();

    let mut new_packages = result.new_packages;
    while new_packages.len() > 0
        invariant
            g_new.len() >= new_packages@.len(),
            new_packages@ == g_new.skip(g_new.len() - new_packages@.len()),
            changes.spec_locked_added() == g_new.take(g_new.len() - new_packages@.len()),
            changes.spec_dependencies() == g_deps,
            changes.spec_removed().len() == 0,
            changes.spec_conflicts().len() == 0,
        decreases new_packages@.len(),
    {
        proof {
            let done = g_new.len() - new_packages@.len();
            assert(new_packages@[0] == g_new[done]);
            assert(new_packages@.remove(0) =~= g_new.skip(done + 1));
            assert(g_new.take(done).push(g_new[done]) =~= g_new.take(done + 1));
        }
        let x = new_packages.remove(0);
        changes.install_to_locked(x);
    }
    proof {
        assert(g_new.take(g_new.len() as int) =~= g_new);
    }

    let mut conflicts = result.conflicts;
    while conflicts.len() > 0
        invariant
            g_conflicts.len() >= conflicts@.len(),
            conflicts@ == g_conflicts.skip(g_conflicts.len() - conflicts@.len()),
            changes.spec_conflicts() == g_conflicts.take(g_conflicts.len() - conflicts@.len()),
            changes.spec_locked_added() == g_new,
            changes.spec_dependencies() == g_deps,
            changes.spec_removed().len() == 0,
        decreases conflicts@.len(),
    {
        proof {
            let done = g_conflicts.len() - conflicts@.len();
            assert(conflicts@[0] == g_conflicts[done]);
            assert(conflicts@.remove(0) =~= g_conflicts.skip(done + 1));
            assert(g_conflicts.take(done).push(g_conflicts[done]) =~= g_conflicts.take(done + 1));
        }
        let x = conflicts.remove(0);
        let ghost gx = x;
        changes.conflict_multiple(x.name, x.conflicts_with);
        proof {
            assert(changes.spec_conflicts().last() == gx);
        }
    }
    proof {
        assert(g_conflicts.take(g_conflicts.len() as int) =~= g_conflicts);
    }

    let mut found_legacy_packages = result.found_legacy_packages;
    while found_legacy_packages.len() > 0
        invariant
            g_legacy.len() >= found_legacy_packages@.len(),
            found_legacy_packages@ == g_legacy.skip(g_legacy.len()
                - found_legacy_packages@.len()),
            changes.spec_removed().len() == g_legacy.len() - found_legacy_packages@.len(),
            forall|a: int|
                0 <= a < changes.spec_removed().len() ==> (#[trigger] changes.spec_removed()[a]).name
                    == g_legacy[a] && changes.spec_removed()[a].reason is Legacy,
            forall|a: int|
                0 <= a < g_legacy.len() ==> spec_locked_of(
                    manifest.locked@,
                    #[trigger] g_legacy[a]@,
                ) is Some,
            changes.spec_locked_added() == g_new,
            changes.spec_conflicts() == g_conflicts,
            changes.spec_dependencies() == g_deps,
        decreases found_legacy_packages@.len(),
    {
        proof {
            let done = g_legacy.len() - found_legacy_packages@.len();
            assert(found_legacy_packages@[0] == g_legacy[done]);
            assert(found_legacy_packages@.remove(0) =~= g_legacy.skip(done + 1));
        }
        let name = found_legacy_packages.remove(0);
        if manifest.is_locked(&name) {
            changes.remove(name, RemoveReason::Legacy);
        }
    }

    let ghost g_removed = changes.spec_removed();
    let plan = changes.build_resolve(manifest);
    proof {
        lemma_filter_removed_identity(g_removed, manifest.locked@);
    }
    plan
}

} // verus!

//! The transitive-closure resolver: starting from the requested packages,
//! walks dependency declarations against the package source, reuses locked
//! versions where compatible, and classifies the outcome into additions,
//! conflicts, and legacy removals.

use vstd::prelude::*;
use vstd::pervasive::VecAdditionalExecFns;
use crate::add_package::AddPackageErr;
use crate::manifest::{spec_locked_of, spec_locked_version_of, VpmManifest};
use crate::package::{names_contain, spec_names_contain, PackageInfo};
use crate::pending_changes::{spec_conflict_names_have, ConflictEntry};
use crate::source::{
    clone_package, spec_candidate_ok, spec_find_best, spec_same_package, PackageCollection,
};
use crate::version::{DependencyRange, UnityVersion, Version};

verus! {

/// The raw outcome of one resolution pass.
#[derive(Debug, Clone, PartialEq, Eq)]
pub struct ResolveResult {
    /// Newly chosen packages, in the order they were chosen.
    pub new_packages: Vec<PackageInfo>,
    /// Dependency names whose consumers disagree irreconcilably.
    pub conflicts: Vec<ConflictEntry>,
    /// Legacy names, superseded by a new package and currently locked.
    pub found_legacy_packages: Vec<String>,
}

/// One pending obligation: `requester` declared a dependency on `name`
/// within `range`.
struct Need {
    name: String,
    range: DependencyRange,
    requester: String,
}

/// Is `(name, range)` one of the declarations of some package in `pkgs`?
pub open spec fn spec_decl_of(
    pkgs: Seq<PackageInfo>,
    name: Seq<char>,
    range: DependencyRange,
) -> bool {
    exists|i: int, d: int|
        0 <= i < pkgs.len() && 0 <= d < pkgs[i].vpm_dependencies@.len()
            && (#[trigger] pkgs[i].vpm_dependencies@[d]).name@ == name
            && pkgs[i].vpm_dependencies@[d].range == range
}

/// A declaration is resolvable when the locked graph already satisfies it
/// or the source offers a candidate for it.
pub open spec fn spec_decl_resolvable(
    name: Seq<char>,
    range: DependencyRange,
    locked: Seq<crate::manifest::LockedDependency>,
    avail: Seq<PackageInfo>,
    unity: Option<UnityVersion>,
    allow_prerelease: bool,
) -> bool {
    ||| match spec_locked_of(locked, name) {
        Some(l) => range.spec_matches(l.version),
        None => false,
    }
    ||| spec_find_best(avail, name, range, unity, allow_prerelease) is Some
}

/// Every declaration of every requested and every source package is
/// resolvable: under this, a resolution pass cannot fail.
pub open spec fn spec_all_decls_resolvable(
    requested: Seq<PackageInfo>,
    avail: Seq<PackageInfo>,
    locked: Seq<crate::manifest::LockedDependency>,
    unity: Option<UnityVersion>,
    allow_prerelease: bool,
) -> bool {
    forall|n: Seq<char>, rng: DependencyRange|
        spec_decl_of(requested, n, rng) || spec_decl_of(avail, n, rng)
            ==> spec_decl_resolvable(n, rng, locked, avail, unity, allow_prerelease)
}

/// The failure is justified by the inputs: the reported name is declared
/// by a requested or source package under a range that the locked graph
/// does not satisfy and the source cannot serve. The resolver itself
/// never reports the upgrade error.
pub open spec fn spec_err_justified(
    e: AddPackageErr,
    requested: Seq<PackageInfo>,
    avail: Seq<PackageInfo>,
    locked: Seq<crate::manifest::LockedDependency>,
    unity: Option<UnityVersion>,
    allow_prerelease: bool,
) -> bool {
    match e {
        AddPackageErr::DependencyNotFound { dependency_name } => exists|rng: DependencyRange|
            (spec_decl_of(requested, dependency_name@, rng) || spec_decl_of(
                avail,
                dependency_name@,
                rng,
            )) && !spec_decl_resolvable(dependency_name@, rng, locked, avail, unity, allow_prerelease),
        AddPackageErr::UpgradingNonLockedPackage { .. } => false,
    }
}

/// An addition is warranted: either its name was requested outright, or
/// some requested or source package declares that name under a range the
/// locked graph does not satisfy, and the addition satisfies that range.
/// A name whose locked version satisfies every declared range is never
/// added.
pub open spec fn spec_addition_needed(
    p: PackageInfo,
    requested: Seq<PackageInfo>,
    avail: Seq<PackageInfo>,
    locked: Seq<crate::manifest::LockedDependency>,
) -> bool {
    ||| spec_pkg_names_have(requested, p.name@)
    ||| exists|rng: DependencyRange|
        (spec_decl_of(requested, p.name@, rng) || spec_decl_of(avail, p.name@, rng)) && !(
        match spec_locked_of(locked, p.name@) {
            Some(l) => rng.spec_matches(l.version),
            None => false,
        }) && rng.spec_matches(p.version)
}

/// All additions are warranted.
pub open spec fn spec_all_needed(
    pkgs: Seq<PackageInfo>,
    requested: Seq<PackageInfo>,
    avail: Seq<PackageInfo>,
    locked: Seq<crate::manifest::LockedDependency>,
) -> bool {
    forall|i: int|
        0 <= i < pkgs.len() ==> spec_addition_needed(
            #[trigger] pkgs[i],
            requested,
            avail,
            locked,
        )
}

/// Pairwise distinct requester names.
pub open spec fn spec_requesters_distinct(rs: Seq<String>) -> bool {
    forall|k1: int, k2: int| 0 <= k1 < k2 < rs.len() ==> rs[k1]@ != rs[k2]@
}

/// Well-formed conflict entries: each lists at least one requester, and
/// the requesters of one entry are pairwise distinct.
pub open spec fn spec_conflicts_wf(cs: Seq<ConflictEntry>) -> bool {
    forall|e: int|
        0 <= e < cs.len() ==> (#[trigger] cs[e]).conflicts_with@.len() >= 1
            && spec_requesters_distinct(cs[e].conflicts_with@)
}

/// Every queued obligation is a declaration of a requested or a source
/// package.
spec fn spec_queue_from_decls(
    queue: Seq<Need>,
    requested: Seq<PackageInfo>,
    avail: Seq<PackageInfo>,
) -> bool {
    forall|q: int|
        0 <= q < queue.len() ==> spec_decl_of(requested, (#[trigger] queue[q]).name@, queue[q].range)
            || spec_decl_of(avail, queue[q].name@, queue[q].range)
}

/// Every conflict name is the name of a chosen package or of a locked one.
spec fn spec_conflict_names_bounded(
    cs: Seq<ConflictEntry>,
    chosen: Seq<PackageInfo>,
    locked: Seq<crate::manifest::LockedDependency>,
) -> bool {
    forall|e: int|
        0 <= e < cs.len() ==> spec_pkg_names_have(chosen, (#[trigger] cs[e]).name@)
            || spec_locked_of(locked, cs[e].name@) is Some
}

/// A declared dependency is settled when an already chosen package or
/// the locked graph satisfies its range, or its name is flagged as a
/// conflict for the caller to adjudicate.
pub open spec fn spec_need_settled(
    name: Seq<char>,
    range: DependencyRange,
    chosen: Seq<PackageInfo>,
    conflicts: Seq<ConflictEntry>,
    locked: Seq<crate::manifest::LockedDependency>,
) -> bool {
    ||| exists|i: int|
        0 <= i < chosen.len() && chosen[i].name@ == name && range.spec_matches(chosen[i].version)
    ||| match spec_locked_of(locked, name) {
        Some(l) => range.spec_matches(l.version),
        None => false,
    }
    ||| spec_conflict_names_have(conflicts, name)
}

/// A closed plan: every declaration of every addition is satisfied by an
/// addition or by the locked graph, or its name is in the conflict map.
pub open spec fn spec_plan_closed(
    new_packages: Seq<PackageInfo>,
    conflicts: Seq<ConflictEntry>,
    locked: Seq<crate::manifest::LockedDependency>,
) -> bool {
    forall|i: int, d: int|
        0 <= i < new_packages.len() && 0 <= d < new_packages[i].vpm_dependencies@.len()
            ==> spec_need_settled(
            (#[trigger] new_packages[i].vpm_dependencies@[d]).name@,
            new_packages[i].vpm_dependencies@[d].range,
            new_packages,
            conflicts,
            locked,
        )
}

/// Every declaration of every chosen package stands in the work queue.
spec fn spec_deps_enqueued(chosen: Seq<PackageInfo>, queue: Seq<Need>) -> bool {
    forall|i: int, d: int|
        0 <= i < chosen.len() && 0 <= d < chosen[i].vpm_dependencies@.len() ==> exists|q: int|
            0 <= q < queue.len() && queue[q].name@
                == (#[trigger] chosen[i].vpm_dependencies@[d]).name@ && queue[q].range
                == chosen[i].vpm_dependencies@[d].range
}

/// The first `k` queue entries are settled.
spec fn spec_settled_upto(
    queue: Seq<Need>,
    k: int,
    chosen: Seq<PackageInfo>,
    conflicts: Seq<ConflictEntry>,
    locked: Seq<crate::manifest::LockedDependency>,
) -> bool {
    forall|q: int|
        0 <= q < k ==> spec_need_settled(
            (#[trigger] queue[q]).name@,
            queue[q].range,
            chosen,
            conflicts,
            locked,
        )
}

/// Appends one pending obligation per declaration of `c`.
fn enqueue_deps(queue: &mut Vec<Need>, c: &PackageInfo)
    ensures
        final(queue)@.len() == old(queue)@.len() + c.vpm_dependencies@.len(),
        forall|q: int| 0 <= q < old(queue)@.len() ==> final(queue)@[q] == old(queue)@[q],
        forall|d: int|
            0 <= d < c.vpm_dependencies@.len() ==> final(queue)@[old(queue)@.len() + d].name@
                == (#[trigger] c.vpm_dependencies@[d]).name@ && final(queue)@[old(queue)@.len()
                + d].range == c.vpm_dependencies@[d].range,
{
    let n_deps = c.vpm_dependencies.len();
    let mut d: usize = 0;
    while d < n_deps
        invariant
            n_deps == c.vpm_dependencies@.len(),
            d <= n_deps,
            queue@.len() == old(queue)@.len() + d,
            forall|q: int| 0 <= q < old(queue)@.len() ==> queue@[q] == old(queue)@[q],
            forall|d2: int|
                0 <= d2 < d ==> queue@[old(queue)@.len() + d2].name@
                    == (#[trigger] c.vpm_dependencies@[d2]).name@ && queue@[old(queue)@.len()
                    + d2].range == c.vpm_dependencies@[d2].range,
        decreases n_deps - d,
    {
        queue.push(
            Need {
                name: c.vpm_dependencies[d].name.clone(),
                range: c.vpm_dependencies[d].range,
                requester: c.name.clone(),
            },
        );
        d = d + 1;
    }
}

/// Does some package in `pkgs` carry exactly the name `n`?
pub open spec fn spec_pkg_names_have(pkgs: Seq<PackageInfo>, n: Seq<char>) -> bool {
    exists|i: int| 0 <= i < pkgs.len() && pkgs[i].name@ == n
}

/// Pairwise distinct package names.
pub open spec fn spec_pkg_names_distinct(pkgs: Seq<PackageInfo>) -> bool {
    forall|i: int, j: int| 0 <= i < j < pkgs.len() ==> pkgs[i].name@ != pkgs[j].name@
}

/// Every chosen version strictly exceeds the version locked for its name.
pub open spec fn spec_monotone(
    pkgs: Seq<PackageInfo>,
    locked: Seq<crate::manifest::LockedDependency>,
) -> bool {
    forall|i: int|
        0 <= i < pkgs.len() ==> match spec_locked_version_of(locked, pkgs[i].name@) {
            Some(lv) => lv.spec_lt(#[trigger] pkgs[i].version),
            None => true,
        }
}

/// `p` agrees with some requested package or some source package.
pub open spec fn spec_package_from(
    p: PackageInfo,
    requested: Seq<PackageInfo>,
    available: Seq<PackageInfo>,
) -> bool {
    ||| exists|j: int| 0 <= j < requested.len() && spec_same_package(p, requested[j])
    ||| exists|j: int| 0 <= j < available.len() && spec_same_package(p, available[j])
}

/// All packages in `pkgs` come from the request or the source.
pub open spec fn spec_all_from(
    pkgs: Seq<PackageInfo>,
    requested: Seq<PackageInfo>,
    available: Seq<PackageInfo>,
) -> bool {
    forall|i: int| 0 <= i < pkgs.len() ==> spec_package_from(#[trigger] pkgs[i], requested, available)
}

/// How many packages in `pkgs` have a name that no package in `chosen`
/// carries: the resolver's termination measure.
pub open spec fn spec_unchosen_count(pkgs: Seq<PackageInfo>, chosen: Seq<PackageInfo>) -> nat
    decreases pkgs.len(),
{
    if pkgs.len() == 0 {
        0
    } else {
        spec_unchosen_count(pkgs.drop_last(), chosen) + if spec_pkg_names_have(
            chosen,
            pkgs.last().name@,
        ) {
            0nat
        } else {
            1nat
        }
    }
}

proof fn lemma_unchosen_le(pkgs: Seq<PackageInfo>, chosen: Seq<PackageInfo>, c: PackageInfo)
    ensures
        spec_unchosen_count(pkgs, chosen.push(c)) <= spec_unchosen_count(pkgs, chosen),
    decreases pkgs.len(),
{
    if pkgs.len() > 0 {
        lemma_unchosen_le(pkgs.drop_last(), chosen, c);
        if spec_pkg_names_have(chosen, pkgs.last().name@) {
            let i = choose|i: int|
                0 <= i < chosen.len() && chosen[i].name@ == pkgs.last().name@;
            assert(chosen.push(c)[i].name@ == pkgs.last().name@);
        }
    }
}

proof fn lemma_unchosen_lt(pkgs: Seq<PackageInfo>, chosen: Seq<PackageInfo>, c: PackageInfo)
    requires
        exists|j: int| 0 <= j < pkgs.len() && pkgs[j].name@ == c.name@,
        !spec_pkg_names_have(chosen, c.name@),
    ensures
        spec_unchosen_count(pkgs, chosen.push(c)) < spec_unchosen_count(pkgs, chosen),
    decreases pkgs.len(),
{
    let j = choose|j: int| 0 <= j < pkgs.len() && pkgs[j].name@ == c.name@;
    if j == pkgs.len() - 1 {
        lemma_unchosen_le(pkgs.drop_last(), chosen, c);
        assert(chosen.push(c).last().name@ == pkgs.last().name@);
        assert(spec_pkg_names_have(chosen.push(c), pkgs.last().name@));
    } else {
        assert(pkgs.drop_last()[j] == pkgs[j]);
        lemma_unchosen_lt(pkgs.drop_last(), chosen, c);
        if spec_pkg_names_have(chosen, pkgs.last().name@) {
            let i = choose|i: int|
                0 <= i < chosen.len() && chosen[i].name@ == pkgs.last().name@;
            assert(chosen.push(c)[i].name@ == pkgs.last().name@);
        }
    }
}

/// A fresh requester appended to a distinct list keeps it distinct.
proof fn lemma_distinct_push(rs: Seq<String>, r: String)
    requires
        spec_requesters_distinct(rs),
        !spec_names_contain(rs, r@),
    ensures
        spec_requesters_distinct(rs.push(r)),
{
    assert forall|k1: int, k2: int| 0 <= k1 < k2 < rs.push(r).len() implies rs.push(r)[k1]@
        != rs.push(r)[k2]@ by {
        if k2 < rs.len() {
            assert(rs.push(r)[k1] == rs[k1]);
            assert(rs.push(r)[k2] == rs[k2]);
        } else {
            assert(rs.push(r)[k1] == rs[k1]);
            if rs[k1]@ == r@ {
                assert(spec_names_contain(rs, r@));
            }
        }
    }
}

/// Conflict well-formedness and name bounds survive one recording step:
/// old entries keep their names and only gain a fresh requester; new
/// entries are born well-formed.
proof fn lemma_conflicts_wf_step(
    cs0: Seq<ConflictEntry>,
    cs1: Seq<ConflictEntry>,
    requester: String,
)
    requires
        spec_conflicts_wf(cs0),
        cs1.len() >= cs0.len(),
        forall|i: int|
            0 <= i < cs0.len() ==> (#[trigger] cs1[i]).conflicts_with@
                == cs0[i].conflicts_with@ || (cs1[i].conflicts_with@
                == cs0[i].conflicts_with@.push(requester) && !spec_names_contain(
                cs0[i].conflicts_with@,
                requester@,
            )),
        forall|i: int|
            cs0.len() <= i < cs1.len() ==> spec_names_contain(
                (#[trigger] cs1[i]).conflicts_with@,
                requester@,
            ) && spec_requesters_distinct(cs1[i].conflicts_with@),
    ensures
        spec_conflicts_wf(cs1),
{
    assert forall|e: int| 0 <= e < cs1.len() implies (#[trigger] cs1[e]).conflicts_with@.len()
        >= 1 && spec_requesters_distinct(cs1[e].conflicts_with@) by {
        if e < cs0.len() {
            if cs1[e].conflicts_with@ != cs0[e].conflicts_with@ {
                lemma_distinct_push(cs0[e].conflicts_with@, requester);
            }
        } else {
            let k = choose|k: int|
                0 <= k < cs1[e].conflicts_with@.len() && cs1[e].conflicts_with@[k]@
                    == requester@;
            assert(cs1[e].conflicts_with@.len() >= 1);
        }
    }
}

/// A justified failure stays justified when each package of `sub` agrees
/// with one of `sup`: the declarations carry over.
pub proof fn lemma_err_justified_weaken(
    e: AddPackageErr,
    sub: Seq<PackageInfo>,
    sup: Seq<PackageInfo>,
    avail: Seq<PackageInfo>,
    locked: Seq<crate::manifest::LockedDependency>,
    unity: Option<UnityVersion>,
    allow_prerelease: bool,
)
    requires
        spec_err_justified(e, sub, avail, locked, unity, allow_prerelease),
        forall|a: int|
            0 <= a < sub.len() ==> exists|j: int|
                0 <= j < sup.len() && spec_same_package(#[trigger] sub[a], sup[j]),
    ensures
        spec_err_justified(e, sup, avail, locked, unity, allow_prerelease),
{
    match e {
        AddPackageErr::DependencyNotFound { dependency_name } => {
            let rng = choose|rng: DependencyRange|
                (spec_decl_of(sub, dependency_name@, rng) || spec_decl_of(
                    avail,
                    dependency_name@,
                    rng,
                )) && !spec_decl_resolvable(
                    dependency_name@,
                    rng,
                    locked,
                    avail,
                    unity,
                    allow_prerelease,
                );
            if spec_decl_of(sub, dependency_name@, rng) {
                let (a, d) = choose|a: int, d: int|
                    0 <= a < sub.len() && 0 <= d < sub[a].vpm_dependencies@.len()
                        && sub[a].vpm_dependencies@[d].name@ == dependency_name@
                        && sub[a].vpm_dependencies@[d].range == rng;
                let j = choose|j: int| 0 <= j < sup.len() && spec_same_package(sub[a], sup[j]);
                assert(sup[j].vpm_dependencies@ == sub[a].vpm_dependencies@);
                assert(sup[j].vpm_dependencies@[d].name@ == dependency_name@);
                assert(spec_decl_of(sup, dependency_name@, rng));
            }
        },
        AddPackageErr::UpgradingNonLockedPackage { .. } => {},
    }
}

/// A warranted addition stays warranted when each package of `sub`
/// agrees with one of `sup`.
pub proof fn lemma_needed_weaken(
    p: PackageInfo,
    sub: Seq<PackageInfo>,
    sup: Seq<PackageInfo>,
    avail: Seq<PackageInfo>,
    locked: Seq<crate::manifest::LockedDependency>,
)
    requires
        spec_addition_needed(p, sub, avail, locked),
        forall|a: int|
            0 <= a < sub.len() ==> exists|j: int|
                0 <= j < sup.len() && spec_same_package(#[trigger] sub[a], sup[j]),
    ensures
        spec_addition_needed(p, sup, avail, locked),
{
    if spec_pkg_names_have(sub, p.name@) {
        let a = choose|a: int| 0 <= a < sub.len() && sub[a].name@ == p.name@;
        let j = choose|j: int| 0 <= j < sup.len() && spec_same_package(sub[a], sup[j]);
        assert(sup[j].name@ == p.name@);
        assert(spec_pkg_names_have(sup, p.name@));
    } else {
        let rng = choose|rng: DependencyRange|
            (spec_decl_of(sub, p.name@, rng) || spec_decl_of(avail, p.name@, rng)) && !(
            match spec_locked_of(locked, p.name@) {
                Some(l) => rng.spec_matches(l.version),
                None => false,
            }) && rng.spec_matches(p.version);
        if spec_decl_of(sub, p.name@, rng) {
            let (a, d) = choose|a: int, d: int|
                0 <= a < sub.len() && 0 <= d < sub[a].vpm_dependencies@.len()
                    && sub[a].vpm_dependencies@[d].name@ == p.name@
                    && sub[a].vpm_dependencies@[d].range == rng;
            let j = choose|j: int| 0 <= j < sup.len() && spec_same_package(sub[a], sup[j]);
            assert(sup[j].vpm_dependencies@ == sub[a].vpm_dependencies@);
            assert(sup[j].vpm_dependencies@[d].name@ == p.name@);
            assert(spec_decl_of(sup, p.name@, rng));
        }
    }
}

/// A justified failure refutes full resolvability of the inputs.
pub proof fn lemma_err_justified_unresolvable(
    e: AddPackageErr,
    requested: Seq<PackageInfo>,
    avail: Seq<PackageInfo>,
    locked: Seq<crate::manifest::LockedDependency>,
    unity: Option<UnityVersion>,
    allow_prerelease: bool,
)
    requires
        spec_err_justified(e, requested, avail, locked, unity, allow_prerelease),
    ensures
        !spec_all_decls_resolvable(requested, avail, locked, unity, allow_prerelease),
{
    match e {
        AddPackageErr::DependencyNotFound { dependency_name } => {
            let rng = choose|rng: DependencyRange|
                (spec_decl_of(requested, dependency_name@, rng) || spec_decl_of(
                    avail,
                    dependency_name@,
                    rng,
                )) && !spec_decl_resolvable(
                    dependency_name@,
                    rng,
                    locked,
                    avail,
                    unity,
                    allow_prerelease,
                );
            if spec_all_decls_resolvable(requested, avail, locked, unity, allow_prerelease) {
                assert(spec_decl_of(requested, dependency_name@, rng) || spec_decl_of(
                    avail,
                    dependency_name@,
                    rng,
                ));
                assert(spec_decl_resolvable(
                    dependency_name@,
                    rng,
                    locked,
                    avail,
                    unity,
                    allow_prerelease,
                ));
            }
        },
        AddPackageErr::UpgradingNonLockedPackage { .. } => {},
    }
}

/// Settledness survives growing the chosen list.
proof fn lemma_settled_extends(
    name: Seq<char>,
    range: DependencyRange,
    chosen0: Seq<PackageInfo>,
    chosen1: Seq<PackageInfo>,
    conflicts: Seq<ConflictEntry>,
    locked: Seq<crate::manifest::LockedDependency>,
)
    requires
        spec_need_settled(name, range, chosen0, conflicts, locked),
        chosen0.len() <= chosen1.len(),
        forall|i: int| 0 <= i < chosen0.len() ==> chosen1[i] == chosen0[i],
    ensures
        spec_need_settled(name, range, chosen1, conflicts, locked),
{
    if exists|i: int|
        0 <= i < chosen0.len() && chosen0[i].name@ == name && range.spec_matches(
            chosen0[i].version,
        ) {
        let i = choose|i: int|
            0 <= i < chosen0.len() && chosen0[i].name@ == name && range.spec_matches(
                chosen0[i].version,
            );
        assert(chosen1[i] == chosen0[i]);
    }
}

/// The settled prefix survives a conflict-map extension that keeps the
/// names of existing entries.
proof fn lemma_settled_conflicts_grow(
    queue: Seq<Need>,
    k: int,
    chosen: Seq<PackageInfo>,
    conflicts0: Seq<ConflictEntry>,
    conflicts1: Seq<ConflictEntry>,
    locked: Seq<crate::manifest::LockedDependency>,
)
    requires
        spec_settled_upto(queue, k, chosen, conflicts0, locked),
        k <= queue.len(),
        conflicts0.len() <= conflicts1.len(),
        forall|i: int| 0 <= i < conflicts0.len() ==> conflicts1[i].name == conflicts0[i].name,
    ensures
        spec_settled_upto(queue, k, chosen, conflicts1, locked),
{
    assert forall|q: int| 0 <= q < k implies spec_need_settled(
        (#[trigger] queue[q]).name@,
        queue[q].range,
        chosen,
        conflicts1,
        locked,
    ) by {
        if spec_conflict_names_have(conflicts0, queue[q].name@) {
            let w = choose|w: int|
                0 <= w < conflicts0.len() && conflicts0[w].name@ == queue[q].name@;
            assert(conflicts1[w].name@ == queue[q].name@);
        }
    }
}

/// A found best candidate satisfies the query and is one of the source's
/// packages.
proof fn lemma_find_best_member(
    pkgs: Seq<PackageInfo>,
    name: Seq<char>,
    range: DependencyRange,
    engine: Option<UnityVersion>,
    allow_prerelease: bool,
    p: PackageInfo,
)
    requires
        spec_find_best(pkgs, name, range, engine, allow_prerelease) == Some(p),
    ensures
        spec_candidate_ok(p, name, range, engine, allow_prerelease),
        exists|j: int| 0 <= j < pkgs.len() && pkgs[j] == p,
    decreases pkgs.len(),
{
    if pkgs.len() > 0 {
        let prev = spec_find_best(pkgs.drop_last(), name, range, engine, allow_prerelease);
        if prev is Some && prev != Some(p) {
            // p is the last element
            assert(pkgs[pkgs.len() - 1] == p);
        } else if prev == Some(p) && (!spec_candidate_ok(
            pkgs.last(),
            name,
            range,
            engine,
            allow_prerelease,
        ) || !(prev.unwrap().version.spec_lt(pkgs.last().version))) {
            lemma_find_best_member(pkgs.drop_last(), name, range, engine, allow_prerelease, p);
            let j = choose|j: int| 0 <= j < pkgs.drop_last().len() && pkgs.drop_last()[j] == p;
            assert(pkgs[j] == p);
        } else {
            assert(pkgs[pkgs.len() - 1] == p);
        }
    }
}

/// Finds the index of the already chosen package of this name, if any.
fn find_chosen(chosen: &Vec<PackageInfo>, name: &String) -> (r: Option<usize>)
    ensures
        match r {
            Some(ci) => ci < chosen@.len() && chosen@[ci as int].name@ == name@,
            None => !spec_pkg_names_have(chosen@, name@),
        },
{
    let len = chosen.len();
    let mut i: usize = 0;
    while i < len
        invariant
            len == chosen@.len(),
            i <= len,
            forall|j: int| 0 <= j < i ==> chosen@[j].name@ != name@,
        decreases len - i,
    {
        if chosen[i].name.eq(name) {
            return Some(i);
        }
        i = i + 1;
    }
    None
}

/// Records that `name` cannot be resolved to one version: appends
/// `requester` (and, for a fresh entry, the first chooser) to the entry
/// of that name, creating it if needed. New entries bear `name`; the
/// names of existing entries do not change.
fn record_conflict(
    conflicts: &mut Vec<ConflictEntry>,
    name: &String,
    first: Option<&String>,
    requester: &String,
)
    ensures
        final(conflicts)@.len() >= old(conflicts)@.len(),
        forall|i: int|
            0 <= i < old(conflicts)@.len()
                ==> final(conflicts)@[i].name == old(conflicts)@[i].name,
        forall|i: int|
            old(conflicts)@.len() <= i < final(conflicts)@.len()
                ==> final(conflicts)@[i].name@ == name@,
        spec_conflict_names_have(final(conflicts)@, name@),
        forall|i: int|
            0 <= i < old(conflicts)@.len() ==> (#[trigger] final(conflicts)@[i]).conflicts_with@
                == old(conflicts)@[i].conflicts_with@ || (final(conflicts)@[i].conflicts_with@
                == old(conflicts)@[i].conflicts_with@.push(*requester) && !spec_names_contain(
                old(conflicts)@[i].conflicts_with@,
                requester@,
            )),
        forall|i: int|
            old(conflicts)@.len() <= i < final(conflicts)@.len() ==> spec_names_contain(
                (#[trigger] final(conflicts)@[i]).conflicts_with@,
                requester@,
            ) && spec_requesters_distinct(final(conflicts)@[i].conflicts_with@),
{
    let len = conflicts.len();
    let mut i: usize = 0;
    while i < len
        invariant
            len == conflicts@.len(),
            i <= len,
            conflicts@ == old(conflicts)@,
        decreases len - i,
    {
        if conflicts[i].name.eq(name) {
            if !names_contain(&conflicts[i].conflicts_with, requester) {
                let mut rs = crate::source::clone_names(&conflicts[i].conflicts_with);
                rs.push(requester.clone());
                let entry = ConflictEntry {
                    name: conflicts[i].name.clone(),
                    conflicts_with: rs,
                };
                proof {
                    assert(entry.name == conflicts@[i as int].name);
                    assert(entry.conflicts_with@ == conflicts@[
                        i as int
                    ].conflicts_with@.push(*requester));
                }
                conflicts.set(i, entry);
                proof {
                    assert(conflicts@.len() == old(conflicts)@.len());
                    assert forall|j: int| 0 <= j < old(conflicts)@.len() implies conflicts@[j].name
                        == old(conflicts)@[j].name by {
                        if j != i as int {
                            assert(conflicts@[j] == old(conflicts)@[j]);
                        }
                    }
                }
            }
            proof {
                assert(conflicts@[i as int].name@ == name@);
                assert(spec_conflict_names_have(conflicts@, name@));
            }
            return ;
        }
        i = i + 1;
    }
    let mut requesters: Vec<String> = Vec::new();
    match first {
        Some(f) => {
            if !f.eq(requester) {
                requesters.push(f.clone());
            }
        },
        None => {},
    }
    requesters.push(requester.clone());
    proof {
        assert(requesters@.last()@ == requester@);
        assert(spec_names_contain(requesters@, requester@));
        assert(spec_requesters_distinct(requesters@));
    }
    conflicts.push(ConflictEntry { name: name.clone(), conflicts_with: requesters });
    proof {
        assert(conflicts@.last().name@ == name@);
        assert(spec_conflict_names_have(conflicts@, name@));
    }
}

/// One resolution pass, as a pure function of its inputs.
///
/// Requires the requested packages to be monotone against the locked
/// graph: a request enters the pass only when no locked version of its
/// name is `>=` it. Success is owed whenever every declaration in sight
/// is resolvable, and a failure always names a declared dependency that
/// the locked graph does not satisfy and the source cannot serve.
/// Ensures, on success: addition names are pairwise distinct and never
/// also conflict names; every requested name shows up as an addition or
/// a conflict; every chosen version strictly exceeds the version locked
/// for its name; every addition agrees with a requested or a source
/// package and is warranted by a request or an unsatisfied declaration;
/// conflict entries are well-formed and bear known names; the plan is
/// closed, in that every declaration of every addition is satisfied by
/// an addition or the locked graph or flagged as a conflict; and a name
/// is reported legacy exactly when it is currently locked and some
/// addition supersedes it.
#[verifier::rlimit(100)]
pub fn collect_adding_packages(
    manifest: &VpmManifest,
    unity: &Option<UnityVersion>,
    env: &PackageCollection,
    adding_packages: &Vec<PackageInfo>,
    allow_prerelease: bool,
) -> (r: Result<ResolveResult, AddPackageErr>)
    requires
        forall|j: int|
            0 <= j < adding_packages@.len() ==> match spec_locked_version_of(
                manifest.locked@,
                adding_packages@[j].name@,
            ) {
                Some(lv) => lv.spec_lt(#[trigger] adding_packages@[j].version),
                None => true,
            },
    ensures
        spec_all_decls_resolvable(
            adding_packages@,
            env.packages@,
            manifest.locked@,
            *unity,
            allow_prerelease,
        ) ==> r is Ok,
        r matches Ok(res) ==> spec_conflicts_wf(res.conflicts@),
        r matches Ok(res) ==> spec_all_needed(
            res.new_packages@,
            adding_packages@,
            env.packages@,
            manifest.locked@,
        ),
        r matches Ok(res) ==> forall|e: int|
            0 <= e < res.conflicts@.len() ==> (spec_locked_of(
                manifest.locked@,
                (#[trigger] res.conflicts@[e]).name@,
            ) is Some || spec_pkg_names_have(adding_packages@, res.conflicts@[e].name@)
                || spec_pkg_names_have(env.packages@, res.conflicts@[e].name@)),
        r matches Ok(res) ==> spec_pkg_names_distinct(res.new_packages@),
        r matches Ok(res) ==> spec_monotone(res.new_packages@, manifest.locked@),
        r matches Ok(res) ==> spec_all_from(res.new_packages@, adding_packages@, env.packages@),
        r matches Ok(res) ==> forall|i: int, j: int|
            0 <= i < res.conflicts@.len() && 0 <= j < res.new_packages@.len()
                ==> res.conflicts@[i].name@ != res.new_packages@[j].name@,
        r matches Ok(res) ==> forall|j: int|
            0 <= j < adding_packages@.len() ==> spec_pkg_names_have(
                res.new_packages@,
                #[trigger] adding_packages@[j].name@,
            ) || spec_conflict_names_have(res.conflicts@, adding_packages@[j].name@),
        r matches Ok(res) ==> forall|a: int|
            0 <= a < res.found_legacy_packages@.len() ==> (spec_locked_of(
                manifest.locked@,
                #[trigger] res.found_legacy_packages@[a]@,
            ) is Some && exists|i: int, k: int|
                0 <= i < res.new_packages@.len() && 0 <= k
                    < res.new_packages@[i].legacy_packages@.len()
                    && res.new_packages@[i].legacy_packages@[k]@
                    == res.found_legacy_packages@[a]@),
        r matches Ok(res) ==> spec_plan_closed(
            res.new_packages@,
            res.conflicts@,
            manifest.locked@,
        ),
        r matches Ok(res) ==> forall|i: int, k: int|
            0 <= i < res.new_packages@.len() && 0 <= k
                < res.new_packages@[i].legacy_packages@.len() && spec_locked_of(
                manifest.locked@,
                #[trigger] res.new_packages@[i].legacy_packages@[k]@,
            ) is Some ==> spec_names_contain(
                res.found_legacy_packages@,
                res.new_packages@[i].legacy_packages@[k]@,
            ),
        r matches Err(e) ==> spec_err_justified(
            e,
            adding_packages@,
            env.packages@,
            manifest.locked@,
            *unity,
            allow_prerelease,
        ),
{
    let mut chosen: Vec<PackageInfo> = Vec::new();
    let mut chosen_by: Vec<String> = Vec::new();
    let mut conflicts: Vec<ConflictEntry> = Vec::new();
    let mut queue: Vec<Need> = Vec::new();

    // Seed: each requested package becomes a chosen candidate (first of a
    // name wins), and its declarations become pending obligations.
    let n_adding = adding_packages.len();
    let mut j: usize = 0;
    while j < n_adding
        invariant
            n_adding == adding_packages@.len(),
            j <= n_adding,
            chosen_by@.len() == chosen@.len(),
            spec_pkg_names_distinct(chosen@),
            spec_monotone(chosen@, manifest.locked@),
            spec_all_from(chosen@, adding_packages@, env.packages@),
            spec_deps_enqueued(chosen@, queue@),
            spec_queue_from_decls(queue@, adding_packages@, env.packages@),
            spec_all_needed(chosen@, adding_packages@, env.packages@, manifest.locked@),
            forall|a: int|
                0 <= a < j ==> spec_pkg_names_have(chosen@, #[trigger] adding_packages@[a].name@),
            forall|a: int|
                0 <= a < adding_packages@.len() ==> match spec_locked_version_of(
                    manifest.locked@,
                    adding_packages@[a].name@,
                ) {
                    Some(lv) => lv.spec_lt(#[trigger] adding_packages@[a].version),
                    None => true,
                },
        decreases n_adding - j,
    {
        let request = &adding_packages[j];
        let ghost prev_chosen = chosen@;
        match find_chosen(&chosen, &request.name) {
            Some(ci) => {
                proof {
                    assert(spec_pkg_names_have(chosen@, adding_packages@[j as int].name@));
                }
            },
            None => {
                let c = clone_package(request);
                let ghost prev_queue = queue@;
                enqueue_deps(&mut queue, &c);
                chosen_by.push(request.name.clone());
                chosen.push(c);
                proof {
                    assert(chosen@.last() == c);
                    assert forall|i: int, d: int|
                        0 <= i < chosen@.len() && 0 <= d < chosen@[i].vpm_dependencies@.len()
                            implies exists|q: int|
                        0 <= q < queue@.len() && queue@[q].name@
                            == (#[trigger] chosen@[i].vpm_dependencies@[d]).name@
                            && queue@[q].range == chosen@[i].vpm_dependencies@[d].range by {
                        if i < prev_chosen.len() {
                            assert(chosen@[i] == prev_chosen[i]);
                            let q0 = choose|q0: int|
                                0 <= q0 < prev_queue.len() && prev_queue[q0].name@
                                    == prev_chosen[i].vpm_dependencies@[d].name@
                                    && prev_queue[q0].range
                                    == prev_chosen[i].vpm_dependencies@[d].range;
                            assert(queue@[q0] == prev_queue[q0]);
                        } else {
                            assert(chosen@[i] == c);
                            assert(queue@[prev_queue.len() + d].name@
                                == c.vpm_dependencies@[d].name@);
                        }
                    }
                    assert(c.name@ == adding_packages@[j as int].name@);
                    assert(spec_same_package(c, adding_packages@[j as int]));
                    assert(c.vpm_dependencies@ == adding_packages@[j as int].vpm_dependencies@);
                    assert(spec_pkg_names_have(adding_packages@, c.name@));
                    assert(spec_addition_needed(c, adding_packages@, env.packages@, manifest.locked@));
                    assert forall|a: int| 0 <= a < chosen@.len() implies spec_addition_needed(
                        #[trigger] chosen@[a],
                        adding_packages@,
                        env.packages@,
                        manifest.locked@,
                    ) by {
                        if a < prev_chosen.len() {
                            assert(chosen@[a] == prev_chosen[a]);
                        }
                    }
                    assert forall|q: int| 0 <= q < queue@.len() implies spec_decl_of(
                        adding_packages@,
                        (#[trigger] queue@[q]).name@,
                        queue@[q].range,
                    ) || spec_decl_of(env.packages@, queue@[q].name@, queue@[q].range) by {
                        if q < prev_queue.len() {
                            assert(queue@[q] == prev_queue[q]);
                        } else {
                            let d = q - prev_queue.len();
                            assert(queue@[q].name@ == c.vpm_dependencies@[d].name@);
                            assert(queue@[q].range == c.vpm_dependencies@[d].range);
                            assert(adding_packages@[j as int].vpm_dependencies@[d].name@
                                == queue@[q].name@);
                            assert(spec_decl_of(adding_packages@, queue@[q].name@, queue@[q].range));
                        }
                    }
                    assert(spec_package_from(c, adding_packages@, env.packages@));
                    assert forall|a: int| 0 <= a < chosen@.len() implies spec_package_from(
                        #[trigger] chosen@[a],
                        adding_packages@,
                        env.packages@,
                    ) by {
                        if a < prev_chosen.len() {
                            assert(chosen@[a] == prev_chosen[a]);
                        }
                    }
                    assert forall|a: int| 0 <= a < j + 1 implies spec_pkg_names_have(
                        chosen@,
                        #[trigger] adding_packages@[a].name@,
                    ) by {
                        if a < j {
                            let w = choose|w: int|
                                0 <= w < prev_chosen.len() && prev_chosen[w].name@
                                    == adding_packages@[a].name@;
                            assert(chosen@[w] == prev_chosen[w]);
                        } else {
                            assert(chosen@[chosen@.len() - 1].name@ == adding_packages@[a].name@);
                        }
                    }
                }
            },
        }
        proof {
            assert forall|a: int| 0 <= a < j + 1 implies spec_pkg_names_have(
                chosen@,
                #[trigger] adding_packages@[a].name@,
            ) by {
                if a < j {
                    let w = choose|w: int|
                        0 <= w < prev_chosen.len() && prev_chosen[w].name@
                            == adding_packages@[a].name@;
                    assert(chosen@[w] == prev_chosen[w]);
                } else {
                    assert(spec_pkg_names_have(chosen@, adding_packages@[j as int].name@));
                }
            }
        }
        j = j + 1;
    }

    // Walk the queue: reuse a compatible chosen or locked version, else
    // consult the source; a disagreement becomes a conflict entry.
    let mut qi: usize = 0;
    while qi < queue.len()
        invariant
            qi <= queue@.len(),
            chosen_by@.len() == chosen@.len(),
            spec_pkg_names_distinct(chosen@),
            spec_monotone(chosen@, manifest.locked@),
            spec_all_from(chosen@, adding_packages@, env.packages@),
            forall|a: int|
                0 <= a < adding_packages@.len() ==> spec_pkg_names_have(
                    chosen@,
                    #[trigger] adding_packages@[a].name@,
                ),
            spec_deps_enqueued(chosen@, queue@),
            spec_settled_upto(queue@, qi as int, chosen@, conflicts@, manifest.locked@),
            spec_queue_from_decls(queue@, adding_packages@, env.packages@),
            spec_all_needed(chosen@, adding_packages@, env.packages@, manifest.locked@),
            spec_conflicts_wf(conflicts@),
            spec_conflict_names_bounded(conflicts@, chosen@, manifest.locked@),
        decreases spec_unchosen_count(env.packages@, chosen@), queue@.len() - qi,
    {
        let need_name = queue[qi].name.clone();
        let need_range = queue[qi].range;
        let need_requester = queue[qi].requester.clone();
        let ghost prev_queue = queue@;
        let ghost prev_chosen = chosen@;
        let ghost prev_conflicts = conflicts@;
        match find_chosen(&chosen, &need_name) {
            Some(ci) => {
                if !need_range.matches(&chosen[ci].version) {
                    let ghost chosen_witness = ci as int;
                    record_conflict(&mut conflicts, &need_name, Some(&chosen_by[ci]), &need_requester);
                    proof {
                        lemma_settled_conflicts_grow(
                            queue@,
                            qi as int,
                            chosen@,
                            prev_conflicts,
                            conflicts@,
                            manifest.locked@,
                        );
                        assert(queue@[qi as int].name@ == need_name@);
                        assert(spec_need_settled(
                            queue@[qi as int].name@,
                            queue@[qi as int].range,
                            chosen@,
                            conflicts@,
                            manifest.locked@,
                        ));
                        lemma_conflicts_wf_step(prev_conflicts, conflicts@, need_requester);
                        assert forall|e: int| 0 <= e < conflicts@.len() implies
                            spec_pkg_names_have(chosen@, (#[trigger] conflicts@[e]).name@)
                            || spec_locked_of(manifest.locked@, conflicts@[e].name@) is Some by {
                            if e < prev_conflicts.len() {
                                assert(conflicts@[e].name == prev_conflicts[e].name);
                            } else {
                                assert(conflicts@[e].name@ == need_name@);
                                assert(chosen@[chosen_witness].name@ == need_name@);
                            }
                        }
                    }
                } else {
                    proof {
                        assert(spec_need_settled(
                            queue@[qi as int].name@,
                            queue@[qi as int].range,
                            chosen@,
                            conflicts@,
                            manifest.locked@,
                        ));
                    }
                }
            },
            None => {
                let reuse_locked = match manifest.get_locked(&need_name) {
                    Some(l) => need_range.matches(&l.version),
                    None => false,
                };
                proof {
                    if reuse_locked {
                        assert(spec_need_settled(
                            queue@[qi as int].name@,
                            queue@[qi as int].range,
                            chosen@,
                            conflicts@,
                            manifest.locked@,
                        ));
                    }
                }
                if !reuse_locked {
                    match env.find(&need_name, &need_range, unity, allow_prerelease) {
                        None => {
                            proof {
                                assert(queue@[qi as int].name@ == need_name@);
                                assert(spec_decl_of(adding_packages@, need_name@, need_range)
                                    || spec_decl_of(env.packages@, need_name@, need_range));
                                assert(spec_find_best(
                                    env.packages@,
                                    need_name@,
                                    need_range,
                                    *unity,
                                    allow_prerelease,
                                ) is None);
                                assert(!spec_decl_resolvable(
                                    need_name@,
                                    need_range,
                                    manifest.locked@,
                                    env.packages@,
                                    *unity,
                                    allow_prerelease,
                                ));
                                assert(exists|rng: DependencyRange|
                                    (spec_decl_of(adding_packages@, need_name@, rng)
                                        || spec_decl_of(env.packages@, need_name@, rng))
                                        && !spec_decl_resolvable(
                                        need_name@,
                                        rng,
                                        manifest.locked@,
                                        env.packages@,
                                        *unity,
                                        allow_prerelease,
                                    ));
                            }
                            let not_found = AddPackageErr::DependencyNotFound {
                                dependency_name: need_name,
                            };
                            proof {
                                assert(match not_found {
                                    AddPackageErr::DependencyNotFound { dependency_name } =>
                                        dependency_name@ == need_name@,
                                    AddPackageErr::UpgradingNonLockedPackage { .. } => false,
                                });
                                assert(match not_found {
                                    AddPackageErr::DependencyNotFound { dependency_name } => (
                                    spec_decl_of(adding_packages@, dependency_name@, need_range)
                                        || spec_decl_of(
                                        env.packages@,
                                        dependency_name@,
                                        need_range,
                                    )) && !spec_decl_resolvable(
                                        dependency_name@,
                                        need_range,
                                        manifest.locked@,
                                        env.packages@,
                                        *unity,
                                        allow_prerelease,
                                    ),
                                    AddPackageErr::UpgradingNonLockedPackage { .. } => false,
                                });
                                assert(spec_err_justified(
                                    not_found,
                                    adding_packages@,
                                    env.packages@,
                                    manifest.locked@,
                                    *unity,
                                    allow_prerelease,
                                ));
                            }
                            return Err(not_found);
                        },
                        Some(p) => {
                            proof {
                                lemma_find_best_member(
                                    env.packages@,
                                    need_name@,
                                    need_range,
                                    *unity,
                                    allow_prerelease,
                                    *p,
                                );
                            }
                            let blocked = match manifest.get_locked(&need_name) {
                                Some(l) => !l.version.lt(&p.version),
                                None => false,
                            };
                            if blocked {
                                record_conflict(&mut conflicts, &need_name, None, &need_requester);
                                proof {
                                    lemma_settled_conflicts_grow(
                                        queue@,
                                        qi as int,
                                        chosen@,
                                        prev_conflicts,
                                        conflicts@,
                                        manifest.locked@,
                                    );
                                    assert(queue@[qi as int].name@ == need_name@);
                                    assert(spec_need_settled(
                                        queue@[qi as int].name@,
                                        queue@[qi as int].range,
                                        chosen@,
                                        conflicts@,
                                        manifest.locked@,
                                    ));
                                    lemma_conflicts_wf_step(
                                        prev_conflicts,
                                        conflicts@,
                                        need_requester,
                                    );
                                    assert forall|e: int| 0 <= e < conflicts@.len() implies
                                        spec_pkg_names_have(
                                        chosen@,
                                        (#[trigger] conflicts@[e]).name@,
                                    ) || spec_locked_of(
                                        manifest.locked@,
                                        conflicts@[e].name@,
                                    ) is Some by {
                                        if e < prev_conflicts.len() {
                                            assert(conflicts@[e].name
                                                == prev_conflicts[e].name);
                                        } else {
                                            assert(conflicts@[e].name@ == need_name@);
                                        }
                                    }
                                }
                            } else {
                                let c = clone_package(p);
                                let ghost prev_chosen = chosen@;
                                proof {
                                    lemma_unchosen_lt(env.packages@, chosen@, c);
                                    assert(c.name@ == need_name@);
                                }
                                enqueue_deps(&mut queue, &c);
                                chosen_by.push(need_requester);
                                chosen.push(c);
                                proof {
                                    assert(chosen@.last() == c);
                                    assert(queue@[qi as int].name@ == c.name@);
                                    assert(spec_decl_of(adding_packages@, c.name@, need_range)
                                        || spec_decl_of(env.packages@, c.name@, need_range));
                                    assert(need_range.spec_matches(c.version));
                                    assert(spec_addition_needed(
                                        c,
                                        adding_packages@,
                                        env.packages@,
                                        manifest.locked@,
                                    ));
                                    assert forall|a: int| 0 <= a < chosen@.len() implies
                                        spec_addition_needed(
                                        #[trigger] chosen@[a],
                                        adding_packages@,
                                        env.packages@,
                                        manifest.locked@,
                                    ) by {
                                        if a < prev_chosen.len() {
                                            assert(chosen@[a] == prev_chosen[a]);
                                        }
                                    }
                                    let we = choose|we: int|
                                        0 <= we < env.packages@.len() && env.packages@[we] == *p;
                                    assert(spec_same_package(c, env.packages@[we]));
                                    assert(c.vpm_dependencies@
                                        == env.packages@[we].vpm_dependencies@);
                                    assert forall|q: int| 0 <= q < queue@.len() implies
                                        spec_decl_of(
                                        adding_packages@,
                                        (#[trigger] queue@[q]).name@,
                                        queue@[q].range,
                                    ) || spec_decl_of(
                                        env.packages@,
                                        queue@[q].name@,
                                        queue@[q].range,
                                    ) by {
                                        if q < prev_queue.len() {
                                            assert(queue@[q] == prev_queue[q]);
                                        } else {
                                            let d = q - prev_queue.len();
                                            assert(queue@[q].name@
                                                == c.vpm_dependencies@[d].name@);
                                            assert(queue@[q].range
                                                == c.vpm_dependencies@[d].range);
                                            assert(env.packages@[we].vpm_dependencies@[d].name@
                                                == queue@[q].name@);
                                            assert(spec_decl_of(
                                                env.packages@,
                                                queue@[q].name@,
                                                queue@[q].range,
                                            ));
                                        }
                                    }
                                    assert forall|e: int| 0 <= e < conflicts@.len() implies
                                        spec_pkg_names_have(
                                        chosen@,
                                        (#[trigger] conflicts@[e]).name@,
                                    ) || spec_locked_of(
                                        manifest.locked@,
                                        conflicts@[e].name@,
                                    ) is Some by {
                                        if spec_pkg_names_have(
                                            prev_chosen,
                                            conflicts@[e].name@,
                                        ) {
                                            let w2 = choose|w2: int|
                                                0 <= w2 < prev_chosen.len()
                                                    && prev_chosen[w2].name@
                                                    == conflicts@[e].name@;
                                            assert(chosen@[w2] == prev_chosen[w2]);
                                        }
                                    }
                                    assert forall|q: int| 0 <= q < prev_queue.len() implies
                                        queue@[q] == prev_queue[q] by {}
                                    assert forall|i: int, d: int|
                                        0 <= i < chosen@.len() && 0 <= d
                                            < chosen@[i].vpm_dependencies@.len() implies exists|
                                        q: int,
                                    |
                                        0 <= q < queue@.len() && queue@[q].name@
                                            == (#[trigger] chosen@[i].vpm_dependencies@[d]).name@
                                            && queue@[q].range
                                            == chosen@[i].vpm_dependencies@[d].range by {
                                        if i < prev_chosen.len() {
                                            assert(chosen@[i] == prev_chosen[i]);
                                            let q0 = choose|q0: int|
                                                0 <= q0 < prev_queue.len() && prev_queue[q0].name@
                                                    == prev_chosen[i].vpm_dependencies@[d].name@
                                                    && prev_queue[q0].range
                                                    == prev_chosen[i].vpm_dependencies@[d].range;
                                            assert(queue@[q0] == prev_queue[q0]);
                                        } else {
                                            assert(chosen@[i] == c);
                                            assert(queue@[prev_queue.len() + d].name@
                                                == c.vpm_dependencies@[d].name@);
                                        }
                                    }
                                    assert forall|q: int| 0 <= q < qi as int + 1 implies
                                        spec_need_settled(
                                        (#[trigger] queue@[q]).name@,
                                        queue@[q].range,
                                        chosen@,
                                        conflicts@,
                                        manifest.locked@,
                                    ) by {
                                        assert(queue@[q] == prev_queue[q]);
                                        if q < qi as int {
                                            lemma_settled_extends(
                                                prev_queue[q].name@,
                                                prev_queue[q].range,
                                                prev_chosen,
                                                chosen@,
                                                conflicts@,
                                                manifest.locked@,
                                            );
                                        } else {
                                            assert(chosen@.last().name@ == queue@[q].name@);
                                            assert(queue@[q].range.spec_matches(
                                                chosen@.last().version,
                                            ));
                                        }
                                    }
                                    let w = choose|w: int|
                                        0 <= w < env.packages@.len() && env.packages@[w] == *p;
                                    assert(spec_same_package(c, env.packages@[w]));
                                    assert(spec_package_from(c, adding_packages@, env.packages@));
                                    assert forall|a: int| 0 <= a < chosen@.len() implies
                                        spec_package_from(
                                        #[trigger] chosen@[a],
                                        adding_packages@,
                                        env.packages@,
                                    ) by {
                                        if a < prev_chosen.len() {
                                            assert(chosen@[a] == prev_chosen[a]);
                                        }
                                    }
                                    assert forall|a: int|
                                        0 <= a < adding_packages@.len() implies spec_pkg_names_have(
                                        chosen@,
                                        #[trigger] adding_packages@[a].name@,
                                    ) by {
                                        let w2 = choose|w2: int|
                                            0 <= w2 < prev_chosen.len() && prev_chosen[w2].name@
                                                == adding_packages@[a].name@;
                                        assert(chosen@[w2] == prev_chosen[w2]);
                                    }
                                }
                            }
                        },
                    }
                }
            },
        }
        qi = qi + 1;
    }

    // Exclude conflicted names from the addition list.
    let n_chosen = chosen.len();
    let mut new_packages: Vec<PackageInfo> = Vec::new();
    let mut k: usize = 0;
    while k < n_chosen
        invariant
            n_chosen == chosen@.len(),
            k <= n_chosen,
            spec_pkg_names_distinct(chosen@),
            spec_monotone(chosen@, manifest.locked@),
            spec_all_from(chosen@, adding_packages@, env.packages@),
            forall|a: int|
                0 <= a < adding_packages@.len() ==> spec_pkg_names_have(
                    chosen@,
                    #[trigger] adding_packages@[a].name@,
                ),
            spec_pkg_names_distinct(new_packages@),
            spec_monotone(new_packages@, manifest.locked@),
            spec_all_from(new_packages@, adding_packages@, env.packages@),
            forall|i: int, jj: int|
                0 <= i < conflicts@.len() && 0 <= jj < new_packages@.len()
                    ==> conflicts@[i].name@ != new_packages@[jj].name@,
            forall|i: int|
                0 <= i < new_packages@.len() ==> exists|a: int|
                    0 <= a < k && spec_same_package(#[trigger] new_packages@[i], chosen@[a]),
            forall|a: int|
                0 <= a < k ==> (exists|jj: int|
                    0 <= jj < new_packages@.len() && new_packages@[jj].name@
                        == (#[trigger] chosen@[a]).name@ && new_packages@[jj].version
                        == chosen@[a].version) || spec_conflict_names_have(
                    conflicts@,
                    chosen@[a].name@,
                ),
            spec_deps_enqueued(chosen@, queue@),
            spec_settled_upto(
                queue@,
                queue@.len() as int,
                chosen@,
                conflicts@,
                manifest.locked@,
            ),
            spec_all_needed(chosen@, adding_packages@, env.packages@, manifest.locked@),
            spec_all_needed(new_packages@, adding_packages@, env.packages@, manifest.locked@),
        decreases n_chosen - k,
    {
        let mut conflicted = false;
        let n_conf = conflicts.len();
        let mut ii: usize = 0;
        while ii < n_conf
            invariant
                n_conf == conflicts@.len(),
                ii <= n_conf,
                k < chosen@.len(),
                conflicted ==> spec_conflict_names_have(conflicts@, chosen@[k as int].name@),
                !conflicted ==> forall|i: int|
                    0 <= i < ii ==> conflicts@[i].name@ != chosen@[k as int].name@,
            decreases n_conf - ii,
        {
            if conflicts[ii].name.eq(&chosen[k].name) {
                conflicted = true;
            }
            ii = ii + 1;
        }
        let ghost prev_new = new_packages@;
        if !conflicted {
            let c = clone_package(&chosen[k]);
            new_packages.push(c);
            proof {
                assert(new_packages@.last() == c);
                assert(spec_same_package(c, chosen@[k as int]));
                assert(spec_addition_needed(
                    chosen@[k as int],
                    adding_packages@,
                    env.packages@,
                    manifest.locked@,
                ));
                assert(c.name@ == chosen@[k as int].name@ && c.version
                    == chosen@[k as int].version);
                assert(spec_addition_needed(c, adding_packages@, env.packages@, manifest.locked@));
                assert forall|i1: int| 0 <= i1 < new_packages@.len() implies
                    spec_addition_needed(
                    #[trigger] new_packages@[i1],
                    adding_packages@,
                    env.packages@,
                    manifest.locked@,
                ) by {
                    if i1 < prev_new.len() {
                        assert(new_packages@[i1] == prev_new[i1]);
                    }
                }
                assert forall|i1: int, i2: int|
                    0 <= i1 < i2 < new_packages@.len() implies new_packages@[i1].name@
                    != new_packages@[i2].name@ by {
                    if i2 < prev_new.len() {
                        assert(new_packages@[i1] == prev_new[i1]);
                        assert(new_packages@[i2] == prev_new[i2]);
                    } else {
                        assert(new_packages@[i1] == prev_new[i1]);
                        let a = choose|a: int|
                            0 <= a < k && spec_same_package(prev_new[i1], chosen@[a]);
                        assert(chosen@[a].name@ != chosen@[k as int].name@);
                    }
                }
                assert forall|i1: int| 0 <= i1 < new_packages@.len() implies spec_package_from(
                    #[trigger] new_packages@[i1],
                    adding_packages@,
                    env.packages@,
                ) by {
                    if i1 < prev_new.len() {
                        assert(new_packages@[i1] == prev_new[i1]);
                    } else {
                        assert(spec_package_from(chosen@[k as int], adding_packages@, env.packages@));
                    }
                }
                assert forall|i1: int| 0 <= i1 < new_packages@.len() implies exists|a: int|
                    0 <= a < k + 1 && spec_same_package(#[trigger] new_packages@[i1], chosen@[a]) by {
                    if i1 < prev_new.len() {
                        assert(new_packages@[i1] == prev_new[i1]);
                        let a = choose|a: int|
                            0 <= a < k && spec_same_package(prev_new[i1], chosen@[a]);
                        assert(spec_same_package(new_packages@[i1], chosen@[a]));
                    } else {
                        assert(spec_same_package(new_packages@[i1], chosen@[k as int]));
                    }
                }
            }
        }
        proof {
            assert forall|a: int| 0 <= a < k + 1 implies (exists|jj: int|
                0 <= jj < new_packages@.len() && new_packages@[jj].name@
                    == (#[trigger] chosen@[a]).name@ && new_packages@[jj].version
                    == chosen@[a].version) || spec_conflict_names_have(
                conflicts@,
                chosen@[a].name@,
            ) by {
                if a < k {
                    if exists|jj: int|
                        0 <= jj < prev_new.len() && prev_new[jj].name@ == chosen@[a].name@
                            && prev_new[jj].version == chosen@[a].version {
                        let w = choose|w: int|
                            0 <= w < prev_new.len() && prev_new[w].name@ == chosen@[a].name@
                                && prev_new[w].version == chosen@[a].version;
                        assert(new_packages@[w] == prev_new[w]);
                    }
                } else {
                    if !spec_conflict_names_have(conflicts@, chosen@[a].name@) {
                        assert(new_packages@.last().name@ == chosen@[k as int].name@
                            && new_packages@.last().version == chosen@[k as int].version);
                    }
                }
            }
        }
        k = k + 1;
    }
    proof {
        assert forall|i: int, d: int|
            0 <= i < new_packages@.len() && 0 <= d < new_packages@[i].vpm_dependencies@.len()
                implies spec_need_settled(
            (#[trigger] new_packages@[i].vpm_dependencies@[d]).name@,
            new_packages@[i].vpm_dependencies@[d].range,
            new_packages@,
            conflicts@,
            manifest.locked@,
        ) by {
            let a = choose|a: int|
                0 <= a < chosen@.len() && spec_same_package(new_packages@[i], chosen@[a]);
            assert(new_packages@[i].vpm_dependencies@ == chosen@[a].vpm_dependencies@);
            let dn = chosen@[a].vpm_dependencies@[d].name@;
            let dr = chosen@[a].vpm_dependencies@[d].range;
            let q = choose|q: int|
                0 <= q < queue@.len() && queue@[q].name@ == dn && queue@[q].range == dr;
            assert(spec_need_settled(queue@[q].name@, queue@[q].range, chosen@, conflicts@,
                manifest.locked@));
            if exists|w: int|
                0 <= w < chosen@.len() && chosen@[w].name@ == dn && dr.spec_matches(
                    chosen@[w].version,
                ) {
                let w = choose|w: int|
                    0 <= w < chosen@.len() && chosen@[w].name@ == dn && dr.spec_matches(
                        chosen@[w].version,
                    );
                if !spec_conflict_names_have(conflicts@, dn) {
                    let jj = choose|jj: int|
                        0 <= jj < new_packages@.len() && new_packages@[jj].name@
                            == chosen@[w].name@ && new_packages@[jj].version
                            == chosen@[w].version;
                    assert(new_packages@[jj].name@ == dn && dr.spec_matches(
                        new_packages@[jj].version,
                    ));
                }
            }
        }
        assert(spec_plan_closed(new_packages@, conflicts@, manifest.locked@));
    }

    // Gather legacy names: superseded by an addition and currently locked.
    let mut found_legacy_packages: Vec<String> = Vec::new();
    let n_new = new_packages.len();
    let mut i: usize = 0;
    while i < n_new
        invariant
            n_new == new_packages@.len(),
            spec_plan_closed(new_packages@, conflicts@, manifest.locked@),
            spec_all_needed(new_packages@, adding_packages@, env.packages@, manifest.locked@),
            forall|a: int|
                0 <= a < found_legacy_packages@.len() ==> (spec_locked_of(
                    manifest.locked@,
                    #[trigger] found_legacy_packages@[a]@,
                ) is Some && exists|i2: int, k2: int|
                    0 <= i2 < new_packages@.len() && 0 <= k2
                        < new_packages@[i2].legacy_packages@.len()
                        && new_packages@[i2].legacy_packages@[k2]@
                        == found_legacy_packages@[a]@),
            forall|i2: int, k2: int|
                0 <= i2 < i && 0 <= k2 < new_packages@[i2].legacy_packages@.len()
                    && spec_locked_of(
                    manifest.locked@,
                    #[trigger] new_packages@[i2].legacy_packages@[k2]@,
                ) is Some ==> spec_names_contain(
                    found_legacy_packages@,
                    new_packages@[i2].legacy_packages@[k2]@,
                ),
            i <= n_new,
        decreases n_new - i,
    {
        let n_leg = new_packages[i].legacy_packages.len();
        let mut k2: usize = 0;
        while k2 < n_leg
            invariant
                i < new_packages@.len(),
                n_leg == new_packages@[i as int].legacy_packages@.len(),
                k2 <= n_leg,
                spec_plan_closed(new_packages@, conflicts@, manifest.locked@),
                spec_all_needed(new_packages@, adding_packages@, env.packages@, manifest.locked@),
                forall|a: int|
                    0 <= a < found_legacy_packages@.len() ==> (spec_locked_of(
                        manifest.locked@,
                        #[trigger] found_legacy_packages@[a]@,
                    ) is Some && exists|i2: int, k3: int|
                        0 <= i2 < new_packages@.len() && 0 <= k3
                            < new_packages@[i2].legacy_packages@.len()
                            && new_packages@[i2].legacy_packages@[k3]@
                            == found_legacy_packages@[a]@),
                forall|i2: int, k3: int|
                    0 <= i2 < i && 0 <= k3 < new_packages@[i2].legacy_packages@.len()
                        && spec_locked_of(
                        manifest.locked@,
                        #[trigger] new_packages@[i2].legacy_packages@[k3]@,
                    ) is Some ==> spec_names_contain(
                        found_legacy_packages@,
                        new_packages@[i2].legacy_packages@[k3]@,
                    ),
                forall|k3: int|
                    0 <= k3 < k2 && spec_locked_of(
                        manifest.locked@,
                        #[trigger] new_packages@[i as int].legacy_packages@[k3]@,
                    ) is Some ==> spec_names_contain(
                        found_legacy_packages@,
                        new_packages@[i as int].legacy_packages@[k3]@,
                    ),
            decreases n_leg - k2,
        {
            let legacy_name = &new_packages[i].legacy_packages[k2];
            let ghost prev_legacy = found_legacy_packages@;
            if manifest.is_locked(legacy_name) && !names_contain(
                &found_legacy_packages,
                legacy_name,
            ) {
                found_legacy_packages.push(legacy_name.clone());
                proof {
                    assert(found_legacy_packages@.last()@
                        == new_packages@[i as int].legacy_packages@[k2 as int]@);
                }
            }
            proof {
                assert forall|a: int| 0 <= a < found_legacy_packages@.len() implies (
                    spec_locked_of(
                        manifest.locked@,
                        #[trigger] found_legacy_packages@[a]@,
                    ) is Some && exists|i2: int, k3: int|
                        0 <= i2 < new_packages@.len() && 0 <= k3
                            < new_packages@[i2].legacy_packages@.len()
                            && new_packages@[i2].legacy_packages@[k3]@
                            == found_legacy_packages@[a]@) by {
                    if a < prev_legacy.len() {
                        assert(found_legacy_packages@[a] == prev_legacy[a]);
                    } else {
                        assert(found_legacy_packages@[a]@
                            == new_packages@[i as int].legacy_packages@[k2 as int]@);
                    }
                }
                assert forall|i2: int, k3: int|
                    0 <= i2 < new_packages@.len() && 0 <= k3
                        < new_packages@[i2].legacy_packages@.len() && spec_names_contain(
                        prev_legacy,
                        #[trigger] new_packages@[i2].legacy_packages@[k3]@,
                    ) implies spec_names_contain(
                    found_legacy_packages@,
                    new_packages@[i2].legacy_packages@[k3]@,
                ) by {
                    let w = choose|w: int|
                        0 <= w < prev_legacy.len() && prev_legacy[w]@
                            == new_packages@[i2].legacy_packages@[k3]@;
                    assert(found_legacy_packages@[w] == prev_legacy[w]);
                }
            }
            k2 = k2 + 1;
        }
        i = i + 1;
    }

    proof {
        assert forall|j: int| 0 <= j < adding_packages@.len() implies spec_pkg_names_have(
            new_packages@,
            #[trigger] adding_packages@[j].name@,
        ) || spec_conflict_names_have(conflicts@, adding_packages@[j].name@) by {
            let a = choose|a: int|
                0 <= a < chosen@.len() && chosen@[a].name@ == adding_packages@[j].name@;
            assert(spec_pkg_names_have(new_packages@, chosen@[a].name@)
                || spec_conflict_names_have(conflicts@, chosen@[a].name@));
        }
    }
    Ok(ResolveResult { new_packages, conflicts, found_legacy_packages })
}

} // verus!

use vrc_get_vpm::add_package::{AddPackageErr, AddPackageOperation, UnityProject};
use vrc_get_vpm::manifest::VpmManifest;
use vrc_get_vpm::package::{PackageInfo, VpmDependency};
use vrc_get_vpm::pending_changes::RemoveReason;
use vrc_get_vpm::source::PackageCollection;
use vrc_get_vpm::version::{DependencyRange, UnityVersion, Version};

fn name(n: &str) -> String {
    String::from(n)
}

fn pkg(n: &str, major: u64, minor: u64, patch: u64) -> PackageInfo {
    PackageInfo::new(name(n), Version::new(major, minor, patch))
}

fn dep(n: &str, range: DependencyRange) -> VpmDependency {
    VpmDependency::new(name(n), range)
}

#[test]
fn fresh_install_pulls_transitive_dependency() {
    // Empty project; A@1.0.0 depends on B: ^1.0; the source offers B@1.2.0.
    let project = UnityProject::new(VpmManifest::new(), None);
    let mut a = pkg("A", 1, 0, 0);
    a.vpm_dependencies.push(dep("B", DependencyRange::Caret(Version::new(1, 0, 0))));
    let mut source = PackageCollection::new();
    source.add(a.clone());
    source.add(pkg("B", 1, 2, 0));

    let plan = project
        .add_package_request(&source, vec![a], AddPackageOperation::InstallToDependencies, false)
        .unwrap();

    assert_eq!(plan.dependencies.len(), 1);
    assert_eq!(plan.dependencies[0].name, "A");
    assert_eq!(plan.dependencies[0].range, DependencyRange::Exact(Version::new(1, 0, 0)));
    assert_eq!(plan.locked_added.len(), 2);
    assert_eq!(plan.locked_added[0].name, "A");
    assert_eq!(plan.locked_added[0].version, Version::new(1, 0, 0));
    assert_eq!(plan.locked_added[1].name, "B");
    assert_eq!(plan.locked_added[1].version, Version::new(1, 2, 0));
    assert!(plan.conflicts.is_empty());
    assert!(plan.removed.is_empty());
}

#[test]
fn upgrade_of_older_version_is_silent_noop() {
    // A@2.0.0 already locked; upgrading to 1.5.0 yields the empty plan.
    let mut manifest = VpmManifest::new();
    manifest.add_locked(name("A"), Version::new(2, 0, 0), Vec::new());
    let project = UnityProject::new(manifest, None);
    let source = PackageCollection::new();

    let plan = project
        .add_package_request(
            &source,
            vec![pkg("A", 1, 5, 0)],
            AddPackageOperation::UpgradeLocked,
            false,
        )
        .unwrap();

    assert!(plan.dependencies.is_empty());
    assert!(plan.locked_added.is_empty());
    assert!(plan.removed.is_empty());
    assert!(plan.conflicts.is_empty());
}

#[test]
fn upgrade_of_unlocked_package_fails() {
    let project = UnityProject::new(VpmManifest::new(), None);
    let source = PackageCollection::new();

    let err = project
        .add_package_request(
            &source,
            vec![pkg("A", 1, 0, 0)],
            AddPackageOperation::UpgradeLocked,
            false,
        )
        .unwrap_err();

    match err {
        AddPackageErr::UpgradingNonLockedPackage { package_name } => {
            assert_eq!(package_name, "A");
        },
        _ => panic!("expected the non-locked upgrade error"),
    }
}

#[test]
fn incompatible_consumers_conflict_and_neither_version_installs() {
    // X needs Z exactly 1.0.0, Y needs Z exactly 2.0.0; both Z versions exist.
    let project = UnityProject::new(VpmManifest::new(), None);
    let mut x = pkg("X", 1, 0, 0);
    x.vpm_dependencies.push(dep("Z", DependencyRange::Exact(Version::new(1, 0, 0))));
    let mut y = pkg("Y", 1, 0, 0);
    y.vpm_dependencies.push(dep("Z", DependencyRange::Exact(Version::new(2, 0, 0))));
    let mut source = PackageCollection::new();
    source.add(pkg("Z", 1, 0, 0));
    source.add(pkg("Z", 2, 0, 0));

    let plan = project
        .add_package_request(
            &source,
            vec![x, y],
            AddPackageOperation::InstallToDependencies,
            false,
        )
        .unwrap();

    assert_eq!(plan.conflicts.len(), 1);
    assert_eq!(plan.conflicts[0].name, "Z");
    assert_eq!(plan.conflicts[0].conflicts_with, vec![String::from("X"), String::from("Y")]);
    let added: Vec<&str> = plan.locked_added.iter().map(|p| p.name.as_str()).collect();
    assert!(!added.contains(&"Z"));
    assert!(added.contains(&"X"));
    assert!(added.contains(&"Y"));
}

#[test]
fn superseded_locked_package_is_removed_as_legacy() {
    // NewSDK supersedes OldSDK, which is locked.
    let mut manifest = VpmManifest::new();
    manifest.add_locked(name("OldSDK"), Version::new(1, 0, 0), Vec::new());
    let project = UnityProject::new(manifest, None);
    let mut new_sdk = pkg("NewSDK", 1, 0, 0);
    new_sdk.legacy_packages.push(name("OldSDK"));
    let mut source = PackageCollection::new();
    source.add(new_sdk.clone());

    let plan = project
        .add_package_request(
            &source,
            vec![new_sdk],
            AddPackageOperation::InstallToDependencies,
            false,
        )
        .unwrap();

    assert_eq!(plan.removed.len(), 1);
    assert_eq!(plan.removed[0].name, "OldSDK");
    assert_eq!(plan.removed[0].reason, RemoveReason::Legacy);
}

#[test]
fn superseded_name_not_locked_is_not_removed() {
    let project = UnityProject::new(VpmManifest::new(), None);
    let mut new_sdk = pkg("NewSDK", 1, 0, 0);
    new_sdk.legacy_packages.push(name("OldSDK"));
    let source = PackageCollection::new();

    let plan = project
        .add_package_request(
            &source,
            vec![new_sdk],
            AddPackageOperation::InstallToDependencies,
            false,
        )
        .unwrap();

    assert!(plan.removed.is_empty());
}

#[test]
fn unresolvable_dependency_fails_whole_resolution() {
    // A depends on a name the source cannot produce; nothing is planned.
    let project = UnityProject::new(VpmManifest::new(), None);
    let mut a = pkg("A", 1, 0, 0);
    a.vpm_dependencies.push(dep("Missing", DependencyRange::Caret(Version::new(1, 0, 0))));
    let source = PackageCollection::new();

    let err = project
        .add_package_request(
            &source,
            vec![a],
            AddPackageOperation::InstallToDependencies,
            false,
        )
        .unwrap_err();

    match err {
        AddPackageErr::DependencyNotFound { dependency_name } => {
            assert_eq!(dependency_name, "Missing");
        },
        _ => panic!("expected the missing dependency error"),
    }
}

#[test]
fn install_of_already_satisfied_package_is_empty_plan() {
    // A locked at 1.0.0 and declared at exactly 1.0.0: installing A@1.0.0
    // changes nothing.
    let mut manifest = VpmManifest::new();
    manifest.add_dependency(name("A"), DependencyRange::Exact(Version::new(1, 0, 0)));
    manifest.add_locked(name("A"), Version::new(1, 0, 0), Vec::new());
    let project = UnityProject::new(manifest, None);
    let source = PackageCollection::new();

    let plan = project
        .add_package_request(
            &source,
            vec![pkg("A", 1, 0, 0)],
            AddPackageOperation::InstallToDependencies,
            false,
        )
        .unwrap();

    assert!(plan.dependencies.is_empty());
    assert!(plan.locked_added.is_empty());
    assert!(plan.removed.is_empty());
    assert!(plan.conflicts.is_empty());
}

#[test]
fn chosen_versions_strictly_exceed_locked_versions() {
    // A locked at 1.0.0; installing A@2.0.0 upgrades it.
    let mut manifest = VpmManifest::new();
    manifest.add_locked(name("A"), Version::new(1, 0, 0), Vec::new());
    let project = UnityProject::new(manifest, None);
    let mut source = PackageCollection::new();
    source.add(pkg("A", 2, 0, 0));

    let plan = project
        .add_package_request(
            &source,
            vec![pkg("A", 2, 0, 0)],
            AddPackageOperation::InstallToDependencies,
            false,
        )
        .unwrap();

    assert_eq!(plan.locked_added.len(), 1);
    assert_eq!(plan.locked_added[0].name, "A");
    assert!(Version::new(1, 0, 0).lt(&plan.locked_added[0].version));
}

#[test]
fn identical_requests_give_identical_plans() {
    let mut manifest = VpmManifest::new();
    manifest.add_locked(name("OldSDK"), Version::new(1, 0, 0), Vec::new());
    let project = UnityProject::new(manifest, None);
    let mut a = pkg("A", 1, 0, 0);
    a.vpm_dependencies.push(dep("B", DependencyRange::Caret(Version::new(1, 0, 0))));
    a.legacy_packages.push(name("OldSDK"));
    let mut source = PackageCollection::new();
    source.add(a.clone());
    source.add(pkg("B", 1, 2, 0));
    source.add(pkg("B", 1, 5, 0));

    let plan1 = project
        .add_package_request(
            &source,
            vec![a.clone()],
            AddPackageOperation::InstallToDependencies,
            false,
        )
        .unwrap();
    let plan2 = project
        .add_package_request(
            &source,
            vec![a],
            AddPackageOperation::InstallToDependencies,
            false,
        )
        .unwrap();

    assert_eq!(plan1, plan2);
}

#[test]
fn source_returns_highest_matching_version() {
    let mut source = PackageCollection::new();
    source.add(pkg("B", 1, 2, 0));
    source.add(pkg("B", 1, 5, 0));
    source.add(pkg("B", 2, 0, 0));
    let found = source
        .find(
            &name("B"),
            &DependencyRange::Caret(Version::new(1, 0, 0)),
            &None,
            false,
        )
        .unwrap();
    assert_eq!(found.version, Version::new(1, 5, 0));
}

#[test]
fn source_skips_prereleases_unless_allowed() {
    let mut source = PackageCollection::new();
    source.add(pkg("B", 1, 0, 0));
    let mut b_pre = PackageInfo::new(name("B"), Version::new_pre(1, 1, 0, 1));
    b_pre.vpm_dependencies = Vec::new();
    source.add(b_pre);

    let stable = source
        .find(&name("B"), &DependencyRange::Wildcard, &None, false)
        .unwrap();
    assert_eq!(stable.version, Version::new(1, 0, 0));

    let pre = source
        .find(&name("B"), &DependencyRange::Wildcard, &None, true)
        .unwrap();
    assert_eq!(pre.version, Version::new_pre(1, 1, 0, 1));
}

#[test]
fn locked_version_satisfying_range_is_reused() {
    // A depends on B ^1.0 and B@1.3.0 is already locked: B is not re-added.
    let mut manifest = VpmManifest::new();
    manifest.add_locked(name("B"), Version::new(1, 3, 0), Vec::new());
    let project = UnityProject::new(manifest, None);
    let mut a = pkg("A", 1, 0, 0);
    a.vpm_dependencies.push(dep("B", DependencyRange::Caret(Version::new(1, 0, 0))));
    let mut source = PackageCollection::new();
    source.add(a.clone());

    let plan = project
        .add_package_request(
            &source,
            vec![a],
            AddPackageOperation::InstallToDependencies,
            false,
        )
        .unwrap();

    let added: Vec<&str> = plan.locked_added.iter().map(|p| p.name.as_str()).collect();
    assert_eq!(added, vec!["A"]);
}

#[test]
fn manifest_lookups_find_first_entry() {
    let mut manifest = VpmManifest::new();
    manifest.add_dependency(name("A"), DependencyRange::Wildcard);
    manifest.add_locked(name("B"), Version::new(1, 0, 0), Vec::new());
    assert_eq!(manifest.get_dependency(&name("A")), Some(DependencyRange::Wildcard));
    assert_eq!(manifest.get_dependency(&name("B")), None);
    assert!(manifest.is_locked(&name("B")));
    assert!(!manifest.is_locked(&name("A")));
    let locked = manifest.get_locked(&name("B")).unwrap();
    assert_eq!(locked.version, Version::new(1, 0, 0));
    assert_eq!(manifest.all_locked().len(), 1);
}

#[test]
fn error_messages_name_the_package() {
    let e = AddPackageErr::DependencyNotFound { dependency_name: name("B") };
    assert_eq!(e.message(), "Package B (maybe dependencies of the package) not found");
    let e = AddPackageErr::UpgradingNonLockedPackage { package_name: name("A") };
    assert_eq!(e.message(), "Package A is not locked, so it cannot be upgraded");
}

#[test]
fn dependency_blocked_by_newer_locked_version_conflicts() {
    // A needs Z exactly 1.0.0, but Z@2.0.0 is already locked: Z cannot be
    // downgraded, so it becomes a conflict instead of an addition.
    let mut manifest = VpmManifest::new();
    manifest.add_locked(name("Z"), Version::new(2, 0, 0), Vec::new());
    let project = UnityProject::new(manifest, None);
    let mut a = pkg("A", 1, 0, 0);
    a.vpm_dependencies.push(dep("Z", DependencyRange::Exact(Version::new(1, 0, 0))));
    let mut source = PackageCollection::new();
    source.add(pkg("Z", 1, 0, 0));

    let plan = project
        .add_package_request(
            &source,
            vec![a],
            AddPackageOperation::InstallToDependencies,
            false,
        )
        .unwrap();

    assert_eq!(plan.conflicts.len(), 1);
    assert_eq!(plan.conflicts[0].name, "Z");
    assert_eq!(plan.conflicts[0].conflicts_with, vec![String::from("A")]);
    let added: Vec<&str> = plan.locked_added.iter().map(|p| p.name.as_str()).collect();
    assert_eq!(added, vec!["A"]);
}

#[test]
fn shared_dependency_is_chosen_once() {
    // A and B both need C ^1.0; one C enters the additions.
    let project = UnityProject::new(VpmManifest::new(), None);
    let mut a = pkg("A", 1, 0, 0);
    a.vpm_dependencies.push(dep("C", DependencyRange::Caret(Version::new(1, 0, 0))));
    let mut b = pkg("B", 1, 0, 0);
    b.vpm_dependencies.push(dep("C", DependencyRange::Caret(Version::new(1, 0, 0))));
    let mut source = PackageCollection::new();
    source.add(pkg("C", 1, 4, 0));

    let plan = project
        .add_package_request(
            &source,
            vec![a, b],
            AddPackageOperation::InstallToDependencies,
            false,
        )
        .unwrap();

    let added: Vec<&str> = plan.locked_added.iter().map(|p| p.name.as_str()).collect();
    assert_eq!(added, vec!["A", "B", "C"]);
    assert!(plan.conflicts.is_empty());
}

#[test]
fn engine_incompatible_candidates_are_skipped() {
    // B@2.0.0 needs a newer engine than the project runs; B@1.0.0 fits.
    let project = UnityProject::new(VpmManifest::new(), Some(UnityVersion::new(2019, 4, 31)));
    let mut a = pkg("A", 1, 0, 0);
    a.vpm_dependencies.push(dep("B", DependencyRange::Wildcard));
    let mut b_new = pkg("B", 2, 0, 0);
    b_new.min_unity = Some(UnityVersion::new(2022, 3, 0));
    let mut source = PackageCollection::new();
    source.add(a.clone());
    source.add(b_new);
    source.add(pkg("B", 1, 0, 0));

    let plan = project
        .add_package_request(
            &source,
            vec![a],
            AddPackageOperation::InstallToDependencies,
            false,
        )
        .unwrap();

    assert_eq!(plan.locked_added.len(), 2);
    assert_eq!(plan.locked_added[1].name, "B");
    assert_eq!(plan.locked_added[1].version, Version::new(1, 0, 0));
}

#[test]
fn declared_older_single_version_is_overwritten() {
    // A declared at exactly 0.9.0: requesting 1.0.0 rewrites the declaration.
    let mut manifest = VpmManifest::new();
    manifest.add_dependency(name("A"), DependencyRange::Exact(Version::new(0, 9, 0)));
    let project = UnityProject::new(manifest, None);
    let mut source = PackageCollection::new();
    source.add(pkg("A", 1, 0, 0));

    let plan = project
        .add_package_request(
            &source,
            vec![pkg("A", 1, 0, 0)],
            AddPackageOperation::InstallToDependencies,
            false,
        )
        .unwrap();

    assert_eq!(plan.dependencies.len(), 1);
    assert_eq!(plan.dependencies[0].range, DependencyRange::Exact(Version::new(1, 0, 0)));
}

#[test]
fn upgrade_does_not_edit_declarations() {
    // UpgradeLocked never stages top-level declaration edits.
    let mut manifest = VpmManifest::new();
    manifest.add_locked(name("A"), Version::new(1, 0, 0), Vec::new());
    let project = UnityProject::new(manifest, None);
    let mut source = PackageCollection::new();
    source.add(pkg("A", 2, 0, 0));

    let plan = project
        .add_package_request(
            &source,
            vec![pkg("A", 2, 0, 0)],
            AddPackageOperation::UpgradeLocked,
            false,
        )
        .unwrap();

    assert!(plan.dependencies.is_empty());
    assert_eq!(plan.locked_added.len(), 1);
    assert_eq!(plan.locked_added[0].version, Version::new(2, 0, 0));
}

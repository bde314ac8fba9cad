use vrc_get_vpm::manifest::VpmManifest;
use vrc_get_vpm::package::PackageInfo;
use vrc_get_vpm::pending_changes::{Builder, RemoveReason};
use vrc_get_vpm::version::{DependencyRange, Version};

#[test]
fn no_resolve_plan_keeps_only_declaration_edits() {
    let mut changes = Builder::new();
    changes.add_to_dependencies(
        String::from("A"),
        DependencyRange::Exact(Version::new(1, 0, 0)),
    );
    let plan = changes.build_no_resolve();
    assert_eq!(plan.dependencies.len(), 1);
    assert_eq!(plan.dependencies[0].name, "A");
    assert!(plan.locked_added.is_empty());
    assert!(plan.removed.is_empty());
    assert!(plan.conflicts.is_empty());
}

#[test]
fn resolve_plan_carries_all_staged_edits() {
    let mut manifest = VpmManifest::new();
    manifest.add_locked(String::from("Old"), Version::new(1, 0, 0), Vec::new());

    let mut changes = Builder::new();
    changes.add_to_dependencies(
        String::from("A"),
        DependencyRange::Exact(Version::new(2, 0, 0)),
    );
    changes.install_to_locked(PackageInfo::new(String::from("A"), Version::new(2, 0, 0)));
    changes.remove(String::from("Old"), RemoveReason::Legacy);
    changes.conflict_multiple(String::from("Z"), vec![String::from("X"), String::from("Y")]);

    let plan = changes.build_resolve(&manifest);
    assert_eq!(plan.dependencies.len(), 1);
    assert_eq!(plan.locked_added.len(), 1);
    assert_eq!(plan.removed.len(), 1);
    assert_eq!(plan.removed[0].name, "Old");
    assert_eq!(plan.conflicts.len(), 1);
    assert_eq!(plan.conflicts[0].conflicts_with.len(), 2);
}

#[test]
fn resolve_plan_drops_removals_no_longer_locked() {
    // The full finalizer re-reads the manifest: a staged removal whose
    // name is not locked any more is dropped.
    let manifest = VpmManifest::new();
    let mut changes = Builder::new();
    changes.remove(String::from("Gone"), RemoveReason::Legacy);
    let plan = changes.build_resolve(&manifest);
    assert!(plan.removed.is_empty());
}

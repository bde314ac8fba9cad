use vrc_get_vpm::environment::{
    choose_unity_hub, plan_unity_hub_sync, prefix_before_space, Environment, UnityInstallation,
};
use vrc_get_vpm::project::{ObjectId, Project, ProjectType, PROJECT_TYPE_WORLDS};
use vrc_get_vpm::version::UnityVersion;

fn inst(path: &str, version: Option<&str>, from_hub: bool) -> UnityInstallation {
    UnityInstallation::new(String::from(path), version.map(String::from), from_hub)
}

#[test]
fn installations_round_trip_through_environment() {
    let env = Environment::new(vec![
        inst("/a", Some("2019.4.31f1"), true),
        inst("/b", None, false),
    ]);
    let all = env.get_unity_installations();
    assert_eq!(all.len(), 2);
    assert_eq!(all[0].path(), "/a");
    assert_eq!(all[0].version(), UnityVersion::parse("2019.4.31f1"));
    assert!(all[0].loaded_from_hub());
    assert_eq!(all[1].version(), None);
    assert!(env.has_installation_at(&String::from("/a")));
    assert!(!env.has_installation_at(&String::from("/c")));
}

#[test]
fn suitable_unity_prefers_exact_match() {
    let env = Environment::new(vec![
        inst("/close", Some("2019.4.30f1"), false),
        inst("/exact", Some("2019.4.31f1"), false),
    ]);
    let expected = UnityVersion::parse("2019.4.31f1").unwrap();
    let got = env.find_most_suitable_unity(expected).unwrap();
    assert_eq!(got.path(), "/exact");
}

#[test]
fn suitable_unity_falls_back_by_band() {
    // Same major+minor+revision beats same major+minor beats same major.
    let env = Environment::new(vec![
        inst("/major", Some("2019.1.0f1"), false),
        inst("/minor", Some("2019.4.20f1"), false),
        inst("/revision", Some("2019.4.31f2"), false),
    ]);
    let expected = UnityVersion::parse("2019.4.31f1").unwrap();
    let got = env.find_most_suitable_unity(expected).unwrap();
    assert_eq!(got.path(), "/revision");

    let env = Environment::new(vec![
        inst("/major", Some("2019.1.0f1"), false),
        inst("/minor", Some("2019.4.20f1"), false),
    ]);
    let got = env.find_most_suitable_unity(expected).unwrap();
    assert_eq!(got.path(), "/minor");

    let env = Environment::new(vec![inst("/major", Some("2019.1.0f1"), false)]);
    let got = env.find_most_suitable_unity(expected).unwrap();
    assert_eq!(got.path(), "/major");

    let env = Environment::new(vec![inst("/other", Some("2022.1.0f1"), false)]);
    assert!(env.find_most_suitable_unity(expected).is_none());
}

#[test]
fn configured_hub_path_wins_when_valid() {
    let configured = String::from("/opt/hub");
    let defaults = vec![String::from("/d1"), String::from("/d2")];
    let flags = vec![true, true];
    let got = choose_unity_hub(&configured, true, &defaults, &flags);
    assert_eq!(got, Some((String::from("/opt/hub"), false)));
}

#[test]
fn first_existing_default_hub_is_chosen() {
    let configured = String::from("");
    let defaults = vec![String::from("/d1"), String::from("/d2")];
    let flags = vec![false, true];
    let got = choose_unity_hub(&configured, false, &defaults, &flags);
    assert_eq!(got, Some((String::from("/d2"), true)));
    let got = choose_unity_hub(&configured, false, &defaults, &vec![false, false]);
    assert_eq!(got, None);
}

#[test]
fn hub_sync_removes_updates_and_adds() {
    let installations = vec![
        inst("/gone", Some("2019.4.31f1"), true),
        inst("/stays", Some("2019.4.31f1"), false),
        inst("/flagged", Some("2022.3.6f1"), true),
    ];
    let exists = vec![false, true, true];
    let hub = vec![
        String::from("/stays"),
        String::from("/new"),
        String::from("/new"),
    ];
    let plan = plan_unity_hub_sync(&installations, &exists, &hub);
    assert_eq!(plan.to_remove, vec![String::from("/gone")]);
    assert_eq!(plan.to_update.len(), 2);
    assert_eq!(plan.to_update[0].path, "/stays");
    assert!(plan.to_update[0].loaded_from_hub);
    assert_eq!(plan.to_update[1].path, "/flagged");
    assert!(!plan.to_update[1].loaded_from_hub);
    assert_eq!(plan.to_add, vec![String::from("/new")]);
}

#[test]
fn version_token_stops_at_first_space() {
    let out: Vec<u8> = b"2019.4.31f1 (abc)".to_vec();
    assert_eq!(prefix_before_space(&out), b"2019.4.31f1".to_vec());
    let out: Vec<u8> = b"nospace".to_vec();
    assert_eq!(prefix_before_space(&out), b"nospace".to_vec());
    let out: Vec<u8> = Vec::new();
    assert_eq!(prefix_before_space(&out), Vec::<u8>::new());
}

#[test]
fn project_type_names_match_known_codes() {
    assert_eq!(ProjectType { code: 0 }.kind_name(), "Unknown");
    assert_eq!(ProjectType { code: PROJECT_TYPE_WORLDS }.kind_name(), "Worlds");
    assert_eq!(ProjectType { code: 9 }.kind_name(), "VPM Starter");
    assert_eq!(ProjectType { code: 77 }.kind_name(), "Unexpected(77)");
    assert_eq!(ProjectType { code: 10 }.kind_name(), "Unexpected(10)");
    assert_eq!(ProjectType { code: 4294967295 }.kind_name(), "Unexpected(4294967295)");
}

#[test]
fn project_record_keeps_its_fields() {
    let p = Project::new(
        String::from("/proj"),
        Some(String::from("2019.4.31f1")),
        10,
        20,
        ProjectType { code: PROJECT_TYPE_WORLDS },
        ObjectId { bytes: [7; 12] },
        true,
    );
    assert_eq!(p.path, "/proj");
    assert_eq!(p.created_at, 10);
    assert_eq!(p.updated_at, 20);
    assert!(p.favorite);
}

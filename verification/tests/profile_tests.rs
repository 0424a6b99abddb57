use dmaster_core::display_info::{DisplayProfile, DisplayTopology, MonitorProfile};
use dmaster_core::profile::{
    legacy_monitor_profile, load_profile_by_name, profile_file_name, profile_info,
    sanitize_profile_name, sort_profiles_by_name, split_profile_content, current_timestamp_string,
    ProfileContent, ProfileInfo,
};

fn info(name: &str, path: &str) -> ProfileInfo {
    let m = MonitorProfile::new(
        name.to_string(),
        None,
        "0".to_string(),
        DisplayProfile { topology: DisplayTopology::Extend, displays: vec![] },
    );
    profile_info(path.to_string(), m)
}

#[test]
fn sanitize_names() {
    assert_eq!(sanitize_profile_name("work-setup_2"), "work-setup_2");
    assert_eq!(sanitize_profile_name("home office/../x"), "home_office____x");
    assert_eq!(sanitize_profile_name("größe"), "gr__e");
    assert_eq!(sanitize_profile_name(""), "profile");
    assert_eq!(sanitize_profile_name(&sanitize_profile_name("a b")), "a_b");
    assert_eq!(profile_file_name("my desk"), "my_desk.json");
    assert_eq!(profile_file_name(""), "profile.json");
}

#[test]
fn legacy_and_current_content() {
    match split_profile_content("DMaster_v0_1_1\n{\"topology\": \"Extend\",\n\"displays\": []}\n") {
        ProfileContent::Legacy(json) => assert_eq!(json, "{\"topology\": \"Extend\",\n\"displays\": []}"),
        other => panic!("unexpected {other:?}"),
    }
    match split_profile_content("DMaster_v0_1_1\r\n{}") {
        ProfileContent::Legacy(json) => assert_eq!(json, "{}"),
        other => panic!("unexpected {other:?}"),
    }
    match split_profile_content("DMaster_v0_1_1") {
        ProfileContent::Legacy(json) => assert_eq!(json, ""),
        other => panic!("unexpected {other:?}"),
    }
    assert!(matches!(split_profile_content("{\"schema_version\": \"0.2.0\"}"), ProfileContent::Current));
    assert!(matches!(split_profile_content(" DMaster_v0_1_1\n{}"), ProfileContent::Current));
    assert!(matches!(split_profile_content(""), ProfileContent::Current));
}

#[test]
fn legacy_profile_is_imported() {
    let p = DisplayProfile { topology: DisplayTopology::Clone, displays: vec![] };
    let m = legacy_monitor_profile("old-desk".to_string(), "123".to_string(), p);
    assert_eq!(m.name, "old-desk");
    assert_eq!(m.schema_version, "0.2.0");
    assert_eq!(m.description.as_deref(), Some("Imported from legacy DMaster profile format"));
    assert_eq!(m.created_at, "123");
    assert_eq!(m.topology, DisplayTopology::Clone);
}

#[test]
fn timestamps() {
    assert_eq!(current_timestamp_string(Some(1772900816)), "1772900816");
    assert_eq!(current_timestamp_string(Some(0)), "0");
    assert_eq!(current_timestamp_string(None), "0");
    assert_eq!(current_timestamp_string(Some(u64::MAX)), u64::MAX.to_string());
}

#[test]
fn sorting_is_by_name_and_stable() {
    let v = vec![
        info("zeta", "1"),
        info("alpha", "2"),
        info("Zeta", "3"),
        info("alpha", "4"),
        info("alph", "5"),
        info("é", "6"),
    ];
    let mut expected: Vec<(String, String)> = v.iter().map(|p| (p.name.clone(), p.path.clone())).collect();
    expected.sort_by(|a, b| a.0.cmp(&b.0));
    let sorted = sort_profiles_by_name(v);
    let got: Vec<(String, String)> = sorted.iter().map(|p| (p.name.clone(), p.path.clone())).collect();
    assert_eq!(got, expected);
    assert_eq!(got[1], ("alph".to_string(), "5".to_string()));
    assert_eq!(got[2].1, "2");
    assert_eq!(got[3].1, "4");
}

#[test]
fn find_by_name() {
    let v = vec![info("a", "1"), info("b", "2"), info("b", "3")];
    let found = load_profile_by_name(v, "b").unwrap();
    assert_eq!(found.path, "2");
    let v = vec![info("a", "1")];
    assert_eq!(
        load_profile_by_name(v, "nope").map(|_| ()),
        Err("profile 'nope' was not found".to_string())
    );
}

#[test]
fn legacy_file_reads_back_its_json() {
    let mut display = serde_json::Map::new();
    display.insert("device_name".to_string(), serde_json::Value::String("DP-1".to_string()));
    display.insert("width".to_string(), serde_json::Value::from(1920));
    let mut root = serde_json::Map::new();
    root.insert("topology".to_string(), serde_json::Value::String("Extend".to_string()));
    root.insert(
        "displays".to_string(),
        serde_json::Value::Array(vec![serde_json::Value::Object(display)]),
    );
    let json = serde_json::to_string_pretty(&serde_json::Value::Object(root)).unwrap();
    let content = format!("{}\n{}", "DMaster_v0_1_1", json);
    match split_profile_content(&content) {
        ProfileContent::Legacy(body) => assert_eq!(body, json),
        other => panic!("unexpected {other:?}"),
    }
}

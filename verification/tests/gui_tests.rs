use dmaster_core::display_info::{DisplayConfig, DisplayProfile, DisplayTopology, MonitorProfile};
use dmaster_core::gui::{connectors_match, displays_for_profile, format_timestamp, orientation_label, profile_entry, topology_label};
use dmaster_core::profile::profile_info;

#[test]
fn timestamps_as_dates() {
    assert_eq!(format_timestamp("0"), "1970-01-01");
    // 1772900816 s = 20519 days = 56 years, 79 days -> month 3, day 20
    assert_eq!(format_timestamp("1772900816"), "2026-03-20");
    assert_eq!(format_timestamp("86399"), "1970-01-01");
    assert_eq!(format_timestamp("not a number"), "not a number");
    assert_eq!(format_timestamp("-5"), "-5");
}

#[test]
fn labels() {
    assert_eq!(topology_label(&DisplayTopology::Extend), "Extended");
    assert_eq!(topology_label(&DisplayTopology::Clone), "Cloned");
    assert_eq!(topology_label(&DisplayTopology::Internal), "Internal Only");
    assert_eq!(topology_label(&DisplayTopology::External), "External Only");
    assert_eq!(topology_label(&DisplayTopology::Unknown(3)), "Unknown");
    assert_eq!(orientation_label(0), "Normal");
    assert_eq!(orientation_label(1), "90\u{00b0} Left");
    assert_eq!(orientation_label(2), "180\u{00b0} Inverted");
    assert_eq!(orientation_label(3), "90\u{00b0} Right");
    assert_eq!(orientation_label(9), "Normal");
}

#[test]
fn rows_of_a_profile() {
    let a = DisplayConfig {
        label: None,
        device_name: "DP-1".into(),
        device_id: String::new(),
        device_key: String::new(),
        width: 2560,
        height: 1440,
        position_x: 0,
        position_y: -10,
        orientation: 3,
        enabled: true,
    };
    let mut b = a.clone();
    b.label = Some("Side".into());
    let m = MonitorProfile::new(
        "desk".into(),
        Some("two screens".into()),
        "0".into(),
        DisplayProfile { topology: DisplayTopology::Extend, displays: vec![a, b] },
    );
    let info = profile_info("p".into(), m);
    let rows = displays_for_profile(&info);
    assert_eq!(rows.len(), 2);
    assert_eq!(rows[0].name, "DP-1");
    assert_eq!(rows[1].name, "Side");
    assert_eq!(rows[0].resolution, "2560x1440");
    assert_eq!(rows[0].position, "0, -10");
    assert_eq!(rows[0].orientation, "90\u{00b0} Right");
    assert!(rows[0].is_primary && !rows[1].is_primary);
    let e = profile_entry(&info);
    assert_eq!(e.name, "desk");
    assert_eq!(e.description, "two screens");
    assert_eq!(e.display_count, 2);
    assert_eq!(e.created_at, "1970-01-01");
    assert_eq!(e.topology, "Extended");
}

fn named(n: &str) -> DisplayConfig {
    DisplayConfig {
        label: None,
        device_name: n.into(),
        device_id: String::new(),
        device_key: String::new(),
        width: 1,
        height: 1,
        position_x: 0,
        position_y: 0,
        orientation: 0,
        enabled: true,
    }
}

#[test]
fn connectors_matching() {
    use_matching();
}

fn use_matching() {
    let cur = vec![named("DP-1"), named("eDP-1")];
    assert!(connectors_match(&cur, &vec![named("eDP-1"), named("DP-1")]));
    assert!(!connectors_match(&cur, &vec![named("DP-1")]));
    assert!(!connectors_match(&cur, &vec![named("DP-1"), named("eDP-1"), named("HDMI-1")]));
    assert!(connectors_match(&vec![], &vec![]));
}

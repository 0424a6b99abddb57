use dmaster_core::backend::windows::{
    device_string, display_config_from_device, display_status, get_topology_flag,
    has_duplicate_exec, topology_after_buffer_sizes, topology_after_query, topology_status,
    windows_apply_plan, windows_mapped_plan, WindowsDisplayStep, SDC_APPLY, next_windows_action,
    topology_from_id, WindowsAction,
};
use dmaster_core::display_info::{DisplayConfig, DisplayMapping, DisplayProfile, DisplayTopology};

fn display(name: &str, enabled: bool) -> DisplayConfig {
    DisplayConfig {
        label: None,
        device_name: name.to_string(),
        device_id: String::new(),
        device_key: String::new(),
        width: 1920,
        height: 1080,
        position_x: -1920,
        position_y: 0,
        orientation: 1,
        enabled,
    }
}

fn wide(s: &str, pad: usize) -> Vec<u16> {
    let mut v: Vec<u16> = s.encode_utf16().collect();
    v.extend(std::iter::repeat(0).take(pad));
    v
}

#[test]
fn topology_flags() {
    assert_eq!(get_topology_flag(&DisplayTopology::Internal), 1);
    assert_eq!(get_topology_flag(&DisplayTopology::Clone), 2);
    assert_eq!(get_topology_flag(&DisplayTopology::Extend), 4);
    assert_eq!(get_topology_flag(&DisplayTopology::External), 8);
    assert_eq!(get_topology_flag(&DisplayTopology::Unknown(-3)), 4);
    assert_eq!(SDC_APPLY, 0x80);
}

#[test]
fn topology_from_query_results() {
    assert_eq!(topology_after_buffer_sizes(87), Some(DisplayTopology::Unknown(87)));
    assert_eq!(topology_after_buffer_sizes(0), None);
    assert_eq!(topology_after_query(5, 2, &vec![1, 1]), DisplayTopology::Unknown(5));
    assert_eq!(topology_after_query(0, 1, &vec![0]), DisplayTopology::Internal);
    assert_eq!(topology_after_query(0, 2, &vec![0, 0]), DisplayTopology::Clone);
    assert_eq!(topology_after_query(0, 3, &vec![0, 1, 2]), DisplayTopology::Extend);
    assert!(has_duplicate_exec(&vec![3, 9, 3]));
    assert!(!has_duplicate_exec(&vec![]));
}

#[test]
fn device_strings_drop_trailing_nuls() {
    assert_eq!(device_string(&wide("\\\\.\\DISPLAY1", 20)), "\\\\.\\DISPLAY1");
    assert_eq!(device_string(&vec![0x41, 0, 0x42, 0, 0]), "A\0B");
    // an unpaired surrogate decodes as U+FFFD; a pair as one character
    assert_eq!(device_string(&vec![0xD800, 0x41]), "\u{FFFD}A");
    assert_eq!(device_string(&vec![0xD83D, 0xDE00, 0]), "\u{1F600}");
    assert_eq!(device_string(&vec![0xDC00]), "\u{FFFD}");
}

#[test]
fn device_config() {
    let c = display_config_from_device(
        &wide("DISPLAY2", 3),
        &wide("PCI\\VEN", 1),
        &wide("Key", 0),
        2560,
        1440,
        -2560,
        0,
        2,
    );
    assert_eq!(c.label.as_deref(), Some("DISPLAY2"));
    assert_eq!(c.device_name, "DISPLAY2");
    assert_eq!(c.device_id, "PCI\\VEN");
    assert_eq!(c.device_key, "Key");
    assert_eq!((c.width, c.height, c.position_x, c.position_y, c.orientation), (2560, 1440, -2560, 0, 2));
    assert!(c.enabled);
}

#[test]
fn plan_for_connected_displays() {
    let p = DisplayProfile {
        topology: DisplayTopology::Clone,
        displays: vec![display("A", true), display("B", false)],
    };
    let plan = windows_apply_plan(&p, &vec!["B".to_string(), "A".to_string()]).unwrap();
    assert_eq!(plan.topology_flags, 0x82);
    assert_eq!(plan.steps.len(), 2);
    match &plan.steps[0] {
        WindowsDisplayStep::Apply { device_name, width, height, position_x, position_y, orientation } => {
            assert_eq!(device_name, "A");
            assert_eq!((*width, *height, *position_x, *position_y, *orientation), (1920, 1080, -1920, 0, 1));
        }
        other => panic!("unexpected {other:?}"),
    }
    match &plan.steps[1] {
        WindowsDisplayStep::Detach { device_name } => assert_eq!(device_name, "B"),
        other => panic!("unexpected {other:?}"),
    }
}

#[test]
fn plan_refusals() {
    let empty = DisplayProfile { topology: DisplayTopology::Extend, displays: vec![] };
    assert_eq!(
        windows_apply_plan(&empty, &vec![]).map(|_| ()),
        Err("profile does not contain any displays to apply".to_string())
    );
    let none = DisplayProfile { topology: DisplayTopology::Extend, displays: vec![display("A", false)] };
    assert_eq!(
        windows_apply_plan(&none, &vec!["A".to_string()]).map(|_| ()),
        Err("no enabled displays in profile".to_string())
    );
    let p = DisplayProfile {
        topology: DisplayTopology::Extend,
        displays: vec![display("A", true), display("Z", false), display("Y", true)],
    };
    assert_eq!(
        windows_apply_plan(&p, &vec!["A".to_string()]).map(|_| ()),
        Err("target display 'Z' is not currently connected".to_string())
    );
}

#[test]
fn mapped_plan() {
    let current = vec![display("\\\\.\\DISPLAY1", true)];
    let saved = DisplayProfile { topology: DisplayTopology::Extend, displays: vec![display("old", true)] };
    let plan = windows_mapped_plan(
        &current,
        &saved,
        &vec![DisplayMapping { current_display_name: "\\\\.\\DISPLAY1".into(), profile_display_index: 0 }],
        &vec!["\\\\.\\DISPLAY1".to_string()],
    )
    .unwrap();
    assert_eq!(plan.topology_flags, 0x84);
    assert_eq!(
        windows_mapped_plan(&current, &saved, &vec![DisplayMapping { current_display_name: "Q".into(), profile_display_index: 0 }], &vec![])
            .map(|_| ()),
        Err("current display 'Q' was not found while applying mapped profile".to_string())
    );
}

#[test]
fn call_statuses() {
    assert_eq!(topology_status(0), Ok(()));
    assert_eq!(
        topology_status(-2),
        Err("failed to apply display topology with status code -2".to_string())
    );
    let apply = WindowsDisplayStep::Apply {
        device_name: "A".into(),
        width: 1,
        height: 1,
        position_x: 0,
        position_y: 0,
        orientation: 0,
    };
    let detach = WindowsDisplayStep::Detach { device_name: "B".into() };
    assert_eq!(display_status(&apply, 0), Ok(()));
    assert_eq!(
        display_status(&apply, -1),
        Err("failed to apply settings for 'A' with status code -1".to_string())
    );
    assert_eq!(
        display_status(&detach, 2147483647),
        Err("failed to detach display 'B' with status code 2147483647".to_string())
    );
    assert_eq!(
        display_status(&detach, -2147483648),
        Err("failed to detach display 'B' with status code -2147483648".to_string())
    );
}

#[test]
fn apply_sequence_stops_at_first_failure() {
    use_sequence();
}

fn use_sequence() {
    let p = DisplayProfile {
        topology: DisplayTopology::Extend,
        displays: vec![display("A", true), display("B", false)],
    };
    let plan = windows_apply_plan(&p, &vec!["A".to_string(), "B".to_string()]).unwrap();
    assert!(matches!(next_windows_action(&plan, 0, None), WindowsAction::SetTopology(0x84)));
    assert!(matches!(next_windows_action(&plan, 1, Some(0)), WindowsAction::Change(0)));
    assert!(matches!(next_windows_action(&plan, 2, Some(0)), WindowsAction::Change(1)));
    assert!(matches!(next_windows_action(&plan, 3, Some(0)), WindowsAction::Done));
    match next_windows_action(&plan, 1, Some(-1)) {
        WindowsAction::Fail(e) => assert_eq!(e, "failed to apply display topology with status code -1"),
        other => panic!("unexpected {other:?}"),
    }
    match next_windows_action(&plan, 2, Some(5)) {
        WindowsAction::Fail(e) => assert_eq!(e, "failed to apply settings for 'A' with status code 5"),
        other => panic!("unexpected {other:?}"),
    }
    match next_windows_action(&plan, 3, Some(7)) {
        WindowsAction::Fail(e) => assert_eq!(e, "failed to detach display 'B' with status code 7"),
        other => panic!("unexpected {other:?}"),
    }
}

#[test]
fn topology_ids() {
    assert_eq!(topology_from_id(0, 4), DisplayTopology::Extend);
    assert_eq!(topology_from_id(0, 2), DisplayTopology::Clone);
    assert_eq!(topology_from_id(0, 1), DisplayTopology::Internal);
    assert_eq!(topology_from_id(0, 8), DisplayTopology::External);
    assert_eq!(topology_from_id(0, 16), DisplayTopology::Unknown(16));
    assert_eq!(topology_from_id(0, 0xFFFF_FFFF), DisplayTopology::Unknown(-1));
    assert_eq!(topology_from_id(31, 4), DisplayTopology::Unknown(31));
}

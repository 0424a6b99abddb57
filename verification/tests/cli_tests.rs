use dmaster_core::cli::{
    check_current_displays, disabled_profile, display_line, menu_choice, optional_trimmed,
    profile_choice_line, profile_dir_label, profile_list_line, select_profile_index, trimmed,
    ManualAction, ManualMappingPlan, MenuChoice, select_home,
};
use dmaster_core::display_info::{DisplayConfig, DisplayProfile, DisplayTopology, MonitorProfile};
use dmaster_core::profile::profile_info;

#[test]
fn trimming_answers() {
    assert_eq!(trimmed("  work \t\n"), "work");
    assert_eq!(trimmed("\u{3000}x\u{a0}"), "x");
    assert_eq!(optional_trimmed("   "), None);
    assert_eq!(optional_trimmed(" desk "), Some("desk".to_string()));
}

#[test]
fn directory_label() {
    assert_eq!(profile_dir_label(Ok("/home/u/.dmaster/profiles".into())), "/home/u/.dmaster/profiles");
    assert_eq!(profile_dir_label(Err("HOME unset".into())), "<unavailable: HOME unset>");
}

#[test]
fn menu_choices() {
    assert_eq!(menu_choice(" 1 "), MenuChoice::SaveCurrent);
    assert_eq!(menu_choice("2"), MenuChoice::List);
    assert_eq!(menu_choice("3"), MenuChoice::ApplyDirect);
    assert_eq!(menu_choice("4"), MenuChoice::ApplyWithMapping);
    assert_eq!(menu_choice("5"), MenuChoice::Delete);
    assert_eq!(menu_choice("6\n"), MenuChoice::Exit);
    assert_eq!(menu_choice("7"), MenuChoice::Invalid);
    assert_eq!(menu_choice("01"), MenuChoice::Invalid);
}

#[test]
fn selecting_a_profile() {
    assert_eq!(select_profile_index(" 1 ", 2), Ok(1));
    assert_eq!(select_profile_index("+0", 2), Ok(0));
    assert_eq!(select_profile_index("2", 2), Err("Profile index 2 is out of range.".to_string()));
    assert_eq!(select_profile_index("x", 2), Err("Invalid profile index: invalid digit found in string".to_string()));
    assert_eq!(select_profile_index("", 2), Err("Invalid profile index: cannot parse integer from empty string".to_string()));
    assert_eq!(
        select_profile_index("99999999999999999999999", 2),
        Err("Invalid profile index: number too large to fit in target type".to_string())
    );
}

#[test]
fn manual_mapping_answers() {
    let mut plan = ManualMappingPlan::new();
    assert_eq!(plan.finish(), Err("no display mappings were selected".to_string()));
    assert_eq!(plan.record_answer(&"DP-1".to_string(), "   "), Ok(()));
    assert_eq!(plan.record_answer(&"DP-2".to_string(), " OfF "), Ok(()));
    assert_eq!(plan.record_answer(&"DP-3".to_string(), "1"), Ok(()));
    assert_eq!(
        plan.record_answer(&"DP-4".to_string(), " one "),
        Err("invalid profile display index 'one': invalid digit found in string".to_string())
    );
    assert_eq!(plan.disabled_names, vec!["DP-2".to_string()]);
    assert_eq!(plan.mappings.len(), 1);
    assert_eq!(plan.mappings[0].current_display_name, "DP-3");
    assert_eq!(plan.mappings[0].profile_display_index, 1);
    assert_eq!(plan.finish(), Ok(()));
}

#[test]
fn turning_displays_off() {
    let p = disabled_profile(DisplayTopology::Extend, &vec!["A".to_string(), "B".to_string()]);
    assert_eq!(p.topology, DisplayTopology::Extend);
    assert_eq!(p.displays.len(), 2);
    assert_eq!(p.displays[1].device_name, "B");
    assert!(!p.displays[0].enabled);
    assert_eq!(p.displays[0].label, None);
    assert_eq!((p.displays[0].width, p.displays[0].height), (0, 0));
}

#[test]
fn current_displays_needed() {
    let empty = DisplayProfile { topology: DisplayTopology::Extend, displays: vec![] };
    assert_eq!(check_current_displays(&empty), Err("no current displays were detected".to_string()));
}

#[test]
fn menu_lines() {
    let d = DisplayConfig {
        label: Some("Left".into()),
        device_name: "DP-1".into(),
        device_id: String::new(),
        device_key: String::new(),
        width: 1920,
        height: 1080,
        position_x: -1920,
        position_y: 0,
        orientation: 0,
        enabled: true,
    };
    assert_eq!(display_line(0, &d, false), "[0] DP-1 1920x1080 @ -1920x0");
    assert_eq!(display_line(3, &d, true), "[3] Left 1920x1080 @ -1920x0");
    let m = MonitorProfile::new(
        "desk".into(),
        None,
        "42".into(),
        DisplayProfile { topology: DisplayTopology::Extend, displays: vec![d] },
    );
    let info = profile_info("/p/desk.json".into(), m);
    assert_eq!(profile_list_line(2, &info), "[2] desk | displays=1 | created_at=42 | description=-");
    assert_eq!(profile_choice_line(2, &info), "[2] desk (1 displays)");
}

#[test]
fn final_applies_in_order() {
    let mut plan = ManualMappingPlan::new();
    assert!(plan.final_actions(DisplayTopology::Clone).is_empty());
    plan.record_answer(&"DP-1".to_string(), "off").unwrap();
    let only_off = plan.final_actions(DisplayTopology::Clone);
    assert_eq!(only_off.len(), 1);
    plan.record_answer(&"DP-2".to_string(), "0").unwrap();
    let actions = plan.final_actions(DisplayTopology::Clone);
    assert_eq!(actions.len(), 2);
    match &actions[0] {
        ManualAction::ApplyMapped(m) => {
            assert_eq!(m.len(), 1);
            assert_eq!(m[0].current_display_name, "DP-2");
        }
        other => panic!("unexpected {other:?}"),
    }
    match &actions[1] {
        ManualAction::ApplyProfile(p) => {
            assert_eq!(p.topology, DisplayTopology::Clone);
            assert_eq!(p.displays.len(), 1);
            assert_eq!(p.displays[0].device_name, "DP-1");
            assert!(!p.displays[0].enabled);
        }
        other => panic!("unexpected {other:?}"),
    }
}

#[test]
fn home_directory_choice() {
    assert_eq!(select_home(Some("/h"), Some("/u")), Ok("/h"));
    assert_eq!(select_home(None, Some("/u")), Ok("/u"));
    assert_eq!(
        select_home::<&str>(None, None),
        Err("HOME/USERPROFILE is not set; cannot resolve profile directory".to_string())
    );
}

use dmaster_core::apply::MappingError;
use dmaster_core::backend::gnome_wayland::{
    check_apply_output, find_mode_id_for_resolution, format_python_error, gnome_apply_entries,
    gnome_display_config, gnome_mapped_profile, gnome_profile, mapping_error_text,
    orientation_to_transform, python_output, transform_to_orientation, AvailableMode,
    GnomeDisplay,
};
use dmaster_core::display_info::{DisplayConfig, DisplayMapping, DisplayProfile, DisplayTopology};

fn mode(id: &str, w: u32, h: u32, preferred: bool) -> AvailableMode {
    rated(id, w, h, Some(60_000), preferred)
}

fn rated(id: &str, w: u32, h: u32, refresh_key: Option<u64>, preferred: bool) -> AvailableMode {
    AvailableMode { mode_id: id.to_string(), width: w, height: h, refresh_key, is_preferred: preferred }
}

fn gnome(connector: &str, w: u32, h: u32, modes: Vec<AvailableMode>) -> GnomeDisplay {
    GnomeDisplay {
        connector: connector.to_string(),
        display_name: format!("Monitor {connector}"),
        vendor: "DEL".to_string(),
        product: "U2720Q".to_string(),
        serial: "123".to_string(),
        mode_id: format!("{w}x{h}@59.951"),
        width: w,
        height: h,
        x: 0,
        y: 0,
        transform: 1,
        primary: true,
        available_modes: modes,
    }
}

fn display(name: &str, w: u32, h: u32, x: i32, y: i32) -> DisplayConfig {
    DisplayConfig {
        label: None,
        device_name: name.to_string(),
        device_id: String::new(),
        device_key: String::new(),
        width: w,
        height: h,
        position_x: x,
        position_y: y,
        orientation: 2,
        enabled: true,
    }
}

#[test]
fn transforms_and_orientations() {
    for v in 0..4 {
        assert_eq!(transform_to_orientation(orientation_to_transform(v)), v);
    }
    assert_eq!(transform_to_orientation(5), 0);
    assert_eq!(orientation_to_transform(7), 0);
}

#[test]
fn gnome_display_is_read_as_a_config() {
    let c = gnome_display_config(&gnome("DP-3", 3840, 2160, vec![]));
    assert_eq!(c.label.as_deref(), Some("Monitor DP-3"));
    assert_eq!(c.device_name, "DP-3");
    assert_eq!(c.device_id, "DEL:U2720Q:123");
    assert_eq!(c.device_key, "3840x2160@59.951");
    assert_eq!(c.orientation, 1);
    assert!(c.enabled);
}

#[test]
fn gnome_profile_topology() {
    assert_eq!(gnome_profile(&vec![gnome("eDP-1", 1, 1, vec![])]).topology, DisplayTopology::Internal);
    assert_eq!(gnome_profile(&vec![gnome("HDMI-1", 1, 1, vec![])]).topology, DisplayTopology::External);
    assert_eq!(gnome_profile(&vec![]).topology, DisplayTopology::External);
    let two = gnome_profile(&vec![gnome("eDP-1", 1, 1, vec![]), gnome("DP-1", 1, 1, vec![])]);
    assert_eq!(two.topology, DisplayTopology::Extend);
    assert_eq!(two.displays.len(), 2);
}

#[test]
fn mode_choice_prefers_current_then_preferred_then_refresh() {
    let d = gnome(
        "DP-1",
        1920,
        1080,
        vec![
            rated("2560x1440@59.951", 2560, 1440, Some(59_951), false),
            rated("2560x1440@143.912", 2560, 1440, Some(143_912), false),
            rated("2560x1440@119.998", 2560, 1440, Some(119_998), false),
            mode("1280x1024@60.020", 1280, 1024, false),
            mode("1280x1024@75.025", 1280, 1024, true),
        ],
    );
    assert_eq!(find_mode_id_for_resolution(&d, 1920, 1080), "1920x1080@59.951");
    assert_eq!(find_mode_id_for_resolution(&d, 1280, 1024), "1280x1024@75.025");
    assert_eq!(find_mode_id_for_resolution(&d, 800, 600), "800x600@60.000");
    assert_eq!(find_mode_id_for_resolution(&d, 2560, 1440), "2560x1440@143.912");
}

#[test]
fn fastest_mode_is_the_last_of_equals() {
    let d = gnome(
        "DP-2",
        1920,
        1080,
        vec![
            rated("a", 2560, 1440, Some(144_000), false),
            rated("b", 2560, 1440, Some(144_000), false),
            rated("c", 2560, 1440, Some(60_000), false),
        ],
    );
    assert_eq!(find_mode_id_for_resolution(&d, 2560, 1440), "b");
}

#[test]
fn rate_that_is_not_a_number_compares_equal() {
    let d = gnome(
        "DP-2",
        1920,
        1080,
        vec![
            rated("fast", 2560, 1440, Some(144_000), false),
            rated("unknown", 2560, 1440, None, false),
            rated("slow", 2560, 1440, Some(60_000), false),
        ],
    );
    assert_eq!(find_mode_id_for_resolution(&d, 2560, 1440), "slow");
}

#[test]
fn apply_entries_for_enabled_displays() {
    let state = vec![gnome("DP-1", 1920, 1080, vec![mode("2560x1440@60", 2560, 1440, true)])];
    let mut off = display("HDMI-1", 0, 0, 0, 0);
    off.enabled = false;
    let p = DisplayProfile {
        topology: DisplayTopology::Extend,
        displays: vec![off, display("DP-1", 2560, 1440, 10, 20), display("DP-9", 1024, 768, 2570, 0)],
    };
    let es = gnome_apply_entries(&p, &state).unwrap();
    assert_eq!(es.len(), 2);
    assert_eq!(es[0].connector, "DP-1");
    assert_eq!(es[0].mode_id.as_str(), "2560x1440@60");
    assert_eq!(es[0].state_index, Some(0));
    assert_eq!((es[0].x, es[0].y, es[0].transform), (10, 20, 2));
    assert!(es[0].primary);
    assert_eq!(es[1].connector, "DP-9");
    assert_eq!(es[1].mode_id.as_str(), "1024x768@60.000");
    assert_eq!(es[1].state_index, None);
    assert!(!es[1].primary);
}

#[test]
fn apply_entries_refuse_without_enabled_display() {
    let mut off = display("HDMI-1", 0, 0, 0, 0);
    off.enabled = false;
    let p = DisplayProfile { topology: DisplayTopology::Extend, displays: vec![off] };
    assert_eq!(
        gnome_apply_entries(&p, &vec![]).map(|_| ()),
        Err("no enabled displays in profile".to_string())
    );
}

#[test]
fn mapped_profile_uses_reported_connectors() {
    let state = vec![gnome("DP-1", 1920, 1080, vec![])];
    let saved = DisplayProfile {
        topology: DisplayTopology::Extend,
        displays: vec![display("old", 1920, 1080, 5, 6)],
    };
    let p = gnome_mapped_profile(
        &state,
        &saved,
        &vec![DisplayMapping { current_display_name: "DP-1".into(), profile_display_index: 0 }],
    )
    .unwrap();
    assert_eq!(p.topology, DisplayTopology::Extend);
    assert_eq!(p.displays.len(), 1);
    assert_eq!(p.displays[0].device_name, "DP-1");
    assert_eq!(p.displays[0].label.as_deref(), Some("Monitor DP-1"));
    assert_eq!(p.displays[0].device_id, "DEL:U2720Q:123");
    assert_eq!(p.displays[0].device_key, "1920x1080@59.951");
    assert_eq!((p.displays[0].position_x, p.displays[0].position_y), (5, 6));
    assert_eq!(p.displays[0].orientation, 2);
    assert_eq!(
        gnome_mapped_profile(
            &state,
            &saved,
            &vec![DisplayMapping { current_display_name: "DP-7".into(), profile_display_index: 0 }],
        )
        .map(|_| ()),
        Err("current display 'DP-7' not found".to_string())
    );
    assert_eq!(
        mapping_error_text(&MappingError::ProfileIndexOutOfRange(2)),
        "profile display index 2 out of range"
    );
}

#[test]
fn python_error_wording() {
    let trace = "Traceback (most recent call last):\n  File \"<string>\", line 9, in <module>\ndbus.exceptions.DBusException: org.freedesktop.DBus.Error.AccessDenied: Logical monitors not adjacent\n\n";
    assert_eq!(
        format_python_error(trace),
        "Mutter D-Bus apply failed: org.freedesktop.DBus.Error.AccessDenied: Logical monitors not adjacent"
    );
    let panel = "x\nGDBus.Error: Refusing to activate a closed laptop panel\n";
    assert_eq!(
        format_python_error(panel),
        "cannot enable the built-in display because the laptop panel is closed"
    );
    assert_eq!(format_python_error("no colon here"), "Mutter D-Bus apply failed: no colon here");
    assert_eq!(format_python_error(""), "Mutter D-Bus apply failed: ");
    assert_eq!(format_python_error("Error: "), "Mutter D-Bus apply failed: Error: ");
}

#[test]
fn apply_output_check() {
    assert_eq!(python_output("  ok \n"), "ok");
    assert_eq!(check_apply_output("ok"), Ok(()));
    assert_eq!(check_apply_output("failed"), Err("unexpected apply result: failed".to_string()));
}

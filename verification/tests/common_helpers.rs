use dmaster_core::display_info::{default_enabled, DisplayConfig, DisplayProfile, DisplayTopology, MonitorProfile};

fn display(name: &str, w: u32, h: u32, x: i32, y: i32) -> DisplayConfig {
    DisplayConfig {
        label: Some(name.to_string()),
        device_name: name.to_string(),
        device_id: String::new(),
        device_key: String::new(),
        width: w,
        height: h,
        position_x: x,
        position_y: y,
        orientation: 0,
        enabled: true,
    }
}

#[test]
fn default_enabled_is_true() {
    assert!(default_enabled());
}

#[test]
fn monitor_profile_new_stamps_schema_version() {
    let p = DisplayProfile {
        topology: DisplayTopology::Extend,
        displays: vec![display("eDP-1", 1920, 1200, 0, 0)],
    };
    let m = MonitorProfile::new(
        "work".to_string(),
        Some("desk".to_string()),
        "1772900816".to_string(),
        p,
    );
    assert_eq!(m.schema_version, "0.2.0");
    assert_eq!(m.name, "work");
    assert_eq!(m.description.as_deref(), Some("desk"));
    assert_eq!(m.created_at, "1772900816");
    assert_eq!(m.topology, DisplayTopology::Extend);
    assert_eq!(m.displays.len(), 1);
}

#[test]
fn saved_profile_gives_back_its_arrangement() {
    let p = DisplayProfile {
        topology: DisplayTopology::Clone,
        displays: vec![display("A", 800, 600, 0, 0), display("B", 1024, 768, 800, 0)],
    };
    let m = MonitorProfile::new("n".to_string(), None, "0".to_string(), p.clone());
    let q = m.to_display_profile();
    assert_eq!(q.topology, p.topology);
    assert_eq!(q.displays.len(), 2);
    assert_eq!(q.displays[1].device_name, "B");
    assert_eq!(q.displays[1].position_x, 800);
    assert_eq!(q.displays[0].width, 800);
}

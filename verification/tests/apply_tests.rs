use dmaster_core::apply::{
    apply_profile, apply_profile_with_mapping, has_overlap, merge_display_config, normalize_profile,
    rects_overlap, MappingError,
};
use dmaster_core::display_info::{DisplayConfig, DisplayMapping, DisplayProfile, DisplayTopology};

fn display(name: &str, w: u32, h: u32, x: i32, y: i32) -> DisplayConfig {
    DisplayConfig {
        label: Some(name.to_string()),
        device_name: name.to_string(),
        device_id: format!("id-{name}"),
        device_key: format!("key-{name}"),
        width: w,
        height: h,
        position_x: x,
        position_y: y,
        orientation: 0,
        enabled: true,
    }
}

fn profile(topology: DisplayTopology, displays: Vec<DisplayConfig>) -> DisplayProfile {
    DisplayProfile { topology, displays }
}

#[test]
fn rects_overlap_detects_shared_area() {
    let a = display("A", 100, 100, 0, 0);
    let b = display("B", 100, 100, 50, 50);
    let c = display("C", 100, 100, 100, 0);
    assert!(rects_overlap(&a, &b));
    assert!(rects_overlap(&b, &a));
    assert!(!rects_overlap(&a, &c));
}

#[test]
fn rects_overlap_wraps_wide_widths_like_an_i32_cast() {
    // 3_000_000_000 as i32 is negative: the right edge lies left of the origin.
    let a = display("A", 3_000_000_000, 100, 0, 0);
    let b = display("B", 100, 100, 10, 0);
    assert!(!rects_overlap(&a, &b));
}

#[test]
fn has_overlap_ignores_disabled_displays() {
    let mut b = display("B", 100, 100, 50, 0);
    b.enabled = false;
    let ds = vec![display("A", 100, 100, 0, 0), b];
    assert!(!has_overlap(&ds));
    let ds2 = vec![display("A", 100, 100, 0, 0), display("B", 100, 100, 50, 0)];
    assert!(has_overlap(&ds2));
}

#[test]
fn normalize_tiles_overlapping_extended_displays() {
    let p = profile(
        DisplayTopology::Extend,
        vec![
            display("A", 1920, 1080, 0, 0),
            display("B", 1280, 1024, 0, 0),
            display("C", 800, 600, -100, 40),
        ],
    );
    let n = normalize_profile(&p);
    assert_eq!(n.topology, DisplayTopology::Extend);
    // order by (x, y, index): C (-100,40), A (0,0,idx0), B (0,0,idx1)
    assert_eq!((n.displays[2].position_x, n.displays[2].position_y), (0, 0));
    assert_eq!((n.displays[0].position_x, n.displays[0].position_y), (800, 0));
    assert_eq!((n.displays[1].position_x, n.displays[1].position_y), (800 + 1920, 0));
    assert_eq!(n.displays[0].width, 1920);
    assert_eq!(n.displays[1].device_name, "B");
    assert!(!has_overlap(&n.displays));
}

#[test]
fn normalize_keeps_disabled_displays() {
    let mut off = display("OFF", 1000, 1000, 5, 5);
    off.enabled = false;
    let p = profile(
        DisplayTopology::Extend,
        vec![display("A", 100, 100, 0, 0), off, display("B", 100, 100, 10, 10)],
    );
    let n = normalize_profile(&p);
    assert_eq!((n.displays[1].position_x, n.displays[1].position_y), (5, 5));
    assert_eq!(n.displays[0].position_x, 0);
    assert_eq!((n.displays[2].position_x, n.displays[2].position_y), (100, 0));
}

#[test]
fn normalize_leaves_non_overlapping_and_non_extended_profiles() {
    let apart = profile(
        DisplayTopology::Extend,
        vec![display("A", 100, 100, 0, 0), display("B", 100, 100, 100, 0)],
    );
    let n = normalize_profile(&apart);
    assert_eq!(n.displays[1].position_x, 100);
    let cloned = profile(
        DisplayTopology::Clone,
        vec![display("A", 100, 100, 0, 0), display("B", 100, 100, 0, 0)],
    );
    let m = normalize_profile(&cloned);
    assert_eq!(m.displays[1].position_x, 0);
    assert_eq!(m.topology, DisplayTopology::Clone);
}

#[test]
fn normalize_is_idempotent() {
    let p = profile(
        DisplayTopology::Extend,
        vec![display("A", 300, 200, 10, 10), display("B", 400, 300, 0, 0)],
    );
    let once = normalize_profile(&p);
    let twice = normalize_profile(&once);
    for i in 0..2 {
        assert_eq!(once.displays[i].position_x, twice.displays[i].position_x);
        assert_eq!(once.displays[i].position_y, twice.displays[i].position_y);
    }
}

#[test]
fn apply_profile_hands_over_the_normalized_profile() {
    let p = profile(
        DisplayTopology::Extend,
        vec![display("A", 300, 200, 0, 0), display("B", 400, 300, 0, 0)],
    );
    let a = apply_profile(&p);
    assert_eq!(a.displays[0].position_x, 0);
    assert_eq!(a.displays[1].position_x, 300);
}

#[test]
fn merge_takes_identity_from_current_and_settings_from_saved() {
    let current = display("HDMI-1", 1024, 768, 0, 0);
    let mut source = display("saved", 2560, 1440, 30, 40);
    source.orientation = 2;
    source.enabled = false;
    let m = merge_display_config(&current, &source);
    assert_eq!(m.device_name, "HDMI-1");
    assert_eq!(m.device_id, "id-HDMI-1");
    assert_eq!(m.device_key, "key-HDMI-1");
    assert_eq!(m.label.as_deref(), Some("saved"));
    assert_eq!((m.width, m.height, m.position_x, m.position_y), (2560, 1440, 30, 40));
    assert_eq!(m.orientation, 2);
    assert!(!m.enabled);
    source.label = None;
    let m2 = merge_display_config(&current, &source);
    assert_eq!(m2.label.as_deref(), Some("HDMI-1"));
}

#[test]
fn mapping_resolves_in_order() {
    let current = vec![display("DP-1", 1920, 1080, 0, 0), display("DP-2", 1920, 1080, 1920, 0)];
    let saved = profile(
        DisplayTopology::Extend,
        vec![display("left", 2560, 1440, 0, 0), display("right", 1280, 1024, 2560, 0)],
    );
    let maps = vec![
        DisplayMapping { current_display_name: "DP-2".to_string(), profile_display_index: 0 },
        DisplayMapping { current_display_name: "DP-1".to_string(), profile_display_index: 1 },
    ];
    let r = apply_profile_with_mapping(&current, &saved, &maps).unwrap();
    assert_eq!(r.topology, DisplayTopology::Extend);
    assert_eq!(r.displays.len(), 2);
    assert_eq!(r.displays[0].device_name, "DP-2");
    assert_eq!(r.displays[0].width, 2560);
    assert_eq!(r.displays[1].device_name, "DP-1");
    assert_eq!(r.displays[1].position_x, 2560);
}

#[test]
fn mapping_reports_missing_display_and_bad_index() {
    let current = vec![display("DP-1", 1920, 1080, 0, 0)];
    let saved = profile(DisplayTopology::Extend, vec![display("left", 2560, 1440, 0, 0)]);
    let maps = vec![DisplayMapping {
        current_display_name: "HDMI-9".to_string(),
        profile_display_index: 0,
    }];
    match apply_profile_with_mapping(&current, &saved, &maps) {
        Err(MappingError::CurrentDisplayNotFound(n)) => assert_eq!(n, "HDMI-9"),
        other => panic!("unexpected {other:?}"),
    }
    let maps = vec![DisplayMapping {
        current_display_name: "DP-1".to_string(),
        profile_display_index: 3,
    }];
    match apply_profile_with_mapping(&current, &saved, &maps) {
        Err(MappingError::ProfileIndexOutOfRange(i)) => assert_eq!(i, 3),
        other => panic!("unexpected {other:?}"),
    }
}

#[test]
fn mapping_with_no_mappings_gives_no_displays() {
    let current = vec![display("DP-1", 1920, 1080, 0, 0)];
    let saved = profile(DisplayTopology::Internal, vec![display("left", 2560, 1440, 0, 0)]);
    let r = apply_profile_with_mapping(&current, &saved, &vec![]).unwrap();
    assert!(r.displays.is_empty());
    assert_eq!(r.topology, DisplayTopology::Internal);
}

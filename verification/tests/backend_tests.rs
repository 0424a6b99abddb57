use dmaster_core::backend::{
    get_backend, get_display_profile, is_gnome_session, names_gnome, BackendKind, DisplayBackend, Platform,
    QueryOutput, UnsupportedDisplayBackend,
};
use dmaster_core::backend::gnome_wayland::GnomeDisplay;
use dmaster_core::display_info::{DisplayConfig, DisplayProfile, DisplayTopology};

#[test]
fn gnome_session_detection_lowercases() {
    assert!(is_gnome_session(Some("GNOME")));
    assert!(is_gnome_session(Some("ubuntu:GNOME")));
    assert!(is_gnome_session(Some("gnome-classic")));
    assert!(!is_gnome_session(Some("KDE")));
    assert!(!is_gnome_session(None));
}

#[test]
fn backend_selection() {
    assert_eq!(get_backend(Platform::Windows, true, Some("GNOME")), BackendKind::Windows);
    assert_eq!(get_backend(Platform::Linux, true, Some("ubuntu:GNOME")), BackendKind::GnomeWayland);
    assert_eq!(get_backend(Platform::Linux, false, Some("GNOME")), BackendKind::LinuxX11);
    assert_eq!(get_backend(Platform::Linux, true, Some("sway")), BackendKind::LinuxX11);
    assert_eq!(get_backend(Platform::Linux, true, None), BackendKind::LinuxX11);
    assert_eq!(get_backend(Platform::Other, true, Some("GNOME")), BackendKind::Unsupported);
}

#[test]
fn unsupported_backend_refuses_everything() {
    let b = UnsupportedDisplayBackend;
    assert_eq!(
        b.get_display_profile().map(|_| ()),
        Err("display querying is not supported on this platform".to_string())
    );
    let p = DisplayProfile { topology: DisplayTopology::Extend, displays: vec![] };
    assert_eq!(
        b.apply_profile(&p),
        Err("display applying is not supported on this platform".to_string())
    );
    assert_eq!(
        b.apply_with_mapping(&p, &[]),
        Err("display mapping is not supported on this platform".to_string())
    );
}

#[test]
fn query_outputs_are_read_per_backend() {
    let x = get_display_profile(QueryOutput::Xrandr("DP-1 connected 800x600+0+0\n".to_string())).unwrap();
    assert_eq!(x.topology, DisplayTopology::External);
    assert_eq!(x.displays[0].width, 800);
    let g = get_display_profile(QueryOutput::Mutter(vec![GnomeDisplay {
        connector: "eDP-1".into(),
        display_name: "Built-in display".into(),
        vendor: "BOE".into(),
        product: "0x0a1c".into(),
        serial: "0".into(),
        mode_id: "1920x1200@60.000".into(),
        width: 1920,
        height: 1200,
        x: 0,
        y: 0,
        transform: 0,
        primary: true,
        available_modes: vec![],
    }]))
    .unwrap();
    assert_eq!(g.topology, DisplayTopology::Internal);
    assert_eq!(g.displays[0].device_id, "BOE:0x0a1c:0");
    let w = get_display_profile(QueryOutput::Win32 {
        displays: vec![DisplayConfig {
            label: None,
            device_name: "D".into(),
            device_id: String::new(),
            device_key: String::new(),
            width: 1,
            height: 2,
            position_x: 3,
            position_y: 4,
            orientation: 0,
            enabled: true,
        }],
        topology: DisplayTopology::Unknown(9),
    })
    .unwrap();
    assert_eq!(w.topology, DisplayTopology::Unknown(9));
    assert_eq!(w.displays[0].position_y, 4);
    assert_eq!(
        get_display_profile(QueryOutput::Unsupported).map(|_| ()),
        Err("display querying is not supported on this platform".to_string())
    );
}

#[test]
fn lowercased_desktop_names() {
    assert!(names_gnome("ubuntu:gnome"));
    assert!(!names_gnome("ubuntu:GNOME"));
    assert!(!names_gnome("gnom"));
}

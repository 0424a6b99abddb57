use dmaster_core::backend::linux::{
    apply_linux_profile, apply_mapped_linux, mapping_error_text, parse_geometry,
    parse_xrandr_query, rotation_to_xrandr, xrandr_failure,
};
use dmaster_core::apply::MappingError;
use dmaster_core::display_info::{DisplayConfig, DisplayMapping, DisplayProfile, DisplayTopology};

fn display(name: &str, w: u32, h: u32, x: i32, y: i32) -> DisplayConfig {
    DisplayConfig {
        label: Some(name.to_string()),
        device_name: name.to_string(),
        device_id: String::new(),
        device_key: String::new(),
        width: w,
        height: h,
        position_x: x,
        position_y: y,
        orientation: 0,
        enabled: true,
    }
}

const QUERY: &str = "Screen 0: minimum 320 x 200, current 3840 x 1200, maximum 16384 x 16384\n\
eDP-1 connected primary 1920x1200+0+0 (normal left inverted right x axis y axis) 302mm x 189mm\n   1920x1200     60.00*+\n\
HDMI-1 disconnected (normal left inverted right x axis y axis)\n\
DP-1 connected 1920x1080+1920+-60 (normal left inverted right x axis y axis) 527mm x 296mm\n\
DP-2 connected (normal left inverted right x axis y axis)\n";

#[test]
fn rotation_names() {
    assert_eq!(rotation_to_xrandr(0), "normal");
    assert_eq!(rotation_to_xrandr(1), "left");
    assert_eq!(rotation_to_xrandr(2), "inverted");
    assert_eq!(rotation_to_xrandr(3), "right");
    assert_eq!(rotation_to_xrandr(7), "normal");
}

#[test]
fn parse_geometry_reads_size_and_position() {
    assert_eq!(parse_geometry("1920x1080+1920+-60"), Ok((1920, 1080, 1920, -60)));
    assert_eq!(parse_geometry("800x600+0+0+9"), Ok((800, 600, 0, 0)));
}

#[test]
fn parse_geometry_errors() {
    assert_eq!(
        parse_geometry("1920x1080"),
        Err("failed to parse xrandr geometry token '1920x1080'".to_string())
    );
    assert_eq!(
        parse_geometry("1920x1080+5"),
        Err("missing y position in '1920x1080+5'".to_string())
    );
    assert_eq!(
        parse_geometry("1920x1080+a+0"),
        Err("invalid x position in '1920x1080+a+0': invalid digit found in string".to_string())
    );
    assert_eq!(
        parse_geometry("1920x1080+0+"),
        Err("invalid y position in '1920x1080+0+': cannot parse integer from empty string".to_string())
    );
    assert_eq!(
        parse_geometry("1920+0+0"),
        Err("missing size in '1920+0+0'".to_string())
    );
    assert_eq!(
        parse_geometry("-1x1080+0+0"),
        Err("invalid width in '-1x1080+0+0': invalid digit found in string".to_string())
    );
    assert_eq!(
        parse_geometry("1x99999999999+0+0"),
        Err("invalid height in '1x99999999999+0+0': number too large to fit in target type".to_string())
    );
    assert_eq!(
        parse_geometry("1x1+-99999999999+0"),
        Err("invalid x position in '1x1+-99999999999+0': number too small to fit in target type".to_string())
    );
}

#[test]
fn parse_geometry_agrees_with_std_parsing() {
    for tok in ["+5x+6+-0+7", "0x0+2147483647+-2147483648", "4294967295x1+0+0", "4294967296x1+0+0", "1x1+2147483648+0", "1x1+-+0"] {
        let expected: Result<(u32, u32, i32, i32), ()> = (|| {
            let (size, position) = tok.split_once('+').ok_or(())?;
            let mut parts = position.split('+');
            let x = parts.next().ok_or(())?.parse::<i32>().map_err(|_| ())?;
            let y = parts.next().ok_or(())?.parse::<i32>().map_err(|_| ())?;
            let (w, h) = size.split_once('x').ok_or(())?;
            Ok((w.parse::<u32>().map_err(|_| ())?, h.parse::<u32>().map_err(|_| ())?, x, y))
        })();
        assert_eq!(parse_geometry(tok).map_err(|_| ()), expected, "token {tok}");
    }
}

#[test]
fn parse_query_reads_connected_displays() {
    let p = parse_xrandr_query(QUERY).unwrap();
    assert_eq!(p.topology, DisplayTopology::Extend);
    assert_eq!(p.displays.len(), 3);
    assert_eq!(p.displays[0].device_name, "eDP-1");
    assert_eq!(p.displays[0].label.as_deref(), Some("eDP-1"));
    assert_eq!((p.displays[0].width, p.displays[0].height), (1920, 1200));
    assert_eq!(p.displays[1].device_name, "DP-1");
    assert_eq!((p.displays[1].position_x, p.displays[1].position_y), (1920, -60));
    assert_eq!(p.displays[2].device_name, "DP-2");
    assert_eq!((p.displays[2].width, p.displays[2].height), (0, 0));
    assert!(p.displays.iter().all(|d| d.enabled && d.orientation == 0 && d.device_id.is_empty()));
}

#[test]
fn parse_query_topology_of_a_single_display() {
    let internal = parse_xrandr_query("LVDS-1 connected 1366x768+0+0\n").unwrap();
    assert_eq!(internal.topology, DisplayTopology::Internal);
    let edp = parse_xrandr_query("eDP-1 connected 1366x768+0+0\r\n").unwrap();
    assert_eq!(edp.topology, DisplayTopology::Internal);
    let external = parse_xrandr_query("HDMI-1 connected 1366x768+0+0").unwrap();
    assert_eq!(external.topology, DisplayTopology::External);
}

#[test]
fn parse_query_errors() {
    assert_eq!(
        parse_xrandr_query("Screen 0: minimum 320 x 200\nHDMI-1 disconnected\n").map(|_| ()),
        Err("xrandr returned no connected displays".to_string())
    );
    // a single word line holding " connected" is no monitor line
    assert!(parse_xrandr_query(" connected\n").is_err());
    assert_eq!(
        parse_xrandr_query("DP-1 connected 1920x1080+x+0\n").map(|_| ()),
        Err("invalid x position in '1920x1080+x+0': invalid digit found in string".to_string())
    );
}

#[test]
fn apply_args_for_enabled_and_disabled_displays() {
    let mut off = display("HDMI-1", 0, 0, 0, 0);
    off.enabled = false;
    let mut rotated = display("DP-1", 1080, 1920, -1080, 5);
    rotated.orientation = 3;
    let p = DisplayProfile { topology: DisplayTopology::Extend, displays: vec![rotated, off] };
    let args = apply_linux_profile(&p).unwrap();
    assert_eq!(
        args,
        vec![
            "--output", "DP-1", "--mode", "1080x1920", "--pos", "-1080x5", "--rotate", "right",
            "--output", "HDMI-1", "--off",
        ]
    );
}

#[test]
fn apply_args_refusals() {
    let empty = DisplayProfile { topology: DisplayTopology::Extend, displays: vec![] };
    assert_eq!(
        apply_linux_profile(&empty),
        Err("profile does not contain any displays to apply".to_string())
    );
    let mut off = display("HDMI-1", 0, 0, 0, 0);
    off.enabled = false;
    let none = DisplayProfile { topology: DisplayTopology::Extend, displays: vec![off] };
    assert_eq!(apply_linux_profile(&none), Err("no enabled displays in profile".to_string()));
}

#[test]
fn mapped_apply_and_its_errors() {
    let current = DisplayProfile {
        topology: DisplayTopology::External,
        displays: vec![display("DP-1", 1920, 1080, 0, 0)],
    };
    let saved = DisplayProfile {
        topology: DisplayTopology::Extend,
        displays: vec![display("saved", 2560, 1440, 10, 20)],
    };
    let ok = apply_mapped_linux(
        &current,
        &saved,
        &vec![DisplayMapping { current_display_name: "DP-1".into(), profile_display_index: 0 }],
    )
    .unwrap();
    assert_eq!(ok, vec!["--output", "DP-1", "--mode", "2560x1440", "--pos", "10x20", "--rotate", "normal"]);
    assert_eq!(
        apply_mapped_linux(
            &current,
            &saved,
            &vec![DisplayMapping { current_display_name: "X".into(), profile_display_index: 0 }],
        ),
        Err("current display 'X' was not found while applying mapped profile".to_string())
    );
    assert_eq!(
        apply_mapped_linux(
            &current,
            &saved,
            &vec![DisplayMapping { current_display_name: "DP-1".into(), profile_display_index: 4 }],
        ),
        Err("profile display index 4 is out of range".to_string())
    );
    assert_eq!(
        mapping_error_text(&MappingError::ProfileIndexOutOfRange(12)),
        "profile display index 12 is out of range"
    );
}

#[test]
fn xrandr_failure_trims_stderr() {
    assert_eq!(xrandr_failure("  Can't open display\n"), "xrandr failed: Can't open display");
}

#[test]
fn written_geometry_reads_back() {
    for (w, h, x, y) in [(1920u32, 1080u32, 0i32, 0i32), (0, 0, -2147483648, 2147483647), (4294967295, 1, -5, 77)] {
        let mut d = display("DP-1", w, h, x, y);
        d.orientation = 0;
        let p = DisplayProfile { topology: DisplayTopology::External, displays: vec![d] };
        let args = apply_linux_profile(&p).unwrap();
        let (px, py) = args[5].split_once('x').unwrap();
        let token = format!("{}+{}+{}", args[3], px, py);
        assert_eq!(parse_geometry(&token), Ok((w, h, x, y)));
    }
}

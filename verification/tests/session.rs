use dotfiles_tools::config::{
    connected_interface, generate_hardware_hash, niri_transform_byte, niri_transform_name,
    xrandr_rotation, Config, ConfigErrorKind, MonitorConfig, Profile,
};
use dotfiles_tools::monitor::{
    monitors_by_interface, parse_xrandr_connected_line, parse_xrandr_geometry, split_words, xrandr_monitors, Monitor,
    SCALE_ONE_BITS,
};

fn sample_monitor(stable_id: &str) -> MonitorConfig {
    MonitorConfig {
        stable_id: stable_id.to_string(),
        x: 0,
        y: 0,
        scale_bits: 1.0f32.to_bits(),
        transform: 0,
        primary: false,
        width: 1920,
        height: 1080,
        refresh_rate: 60000,
    }
}

fn config_with(monitors: Vec<MonitorConfig>, commands: Option<Vec<String>>) -> Config {
    Config::from_profiles(vec![(
        "hash".to_string(),
        Profile { name: "desk".to_string(), monitors, commands },
    )])
}

fn monitor(interface: &str, description: &str, serial: Option<&str>) -> Monitor {
    Monitor {
        interface: interface.to_string(),
        description: description.to_string(),
        width: 1920,
        height: 1080,
        refresh_rate: 60000,
        serial: serial.map(str::to_string),
        scale_bits: Some(SCALE_ONE_BITS),
        transform: Some(0),
        x: 0,
        y: 0,
        primary: false,
        active: true,
    }
}

#[test]
fn validate_rejects_duplicate_stable_ids() {
    let config = config_with(vec![sample_monitor("DP_1"), sample_monitor("DP_1")], None);

    assert!(config.validate().is_err());
}

#[test]
fn validate_rejects_invalid_transform() {
    let mut monitor = sample_monitor("DP_1");
    monitor.transform = 8;

    let config = config_with(vec![monitor], None);

    assert!(config.validate().is_err());
}

#[test]
fn validate_reports_the_first_problem_with_its_message() {
    let config = config_with(vec![sample_monitor("DP_1"), sample_monitor("DP_1")], None);
    let err = config.validate().unwrap_err();
    assert_eq!(err.kind, ConfigErrorKind::DuplicateStableId);
    assert_eq!(err.message(), "Profile 'desk' (hash) contains duplicate monitor stable_id 'DP_1'");

    let mut blank = sample_monitor("  ");
    blank.width = 0;
    let err = config_with(vec![blank], None).validate().unwrap_err();
    assert_eq!(err.kind, ConfigErrorKind::EmptyStableId);
    assert_eq!(err.message(), "Profile 'desk' (hash) has a monitor with an empty stable_id");

    let mut flat = sample_monitor("DP_2");
    flat.height = 0;
    let err = config_with(vec![flat], None).validate().unwrap_err();
    assert_eq!(err.message(), "Profile 'desk' (hash) has invalid monitor dimensions for 'DP_2'");

    for bad in [0.0f32, -1.0, f32::NAN, f32::INFINITY] {
        let mut scaled = sample_monitor("DP_3");
        scaled.scale_bits = bad.to_bits();
        let err = config_with(vec![scaled], None).validate().unwrap_err();
        assert_eq!(err.kind, ConfigErrorKind::InvalidScale);
    }
    let mut tiny = sample_monitor("DP_3");
    tiny.scale_bits = f32::MIN_POSITIVE.to_bits();
    assert!(config_with(vec![tiny], None).validate().is_ok());

    let err = config_with(vec![sample_monitor("DP_4")], Some(vec!["swaybg".to_string(), " ".to_string()]))
        .validate()
        .unwrap_err();
    assert_eq!(err.kind, ConfigErrorKind::EmptyCommand);
    assert_eq!(err.message(), "Profile 'desk' (hash) contains an empty command");

    assert!(config_with(vec![sample_monitor("A"), sample_monitor("B")], Some(vec!["true".to_string()]))
        .validate()
        .is_ok());
}

#[test]
fn stable_id_uses_interface_for_unknown_x11_displays() {
    let monitor = Monitor {
        interface: "DP-1".to_string(),
        description: "Unknown X11 Display".to_string(),
        width: 1920,
        height: 1080,
        refresh_rate: 60000,
        serial: None,
        scale_bits: Some(1.0f32.to_bits()),
        transform: Some(0),
        x: 0,
        y: 0,
        primary: true,
        active: true,
    };

    assert_eq!(monitor.get_stable_id(), "Unknown_X11_Display_DP_1_1920x1080_60000");
}

#[test]
fn stable_id_prefers_the_serial_then_the_mode() {
    assert_eq!(
        monitor("DP-1", "Dell Inc. DELL U2719D", Some("ABC123")).get_stable_id(),
        "Dell_Inc._DELL_U2719D_ABC123"
    );
    assert_eq!(
        monitor("eDP-1", "BOE 0x0BCA-X", None).get_stable_id(),
        "BOE_0x0BCA_X_1920x1080_60000"
    );
}

#[test]
fn parse_xrandr_connected_line_detects_primary_monitor() {
    let monitor = parse_xrandr_connected_line(
        "DP-1 connected primary 2560x1440+1920+0 (normal left inverted right x axis y axis)",
    )
    .expect("expected connected monitor");

    assert_eq!(monitor.interface, "DP-1");
    assert_eq!(monitor.width, 2560);
    assert_eq!(monitor.height, 1440);
    assert_eq!(monitor.x, 1920);
    assert_eq!(monitor.y, 0);
    assert!(monitor.primary);
    assert!(monitor.active);
}

#[test]
fn xrandr_lines_without_geometry_are_inactive_and_others_are_ignored() {
    let monitor = parse_xrandr_connected_line("HDMI-1 connected (normal left inverted right)").unwrap();
    assert_eq!(monitor.interface, "HDMI-1");
    assert!(!monitor.active);
    assert!(!monitor.primary);
    assert_eq!((monitor.width, monitor.height, monitor.x, monitor.y), (0, 0, 0, 0));
    assert_eq!(monitor.scale_bits, Some(1.0f32.to_bits()));
    assert!(parse_xrandr_connected_line("DP-2 disconnected (normal left)").is_none());
    assert!(parse_xrandr_connected_line("Screen 0: minimum 320 x 200").is_none());
}

#[test]
fn geometry_parses_signed_offsets_and_rejects_short_or_bad_fields() {
    assert_eq!(parse_xrandr_geometry("1920x1080+0+0"), Some((1920, 1080, 0, 0)));
    assert_eq!(parse_xrandr_geometry("800x600+-10+20"), Some((800, 600, -10, 20)));
    assert_eq!(parse_xrandr_geometry("1920x1080+0"), None);
    assert_eq!(parse_xrandr_geometry("axb+0+0"), None);
    assert_eq!(parse_xrandr_geometry("1920x1080+0+0+5"), Some((1920, 1080, 0, 0)));
    assert_eq!(parse_xrandr_geometry("4294967296x1+0+0"), None);
    assert_eq!(parse_xrandr_geometry("1x1+2147483648+0"), None);
    assert_eq!(parse_xrandr_geometry("1x1+-2147483648+0"), Some((1, 1, i32::MIN, 0)));
}

#[test]
fn hardware_hash_ignores_plug_order_and_is_sha256_hex() {
    let a = monitor("DP-1", "Dell U2719D", Some("A"));
    let b = monitor("DP-2", "LG 27UL850", Some("B"));
    let h1 = generate_hardware_hash(&[a.clone(), b.clone()]);
    let h2 = generate_hardware_hash(&[b.clone(), a.clone()]);
    assert_eq!(h1, h2);
    assert_eq!(h1.len(), 64);
    assert!(h1.chars().all(|c| c.is_ascii_hexdigit() && !c.is_ascii_uppercase()));
    assert_ne!(h1, generate_hardware_hash(&[a.clone()]));
    // SHA-256 of the empty string.
    assert_eq!(
        generate_hardware_hash(&[]),
        "e3b0c44298fc1c149afbf4c8996fb92427ae41e4649b934ca495991b7852b855"
    );
}

#[test]
fn saved_profiles_are_found_again_in_any_plug_order() {
    let a = monitor("DP-1", "Dell U2719D", Some("A"));
    let b = monitor("DP-2", "LG 27UL850", None);
    let mut config = Config::new();
    config.add_profile("desk".to_string(), &[a.clone(), b.clone()]);
    let found = config.get_profile_for_monitors(&[b.clone(), a.clone()]).expect("profile");
    assert_eq!(found.name, "desk");
    assert_eq!(found.monitors.len(), 2);
    assert_eq!(found.monitors[0].stable_id, "Dell_U2719D_A");
    assert_eq!(found.monitors[1].stable_id, "LG_27UL850_1920x1080_60000");
    assert!(found.commands.is_none());
    assert!(config.get_profile_for_monitors(&[a.clone()]).is_none());

    config.add_profile("desk again".to_string(), &[a.clone(), b.clone()]);
    assert_eq!(config.profiles().len(), 1);
    assert_eq!(config.get_profile_for_monitors(&[a, b]).unwrap().name, "desk again");
}

#[test]
fn applying_maps_stable_ids_to_current_interfaces() {
    let a = monitor("DP-3", "Dell U2719D", Some("A"));
    let b = monitor("HDMI-A-1", "LG 27UL850", Some("B"));
    assert_eq!(connected_interface(&[a.clone(), b.clone()], "LG_27UL850_B"), Some("HDMI-A-1".to_string()));
    assert_eq!(connected_interface(&[a, b], "missing"), None);
    assert_eq!(niri_transform_name(5), "flipped-90");
    assert_eq!(niri_transform_name(9), "normal");
    assert_eq!(xrandr_rotation(1), "left");
    assert_eq!(xrandr_rotation(6), "normal");
    assert_eq!(niri_transform_byte("Flipped270"), 7);
    assert_eq!(niri_transform_byte("Normal"), 0);
    assert_eq!(niri_transform_byte("sideways"), 0);
    assert_eq!(split_words("  swaybg  -i  wall.png "), vec!["swaybg", "-i", "wall.png"]);
    assert!(split_words("   ").is_empty());
}

#[test]
fn xrandr_output_lists_each_connected_monitor_sorted_by_connector_on_request() {
    let output = "Screen 0: minimum 8 x 8\nHDMI-1 connected 1920x1080+1920+0 (normal)\n\tEDID:\nDP-1 connected primary 2560x1440+0+0 (normal)\nDP-2 disconnected (normal)\n";
    let monitors = xrandr_monitors(output);
    assert_eq!(monitors.len(), 2);
    assert_eq!(monitors[0].interface, "HDMI-1");
    assert!(monitors[1].primary);
    let sorted = monitors_by_interface(&monitors);
    assert_eq!(sorted[0].interface, "DP-1");
    assert_eq!(sorted[1].interface, "HDMI-1");
    assert_eq!(sorted[1].x, 1920);
}

#[test]
fn a_hardware_hash_is_sixty_four_lowercase_hex_digits() {
    let h = generate_hardware_hash(&[]);
    assert_eq!(h.len(), 64);
    assert!(h.chars().all(|c| c.is_ascii_digit() || ('a'..='f').contains(&c)));
}

use dotfiles_tools::control_center::TimerControlSpec;
use dotfiles_tools::control_spec::{
    AudioControlSpec, AudioOutputControlSpec, BluetoothDeviceControlSpec, BluetoothManagerSpec,
    BrightnessControlSpec, CalendarControlSpec, ControlCenterSpec, KeyboardControlSpec,
    NetworkTrafficSpec, QuickControlSpec,
};
use dotfiles_tools::control_view::{
    bluetooth_detail, bluetooth_page_view, connectivity_state_label, enable_toggle_label,
    overview_labels, quick_tile_layout, BluetoothPageBody, QuickTile,
};
use dotfiles_tools::state::{BluetoothPairingPrompt, BluetoothPairingPromptKind};

fn quick(label: &str, enabled: bool, toggle_available: bool) -> QuickControlSpec {
    QuickControlSpec {
        icon_name: "icon".to_string(),
        label: label.to_string(),
        detail: "detail".to_string(),
        enabled,
        available: true,
        toggle_available,
    }
}

fn output() -> AudioOutputControlSpec {
    AudioOutputControlSpec {
        name: "alsa_output.speakers".to_string(),
        label: "Speakers".to_string(),
        detail: "Built-in".to_string(),
        icon_name: "audio-speakers-symbolic".to_string(),
        selected: true,
    }
}

fn spec() -> ControlCenterSpec {
    ControlCenterSpec {
        network: quick("Wi-Fi", true, true),
        network_traffic: NetworkTrafficSpec::default(),
        bluetooth: quick("Bluetooth", true, true),
        bluetooth_manager: manager(true, 0, false, Vec::new()),
        audio: AudioControlSpec {
            percent: Some(35),
            muted: false,
            detail: "Speakers".to_string(),
            outputs: vec![output()],
        },
        power: quick("Balanced", false, false),
        brightness: Some(BrightnessControlSpec { device: "intel_backlight".to_string(), percent: 80 }),
        keyboard: KeyboardControlSpec {
            summary: "US".to_string(),
            current: "English (US)".to_string(),
            detail: "1 of 2".to_string(),
            layouts: Vec::new(),
        },
        cpu_percent: Some(12),
        memory_percent: None,
        battery_present: true,
        battery_percent: Some(64),
        charging: false,
        clock: "14:05".to_string(),
        clock_epoch: 0,
        calendar: None,
        calendar_agenda: None,
        calendar_agenda_error: None,
        timers: Vec::new(),
        media: None,
    }
}

fn device(name: &str, paired: bool, connected: bool) -> BluetoothDeviceControlSpec {
    BluetoothDeviceControlSpec {
        address: format!("00:00:00:00:00:{}", name.len()),
        name: name.to_string(),
        icon_name: "bluetooth-symbolic".to_string(),
        detail: "detail".to_string(),
        paired,
        connected,
        operation: None,
        error: None,
    }
}

fn manager(powered: bool, connected_count: usize, discovering: bool, devices: Vec<BluetoothDeviceControlSpec>) -> BluetoothManagerSpec {
    BluetoothManagerSpec {
        available: true,
        powered,
        discovering,
        connected_count,
        devices,
        prompt: None,
        error: None,
    }
}

#[test]
fn quick_grid_hides_unavailable_tiles_and_widens_the_last() {
    let all = quick_tile_layout(true, true);
    assert_eq!(
        all,
        vec![
            (QuickTile::Network, (0, 0, 1)),
            (QuickTile::Audio, (1, 0, 1)),
            (QuickTile::Bluetooth, (0, 1, 1)),
            (QuickTile::Power, (1, 1, 1)),
        ]
    );
    let without_network = quick_tile_layout(false, true);
    assert_eq!(
        without_network,
        vec![
            (QuickTile::Audio, (0, 0, 1)),
            (QuickTile::Bluetooth, (1, 0, 1)),
            (QuickTile::Power, (0, 1, 2)),
        ]
    );
    assert_eq!(quick_tile_layout(false, false), vec![(QuickTile::Audio, (0, 0, 1)), (QuickTile::Power, (1, 0, 1))]);
}

#[test]
fn connectivity_page_names_its_state() {
    assert_eq!(connectivity_state_label(&quick("Wi-Fi", true, true)), "On");
    assert_eq!(connectivity_state_label(&quick("Wi-Fi", false, true)), "Off");
    assert_eq!(connectivity_state_label(&quick("Ethernet", true, false)), "Connected");
    assert_eq!(connectivity_state_label(&quick("Ethernet", false, false)), "Disconnected");
    assert_eq!(enable_toggle_label("Wi-Fi"), "Enable Wi-Fi");
}

#[test]
fn overview_labels_follow_the_spec() {
    let labels = overview_labels(&spec());
    assert!(labels.audio_available);
    assert_eq!(labels.audio_detail, "Speakers · 35%");
    assert!(labels.audio_enabled);
    assert_eq!(labels.volume_value, 35);
    assert_eq!(labels.volume_label, "35%");
    assert_eq!(labels.volume_tooltip, "Mute");
    assert_eq!(labels.audio_state, "Sound on");
    assert_eq!(labels.brightness_label.as_deref(), Some("80%"));
    assert_eq!(labels.resources_summary, "12 / --");
    assert_eq!(labels.battery_summary.as_deref(), Some("64%"));
    assert_eq!(labels.battery_state.as_deref(), Some("64%"));
    assert_eq!(labels.battery_detail, Some("On battery"));
    assert_eq!(labels.time_summary, "14:05");

    let mut muted = spec();
    muted.audio.muted = true;
    muted.brightness = None;
    muted.battery_present = false;
    muted.calendar = Some(CalendarControlSpec { title: "Standup".to_string(), location: None });
    let labels = overview_labels(&muted);
    assert_eq!(labels.audio_detail, "Muted · 35%");
    assert!(!labels.audio_enabled);
    assert_eq!(labels.volume_tooltip, "Unmute");
    assert_eq!(labels.audio_state, "Muted");
    assert_eq!(labels.brightness_label, None);
    assert_eq!(labels.battery_summary, None);
    assert_eq!(labels.battery_state, None);
    assert_eq!(labels.battery_detail, None);
    assert_eq!(labels.time_summary, "Standup");

    let mut timed = muted.clone();
    timed.timers = vec![TimerControlSpec {
        id: "t1".to_string(),
        label: "Tea".to_string(),
        remaining_seconds: 125,
        completed: false,
        paused: true,
    }];
    assert_eq!(overview_labels(&timed).time_summary, "2:05 · paused");

    let mut silent = spec();
    silent.audio.outputs.clear();
    silent.audio.percent = None;
    silent.battery_percent = None;
    let labels = overview_labels(&silent);
    assert!(!labels.audio_available);
    assert_eq!(labels.audio_detail, "Speakers");
    assert_eq!(labels.volume_label, "--");
    assert_eq!(labels.volume_value, 0);
    assert_eq!(labels.audio_state, "Unavailable");
    assert_eq!(labels.battery_summary.as_deref(), Some("--"));
    assert_eq!(labels.battery_state.as_deref(), Some("Reading battery"));
}

#[test]
fn bluetooth_detail_counts_connected_devices() {
    assert_eq!(bluetooth_detail(&manager(false, 0, false, Vec::new())), "Turn on Bluetooth to find devices");
    assert_eq!(bluetooth_detail(&manager(true, 0, true, Vec::new())), "Scanning for nearby devices…");
    assert_eq!(bluetooth_detail(&manager(true, 1, true, Vec::new())), "1 connected · Scanning…");
    assert_eq!(bluetooth_detail(&manager(true, 3, true, Vec::new())), "3 connected · Scanning…");
    assert_eq!(bluetooth_detail(&manager(true, 0, false, Vec::new())), "No devices connected");
    assert_eq!(bluetooth_detail(&manager(true, 1, false, Vec::new())), "1 device connected");
    assert_eq!(bluetooth_detail(&manager(true, 2, false, Vec::new())), "2 devices connected");
}

#[test]
fn bluetooth_page_sorts_devices_into_sections() {
    let devices = vec![
        device("Speaker", true, false),
        device("Phone", true, true),
        device("Watch", false, false),
        device("Mouse", true, false),
    ];
    let view = bluetooth_page_view(&manager(true, 1, false, devices));
    assert_eq!(view.icon_name, "bluetooth-active-symbolic");
    assert_eq!(view.state, "On");
    assert!(view.toggle_active);
    match view.body {
        BluetoothPageBody::Devices(sections) => {
            let names = |rows: &Vec<dotfiles_tools::control_view::DeviceRowView>| {
                rows.iter().map(|r| r.action_label.clone()).collect::<Vec<_>>()
            };
            assert_eq!(names(&sections.connected), vec!["Disconnect Phone"]);
            assert_eq!(names(&sections.saved), vec!["Connect Speaker", "Connect Mouse"]);
            assert_eq!(names(&sections.nearby), vec!["Pair Watch"]);
            assert_eq!(sections.nearby_empty, None);
            assert!(!sections.scanning);
        }
        _ => panic!("expected device sections"),
    }

    let scanning = bluetooth_page_view(&manager(true, 0, true, Vec::new()));
    match scanning.body {
        BluetoothPageBody::Devices(sections) => {
            assert!(sections.scanning);
            assert_eq!(sections.nearby_empty, Some("Looking for devices…"));
        }
        _ => panic!("expected device sections"),
    }

    let off = bluetooth_page_view(&manager(false, 0, false, vec![device("Phone", true, false)]));
    assert_eq!(off.icon_name, "bluetooth-disabled-symbolic");
    assert_eq!(off.state, "Off");
    assert!(matches!(off.body, BluetoothPageBody::Off));

    let mut prompted = manager(true, 0, false, Vec::new());
    prompted.prompt = Some(BluetoothPairingPrompt {
        id: 3,
        address: "AA".to_string(),
        device_name: "Keyboard".to_string(),
        kind: BluetoothPairingPromptKind::Authorize,
    });
    match bluetooth_page_view(&prompted).body {
        BluetoothPageBody::Prompt(view) => assert_eq!(view.accept_label.as_deref(), Some("Allow")),
        _ => panic!("expected the prompt"),
    }
}

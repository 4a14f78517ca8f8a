use dotfiles_tools::control_center::{
    control_center_origin, events_in_window, focus_from_origin, metric_visual,
    quick_grid_placements, timer_action_state, timer_summary, volume_icon_name, ControlCenterErrors,
    ControlCenterFocus, ControlCenterMotionEvent, ControlCenterMotionPhase, MetricLevel,
    ControlCenterMotion, MotionEffect, SliderDebounce, TimerActionState, TimerControlSpec,
};
use dotfiles_tools::control_spec::{
    build_control_center_spec, keyboard_bar_labels, keyboard_labels, output_icon_name,
};
use dotfiles_tools::state::{
    AudioOutputState, AudioState, BarSnapshot, BluetoothDeviceOperation, BluetoothDeviceState,
    BluetoothState, BrightnessState, CalendarAgendaEvent, ConnectivityState, KeyboardLayoutOption,
    KeyboardLayoutState, MediaState, NetworkState, PlaybackStatus, PowerProfile, PowerState,
    ResourceState, SourceHealth, SourceId, TimerState,
};

#[test]
fn control_center_motion_reopens_during_exit() {
    let phase = ControlCenterMotionPhase::Visible
        .transition(ControlCenterMotionEvent::Dismiss)
        .transition(ControlCenterMotionEvent::Present);

    assert_eq!(phase, ControlCenterMotionPhase::Entering);
    assert!(phase.is_presented());
}

#[test]
fn control_center_motion_only_completes_matching_phases() {
    assert_eq!(
        ControlCenterMotionPhase::Entering.transition(ControlCenterMotionEvent::Entered),
        ControlCenterMotionPhase::Visible
    );
    assert_eq!(
        ControlCenterMotionPhase::Exiting.transition(ControlCenterMotionEvent::Exited),
        ControlCenterMotionPhase::Hidden
    );
    assert_eq!(
        ControlCenterMotionPhase::Visible.transition(ControlCenterMotionEvent::Exited),
        ControlCenterMotionPhase::Visible
    );
}

#[test]
fn volume_icons_follow_mute_and_level_boundaries() {
    assert_eq!(volume_icon_name(true, Some(80)), "audio-volume-muted-symbolic");
    assert_eq!(volume_icon_name(false, Some(0)), "audio-volume-muted-symbolic");
    assert_eq!(volume_icon_name(false, Some(1)), "audio-volume-low-symbolic");
    assert_eq!(volume_icon_name(false, Some(33)), "audio-volume-low-symbolic");
    assert_eq!(volume_icon_name(false, Some(34)), "audio-volume-medium-symbolic");
    assert_eq!(volume_icon_name(false, Some(66)), "audio-volume-medium-symbolic");
    assert_eq!(volume_icon_name(false, Some(67)), "audio-volume-high-symbolic");
}

#[test]
fn selected_day_includes_overlapping_events_and_sorts_all_day_first() {
    let day: i64 = 1_800_000_000;
    let previous = day - 24 * 60 * 60;
    let next = day + 24 * 60 * 60;
    let event = |id: &str, title: &str, start_epoch: i64, end_epoch: i64, all_day: bool| CalendarAgendaEvent {
        id: id.to_string(),
        title: title.to_string(),
        location: None,
        calendar: None,
        start_epoch,
        end_epoch,
        all_day,
    };
    let events = vec![
        event("meeting", "Meeting", day + 10 * 60 * 60, day + 11 * 60 * 60, false),
        event("conference", "Conference", previous, next, true),
        event("tomorrow", "Tomorrow", next + 60, next + 120, false),
    ];

    let selected = events_in_window(&events, day, next);
    assert_eq!(
        selected.iter().map(|event| event.id.as_str()).collect::<Vec<_>>(),
        vec!["conference", "meeting"]
    );
}

#[test]
fn agenda_counts_instant_events_and_orders_by_start_then_title() {
    let event = |id: &str, title: &str, start_epoch: i64, end_epoch: i64| CalendarAgendaEvent {
        id: id.to_string(),
        title: title.to_string(),
        location: None,
        calendar: None,
        start_epoch,
        end_epoch,
        all_day: false,
    };
    let events = vec![
        event("b", "Beta", 150, 160),
        event("a", "Alpha", 150, 170),
        event("instant", "Ping", 99, 99),
        event("edge", "Edge", 200, 250),
    ];
    let selected = events_in_window(&events, 100, 200);
    assert_eq!(selected.iter().map(|e| e.id.as_str()).collect::<Vec<_>>(), vec!["a", "b"]);
    let selected = events_in_window(&events, 99, 200);
    assert_eq!(selected.iter().map(|e| e.id.as_str()).collect::<Vec<_>>(), vec!["instant", "a", "b"]);
}

fn layouts() -> KeyboardLayoutState {
    KeyboardLayoutState {
        current_index: Some(0),
        current_name: Some("English (US)".to_string()),
        layouts: vec![
            KeyboardLayoutOption {
                index: 0,
                name: "English (US)".to_string(),
                layout: Some("us".to_string()),
                variant: None,
            },
            KeyboardLayoutOption {
                index: 1,
                name: "English (Dvorak)".to_string(),
                layout: Some("us".to_string()),
                variant: Some("dvorak".to_string()),
            },
            KeyboardLayoutOption {
                index: 2,
                name: "German (KOY)".to_string(),
                layout: Some("de".to_string()),
                variant: Some("koy".to_string()),
            },
        ],
    }
}

#[test]
fn overview_spec_combines_controls_metrics_and_optional_content() {
    let mut snapshot = BarSnapshot::default();
    snapshot.system.network = NetworkState {
        connectivity: ConnectivityState::Connected,
        icon_hint: None,
        label: Some("Home".to_string()),
        wifi_available: true,
        ethernet_available: true,
        wifi_enabled: Some(true),
        interface: Some("wlan0".to_string()),
        download_bytes_per_second: Some(1536),
        upload_bytes_per_second: Some(512),
        download_history: vec![0, 512, 1536],
        upload_history: vec![0, 128, 512],
    };
    snapshot.system.bluetooth = BluetoothState {
        available: true,
        powered: true,
        connected_device: Some("Headphones".to_string()),
        audio_device: Some("Headphones".to_string()),
        ..BluetoothState::default()
    };
    snapshot.system.audio = AudioState {
        volume_percent: Some(49),
        muted: false,
        outputs: vec![AudioOutputState {
            name: "bluez_output.headphones".to_string(),
            description: "Robin's Headphones".to_string(),
            alias: Some("Headphones".to_string()),
            port_description: None,
            port_type: Some("Headphones".to_string()),
            bus: Some("bluetooth".to_string()),
            is_default: true,
        }],
    };
    snapshot.system.brightness =
        BrightnessState { device: Some("intel_backlight".to_string()), percent: Some(67) };
    snapshot.system.resources = ResourceState { cpu_percent: Some(14), memory_percent: Some(32) };
    snapshot.system.power = PowerState {
        battery_present: true,
        battery_percent: Some(82),
        charging: true,
        profile: PowerProfile::Balanced,
        changed_at: 0,
    };
    snapshot.system.keyboard = layouts();
    snapshot.system.media = Some(MediaState {
        player: "spotify".to_string(),
        status: PlaybackStatus::Playing,
        title: Some("Says".to_string()),
        artist: Some("Nils Frahm".to_string()),
        art_url: Some("https://example.test/says.jpg".to_string()),
        changed_at: 0,
    });
    snapshot.system.timers = vec![TimerState {
        id: "timer-1".to_string(),
        label: "Tea".to_string(),
        remaining_seconds: 125,
        target_epoch: Some(125),
        completed: false,
        changed_at: 0,
    }];

    let spec = build_control_center_spec(&snapshot);

    assert_eq!(spec.network.detail, "Home");
    assert!(spec.network.enabled);
    assert_eq!(spec.network_traffic.interface.as_deref(), Some("wlan0"));
    assert_eq!(spec.network_traffic.download_history, vec![0, 512, 1536]);
    assert_eq!(spec.audio.percent, Some(49));
    assert_eq!(spec.audio.detail, "Headphones");
    assert_eq!(spec.audio.outputs[0].icon_name, "audio-headphones-symbolic");
    assert!(spec.audio.outputs[0].selected);
    assert_eq!(spec.brightness.as_ref().unwrap().device, "intel_backlight");
    assert_eq!(spec.cpu_percent, Some(14));
    assert_eq!(spec.memory_percent, Some(32));
    assert_eq!(spec.keyboard.summary, "US");
    assert_eq!(spec.keyboard.current, "US — Standard");
    assert_eq!(spec.keyboard.layouts[1].detail, "Dvorak");
    assert_eq!(spec.keyboard.layouts[2].title, "DE");
    assert_eq!(spec.keyboard.layouts[2].detail, "KOY");
    assert_eq!(spec.battery_percent, Some(82));
    assert!(spec.battery_present);
    assert!(spec.charging);
    assert_eq!(spec.media.as_ref().unwrap().title, "Says");
    assert_eq!(spec.media.as_ref().unwrap().player, "spotify");
    assert_eq!(spec.timers[0].remaining_seconds, 125);
    assert!(!spec.timers[0].paused);
}

#[test]
fn overview_hides_brightness_when_no_real_backlight_is_available() {
    let spec = build_control_center_spec(&BarSnapshot::default());

    assert_eq!(spec.brightness, None);
}

#[test]
fn wifi_tile_describes_wired_connectivity_without_using_connection_name() {
    let mut snapshot = BarSnapshot::default();
    snapshot.system.network = NetworkState {
        connectivity: ConnectivityState::Connected,
        icon_hint: Some("network-wired-symbolic".to_string()),
        label: Some("Ethernet connection 1".to_string()),
        wifi_available: true,
        ethernet_available: true,
        wifi_enabled: Some(true),
        ..NetworkState::default()
    };

    let spec = build_control_center_spec(&snapshot);

    assert_eq!(spec.network.detail, "On · Ethernet active");
}

#[test]
fn desktop_spec_uses_ethernet_and_omits_laptop_only_hardware() {
    let mut snapshot = BarSnapshot::default();
    snapshot.system.network = NetworkState {
        connectivity: ConnectivityState::Connected,
        icon_hint: Some("network-wired-symbolic".to_string()),
        label: Some("Ethernet".to_string()),
        wifi_available: false,
        ethernet_available: true,
        wifi_enabled: None,
        ..NetworkState::default()
    };
    snapshot.system.bluetooth = BluetoothState { available: true, powered: true, ..BluetoothState::default() };
    snapshot.system.power.profile = PowerProfile::Performance;

    let spec = build_control_center_spec(&snapshot);

    assert_eq!(spec.network.label, "Ethernet");
    assert_eq!(spec.network.icon_name, "network-wired-symbolic");
    assert_eq!(spec.network.detail, "Ethernet");
    assert!(spec.network.available);
    assert!(spec.network.enabled);
    assert!(!spec.network.toggle_available);
    assert!(spec.bluetooth.available);
    assert!(!spec.battery_present);
    assert_eq!(spec.brightness, None);
    assert_eq!(spec.power.detail, "Performance");
}

#[test]
fn bluetooth_manager_spec_preserves_device_sections_and_progress() {
    let mut snapshot = BarSnapshot::default();
    snapshot.system.bluetooth = BluetoothState {
        available: true,
        powered: true,
        discovering: true,
        devices: vec![
            BluetoothDeviceState {
                address: "AA:00:00:00:00:01".to_string(),
                name: "Headphones".to_string(),
                icon_name: "audio-headphones-symbolic".to_string(),
                paired: true,
                trusted: true,
                connected: true,
                audio_capable: true,
                battery_percent: Some(73),
                ..BluetoothDeviceState::default()
            },
            BluetoothDeviceState {
                address: "AA:00:00:00:00:02".to_string(),
                name: "Controller".to_string(),
                icon_name: "input-gaming-symbolic".to_string(),
                paired: true,
                operation: Some(BluetoothDeviceOperation::Connecting),
                ..BluetoothDeviceState::default()
            },
        ],
        ..BluetoothState::default()
    };

    let spec = build_control_center_spec(&snapshot).bluetooth_manager;

    assert!(spec.discovering);
    assert_eq!(spec.connected_count, 1);
    assert_eq!(spec.devices[0].detail, "Connected · 73% battery");
    assert_eq!(spec.devices[1].detail, "Connecting…");
}

#[test]
fn nearby_devices_describe_their_signal() {
    let mut snapshot = BarSnapshot::default();
    let nearby = |rssi: Option<i16>| BluetoothDeviceState { rssi, battery_percent: Some(50), ..BluetoothDeviceState::default() };
    snapshot.system.bluetooth.devices = vec![nearby(Some(-55)), nearby(Some(-72)), nearby(Some(-90)), nearby(None)];
    let spec = build_control_center_spec(&snapshot).bluetooth_manager;
    let details: Vec<&str> = spec.devices.iter().map(|d| d.detail.as_str()).collect();
    assert_eq!(
        details,
        vec!["Nearby · Strong signal", "Nearby · Good signal", "Nearby · Weak signal", "Nearby"]
    );
    assert_eq!(spec.connected_count, 0);
}

#[test]
fn audio_outputs_are_sorted_by_label_and_described() {
    let mut snapshot = BarSnapshot::default();
    let output = |name: &str, description: &str, alias: Option<&str>, port_type: Option<&str>, bus: Option<&str>, is_default: bool| {
        AudioOutputState {
            name: name.to_string(),
            description: description.to_string(),
            alias: alias.map(str::to_string),
            port_description: None,
            port_type: port_type.map(str::to_string),
            bus: bus.map(str::to_string),
            is_default,
        }
    };
    snapshot.system.audio.outputs = vec![
        output("alsa_output.pci.hdmi", "monitor", None, Some("HDMI"), Some("pci"), false),
        output("alsa_output.pci.analog", "Speakers", Some("  "), Some("Speaker"), Some("pci"), true),
        output("usb_dac", "DAC", None, None, Some("usb"), false),
    ];
    let spec = build_control_center_spec(&snapshot);
    let labels: Vec<&str> = spec.audio.outputs.iter().map(|o| o.label.as_str()).collect();
    assert_eq!(labels, vec!["DAC", "monitor", "Speakers"]);
    assert_eq!(spec.audio.outputs[0].detail, "USB audio");
    assert_eq!(spec.audio.outputs[0].icon_name, "audio-card-symbolic");
    assert_eq!(spec.audio.outputs[1].icon_name, "video-display-symbolic");
    assert_eq!(spec.audio.outputs[1].detail, "Built-in audio");
    assert_eq!(spec.audio.outputs[2].icon_name, "audio-speakers-symbolic");
    assert_eq!(spec.audio.detail, "Speakers");
    assert_eq!(output_icon_name("", "bluez_sink", None), "audio-headphones-symbolic");

    snapshot.system.audio.outputs.clear();
    assert_eq!(build_control_center_spec(&snapshot).audio.detail, "No audio output");
}

#[test]
fn keyboard_labels_compact_variants() {
    assert_eq!(keyboard_labels("English (US)", Some("us"), None), ("US".to_string(), "Standard".to_string(), "US".to_string()));
    assert_eq!(
        keyboard_labels("English (Dvorak)", Some("us"), Some("dvorak")),
        ("US".to_string(), "Dvorak".to_string(), "US-DV".to_string())
    );
    assert_eq!(
        keyboard_labels("German (KOY)", None, None),
        ("DE".to_string(), "KOY".to_string(), "DE-KOY".to_string())
    );
    assert_eq!(
        keyboard_labels("français", Some("FR"), Some("Bepo")),
        ("FR".to_string(), "bepo".to_string(), "FR-bepo".to_string())
    );
    assert_eq!(keyboard_labels("ßx", None, None).0, "SSX");
    let (summary, tooltip) = keyboard_bar_labels(&layouts());
    assert_eq!(summary, "US");
    assert_eq!(tooltip, "US — Standard · English (US)");
    let none = KeyboardLayoutState::default();
    assert_eq!(keyboard_bar_labels(&none), ("--".to_string(), "Unavailable · No active layout".to_string()));
}

#[test]
fn agenda_errors_follow_the_agenda_source_health() {
    let mut snapshot = BarSnapshot::default();
    assert_eq!(build_control_center_spec(&snapshot).calendar_agenda_error, None);
    snapshot.system.set_health(SourceId::CalendarAgenda, SourceHealth::Stale { since_epoch: 5 });
    assert_eq!(
        build_control_center_spec(&snapshot).calendar_agenda_error.as_deref(),
        Some("Calendar agenda is stale")
    );
    snapshot.system.set_health(
        SourceId::CalendarAgenda,
        SourceHealth::Disconnected { message: "khal missing".to_string() },
    );
    assert_eq!(build_control_center_spec(&snapshot).calendar_agenda_error.as_deref(), Some("khal missing"));
}

#[test]
fn quick_grid_spans_the_final_tile_when_optional_hardware_is_absent() {
    assert_eq!(quick_grid_placements(0), vec![]);
    assert_eq!(quick_grid_placements(1), vec![(0, 0, 2)]);
    assert_eq!(quick_grid_placements(3), vec![(0, 0, 1), (1, 0, 1), (0, 1, 2)]);
    assert_eq!(quick_grid_placements(4), vec![(0, 0, 1), (1, 0, 1), (0, 1, 1), (1, 1, 1)]);
}

#[test]
fn action_origins_round_trip_every_overview_and_detail_page() {
    for focus in ControlCenterFocus::all() {
        let origin = control_center_origin(focus, "open");
        assert_eq!(focus_from_origin(&origin), Some(focus));
    }
    assert_eq!(focus_from_origin("window-popover:DP-5:42"), None);
}

#[test]
fn bluetooth_has_independent_action_and_error_routing() {
    let origin = control_center_origin(ControlCenterFocus::Bluetooth, "toggle");
    assert_eq!(focus_from_origin(&origin), Some(ControlCenterFocus::Bluetooth));

    let mut errors = ControlCenterErrors::default();
    errors.record_failure(ControlCenterFocus::Bluetooth, "bluetoothctl failed");
    assert_eq!(errors.message(ControlCenterFocus::Bluetooth), Some("bluetoothctl failed"));
    assert_eq!(errors.message(ControlCenterFocus::Audio), None);
}

#[test]
fn slider_debounce_keeps_only_the_latest_clamped_value() {
    let mut debounce = SliderDebounce::default();
    debounce.schedule(20);
    debounce.schedule(140);

    assert_eq!(debounce.take(), Some(100));
    assert_eq!(debounce.take(), None);
}

#[test]
fn metric_gauge_rounds_up_segments_and_applies_pressure_thresholds() {
    let cases = [
        (0, 0, MetricLevel::Normal),
        (1, 1, MetricLevel::Normal),
        (74, 8, MetricLevel::Normal),
        (75, 8, MetricLevel::Warning),
        (89, 9, MetricLevel::Warning),
        (90, 9, MetricLevel::Critical),
        (100, 10, MetricLevel::Critical),
        (140, 10, MetricLevel::Critical),
    ];

    for (percent, active_segments, level) in cases {
        let visual = metric_visual(Some(percent));
        assert_eq!(visual.active_segments, active_segments);
        assert_eq!(visual.level, level);
        assert_eq!(visual.label, format!("{}%", percent.min(100)));
    }
}

#[test]
fn unavailable_metric_gauge_has_no_active_segments() {
    let visual = metric_visual(None);

    assert_eq!(visual.active_segments, 0);
    assert_eq!(visual.level, MetricLevel::Unavailable);
    assert_eq!(visual.label, "Unavailable");
}

#[test]
fn countdown_ticks_preserve_the_interactive_timer_action_state() {
    let mut timer = TimerControlSpec {
        id: "timer-1".to_string(),
        label: "Tea".to_string(),
        remaining_seconds: 120,
        completed: false,
        paused: false,
    };
    let initial = timer_action_state(&timer);
    assert_eq!(initial, TimerActionState::Pause);

    timer.remaining_seconds = 119;
    assert_eq!(timer_action_state(&timer), initial);

    timer.paused = true;
    assert_eq!(timer_action_state(&timer), TimerActionState::Resume);
    assert_eq!(timer_summary(&timer), "1:59 · paused");
    timer.completed = true;
    assert_eq!(timer_action_state(&timer), TimerActionState::Clear);
    assert_eq!(timer_summary(&timer), "Complete");
}

#[test]
fn action_errors_are_retained_per_section_until_retry_or_close() {
    let mut errors = ControlCenterErrors::default();
    errors.record_failure(ControlCenterFocus::Network, "nmcli failed");
    errors.record_failure(ControlCenterFocus::Audio, "wpctl failed");

    errors.retry(ControlCenterFocus::Audio);
    assert_eq!(errors.message(ControlCenterFocus::Network), Some("nmcli failed"));
    assert_eq!(errors.message(ControlCenterFocus::Audio), None);

    errors.close();
    assert_eq!(errors.message(ControlCenterFocus::Network), None);
}

#[test]
fn motion_requests_start_generations_and_stale_animations_are_ignored() {
    let mut motion = ControlCenterMotion::new();
    assert_eq!(motion.present(true), MotionEffect::StartEntering { generation: 1 });
    assert_eq!(motion.phase(), ControlCenterMotionPhase::Entering);
    assert_eq!(motion.present(true), MotionEffect::Unchanged);
    assert_eq!(motion.dismiss(true), MotionEffect::StartExiting { generation: 2 });
    assert!(!motion.animation_finished(1, ControlCenterMotionEvent::Entered));
    assert_eq!(motion.phase(), ControlCenterMotionPhase::Exiting);
    assert!(motion.animation_finished(2, ControlCenterMotionEvent::Exited));
    assert_eq!(motion.phase(), ControlCenterMotionPhase::Hidden);
    assert!(!motion.is_presented());
    assert_eq!(motion.present(false), MotionEffect::ShowNow);
    assert_eq!(motion.phase(), ControlCenterMotionPhase::Visible);
    assert_eq!(motion.dismiss(false), MotionEffect::HideNow);
    motion.destroy();
    assert_eq!(motion.phase(), ControlCenterMotionPhase::Hidden);
}

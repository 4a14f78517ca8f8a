use dotfiles_tools::state::{
    AppConfig, AudioState, BarSnapshot, BluetoothState, ClockState, ConnectivityState,
    NetworkState, PowerProfile, PowerState, ResourceState, SourceHealth, SourceId, SystemState,
};
use dotfiles_tools::system::{build_system_cluster, SystemModuleId};

fn snapshot() -> BarSnapshot {
    BarSnapshot {
        outputs: Vec::new(),
        focused_output: None,
        system: SystemState {
            clock: ClockState { epoch_seconds: 1_800_000_000, label: "12:00".to_string() },
            network: NetworkState {
                connectivity: ConnectivityState::Disconnected,
                icon_hint: Some("network-offline-symbolic".to_string()),
                label: None,
                wifi_available: true,
                ethernet_available: true,
                wifi_enabled: Some(false),
                ..NetworkState::default()
            },
            ..SystemState::default()
        },
    }
}

#[test]
fn keyboard_button_compacts_us_and_dvorak_layout_labels() {
    let mut snapshot = snapshot();
    snapshot.system.keyboard_layout = Some("English (US)".to_string());

    let cluster = build_system_cluster(&snapshot, &AppConfig::default());
    let keyboard = cluster.module(SystemModuleId::Keyboard);
    assert_eq!(keyboard.label.as_deref(), Some("US"));
    assert!(keyboard.tooltip.contains("English (US)"));

    snapshot.system.keyboard_layout = Some("English (Dvorak)".to_string());
    let cluster = build_system_cluster(&snapshot, &AppConfig::default());
    let keyboard = cluster.module(SystemModuleId::Keyboard);
    assert_eq!(keyboard.label.as_deref(), Some("DV"));
    assert!(keyboard.tooltip.contains("English (Dvorak)"));
}

#[test]
fn resources_button_marks_cpu_and_memory_pressure() {
    let mut snapshot = snapshot();
    snapshot.system.resources = ResourceState { cpu_percent: Some(91), memory_percent: Some(76) };

    let cluster = build_system_cluster(&snapshot, &AppConfig::default());
    let resources = cluster.module(SystemModuleId::Resources);

    assert_eq!(resources.label.as_deref(), Some("91/76"));
    assert!(resources.classes.iter().any(|class| class == "critical"));
    assert!(resources.tooltip.contains("CPU 91%"));
    assert!(resources.tooltip.contains("Memory 76%"));
}

#[test]
fn network_button_distinguishes_connected_and_disconnected_states() {
    let mut snapshot = snapshot();
    snapshot.system.network = NetworkState {
        connectivity: ConnectivityState::Connected,
        icon_hint: Some("network-wireless-signal-good-symbolic".to_string()),
        label: Some("Office Wi-Fi".to_string()),
        wifi_available: true,
        ethernet_available: true,
        wifi_enabled: Some(true),
        ..NetworkState::default()
    };

    let cluster = build_system_cluster(&snapshot, &AppConfig::default());
    let network = cluster.module(SystemModuleId::Network);
    assert!(network.tooltip.contains("Office Wi-Fi"));
    assert!(!network.classes.iter().any(|class| class == "disconnected"));

    snapshot.system.set_health(
        SourceId::Network,
        SourceHealth::Disconnected { message: "NetworkManager unavailable".to_string() },
    );
    let cluster = build_system_cluster(&snapshot, &AppConfig::default());
    let network = cluster.module(SystemModuleId::Network);
    assert!(network.classes.iter().any(|class| class == "disconnected"));
    assert!(network.tooltip.contains("NetworkManager unavailable"));
}

#[test]
fn bluetooth_button_shows_powered_off_state_without_source_failure() {
    let mut snapshot = snapshot();
    snapshot.system.bluetooth = BluetoothState {
        available: true,
        powered: false,
        connected_device: None,
        audio_device: None,
        ..BluetoothState::default()
    };
    snapshot.system.audio = AudioState { volume_percent: Some(42), muted: false, outputs: Vec::new() };

    let cluster = build_system_cluster(&snapshot, &AppConfig::default());
    let audio = cluster.module(SystemModuleId::Audio);

    assert!(audio.classes.iter().any(|class| class == "inactive"));
    assert!(!audio.classes.iter().any(|class| class == "disconnected"));
    assert!(audio.tooltip.contains("Bluetooth off"));
    assert!(audio.tooltip.contains("42%"));
}

#[test]
fn audio_button_ignores_bluetooth_when_no_adapter_exists() {
    let mut snapshot = snapshot();
    snapshot.system.audio = AudioState { volume_percent: Some(42), muted: false, outputs: Vec::new() };

    let cluster = build_system_cluster(&snapshot, &AppConfig::default());
    let audio = cluster.module(SystemModuleId::Audio);

    assert!(!audio.classes.iter().any(|class| class == "inactive"));
    assert!(!audio.tooltip.contains("Bluetooth"));
}

#[test]
fn power_button_marks_charging_low_and_critical_battery_states() {
    let mut snapshot = snapshot();
    snapshot.system.power = PowerState {
        battery_present: true,
        battery_percent: Some(88),
        charging: true,
        profile: PowerProfile::Balanced,
        changed_at: 0,
    };

    let cluster = build_system_cluster(&snapshot, &AppConfig::default());
    let power = cluster.module(SystemModuleId::Power);
    assert_eq!(power.label.as_deref(), Some("88%"));
    assert!(power.classes.iter().any(|class| class == "charging"));

    snapshot.system.power.battery_percent = Some(15);
    snapshot.system.power.charging = false;
    let cluster = build_system_cluster(&snapshot, &AppConfig::default());
    let power = cluster.module(SystemModuleId::Power);
    assert!(power.classes.iter().any(|class| class == "warning"));

    snapshot.system.power.battery_percent = Some(7);
    let cluster = build_system_cluster(&snapshot, &AppConfig::default());
    let power = cluster.module(SystemModuleId::Power);
    assert!(power.classes.iter().any(|class| class == "critical"));
}

#[test]
fn desktop_power_button_uses_profile_instead_of_fake_battery() {
    let mut snapshot = snapshot();
    snapshot.system.power.profile = PowerProfile::Performance;

    let cluster = build_system_cluster(&snapshot, &AppConfig::default());
    let power = cluster.module(SystemModuleId::Power);

    assert_eq!(power.icon_name, "power-profile-performance-symbolic");
    assert_eq!(power.label, None);
    assert_eq!(power.tooltip, "Power profile: Performance");
    assert!(!power.classes.iter().any(|class| class == "charging"));
}

#[test]
fn stale_health_adds_stale_class_to_the_affected_module() {
    let mut snapshot = snapshot();
    snapshot.system.set_health(SourceId::Resources, SourceHealth::Stale { since_epoch: 123 });

    let cluster = build_system_cluster(&snapshot, &AppConfig::default());
    let resources = cluster.module(SystemModuleId::Resources);

    assert!(resources.classes.iter().any(|class| class == "stale"));
    assert!(resources.tooltip.contains("Stale"));
}

#[test]
fn modules_come_in_bar_order_with_base_classes() {
    let cluster = build_system_cluster(&snapshot(), &AppConfig::default());
    let ids: Vec<SystemModuleId> = cluster.modules().iter().map(|m| m.button.id).collect();
    assert_eq!(
        ids,
        vec![
            SystemModuleId::Keyboard,
            SystemModuleId::Resources,
            SystemModuleId::Network,
            SystemModuleId::Audio,
            SystemModuleId::Power,
            SystemModuleId::Clock,
        ]
    );
    for module in cluster.modules() {
        assert_eq!(module.button.classes[0], "system-module");
        assert_eq!(module.button.classes[1], module.button.id.as_str());
    }
}

#[test]
fn disconnected_health_wins_over_stale_in_a_shared_module() {
    let mut snapshot = snapshot();
    snapshot.system.bluetooth.available = true;
    snapshot.system.set_health(SourceId::Audio, SourceHealth::Stale { since_epoch: 1 });
    snapshot.system.set_health(
        SourceId::Bluetooth,
        SourceHealth::Disconnected { message: "bluez gone".to_string() },
    );
    let cluster = build_system_cluster(&snapshot, &AppConfig::default());
    let audio = cluster.module(SystemModuleId::Audio);
    assert!(audio.classes.iter().any(|class| class == "disconnected"));
    assert!(!audio.classes.iter().any(|class| class == "stale"));
    assert!(audio.tooltip.ends_with("\nDependency: bluez gone"));
}

#[test]
fn keyboard_label_falls_back_to_the_first_word_or_kb() {
    let mut snapshot = snapshot();
    snapshot.system.keyboard_layout = Some("German".to_string());
    let cluster = build_system_cluster(&snapshot, &AppConfig::default());
    assert_eq!(cluster.module(SystemModuleId::Keyboard).label.as_deref(), Some("GE"));
    snapshot.system.keyboard_layout = Some("(--)".to_string());
    let cluster = build_system_cluster(&snapshot, &AppConfig::default());
    assert_eq!(cluster.module(SystemModuleId::Keyboard).label.as_deref(), Some("KB"));
}

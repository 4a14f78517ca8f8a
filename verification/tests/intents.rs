use dotfiles_tools::control_spec::{
    AudioControlSpec, BluetoothDeviceControlSpec, BluetoothManagerSpec, QuickControlSpec,
};
use dotfiles_tools::control_view::{
    bluetooth_device_row, forget_question, pairing_prompt_view, passkey_code, passkey_ready,
    pin_code_ready, PairingEntry,
};
use dotfiles_tools::intents::{
    accept_response, audio_toggle_intent, bluetooth_device_intent, bluetooth_device_request,
    bluetooth_toggle_intent, cancel_pairing_request, forget_device_request, network_toggle_intent,
    pairing_response_request, passkey_response, pin_code_response, sync_bluetooth_discovery,
    ActionIntent, BluetoothPairingResponse, audio_output_intent, brightness_intent,
    context_query_request, control_request, custom_timer_intent, keyboard_layout_intent,
    media_buttons, media_control_intent, media_scroll_intent, scroll_actions, timer_presets,
    timer_primary_intent, window_focus_request, window_search_request, workspace_request,
    workspace_scroll_request, Direction, MediaControlAction,
};
use dotfiles_tools::control_center::{ControlCenterFocus, TimerControlSpec};
use dotfiles_tools::control_spec::{AudioOutputControlSpec, KeyboardLayoutControlSpec, MediaControlSpec};
use dotfiles_tools::system::SystemModuleId;
use dotfiles_tools::state::{
    BluetoothDeviceOperation, BluetoothPairingPrompt, BluetoothPairingPromptKind,
};

fn quick(enabled: bool, toggle_available: bool) -> QuickControlSpec {
    QuickControlSpec {
        icon_name: "network-wireless-symbolic".to_string(),
        label: "Wi-Fi".to_string(),
        detail: "home".to_string(),
        enabled,
        available: true,
        toggle_available,
    }
}

fn audio(muted: bool) -> AudioControlSpec {
    AudioControlSpec {
        percent: Some(40),
        muted,
        detail: "Speakers".to_string(),
        outputs: Vec::new(),
    }
}

fn device(paired: bool, connected: bool) -> BluetoothDeviceControlSpec {
    BluetoothDeviceControlSpec {
        address: "AA:BB:CC:DD:EE:FF".to_string(),
        name: "Headphones".to_string(),
        icon_name: "audio-headphones-symbolic".to_string(),
        detail: "Paired".to_string(),
        paired,
        connected,
        operation: None,
        error: None,
    }
}

fn prompt(kind: BluetoothPairingPromptKind) -> BluetoothPairingPrompt {
    BluetoothPairingPrompt {
        id: 7,
        address: "AA:BB:CC:DD:EE:FF".to_string(),
        device_name: "Keyboard".to_string(),
        kind,
    }
}

fn manager(available: bool, powered: bool, prompt: Option<BluetoothPairingPrompt>) -> BluetoothManagerSpec {
    BluetoothManagerSpec {
        available,
        powered,
        discovering: false,
        connected_count: 0,
        devices: Vec::new(),
        prompt,
        error: None,
    }
}

#[test]
fn network_toggle_asks_only_for_a_change() {
    assert_eq!(
        network_toggle_intent(&quick(false, true), true),
        Some(ActionIntent::SetWifiEnabled { enabled: true })
    );
    assert_eq!(network_toggle_intent(&quick(true, true), true), None);
    assert_eq!(network_toggle_intent(&quick(false, false), true), None);
}

#[test]
fn bluetooth_toggle_asks_only_for_a_change() {
    assert_eq!(
        bluetooth_toggle_intent(&quick(true, true), false),
        Some(ActionIntent::SetBluetoothPowered { powered: false })
    );
    assert_eq!(bluetooth_toggle_intent(&quick(false, true), false), None);
    assert_eq!(bluetooth_toggle_intent(&quick(true, false), false), None);
}

#[test]
fn audio_toggle_unmutes_and_mutes() {
    assert_eq!(audio_toggle_intent(&audio(true), true), Some(ActionIntent::ToggleMute));
    assert_eq!(audio_toggle_intent(&audio(false), false), Some(ActionIntent::ToggleMute));
    assert_eq!(audio_toggle_intent(&audio(false), true), None);
}

#[test]
fn device_rows_disconnect_connect_or_pair() {
    let address = "AA:BB:CC:DD:EE:FF".to_string();
    assert_eq!(
        bluetooth_device_intent(&device(true, true)),
        ActionIntent::DisconnectBluetoothDevice { address: address.clone() }
    );
    assert_eq!(
        bluetooth_device_intent(&device(true, false)),
        ActionIntent::ConnectBluetoothDevice { address: address.clone() }
    );
    assert_eq!(
        bluetooth_device_intent(&device(false, false)),
        ActionIntent::PairBluetoothDevice { address: address.clone() }
    );
    let request = bluetooth_device_request(&device(true, false));
    assert_eq!(request.origin, "control-center:bluetooth:device");
    let forget = forget_device_request(&device(true, false));
    assert_eq!(forget.origin, "control-center:bluetooth:forget");
    assert_eq!(forget.intent, ActionIntent::ForgetBluetoothDevice { address });
}

#[test]
fn device_row_shows_error_and_busy_state() {
    let row = bluetooth_device_row(&device(true, true));
    assert_eq!(row.action_label, "Disconnect Headphones");
    assert_eq!(row.detail, "Paired");
    assert!(row.sensitive);
    assert!(!row.busy);
    assert!(row.connected_mark);
    assert_eq!(row.forget_label.as_deref(), Some("Forget Headphones"));

    let mut busy = device(false, false);
    busy.operation = Some(BluetoothDeviceOperation::Pairing);
    busy.error = Some("Authentication failed".to_string());
    let row = bluetooth_device_row(&busy);
    assert_eq!(row.action_label, "Pair Headphones");
    assert_eq!(row.detail, "Authentication failed");
    assert!(!row.sensitive);
    assert!(row.busy);
    assert!(!row.connected_mark);
    assert_eq!(row.forget_label, None);
    assert_eq!(forget_question("Headphones"), "Forget Headphones?");
}

#[test]
fn discovery_starts_on_the_page_and_stops_with_a_cancel_when_leaving() {
    let started = sync_bluetooth_discovery(&manager(true, true, None), false, true);
    assert!(started.active);
    assert_eq!(started.requests.len(), 1);
    assert_eq!(started.requests[0].origin, "control-center:bluetooth:start-scan");
    assert_eq!(started.requests[0].intent, ActionIntent::SetBluetoothDiscovery { enabled: true });

    let again = sync_bluetooth_discovery(&manager(true, true, None), started.active, true);
    assert!(again.active);
    assert!(again.requests.is_empty());

    let pending = prompt(BluetoothPairingPromptKind::Authorize);
    let left = sync_bluetooth_discovery(&manager(true, true, Some(pending)), true, false);
    assert!(!left.active);
    assert_eq!(left.requests.len(), 2);
    assert_eq!(left.requests[0].origin, "control-center:bluetooth:cancel-pairing");
    assert_eq!(
        left.requests[0].intent,
        ActionIntent::CancelBluetoothPairing { address: "AA:BB:CC:DD:EE:FF".to_string() }
    );
    assert_eq!(left.requests[1].origin, "control-center:bluetooth:stop-scan");
    assert_eq!(left.requests[1].intent, ActionIntent::SetBluetoothDiscovery { enabled: false });

    let unpowered = sync_bluetooth_discovery(&manager(true, false, None), false, true);
    assert!(!unpowered.active);
    assert!(unpowered.requests.is_empty());
}

#[test]
fn passkey_codes_have_six_digits() {
    assert_eq!(passkey_code(42), "000042");
    assert_eq!(passkey_code(0), "000000");
    assert_eq!(passkey_code(123456), "123456");
    assert_eq!(passkey_code(1234567), "1234567");
}

#[test]
fn pairing_prompts_show_instruction_code_and_buttons() {
    let confirm = pairing_prompt_view(&prompt(BluetoothPairingPromptKind::ConfirmPasskey { passkey: 4821 }));
    assert_eq!(confirm.title, "Keyboard");
    assert_eq!(confirm.instruction, "Confirm that this code matches the device:");
    assert_eq!(confirm.code.as_deref(), Some("004821"));
    assert_eq!(confirm.entry, None);
    assert_eq!(confirm.accept_label.as_deref(), Some("Pair"));

    let pin = pairing_prompt_view(&prompt(BluetoothPairingPromptKind::EnterPinCode));
    assert_eq!(pin.instruction, "Enter the PIN shown by the device.");
    assert_eq!(pin.entry, Some(PairingEntry::PinCode));
    assert_eq!(pin.accept_label.as_deref(), Some("Continue"));

    let passkey = pairing_prompt_view(&prompt(BluetoothPairingPromptKind::EnterPasskey));
    assert_eq!(passkey.instruction, "Enter the six-digit passkey shown by the device.");
    assert_eq!(passkey.entry, Some(PairingEntry::Passkey));

    let shown = pairing_prompt_view(&prompt(BluetoothPairingPromptKind::DisplayPinCode {
        pin_code: "0000".to_string(),
    }));
    assert_eq!(shown.instruction, "Enter this PIN on the device, then wait for it to connect:");
    assert_eq!(shown.code.as_deref(), Some("0000"));
    assert_eq!(shown.accept_label, None);

    let typing = pairing_prompt_view(&prompt(BluetoothPairingPromptKind::DisplayPasskey {
        passkey: 99,
        entered: 3,
    }));
    assert_eq!(typing.instruction, "Type this code on the device · 3/6 digits entered");
    assert_eq!(typing.code.as_deref(), Some("000099"));
    assert_eq!(typing.accept_label, None);

    let authorize = pairing_prompt_view(&prompt(BluetoothPairingPromptKind::Authorize));
    assert_eq!(authorize.instruction, "Allow this device to pair with this computer?");
    assert_eq!(authorize.code, None);
    assert_eq!(authorize.accept_label.as_deref(), Some("Allow"));
}

#[test]
fn pin_and_passkey_entries_enable_their_buttons() {
    assert!(pin_code_ready("0000"));
    assert!(pin_code_ready("abcDEF123"));
    assert!(!pin_code_ready(""));
    assert!(!pin_code_ready("12 34"));
    assert!(!pin_code_ready("éé"));
    assert!(pin_code_ready("abcdefghijklmnop"));
    assert!(!pin_code_ready("abcdefghijklmnopq"));

    assert!(passkey_ready("123456"));
    assert!(!passkey_ready(""));
    assert!(!passkey_ready("12a"));
}

#[test]
fn pairing_answers_carry_the_prompt_id() {
    let accept = ActionIntent::RespondBluetoothPairing { prompt_id: 7, response: BluetoothPairingResponse::Accept };
    assert_eq!(
        accept_response(&prompt(BluetoothPairingPromptKind::ConfirmPasskey { passkey: 1 })),
        Some(accept.clone())
    );
    assert_eq!(accept_response(&prompt(BluetoothPairingPromptKind::Authorize)), Some(accept.clone()));
    assert_eq!(accept_response(&prompt(BluetoothPairingPromptKind::EnterPinCode)), None);

    assert_eq!(
        pin_code_response(7, "0000"),
        ActionIntent::RespondBluetoothPairing {
            prompt_id: 7,
            response: BluetoothPairingResponse::PinCode("0000".to_string()),
        }
    );
    assert_eq!(
        passkey_response(7, "004821"),
        Some(ActionIntent::RespondBluetoothPairing {
            prompt_id: 7,
            response: BluetoothPairingResponse::Passkey(4821),
        })
    );
    assert_eq!(passkey_response(7, "4294967296"), None);
    assert_eq!(passkey_response(7, ""), None);

    let request = pairing_response_request(accept.clone());
    assert_eq!(request.origin, "control-center:bluetooth:pairing-response");
    assert_eq!(request.intent, accept);

    let cancel = cancel_pairing_request(&prompt(BluetoothPairingPromptKind::EnterPasskey));
    assert_eq!(cancel.origin, "control-center:bluetooth:cancel-pairing");
    assert_eq!(
        cancel.intent,
        ActionIntent::CancelBluetoothPairing { address: "AA:BB:CC:DD:EE:FF".to_string() }
    );
}

#[test]
fn timer_presets_start_named_timers() {
    let presets = timer_presets();
    let labels = presets.iter().map(|(label, _)| label.as_str()).collect::<Vec<_>>();
    assert_eq!(labels, vec!["5 min", "15 min", "25 min", "45 min"]);
    assert_eq!(
        presets[2].1,
        ActionIntent::StartTimer { label: "25 minute timer".to_string(), duration_seconds: 1500 }
    );
}

#[test]
fn custom_timer_trims_its_label_and_clamps_minutes() {
    assert_eq!(
        custom_timer_intent("  Tea  ", 4),
        ActionIntent::StartTimer { label: "Tea".to_string(), duration_seconds: 240 }
    );
    assert_eq!(
        custom_timer_intent("   ", 0),
        ActionIntent::StartTimer { label: "Timer".to_string(), duration_seconds: 60 }
    );
    assert_eq!(
        custom_timer_intent("Bake", 1000),
        ActionIntent::StartTimer { label: "Bake".to_string(), duration_seconds: 43200 }
    );
    assert_eq!(
        custom_timer_intent("Nap", -3),
        ActionIntent::StartTimer { label: "Nap".to_string(), duration_seconds: 60 }
    );
}

fn timer(completed: bool, paused: bool) -> TimerControlSpec {
    TimerControlSpec {
        id: "t1".to_string(),
        label: "Tea".to_string(),
        remaining_seconds: 90,
        completed,
        paused,
    }
}

#[test]
fn timer_button_clears_resumes_or_pauses() {
    let id = "t1".to_string();
    assert_eq!(timer_primary_intent(&timer(true, false)), ("cancel-timer", ActionIntent::CancelTimer { id: id.clone() }));
    assert_eq!(timer_primary_intent(&timer(false, true)), ("resume-timer", ActionIntent::ResumeTimer { id: id.clone() }));
    assert_eq!(timer_primary_intent(&timer(false, false)), ("pause-timer", ActionIntent::PauseTimer { id }));
    let request = control_request(ControlCenterFocus::Clock, "open-calendar", ActionIntent::OpenCalendar);
    assert_eq!(request.origin, "control-center:clock:open-calendar");
    assert_eq!(request.intent, ActionIntent::OpenCalendar);
}

#[test]
fn selecting_outputs_and_layouts_skips_the_current_one() {
    let mut speakers = AudioOutputControlSpec {
        name: "alsa_output.speakers".to_string(),
        label: "Speakers".to_string(),
        detail: "Built-in".to_string(),
        icon_name: "audio-speakers-symbolic".to_string(),
        selected: false,
    };
    assert_eq!(
        audio_output_intent(&speakers),
        Some(ActionIntent::SetAudioOutput { sink_name: "alsa_output.speakers".to_string() })
    );
    speakers.selected = true;
    assert_eq!(audio_output_intent(&speakers), None);

    let mut layout = KeyboardLayoutControlSpec {
        index: 2,
        title: "German".to_string(),
        detail: "de".to_string(),
        raw_name: "German".to_string(),
        selected: false,
    };
    assert_eq!(keyboard_layout_intent(&layout), Some(ActionIntent::SelectKeyboardLayout { index: 2 }));
    layout.selected = true;
    assert_eq!(keyboard_layout_intent(&layout), None);
}

#[test]
fn media_controls_need_a_player() {
    let media = Some(MediaControlSpec {
        player: "spotify".to_string(),
        title: "Song".to_string(),
        artist: "Band".to_string(),
        playing: true,
        art_url: None,
    });
    assert_eq!(
        media_control_intent(&media, MediaControlAction::PlayPause),
        Some(ActionIntent::ControlMedia { player: "spotify".to_string(), action: MediaControlAction::PlayPause })
    );
    assert_eq!(media_control_intent(&None, MediaControlAction::Next), None);
    let buttons = media_buttons();
    assert_eq!(
        buttons,
        vec![
            ("previous", MediaControlAction::Previous),
            ("play-pause", MediaControlAction::PlayPause),
            ("next", MediaControlAction::Next),
        ]
    );
    assert_eq!(
        media_scroll_intent(&Some("mpv".to_string()), Direction::Previous),
        Some(ActionIntent::ControlMedia { player: "mpv".to_string(), action: MediaControlAction::Previous })
    );
    assert_eq!(media_scroll_intent(&None, Direction::Next), None);
}

#[test]
fn brightness_and_context_requests() {
    assert_eq!(
        brightness_intent(&Some("intel_backlight".to_string()), 70),
        ActionIntent::SetBrightnessPercent { device: "intel_backlight".to_string(), percent: 70 }
    );
    assert_eq!(
        brightness_intent(&None, 10),
        ActionIntent::SetBrightnessPercent { device: String::new(), percent: 10 }
    );
    let request = context_query_request(ControlCenterFocus::Network, "DP-1");
    assert_eq!(request.origin, "control-center:network:open-luma");
    assert_eq!(
        request.intent,
        ActionIntent::OpenContextQuery { context: ControlCenterFocus::Network, output: "DP-1".to_string() }
    );
}

#[test]
fn module_scrolls_toggle_layouts_and_cycle_profiles() {
    assert_eq!(
        scroll_actions(SystemModuleId::Keyboard),
        Some((ActionIntent::ToggleKeyboardLayout, ActionIntent::ToggleKeyboardLayout))
    );
    assert_eq!(
        scroll_actions(SystemModuleId::Power),
        Some((
            ActionIntent::CyclePowerProfile { direction: Direction::Previous },
            ActionIntent::CyclePowerProfile { direction: Direction::Next },
        ))
    );
    assert_eq!(scroll_actions(SystemModuleId::Audio), None);
    assert_eq!(scroll_actions(SystemModuleId::Clock), None);
}

#[test]
fn bar_requests_name_their_origin() {
    let switch = workspace_request("DP-1", "3");
    assert_eq!(switch.origin, "workspace:DP-1:3");
    assert_eq!(
        switch.intent,
        ActionIntent::SwitchWorkspace { output: "DP-1".to_string(), workspace: "3".to_string() }
    );
    let scroll = workspace_scroll_request("DP-1", Direction::Next);
    assert_eq!(scroll.origin, "workspace-scroll:DP-1");
    assert_eq!(scroll.intent, ActionIntent::CycleWorkspace { output: "DP-1".to_string(), direction: Direction::Next });
    let search = window_search_request("HDMI-A-1");
    assert_eq!(search.origin, "title-secondary:HDMI-A-1");
    assert_eq!(search.intent, ActionIntent::OpenWindowSearch { output: "HDMI-A-1".to_string() });
    let focus = window_focus_request("DP-1", "HDMI-A-1", "0xabc");
    assert_eq!(focus.origin, "window-popover:DP-1:0xabc");
    assert_eq!(
        focus.intent,
        ActionIntent::FocusWindow { output: "HDMI-A-1".to_string(), window_id: "0xabc".to_string() }
    );
}

//! What the bar's and the control center's controls ask the system to do:
//! the intents that toggles, sliders, device rows, pairing prompts, timers,
//! media buttons, workspace buttons and scrolls send, and when they send them.
use vstd::prelude::*;

use crate::control_center::{
    control_center_origin, origin_spec, timer_action_state, ControlCenterFocus, TimerActionState,
    TimerControlSpec,
};
use crate::control_spec::{
    AudioControlSpec, AudioOutputControlSpec, BluetoothDeviceControlSpec, BluetoothManagerSpec,
    KeyboardLayoutControlSpec, MediaControlSpec, QuickControlSpec,
};
use crate::monitor::{parse_u32_at, parse_u32_spec};
use crate::state::{BluetoothPairingPrompt, BluetoothPairingPromptKind};
use crate::system::SystemModuleId;
use crate::text::{chars_of, dec, owned, push_dec, push_str, string_of, trim, trim_vec};

verus! {

// ---------------------------------------------------------------------------
// Intents
// ---------------------------------------------------------------------------

/// The answer given to a pairing prompt.
#[derive(Clone, Debug, PartialEq, Eq)]
pub enum BluetoothPairingResponse {
    Accept,
    PinCode(String),
    Passkey(u32),
}

/// Which way a cycle or a scroll goes.
#[derive(Clone, Copy, Debug, PartialEq, Eq, Structural)]
pub enum Direction {
    Previous,
    Next,
}

/// A media player command.
#[derive(Clone, Copy, Debug, PartialEq, Eq, Structural)]
pub enum MediaControlAction {
    Previous,
    PlayPause,
    Next,
}

/// A change that a control of the bar or of the control center asks the
/// system for.
#[derive(Clone, Debug, PartialEq, Eq)]
pub enum ActionIntent {
    SwitchWorkspace { output: String, workspace: String },
    CycleWorkspace { output: String, direction: Direction },
    FocusWindow { output: String, window_id: String },
    OpenWindowSearch { output: String },
    ToggleKeyboardLayout,
    SelectKeyboardLayout { index: u8 },
    CyclePowerProfile { direction: Direction },
    ControlMedia { player: String, action: MediaControlAction },
    SetWifiEnabled { enabled: bool },
    SetBluetoothPowered { powered: bool },
    ToggleMute,
    SetVolumePercent { percent: u8 },
    SetBrightnessPercent { device: String, percent: u8 },
    SetAudioOutput { sink_name: String },
    SetBluetoothDiscovery { enabled: bool },
    ConnectBluetoothDevice { address: String },
    DisconnectBluetoothDevice { address: String },
    PairBluetoothDevice { address: String },
    ForgetBluetoothDevice { address: String },
    CancelBluetoothPairing { address: String },
    RespondBluetoothPairing { prompt_id: u64, response: BluetoothPairingResponse },
    StartTimer { label: String, duration_seconds: u64 },
    PauseTimer { id: String },
    ResumeTimer { id: String },
    CancelTimer { id: String },
    OpenCalendar,
    /// Ask the assistant about the page that was open.
    OpenContextQuery { context: ControlCenterFocus, output: String },
}

/// An intent with the origin that names the page and control that sent it.
#[derive(Clone, Debug, PartialEq, Eq)]
pub struct ActionRequest {
    pub origin: String,
    pub intent: ActionIntent,
}

/// A request as its origin text and intent.
pub open spec fn request_view(r: ActionRequest) -> (Seq<char>, ActionIntent) {
    (r.origin@, r.intent)
}

// ---------------------------------------------------------------------------
// Quick-settings toggles
// ---------------------------------------------------------------------------

/// Switching the network toggle to `active` turns Wi-Fi on or off, when the
/// toggle can act and the state differs.
pub open spec fn network_toggle_spec(network: QuickControlSpec, active: bool) -> Option<ActionIntent> {
    if network.toggle_available && network.enabled != active {
        Some(ActionIntent::SetWifiEnabled { enabled: active })
    } else {
        None
    }
}

/// Switching the Bluetooth toggle to `active` powers the adapter on or off,
/// when the toggle can act and the state differs.
pub open spec fn bluetooth_toggle_spec(bluetooth: QuickControlSpec, active: bool) -> Option<ActionIntent> {
    if bluetooth.toggle_available && bluetooth.enabled != active {
        Some(ActionIntent::SetBluetoothPowered { powered: active })
    } else {
        None
    }
}

/// The audio toggle is on while the output is audible: switching it to a
/// state that disagrees with the mute flag toggles mute.
pub open spec fn audio_toggle_spec(audio: AudioControlSpec, active: bool) -> Option<ActionIntent> {
    if audio.muted == active {
        Some(ActionIntent::ToggleMute)
    } else {
        None
    }
}

/// The intent of switching the network toggle to `active`, if any.
pub fn network_toggle_intent(network: &QuickControlSpec, active: bool) -> (r: Option<ActionIntent>)
    ensures
        r == network_toggle_spec(*network, active),
{
    if network.toggle_available && network.enabled != active {
        Some(ActionIntent::SetWifiEnabled { enabled: active })
    } else {
        None
    }
}

/// The intent of switching the Bluetooth toggle to `active`, if any.
pub fn bluetooth_toggle_intent(bluetooth: &QuickControlSpec, active: bool) -> (r: Option<ActionIntent>)
    ensures
        r == bluetooth_toggle_spec(*bluetooth, active),
{
    if bluetooth.toggle_available && bluetooth.enabled != active {
        Some(ActionIntent::SetBluetoothPowered { powered: active })
    } else {
        None
    }
}

/// The intent of switching the audio toggle to `active`, if any.
pub fn audio_toggle_intent(audio: &AudioControlSpec, active: bool) -> (r: Option<ActionIntent>)
    ensures
        r == audio_toggle_spec(*audio, active),
{
    if audio.muted == active {
        Some(ActionIntent::ToggleMute)
    } else {
        None
    }
}

/// A toggle that is set to the state it already shows asks for nothing, and
/// one that is flipped asks for exactly the shown change (the network and
/// Bluetooth toggles when they can act; the audio toggle always).
pub proof fn toggles_ask_only_for_a_change(
    network: QuickControlSpec,
    bluetooth: QuickControlSpec,
    audio: AudioControlSpec,
)
    ensures
        network_toggle_spec(network, network.enabled) is None,
        bluetooth_toggle_spec(bluetooth, bluetooth.enabled) is None,
        audio_toggle_spec(audio, !audio.muted) is None,
        network.toggle_available ==> network_toggle_spec(network, !network.enabled)
            == Some(ActionIntent::SetWifiEnabled { enabled: !network.enabled }),
        bluetooth.toggle_available ==> bluetooth_toggle_spec(bluetooth, !bluetooth.enabled)
            == Some(ActionIntent::SetBluetoothPowered { powered: !bluetooth.enabled }),
        audio_toggle_spec(audio, audio.muted) == Some(ActionIntent::ToggleMute),
{
}

// ---------------------------------------------------------------------------
// Bluetooth device rows
// ---------------------------------------------------------------------------

/// A device row's main button disconnects a connected device, connects a
/// paired one and pairs any other.
pub open spec fn device_intent_spec(d: BluetoothDeviceControlSpec) -> ActionIntent {
    if d.connected {
        ActionIntent::DisconnectBluetoothDevice { address: d.address }
    } else if d.paired {
        ActionIntent::ConnectBluetoothDevice { address: d.address }
    } else {
        ActionIntent::PairBluetoothDevice { address: d.address }
    }
}

/// The intent of a device row's main button.
pub fn bluetooth_device_intent(device: &BluetoothDeviceControlSpec) -> (r: ActionIntent)
    ensures
        r == device_intent_spec(*device),
{
    let address = device.address.clone();
    if device.connected {
        ActionIntent::DisconnectBluetoothDevice { address }
    } else if device.paired {
        ActionIntent::ConnectBluetoothDevice { address }
    } else {
        ActionIntent::PairBluetoothDevice { address }
    }
}

/// The request that a device row's main button sends.
pub fn bluetooth_device_request(device: &BluetoothDeviceControlSpec) -> (r: ActionRequest)
    ensures
        request_view(r) == (origin_spec(ControlCenterFocus::Bluetooth, "device"@), device_intent_spec(*device)),
{
    ActionRequest {
        origin: control_center_origin(ControlCenterFocus::Bluetooth, "device"),
        intent: bluetooth_device_intent(device),
    }
}

/// The request that confirming "forget" on a paired device sends.
pub fn forget_device_request(device: &BluetoothDeviceControlSpec) -> (r: ActionRequest)
    ensures
        request_view(r) == (
            origin_spec(ControlCenterFocus::Bluetooth, "forget"@),
            ActionIntent::ForgetBluetoothDevice { address: device.address },
        ),
{
    ActionRequest {
        origin: control_center_origin(ControlCenterFocus::Bluetooth, "forget"),
        intent: ActionIntent::ForgetBluetoothDevice { address: device.address.clone() },
    }
}

// ---------------------------------------------------------------------------
// Discovery while the Bluetooth page is open
// ---------------------------------------------------------------------------

/// Discovery runs exactly while the Bluetooth page is visible and the adapter
/// is there and powered.
pub open spec fn discovery_desired(m: BluetoothManagerSpec, page_visible: bool) -> bool {
    page_visible && m.available && m.powered
}

/// What syncing discovery sends: leaving the page cancels a pending pairing
/// prompt; then, when discovery is not yet as desired, a start or stop.
pub open spec fn discovery_requests_spec(m: BluetoothManagerSpec, active: bool, page_visible: bool) -> Seq<
    (Seq<char>, ActionIntent),
> {
    let desired = discovery_desired(m, page_visible);
    let cancel: Seq<(Seq<char>, ActionIntent)> = match m.prompt {
        Some(p) => if !page_visible {
            seq![
                (
                    origin_spec(ControlCenterFocus::Bluetooth, "cancel-pairing"@),
                    ActionIntent::CancelBluetoothPairing { address: p.address },
                ),
            ]
        } else {
            Seq::empty()
        },
        None => Seq::empty(),
    };
    let scan: Seq<(Seq<char>, ActionIntent)> = if active == desired {
        Seq::empty()
    } else {
        seq![
            (
                origin_spec(
                    ControlCenterFocus::Bluetooth,
                    if desired {
                        "start-scan"@
                    } else {
                        "stop-scan"@
                    },
                ),
                ActionIntent::SetBluetoothDiscovery { enabled: desired },
            ),
        ]
    };
    cancel + scan
}

/// The requests of one discovery sync and whether discovery runs after it.
pub struct DiscoverySync {
    pub requests: Vec<ActionRequest>,
    pub active: bool,
}

/// Brings discovery in line with the page's visibility: `active` is whether
/// discovery was last asked to run.
pub fn sync_bluetooth_discovery(manager: &BluetoothManagerSpec, active: bool, page_visible: bool) -> (r:
    DiscoverySync)
    ensures
        r.active == discovery_desired(*manager, page_visible),
        r.requests@.map_values(|q: ActionRequest| request_view(q)) == discovery_requests_spec(
            *manager,
            active,
            page_visible,
        ),
{
    let desired = page_visible && manager.available && manager.powered;
    let mut requests: Vec<ActionRequest> = Vec::new();
    if !page_visible {
        if let Some(prompt) = &manager.prompt {
            requests.push(
                ActionRequest {
                    origin: control_center_origin(ControlCenterFocus::Bluetooth, "cancel-pairing"),
                    intent: ActionIntent::CancelBluetoothPairing { address: prompt.address.clone() },
                },
            );
        }
    }
    let ghost cancel = requests@.map_values(|q: ActionRequest| request_view(q));
    assert(cancel == discovery_requests_spec(*manager, desired, page_visible));
    if active != desired {
        let origin = if desired {
            control_center_origin(ControlCenterFocus::Bluetooth, "start-scan")
        } else {
            control_center_origin(ControlCenterFocus::Bluetooth, "stop-scan")
        };
        requests.push(ActionRequest { origin, intent: ActionIntent::SetBluetoothDiscovery { enabled: desired } });
    }
    assert(requests@.map_values(|q: ActionRequest| request_view(q)) =~= discovery_requests_spec(
        *manager,
        active,
        page_visible,
    ));
    DiscoverySync { requests, active: desired }
}

/// Syncing again, with nothing changed, starts or stops nothing: after one
/// sync, discovery is as desired, and a second sync sends at most the
/// cancellation of a pending prompt.
pub proof fn discovery_sync_settles(m: BluetoothManagerSpec, active: bool, page_visible: bool)
    ensures
        ({
            let after = discovery_desired(m, page_visible);
            let again = discovery_requests_spec(m, after, page_visible);
            &&& again.len() <= 1
            &&& forall|i: int| 0 <= i < again.len() ==> !(#[trigger] again[i].1 is SetBluetoothDiscovery)
        }),
        discovery_requests_spec(m, active, page_visible).len() <= 2,
        !page_visible ==> forall|i: int|
            0 <= i < discovery_requests_spec(m, active, page_visible).len() ==> !(#[trigger] discovery_requests_spec(
                m,
                active,
                page_visible,
            )[i].1 matches ActionIntent::SetBluetoothDiscovery { enabled: true }),
{
    let again = discovery_requests_spec(m, discovery_desired(m, page_visible), page_visible);
    assert forall|i: int| 0 <= i < again.len() implies !(#[trigger] again[i].1 is SetBluetoothDiscovery) by {
        assert(again.len() <= 1);
    }
}

// ---------------------------------------------------------------------------
// Pairing prompts
// ---------------------------------------------------------------------------

/// The answer that the prompt's accept button gives without input: prompts
/// that ask to confirm a code or to authorize are accepted as they are.
pub open spec fn accept_response_spec(prompt: BluetoothPairingPrompt) -> Option<ActionIntent> {
    match prompt.kind {
        BluetoothPairingPromptKind::ConfirmPasskey { .. } | BluetoothPairingPromptKind::Authorize => Some(
            ActionIntent::RespondBluetoothPairing { prompt_id: prompt.id, response: BluetoothPairingResponse::Accept },
        ),
        _ => None,
    }
}

/// The intent of the accept button of a prompt that takes no input.
pub fn accept_response(prompt: &BluetoothPairingPrompt) -> (r: Option<ActionIntent>)
    ensures
        r == accept_response_spec(*prompt),
{
    match &prompt.kind {
        BluetoothPairingPromptKind::ConfirmPasskey { .. } | BluetoothPairingPromptKind::Authorize => Some(
            ActionIntent::RespondBluetoothPairing { prompt_id: prompt.id, response: BluetoothPairingResponse::Accept },
        ),
        _ => None,
    }
}

/// The intent that sends a typed PIN.
pub fn pin_code_response(prompt_id: u64, value: &str) -> (r: ActionIntent)
    ensures
        r matches ActionIntent::RespondBluetoothPairing { prompt_id: id, response: BluetoothPairingResponse::PinCode(
            pin,
        ) } && id == prompt_id && pin@ == value@,
{
    ActionIntent::RespondBluetoothPairing {
        prompt_id,
        response: BluetoothPairingResponse::PinCode(owned(value)),
    }
}

/// The intent that sends a typed passkey: the text read as a `u32` the way
/// `str::parse` reads it; nothing is sent when it does not read as one.
pub fn passkey_response(prompt_id: u64, value: &str) -> (r: Option<ActionIntent>)
    ensures
        r == match parse_u32_spec(value@) {
            Some(n) => Some(
                ActionIntent::RespondBluetoothPairing { prompt_id, response: BluetoothPairingResponse::Passkey(n) },
            ),
            None => None,
        },
{
    let v = chars_of(value);
    assert(v@.subrange(0, v@.len() as int) =~= value@);
    match parse_u32_at(&v, 0, v.len()) {
        Some(n) => Some(
            ActionIntent::RespondBluetoothPairing { prompt_id, response: BluetoothPairingResponse::Passkey(n) },
        ),
        None => None,
    }
}

/// The request that cancels a pairing prompt.
pub fn cancel_pairing_request(prompt: &BluetoothPairingPrompt) -> (r: ActionRequest)
    ensures
        request_view(r) == (
            origin_spec(ControlCenterFocus::Bluetooth, "cancel-pairing"@),
            ActionIntent::CancelBluetoothPairing { address: prompt.address },
        ),
{
    ActionRequest {
        origin: control_center_origin(ControlCenterFocus::Bluetooth, "cancel-pairing"),
        intent: ActionIntent::CancelBluetoothPairing { address: prompt.address.clone() },
    }
}

/// The request that answers a pairing prompt.
pub fn pairing_response_request(intent: ActionIntent) -> (r: ActionRequest)
    ensures
        request_view(r) == (origin_spec(ControlCenterFocus::Bluetooth, "pairing-response"@), intent),
{
    ActionRequest { origin: control_center_origin(ControlCenterFocus::Bluetooth, "pairing-response"), intent }
}

// ---------------------------------------------------------------------------
// Requests from the control center's pages
// ---------------------------------------------------------------------------

/// The request that a control on page `focus` sends for `action`.
pub fn control_request(focus: ControlCenterFocus, action: &str, intent: ActionIntent) -> (r: ActionRequest)
    ensures
        request_view(r) == (origin_spec(focus, action@), intent),
{
    ActionRequest { origin: control_center_origin(focus, action), intent }
}

/// The footer's request to ask about the open page on `output`.
pub fn context_query_request(focus: ControlCenterFocus, output: &str) -> (r: ActionRequest)
    ensures
        r.origin@ == origin_spec(focus, "open-luma"@),
        r.intent matches ActionIntent::OpenContextQuery { context: c, output: o } && c == focus && o@ == output@,
{
    control_request(focus, "open-luma", ActionIntent::OpenContextQuery { context: focus, output: owned(output) })
}

/// Choosing an audio output switches to it, unless it is the one in use.
pub fn audio_output_intent(output: &AudioOutputControlSpec) -> (r: Option<ActionIntent>)
    ensures
        match r {
            Some(i) => !output.selected && i == ActionIntent::SetAudioOutput { sink_name: output.name },
            None => output.selected,
        },
{
    if output.selected {
        None
    } else {
        Some(ActionIntent::SetAudioOutput { sink_name: output.name.clone() })
    }
}

/// Choosing a keyboard layout selects it, unless it is the current one.
pub fn keyboard_layout_intent(layout: &KeyboardLayoutControlSpec) -> (r: Option<ActionIntent>)
    ensures
        r == (if layout.selected {
            None
        } else {
            Some(ActionIntent::SelectKeyboardLayout { index: layout.index })
        }),
{
    if layout.selected {
        None
    } else {
        Some(ActionIntent::SelectKeyboardLayout { index: layout.index })
    }
}

/// A media button commands the player on show; with no media, nothing.
pub fn media_control_intent(media: &Option<MediaControlSpec>, action: MediaControlAction) -> (r: Option<ActionIntent>)
    ensures
        match *media {
            Some(m) => r == Some(ActionIntent::ControlMedia { player: m.player, action }),
            None => r is None,
        },
{
    match media {
        Some(m) => Some(ActionIntent::ControlMedia { player: m.player.clone(), action }),
        None => None,
    }
}

/// The media buttons of the control center, in order, with the action names
/// of their requests.
pub fn media_buttons() -> (r: Vec<(&'static str, MediaControlAction)>)
    ensures
        r@.len() == 3,
        r@[0].0@ == "previous"@ && r@[0].1 == MediaControlAction::Previous,
        r@[1].0@ == "play-pause"@ && r@[1].1 == MediaControlAction::PlayPause,
        r@[2].0@ == "next"@ && r@[2].1 == MediaControlAction::Next,
{
    let mut r: Vec<(&'static str, MediaControlAction)> = Vec::new();
    r.push(("previous", MediaControlAction::Previous));
    r.push(("play-pause", MediaControlAction::PlayPause));
    r.push(("next", MediaControlAction::Next));
    r
}

/// A brightness slider sets the percentage of the shown backlight (of no
/// named device when none is known).
pub fn brightness_intent(device: &Option<String>, percent: u8) -> (r: ActionIntent)
    ensures
        r matches ActionIntent::SetBrightnessPercent { device: d, percent: p } && p == percent && d@ == (match *device {
            Some(n) => n@,
            None => Seq::<char>::empty(),
        }),
{
    let name = match device {
        Some(n) => n.clone(),
        None => String::new(),
    };
    ActionIntent::SetBrightnessPercent { device: name, percent }
}

// ---------------------------------------------------------------------------
// Timers
// ---------------------------------------------------------------------------

/// The quick-start presets, in minutes.
pub open spec fn preset_minutes() -> Seq<u64> {
    seq![5u64, 15u64, 25u64, 45u64]
}

/// A preset's button label and the timer it starts.
pub open spec fn preset_spec(minutes: u64) -> (Seq<char>, Seq<char>, u64) {
    (dec(minutes as nat) + " min"@, dec(minutes as nat) + " minute timer"@, (minutes * 60) as u64)
}

/// The quick-start buttons: their labels and intents.
pub fn timer_presets() -> (r: Vec<(String, ActionIntent)>)
    ensures
        r@.len() == preset_minutes().len(),
        forall|i: int|
            0 <= i < r@.len() ==> ({
                let (label, name, seconds) = preset_spec(preset_minutes()[i]);
                &&& (#[trigger] r@[i]).0@ == label
                &&& r@[i].1 matches ActionIntent::StartTimer { label: l, duration_seconds: d } && l@ == name && d
                    == seconds
            }),
{
    let minutes: [u64; 4] = [5, 15, 25, 45];
    let mut r: Vec<(String, ActionIntent)> = Vec::new();
    let mut i: usize = 0;
    while i < 4
        invariant
            i <= 4,
            minutes@ == preset_minutes(),
            r@.len() == i,
            forall|k: int|
                0 <= k < i ==> ({
                    let (label, name, seconds) = preset_spec(preset_minutes()[k]);
                    &&& (#[trigger] r@[k]).0@ == label
                    &&& r@[k].1 matches ActionIntent::StartTimer { label: l, duration_seconds: d } && l@ == name
                        && d == seconds
                }),
        decreases 4 - i,
    {
        let m = minutes[i];
        let mut button = String::new();
        push_dec(&mut button, m);
        push_str(&mut button, " min");
        let mut label = String::new();
        push_dec(&mut label, m);
        push_str(&mut label, " minute timer");
        r.push((button, ActionIntent::StartTimer { label, duration_seconds: m * 60 }));
        i = i + 1;
    }
    r
}

/// The custom timer: the typed label, trimmed, or `Timer` when blank; the
/// minutes held to 1 through 720.
pub fn custom_timer_intent(label: &str, minutes: i32) -> (r: ActionIntent)
    ensures
        r matches ActionIntent::StartTimer { label: l, duration_seconds: d } && l@ == (if trim(label@).len() == 0 {
            "Timer"@
        } else {
            trim(label@)
        }) && d == 60 * (if minutes < 1 {
            1
        } else if minutes > 720 {
            720
        } else {
            minutes as int
        }),
{
    let m: u64 = if minutes < 1 {
        1
    } else if minutes > 720 {
        720
    } else {
        minutes as u64
    };
    let v = chars_of(label);
    let t = trim_vec(&v);
    let name = if t.len() == 0 {
        owned("Timer")
    } else {
        string_of(&t)
    };
    ActionIntent::StartTimer { label: name, duration_seconds: m * 60 }
}

/// A timer's main button: clear a completed timer, resume a paused one,
/// else pause; with the action name of its request.
pub fn timer_primary_intent(timer: &TimerControlSpec) -> (r: (&'static str, ActionIntent))
    ensures
        if timer.completed {
            r.0@ == "cancel-timer"@ && r.1 == ActionIntent::CancelTimer { id: timer.id }
        } else if timer.paused {
            r.0@ == "resume-timer"@ && r.1 == ActionIntent::ResumeTimer { id: timer.id }
        } else {
            r.0@ == "pause-timer"@ && r.1 == ActionIntent::PauseTimer { id: timer.id }
        },
{
    let id = timer.id.clone();
    match timer_action_state(timer) {
        TimerActionState::Clear => ("cancel-timer", ActionIntent::CancelTimer { id }),
        TimerActionState::Resume => ("resume-timer", ActionIntent::ResumeTimer { id }),
        TimerActionState::Pause => ("pause-timer", ActionIntent::PauseTimer { id }),
    }
}

// ---------------------------------------------------------------------------
// Requests from the bar
// ---------------------------------------------------------------------------

/// Scrolling over a module: keyboard scrolls switch the layout either way,
/// power scrolls cycle the profile back or forth; other modules ignore it.
pub open spec fn scroll_actions_spec(module_id: SystemModuleId) -> Option<(ActionIntent, ActionIntent)> {
    match module_id {
        SystemModuleId::Keyboard => Some((ActionIntent::ToggleKeyboardLayout, ActionIntent::ToggleKeyboardLayout)),
        SystemModuleId::Power => Some(
            (
                ActionIntent::CyclePowerProfile { direction: Direction::Previous },
                ActionIntent::CyclePowerProfile { direction: Direction::Next },
            ),
        ),
        _ => None,
    }
}

/// The intents of scrolling back and forth over a module.
pub fn scroll_actions(module_id: SystemModuleId) -> (r: Option<(ActionIntent, ActionIntent)>)
    ensures
        r == scroll_actions_spec(module_id),
{
    match module_id {
        SystemModuleId::Keyboard => Some((ActionIntent::ToggleKeyboardLayout, ActionIntent::ToggleKeyboardLayout)),
        SystemModuleId::Power => Some(
            (
                ActionIntent::CyclePowerProfile { direction: Direction::Previous },
                ActionIntent::CyclePowerProfile { direction: Direction::Next },
            ),
        ),
        SystemModuleId::Audio => None,
        SystemModuleId::Resources | SystemModuleId::Network | SystemModuleId::Clock => None,
    }
}

/// Scrolling over the media module skips back or ahead on the shown player.
pub fn media_scroll_intent(player: &Option<String>, direction: Direction) -> (r: Option<ActionIntent>)
    ensures
        match *player {
            Some(p) => r matches Some(ActionIntent::ControlMedia { player: q, action }) && q@ == p@ && action == (
            match direction {
                Direction::Previous => MediaControlAction::Previous,
                Direction::Next => MediaControlAction::Next,
            }),
            None => r is None,
        },
{
    match player {
        Some(p) => Some(
            ActionIntent::ControlMedia {
                player: p.clone(),
                action: match direction {
                    Direction::Previous => MediaControlAction::Previous,
                    Direction::Next => MediaControlAction::Next,
                },
            },
        ),
        None => None,
    }
}

/// A workspace button switches `output` to that workspace.
pub fn workspace_request(output: &str, workspace: &str) -> (r: ActionRequest)
    ensures
        r.origin@ == "workspace:"@ + output@ + ":"@ + workspace@,
        r.intent matches ActionIntent::SwitchWorkspace { output: o, workspace: w } && o@ == output@ && w@ == workspace@,
{
    let mut origin = owned("workspace:");
    push_str(&mut origin, output);
    push_str(&mut origin, ":");
    push_str(&mut origin, workspace);
    ActionRequest {
        origin,
        intent: ActionIntent::SwitchWorkspace { output: owned(output), workspace: owned(workspace) },
    }
}

/// Scrolling over the workspaces cycles them on `output`.
pub fn workspace_scroll_request(output: &str, direction: Direction) -> (r: ActionRequest)
    ensures
        r.origin@ == "workspace-scroll:"@ + output@,
        r.intent matches ActionIntent::CycleWorkspace { output: o, direction: d } && o@ == output@ && d == direction,
{
    let mut origin = owned("workspace-scroll:");
    push_str(&mut origin, output);
    ActionRequest { origin, intent: ActionIntent::CycleWorkspace { output: owned(output), direction } }
}

/// A secondary click on the window title opens the window search on `output`.
pub fn window_search_request(output: &str) -> (r: ActionRequest)
    ensures
        r.origin@ == "title-secondary:"@ + output@,
        r.intent matches ActionIntent::OpenWindowSearch { output: o } && o@ == output@,
{
    let mut origin = owned("title-secondary:");
    push_str(&mut origin, output);
    ActionRequest { origin, intent: ActionIntent::OpenWindowSearch { output: owned(output) } }
}

/// A window of the window list, opened on `origin_output`, focuses that
/// window on its own output.
pub fn window_focus_request(origin_output: &str, output: &str, window_id: &str) -> (r: ActionRequest)
    ensures
        r.origin@ == "window-popover:"@ + origin_output@ + ":"@ + window_id@,
        r.intent matches ActionIntent::FocusWindow { output: o, window_id: w } && o@ == output@ && w@ == window_id@,
{
    let mut origin = owned("window-popover:");
    push_str(&mut origin, origin_output);
    push_str(&mut origin, ":");
    push_str(&mut origin, window_id);
    ActionRequest {
        origin,
        intent: ActionIntent::FocusWindow { output: owned(output), window_id: owned(window_id) },
    }
}

} // verus!

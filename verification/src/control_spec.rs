//! What the control center shows, built from a snapshot of the system:
//! quick-settings tiles, Bluetooth devices, audio outputs, keyboard layouts,
//! metrics, the calendar, timers and media.
use vstd::prelude::*;

use crate::sort::{is_permutation, is_sorted_by, is_stable, sort_indices, KeySpec, SortKey};
use crate::state::{
    AudioOutputState, BarSnapshot, BluetoothDeviceOperation, BluetoothDeviceState,
    BluetoothPairingPrompt, BluetoothPairingPromptKind, CalendarAgenda, CalendarAgendaEvent,
    ConnectivityState, KeyboardLayoutOption, KeyboardLayoutState, NetworkState, PlaybackStatus,
    PowerProfile, SourceHealth, SourceId, SystemState, health_of,
};
use crate::text::{
    chars_of, contains_seq, dec, find_seq, lower_seq, lower_vec, owned, push_dec,
    push_str, string_of, trim_vec, upper_char, upper_seq, vec_eq,
};
use crate::wm::blank;

verus! {

// ---------------------------------------------------------------------------
// Unicode case mapping (std)
// ---------------------------------------------------------------------------

/// The Unicode lowercase mapping of a string.
pub uninterp spec fn unicode_lowercase(s: Seq<char>) -> Seq<char>;

/// The Unicode uppercase mapping of a string.
pub uninterp spec fn unicode_uppercase(s: Seq<char>) -> Seq<char>;

/// `str::to_lowercase`. Claimed: the result is the mapping named
/// `unicode_lowercase` of the argument (the Unicode tables of the standard
/// library); what that mapping is, is not stated.
#[verifier::external_body]
fn to_lowercase(s: &str) -> (r: String)
    ensures
        r@ == unicode_lowercase(s@),
{
    s.to_lowercase()
}

/// `str::to_uppercase`. Claimed: the result is the mapping named
/// `unicode_uppercase` of the argument; what that mapping is, is not stated.
#[verifier::external_body]
fn to_uppercase(s: &str) -> (r: String)
    ensures
        r@ == unicode_uppercase(s@),
{
    s.to_uppercase()
}

// ---------------------------------------------------------------------------
// Specs
// ---------------------------------------------------------------------------

#[derive(Clone, Debug, PartialEq, Eq)]
pub struct QuickControlSpec {
    pub icon_name: String,
    pub label: String,
    pub detail: String,
    pub enabled: bool,
    pub available: bool,
    pub toggle_available: bool,
}

#[derive(Clone, Debug, Default, PartialEq, Eq)]
pub struct NetworkTrafficSpec {
    pub interface: Option<String>,
    pub download_bytes_per_second: Option<u64>,
    pub upload_bytes_per_second: Option<u64>,
    pub download_history: Vec<u64>,
    pub upload_history: Vec<u64>,
}

#[derive(Clone, Debug, PartialEq, Eq)]
pub struct AudioControlSpec {
    pub percent: Option<u8>,
    pub muted: bool,
    pub detail: String,
    pub outputs: Vec<AudioOutputControlSpec>,
}

#[derive(Clone, Debug, PartialEq, Eq)]
pub struct AudioOutputControlSpec {
    pub name: String,
    pub label: String,
    pub detail: String,
    pub icon_name: String,
    pub selected: bool,
}

#[derive(Clone, Debug, PartialEq, Eq)]
pub struct BluetoothDeviceControlSpec {
    pub address: String,
    pub name: String,
    pub icon_name: String,
    pub detail: String,
    pub paired: bool,
    pub connected: bool,
    pub operation: Option<BluetoothDeviceOperation>,
    pub error: Option<String>,
}

#[derive(Clone, Debug, PartialEq, Eq)]
pub struct BluetoothManagerSpec {
    pub available: bool,
    pub powered: bool,
    pub discovering: bool,
    pub connected_count: usize,
    pub devices: Vec<BluetoothDeviceControlSpec>,
    pub prompt: Option<BluetoothPairingPrompt>,
    pub error: Option<String>,
}

#[derive(Clone, Debug, PartialEq, Eq)]
pub struct KeyboardLayoutControlSpec {
    pub index: u8,
    pub title: String,
    pub detail: String,
    pub raw_name: String,
    pub selected: bool,
}

#[derive(Clone, Debug, PartialEq, Eq)]
pub struct KeyboardControlSpec {
    pub summary: String,
    pub current: String,
    pub detail: String,
    pub layouts: Vec<KeyboardLayoutControlSpec>,
}

#[derive(Clone, Debug, PartialEq, Eq)]
pub struct BrightnessControlSpec {
    pub device: String,
    pub percent: u8,
}

#[derive(Clone, Debug, PartialEq, Eq)]
pub struct MediaControlSpec {
    pub player: String,
    pub title: String,
    pub artist: String,
    pub playing: bool,
    pub art_url: Option<String>,
}

#[derive(Clone, Debug, PartialEq, Eq)]
pub struct CalendarControlSpec {
    pub title: String,
    pub location: Option<String>,
}

#[derive(Clone, Debug, PartialEq, Eq)]
pub struct ControlCenterSpec {
    pub network: QuickControlSpec,
    pub network_traffic: NetworkTrafficSpec,
    pub bluetooth: QuickControlSpec,
    pub bluetooth_manager: BluetoothManagerSpec,
    pub audio: AudioControlSpec,
    pub power: QuickControlSpec,
    pub brightness: Option<BrightnessControlSpec>,
    pub keyboard: KeyboardControlSpec,
    pub cpu_percent: Option<u8>,
    pub memory_percent: Option<u8>,
    pub battery_present: bool,
    pub battery_percent: Option<u8>,
    pub charging: bool,
    pub clock: String,
    pub clock_epoch: i64,
    pub calendar: Option<CalendarControlSpec>,
    pub calendar_agenda: Option<CalendarAgenda>,
    pub calendar_agenda_error: Option<String>,
    pub timers: Vec<crate::control_center::TimerControlSpec>,
    pub media: Option<MediaControlSpec>,
}

// ---------------------------------------------------------------------------
// Plain views
// ---------------------------------------------------------------------------

pub open spec fn ov(o: Option<String>) -> Option<Seq<char>> {
    match o {
        Some(s) => Some(s@),
        None => None,
    }
}

/// A tile as plain values: icon, label, detail, enabled, available, toggle.
pub type QuickView = (Seq<char>, Seq<char>, Seq<char>, bool, bool, bool);

pub open spec fn quick_view(q: QuickControlSpec) -> QuickView {
    (q.icon_name@, q.label@, q.detail@, q.enabled, q.available, q.toggle_available)
}

// ---------------------------------------------------------------------------
// The network tile
// ---------------------------------------------------------------------------

/// Wi-Fi when the machine has it (off, on over Ethernet, or the connection's
/// name); else Ethernet (its connection's name when connected); else an
/// unavailable network tile.
pub open spec fn network_tile(n: NetworkState) -> QuickView {
    if n.wifi_available {
        let enabled = n.wifi_enabled == Some(true);
        let wired = n.icon_hint matches Some(i) && contains_seq(i@, "wired"@);
        let detail = if !enabled {
            "Off"@
        } else if wired {
            "On · Ethernet active"@
        } else {
            match n.label {
                Some(l) => l@,
                None => "Not connected"@,
            }
        };
        let icon = if n.icon_hint matches Some(i) && contains_seq(i@, "wireless"@) {
            n.icon_hint->0@
        } else {
            "network-wireless-symbolic"@
        };
        (icon, "Wi-Fi"@, detail, enabled, true, true)
    } else if n.ethernet_available {
        let enabled = n.connectivity == ConnectivityState::Connected;
        let detail = if enabled {
            if n.label matches Some(l) && !blank(l@) {
                n.label->0@
            } else {
                "Connected"@
            }
        } else if n.connectivity == ConnectivityState::Connecting {
            "Connecting"@
        } else {
            "Disconnected"@
        };
        ("network-wired-symbolic"@, "Ethernet"@, detail, enabled, true, false)
    } else {
        ("network-offline-symbolic"@, "Network"@, "Unavailable"@, false, false, false)
    }
}

fn str_contains(hay: &str, needle: &str) -> (r: bool)
    ensures
        r == contains_seq(hay@, needle@),
{
    find_seq(&chars_of(hay), &chars_of(needle)).is_some()
}

fn is_blank(s: &str) -> (r: bool)
    ensures
        r == blank(s@),
{
    trim_vec(&chars_of(s)).len() == 0
}

fn quick(icon: String, label: &str, detail: String, enabled: bool, available: bool, toggle: bool) -> (q: QuickControlSpec)
    ensures
        quick_view(q) == (icon@, label@, detail@, enabled, available, toggle),
{
    QuickControlSpec {
        icon_name: icon,
        label: owned(label),
        detail,
        enabled,
        available,
        toggle_available: toggle,
    }
}

pub fn network_control_spec(network: &NetworkState) -> (q: QuickControlSpec)
    ensures
        quick_view(q) == network_tile(*network),
{
    if network.wifi_available {
        let enabled = match network.wifi_enabled {
            Some(e) => e,
            None => false,
        };
        let wired = match &network.icon_hint {
            Some(i) => str_contains(i.as_str(), "wired"),
            None => false,
        };
        let detail = if !enabled {
            owned("Off")
        } else if wired {
            owned("On · Ethernet active")
        } else {
            match &network.label {
                Some(l) => l.clone(),
                None => owned("Not connected"),
            }
        };
        let icon = match &network.icon_hint {
            Some(i) => if str_contains(i.as_str(), "wireless") {
                i.clone()
            } else {
                owned("network-wireless-symbolic")
            },
            None => owned("network-wireless-symbolic"),
        };
        return quick(icon, "Wi-Fi", detail, enabled, true, true);
    }
    if network.ethernet_available {
        let enabled = network.connectivity == ConnectivityState::Connected;
        let detail = if enabled {
            match &network.label {
                Some(l) => if !is_blank(l.as_str()) {
                    l.clone()
                } else {
                    owned("Connected")
                },
                None => owned("Connected"),
            }
        } else if network.connectivity == ConnectivityState::Connecting {
            owned("Connecting")
        } else {
            owned("Disconnected")
        };
        return quick(owned("network-wired-symbolic"), "Ethernet", detail, enabled, true, false);
    }
    quick(owned("network-offline-symbolic"), "Network", owned("Unavailable"), false, false, false)
}

// ---------------------------------------------------------------------------
// Bluetooth devices
// ---------------------------------------------------------------------------

/// What a device row says: the operation under way, else connected, saved
/// or nearby with the signal's strength, then the battery of a connected
/// device.
pub open spec fn device_detail_spec(d: BluetoothDeviceState) -> Seq<char> {
    let state = match d.operation {
        Some(BluetoothDeviceOperation::Connecting) => "Connecting…"@,
        Some(BluetoothDeviceOperation::Disconnecting) => "Disconnecting…"@,
        Some(BluetoothDeviceOperation::Pairing) => "Pairing…"@,
        Some(BluetoothDeviceOperation::Forgetting) => "Forgetting…"@,
        None => if d.connected {
            "Connected"@
        } else if d.paired {
            "Saved"@
        } else {
            match d.rssi {
                Some(r) => if r >= -55 {
                    "Nearby · Strong signal"@
                } else if r >= -72 {
                    "Nearby · Good signal"@
                } else {
                    "Nearby · Weak signal"@
                },
                None => "Nearby"@,
            }
        },
    };
    match d.battery_percent {
        Some(p) => if d.connected { state + " · "@ + dec(p as nat) + "% battery"@ } else { state },
        None => state,
    }
}

pub fn bluetooth_device_detail(device: &BluetoothDeviceState) -> (r: String)
    ensures
        r@ == device_detail_spec(*device),
{
    let state = match device.operation {
        Some(BluetoothDeviceOperation::Connecting) => "Connecting…",
        Some(BluetoothDeviceOperation::Disconnecting) => "Disconnecting…",
        Some(BluetoothDeviceOperation::Pairing) => "Pairing…",
        Some(BluetoothDeviceOperation::Forgetting) => "Forgetting…",
        None => if device.connected {
            "Connected"
        } else if device.paired {
            "Saved"
        } else {
            match device.rssi {
                Some(r) => if r >= -55 {
                    "Nearby · Strong signal"
                } else if r >= -72 {
                    "Nearby · Good signal"
                } else {
                    "Nearby · Weak signal"
                },
                None => "Nearby",
            }
        },
    };
    let mut r = owned(state);
    if let Some(p) = device.battery_percent {
        if device.connected {
            push_str(&mut r, " · ");
            push_dec(&mut r, p as u64);
            push_str(&mut r, "% battery");
        }
    }
    r
}

/// A device row as plain values: address, name, icon, detail, paired,
/// connected, operation, error.
pub type DeviceView = (Seq<char>, Seq<char>, Seq<char>, Seq<char>, bool, bool, Option<BluetoothDeviceOperation>, Option<Seq<char>>);

pub open spec fn device_view(d: BluetoothDeviceControlSpec) -> DeviceView {
    (d.address@, d.name@, d.icon_name@, d.detail@, d.paired, d.connected, d.operation, ov(d.error))
}

pub open spec fn device_row_spec(d: BluetoothDeviceState) -> DeviceView {
    (d.address@, d.name@, d.icon_name@, device_detail_spec(d), d.paired, d.connected, d.operation, ov(d.error))
}

/// How many devices are connected.
pub open spec fn connected_count_spec(ds: Seq<BluetoothDeviceState>) -> nat
    decreases ds.len(),
{
    if ds.len() == 0 {
        0
    } else {
        connected_count_spec(ds.drop_last()) + if ds.last().connected { 1nat } else { 0nat }
    }
}

fn clone_opt(o: &Option<String>) -> (r: Option<String>)
    ensures
        r == *o,
{
    match o {
        Some(s) => Some(s.clone()),
        None => None,
    }
}

fn copy_prompt(p: &BluetoothPairingPrompt) -> (r: BluetoothPairingPrompt)
    ensures
        r == *p,
{
    BluetoothPairingPrompt {
        id: p.id,
        address: p.address.clone(),
        device_name: p.device_name.clone(),
        kind: match &p.kind {
            BluetoothPairingPromptKind::ConfirmPasskey { passkey } => BluetoothPairingPromptKind::ConfirmPasskey {
                passkey: *passkey,
            },
            BluetoothPairingPromptKind::EnterPinCode => BluetoothPairingPromptKind::EnterPinCode,
            BluetoothPairingPromptKind::EnterPasskey => BluetoothPairingPromptKind::EnterPasskey,
            BluetoothPairingPromptKind::DisplayPinCode { pin_code } => BluetoothPairingPromptKind::DisplayPinCode {
                pin_code: pin_code.clone(),
            },
            BluetoothPairingPromptKind::DisplayPasskey { passkey, entered } => BluetoothPairingPromptKind::DisplayPasskey {
                passkey: *passkey,
                entered: *entered,
            },
            BluetoothPairingPromptKind::Authorize => BluetoothPairingPromptKind::Authorize,
        },
    }
}

fn device_rows(devices: &Vec<BluetoothDeviceState>) -> (r: (Vec<BluetoothDeviceControlSpec>, usize))
    ensures
        r.0@.map_values(|d: BluetoothDeviceControlSpec| device_view(d))
            == devices@.map_values(|d: BluetoothDeviceState| device_row_spec(d)),
        r.1 == connected_count_spec(devices@),
{
    let mut rows: Vec<BluetoothDeviceControlSpec> = Vec::new();
    let mut count: usize = 0;
    let mut i: usize = 0;
    while i < devices.len()
        invariant
            i <= devices@.len(),
            rows@.len() == i,
            count == connected_count_spec(devices@.take(i as int)),
            count <= i,
            forall|j: int| 0 <= j < i ==> device_view(#[trigger] rows@[j]) == device_row_spec(devices@[j]),
        decreases devices@.len() - i,
    {
        let d = &devices[i];
        proof {
            assert(devices@.take(i + 1).drop_last() =~= devices@.take(i as int));
        }
        if d.connected {
            count = count + 1;
        }
        rows.push(BluetoothDeviceControlSpec {
            address: d.address.clone(),
            name: d.name.clone(),
            icon_name: d.icon_name.clone(),
            detail: bluetooth_device_detail(d),
            paired: d.paired,
            connected: d.connected,
            operation: d.operation,
            error: clone_opt(&d.error),
        });
        i = i + 1;
    }
    assert(devices@.take(devices@.len() as int) =~= devices@);
    assert(rows@.map_values(|d: BluetoothDeviceControlSpec| device_view(d))
        =~= devices@.map_values(|d: BluetoothDeviceState| device_row_spec(d)));
    (rows, count)
}

// ---------------------------------------------------------------------------
// Audio outputs
// ---------------------------------------------------------------------------

/// `o` when it holds something besides white space.
pub open spec fn nonblank(o: Option<String>) -> Option<Seq<char>> {
    match o {
        Some(s) => if blank(s@) { None } else { Some(s@) },
        None => None,
    }
}

/// An output's label: its alias, else its port's description, else its
/// description.
pub open spec fn output_label(o: AudioOutputState) -> Seq<char> {
    match nonblank(o.alias) {
        Some(a) => a,
        None => match nonblank(o.port_description) {
            Some(p) => p,
            None => o.description@,
        },
    }
}

/// The line under an output's label: its description when that is not the
/// label, else its port when that is not the label, else what bus it is on.
pub open spec fn output_detail(o: AudioOutputState) -> Seq<char> {
    let label = output_label(o);
    if o.description@ != label {
        o.description@
    } else if nonblank(o.port_description) matches Some(p) && p != label {
        nonblank(o.port_description)->0
    } else {
        match ov(o.bus) {
            Some(b) => if b == "bluetooth"@ {
                "Bluetooth audio"@
            } else if b == "usb"@ {
                "USB audio"@
            } else if b == "pci"@ {
                "Built-in audio"@
            } else {
                "Audio output"@
            },
            None => "Audio output"@,
        }
    }
}

/// An output's icon from its lowercased port type and name: headphones for
/// headphone or headset ports, Bluetooth or `bluez` outputs; a display for
/// HDMI and display ports; speakers for speaker and line ports; else a sound
/// card.
pub open spec fn output_icon_spec(kind: Seq<char>, name: Seq<char>, bus: Option<Seq<char>>) -> Seq<char> {
    if contains_seq(kind, "headphone"@) || contains_seq(kind, "headset"@) || bus == Some("bluetooth"@)
        || contains_seq(name, "bluez"@) {
        "audio-headphones-symbolic"@
    } else if contains_seq(kind, "hdmi"@) || contains_seq(kind, "display"@) || contains_seq(name, "hdmi"@) {
        "video-display-symbolic"@
    } else if contains_seq(kind, "speaker"@) || contains_seq(kind, "line"@) {
        "audio-speakers-symbolic"@
    } else {
        "audio-card-symbolic"@
    }
}

/// The icon of an output, from its lowercased port type and name.
pub fn output_icon_name(kind_lower: &str, name_lower: &str, bus: Option<&str>) -> (r: &'static str)
    ensures
        r@ == output_icon_spec(kind_lower@, name_lower@, match bus { Some(b) => Some(b@), None => None }),
{
    let is_bluetooth = match bus {
        Some(b) => vec_eq(&chars_of(b), &chars_of("bluetooth")),
        None => false,
    };
    if str_contains(kind_lower, "headphone") || str_contains(kind_lower, "headset") || is_bluetooth
        || str_contains(name_lower, "bluez") {
        "audio-headphones-symbolic"
    } else if str_contains(kind_lower, "hdmi") || str_contains(kind_lower, "display") || str_contains(
        name_lower,
        "hdmi",
    ) {
        "video-display-symbolic"
    } else if str_contains(kind_lower, "speaker") || str_contains(kind_lower, "line") {
        "audio-speakers-symbolic"
    } else {
        "audio-card-symbolic"
    }
}

/// An output row as plain values: name, label, detail, icon, selected.
pub type OutputView = (Seq<char>, Seq<char>, Seq<char>, Seq<char>, bool);

pub open spec fn output_view(o: AudioOutputControlSpec) -> OutputView {
    (o.name@, o.label@, o.detail@, o.icon_name@, o.selected)
}

pub open spec fn output_row_spec(o: AudioOutputState) -> OutputView {
    (
        o.name@,
        output_label(o),
        output_detail(o),
        output_icon_spec(
            match o.port_type { Some(t) => unicode_lowercase(t@), None => Seq::empty() },
            unicode_lowercase(o.name@),
            ov(o.bus),
        ),
        o.is_default,
    )
}

fn nonblank_of(o: &Option<String>) -> (r: Option<String>)
    ensures
        ov(r) == nonblank(*o),
{
    match o {
        Some(s) => if is_blank(s.as_str()) { None } else { Some(s.clone()) },
        None => None,
    }
}

pub fn audio_output_control_spec(output: &AudioOutputState) -> (r: AudioOutputControlSpec)
    ensures
        output_view(r) == output_row_spec(*output),
{
    let alias = nonblank_of(&output.alias);
    let port = nonblank_of(&output.port_description);
    let label = match &alias {
        Some(a) => a.clone(),
        None => match &port {
            Some(p) => p.clone(),
            None => output.description.clone(),
        },
    };
    let detail = if !(output.description == label) {
        output.description.clone()
    } else {
        let port_differs = match &port {
            Some(p) => !(*p == label),
            None => false,
        };
        if port_differs {
            match &port {
                Some(p) => p.clone(),
                None => owned(""),
            }
        } else {
            match &output.bus {
                Some(b) => {
                    let v = chars_of(b.as_str());
                    proof {
                        reveal_strlit("bluetooth");
                        reveal_strlit("usb");
                        reveal_strlit("pci");
                    }
                    if vec_eq(&v, &chars_of("bluetooth")) {
                        owned("Bluetooth audio")
                    } else if vec_eq(&v, &chars_of("usb")) {
                        owned("USB audio")
                    } else if vec_eq(&v, &chars_of("pci")) {
                        owned("Built-in audio")
                    } else {
                        owned("Audio output")
                    }
                },
                None => owned("Audio output"),
            }
        }
    };
    let kind = match &output.port_type {
        Some(t) => to_lowercase(t.as_str()),
        None => String::new(),
    };
    let name = to_lowercase(output.name.as_str());
    let bus: Option<&str> = match &output.bus {
        Some(b) => Some(b.as_str()),
        None => None,
    };
    let icon = output_icon_name(kind.as_str(), name.as_str(), bus);
    proof {
        assert((match bus { Some(b) => Some(b@), None => None::<Seq<char>> }) == ov(output.bus));
    }
    AudioOutputControlSpec {
        name: output.name.clone(),
        label,
        detail,
        icon_name: owned(icon),
        selected: output.is_default,
    }
}

// ---------------------------------------------------------------------------
// Keyboard layouts
// ---------------------------------------------------------------------------

/// The short title of a layout: `US` or `DE` for those layouts, else the
/// layout's code in capitals; without a code, `US` for English, `DE` for
/// German, else the name's first two characters in capitals.
pub open spec fn layout_title(name: Seq<char>, layout: Option<Seq<char>>) -> Seq<char> {
    let raw = lower_seq(name);
    let fallback = if contains_seq(raw, "english"@) || raw == "us"@ {
        "US"@
    } else if contains_seq(raw, "german"@) || raw == "de"@ {
        "DE"@
    } else {
        unicode_uppercase(name.take(if name.len() < 2 { name.len() as int } else { 2 }))
    };
    match layout {
        Some(l) => {
            let v = lower_seq(l);
            if v == "us"@ {
                "US"@
            } else if v == "de"@ {
                "DE"@
            } else if v.len() > 0 {
                upper_seq(v)
            } else {
                fallback
            }
        },
        None => fallback,
    }
}

/// The variant of a layout: `Dvorak`, `KOY`, the variant's code, or
/// `Standard`.
pub open spec fn layout_detail(name: Seq<char>, variant: Option<Seq<char>>) -> Seq<char> {
    let raw = lower_seq(name);
    let fallback = if contains_seq(raw, "dvorak"@) {
        "Dvorak"@
    } else if contains_seq(raw, "koy"@) {
        "KOY"@
    } else {
        "Standard"@
    };
    match variant {
        Some(x) => {
            let v = lower_seq(x);
            if v == "dvorak"@ {
                "Dvorak"@
            } else if v == "koy"@ {
                "KOY"@
            } else if v.len() > 0 {
                v
            } else {
                fallback
            }
        },
        None => fallback,
    }
}

/// The compact label: the title, with `-DV`, `-KOY` or `-VARIANT` for a
/// variant other than the standard one.
pub open spec fn layout_compact(title: Seq<char>, detail: Seq<char>) -> Seq<char> {
    if detail == "Standard"@ {
        title
    } else if detail == "Dvorak"@ {
        title + "-"@ + "DV"@
    } else if detail == "KOY"@ {
        title + "-"@ + "KOY"@
    } else {
        title + "-"@ + detail
    }
}

fn upper_vec(v: &Vec<char>) -> (r: Vec<char>)
    ensures
        r@ == upper_seq(v@),
{
    let mut r: Vec<char> = Vec::new();
    let mut i: usize = 0;
    while i < v.len()
        invariant
            i <= v@.len(),
            r@ == upper_seq(v@.take(i as int)),
        decreases v@.len() - i,
    {
        r.push(upper_char(v[i]));
        i = i + 1;
        assert(r@ =~= upper_seq(v@.take(i as int)));
    }
    assert(v@.take(v@.len() as int) =~= v@);
    r
}

fn seq_is(v: &Vec<char>, lit: &str) -> (r: bool)
    ensures
        r == (v@ == lit@),
{
    vec_eq(v, &chars_of(lit))
}

fn vec_contains(v: &Vec<char>, lit: &str) -> (r: bool)
    ensures
        r == contains_seq(v@, lit@),
{
    find_seq(v, &chars_of(lit)).is_some()
}

/// Title, variant and compact label of a layout.
pub fn keyboard_labels(name: &str, layout: Option<&str>, variant: Option<&str>) -> (r: (String, String, String))
    ensures
        r.0@ == layout_title(name@, match layout { Some(l) => Some(l@), None => None }),
        r.1@ == layout_detail(name@, match variant { Some(x) => Some(x@), None => None }),
        r.2@ == layout_compact(r.0@, r.1@),
{
    let raw = lower_vec(&chars_of(name));
    let fallback_title = if vec_contains(&raw, "english") || seq_is(&raw, "us") {
        owned("US")
    } else if vec_contains(&raw, "german") || seq_is(&raw, "de") {
        owned("DE")
    } else {
        let n = chars_of(name);
        let k: usize = if n.len() < 2 { n.len() } else { 2 };
        let head = string_of(&crate::text::slice_vec(&n, 0, k));
        proof {
            assert(n@.subrange(0, k as int) =~= name@.take(k as int));
        }
        to_uppercase(head.as_str())
    };
    let title = match layout {
        Some(l) => {
            let v = lower_vec(&chars_of(l));
            if seq_is(&v, "us") {
                owned("US")
            } else if seq_is(&v, "de") {
                owned("DE")
            } else if v.len() > 0 {
                string_of(&upper_vec(&v))
            } else {
                fallback_title
            }
        },
        None => fallback_title,
    };
    let fallback_detail = if vec_contains(&raw, "dvorak") {
        owned("Dvorak")
    } else if vec_contains(&raw, "koy") {
        owned("KOY")
    } else {
        owned("Standard")
    };
    let detail = match variant {
        Some(x) => {
            let v = lower_vec(&chars_of(x));
            if seq_is(&v, "dvorak") {
                owned("Dvorak")
            } else if seq_is(&v, "koy") {
                owned("KOY")
            } else if v.len() > 0 {
                string_of(&v)
            } else {
                fallback_detail
            }
        },
        None => fallback_detail,
    };
    let d = chars_of(detail.as_str());
    let mut compact = title.clone();
    if seq_is(&d, "Standard") {
    } else if seq_is(&d, "Dvorak") {
        push_str(&mut compact, "-");
        push_str(&mut compact, "DV");
    } else if seq_is(&d, "KOY") {
        push_str(&mut compact, "-");
        push_str(&mut compact, "KOY");
    } else {
        push_str(&mut compact, "-");
        push_str(&mut compact, detail.as_str());
    }
    (title, detail, compact)
}

/// A layout row as plain values: index, title, variant, name, selected.
pub type LayoutView = (u8, Seq<char>, Seq<char>, Seq<char>, bool);

pub open spec fn layout_view(l: KeyboardLayoutControlSpec) -> LayoutView {
    (l.index, l.title@, l.detail@, l.raw_name@, l.selected)
}

pub open spec fn layout_row_spec(o: KeyboardLayoutOption, current: Option<u8>) -> LayoutView {
    (o.index, layout_title(o.name@, ov(o.layout)), layout_detail(o.name@, ov(o.variant)), o.name@, current == Some(o.index))
}

/// The first layout with index `idx`.
pub open spec fn layout_at(ls: Seq<KeyboardLayoutOption>, idx: u8) -> Option<KeyboardLayoutOption>
    decreases ls.len(),
{
    if ls.len() == 0 {
        None
    } else if ls[0].index == idx {
        Some(ls[0])
    } else {
        layout_at(ls.drop_first(), idx)
    }
}

/// Summary, current layout and detail: from the active layout when it is
/// listed, else from the active layout's name alone, else placeholders.
pub open spec fn keyboard_heading(state: KeyboardLayoutState) -> (Seq<char>, Seq<char>, Seq<char>) {
    let from_name = |name: Seq<char>, layout: Option<Seq<char>>, variant: Option<Seq<char>>| {
        let t = layout_title(name, layout);
        let d = layout_detail(name, variant);
        (layout_compact(t, d), t + " — "@ + d)
    };
    let listed = match state.current_index {
        Some(i) => layout_at(state.layouts@, i),
        None => None,
    };
    match listed {
        Some(o) => {
            let h = from_name(o.name@, ov(o.layout), ov(o.variant));
            (h.0, h.1, match state.current_name { Some(n) => n@, None => o.name@ })
        },
        None => match state.current_name {
            Some(n) => {
                let h = from_name(n@, None, None);
                (h.0, h.1, n@)
            },
            None => ("--"@, "Unavailable"@, "No active layout"@),
        },
    }
}

fn opt_str(o: &Option<String>) -> (r: Option<&str>)
    ensures
        match r { Some(s) => Some(s@), None => None::<Seq<char>> } == ov(*o),
{
    match o {
        Some(s) => Some(s.as_str()),
        None => None,
    }
}

fn find_layout(layouts: &Vec<KeyboardLayoutOption>, c: u8) -> (r: Option<usize>)
    ensures
        match r {
            Some(j) => j < layouts@.len() && layout_at(layouts@, c) == Some(layouts@[j as int]),
            None => layout_at(layouts@, c) is None,
        },
{
    let mut j: usize = 0;
    assert(layouts@.skip(0) =~= layouts@);
    while j < layouts.len()
        invariant
            j <= layouts@.len(),
            layout_at(layouts@, c) == layout_at(layouts@.skip(j as int), c),
        decreases layouts@.len() - j,
    {
        assert(layouts@.skip(j as int)[0] == layouts@[j as int]);
        assert(layouts@.skip(j as int).drop_first() =~= layouts@.skip(j + 1));
        if layouts[j].index == c {
            return Some(j);
        }
        j = j + 1;
    }
    assert(layouts@.skip(j as int).len() == 0);
    None
}

pub fn keyboard_control_spec(state: &KeyboardLayoutState) -> (k: KeyboardControlSpec)
    ensures
        (k.summary@, k.current@, k.detail@) == keyboard_heading(*state),
        k.layouts@.map_values(|l: KeyboardLayoutControlSpec| layout_view(l))
            == state.layouts@.map_values(|o: KeyboardLayoutOption| layout_row_spec(o, state.current_index)),
{
    let mut layouts: Vec<KeyboardLayoutControlSpec> = Vec::new();
    let mut i: usize = 0;
    while i < state.layouts.len()
        invariant
            i <= state.layouts@.len(),
            layouts@.len() == i,
            forall|j: int| 0 <= j < i ==> layout_view(#[trigger] layouts@[j]) == layout_row_spec(
                state.layouts@[j],
                state.current_index,
            ),
        decreases state.layouts@.len() - i,
    {
        let o = &state.layouts[i];
        let (title, detail, _) = keyboard_labels(o.name.as_str(), opt_str(&o.layout), opt_str(&o.variant));
        let selected = match state.current_index {
            Some(c) => c == o.index,
            None => false,
        };
        layouts.push(KeyboardLayoutControlSpec { index: o.index, title, detail, raw_name: o.name.clone(), selected });
        i = i + 1;
    }
    assert(layouts@.map_values(|l: KeyboardLayoutControlSpec| layout_view(l))
        =~= state.layouts@.map_values(|o: KeyboardLayoutOption| layout_row_spec(o, state.current_index)));
    let found: Option<usize> = match state.current_index {
        Some(c) => find_layout(&state.layouts, c),
        None => None,
    };
    proof {
        reveal_strlit(" — ");
    }
    let (summary, current, detail) = match found {
        Some(j) => {
            let o = &state.layouts[j];
            let (title, variant, compact) = keyboard_labels(o.name.as_str(), opt_str(&o.layout), opt_str(&o.variant));
            let mut current = title;
            push_str(&mut current, " — ");
            push_str(&mut current, variant.as_str());
            let detail = match &state.current_name {
                Some(n) => n.clone(),
                None => o.name.clone(),
            };
            (compact, current, detail)
        },
        None => match &state.current_name {
            Some(n) => {
                let (title, variant, compact) = keyboard_labels(n.as_str(), None, None);
                let mut current = title;
                push_str(&mut current, " — ");
                push_str(&mut current, variant.as_str());
                (compact, current, n.clone())
            },
            None => (owned("--"), owned("Unavailable"), owned("No active layout")),
        },
    };
    KeyboardControlSpec { summary, current, detail, layouts }
}

/// The keyboard button's label and tooltip: the compact label, and the
/// current layout with its detail.
pub fn keyboard_bar_labels(state: &KeyboardLayoutState) -> (r: (String, String))
    ensures
        r.0@ == keyboard_heading(*state).0,
        r.1@ == keyboard_heading(*state).1 + " · "@ + keyboard_heading(*state).2,
{
    let spec = keyboard_control_spec(state);
    let mut tooltip = spec.current.clone();
    push_str(&mut tooltip, " · ");
    push_str(&mut tooltip, spec.detail.as_str());
    (spec.summary, tooltip)
}

// ---------------------------------------------------------------------------
// Ordering the audio outputs
// ---------------------------------------------------------------------------

/// The order of output rows: by lowercased label, then by name.
pub open spec fn output_key(lowered_label: Seq<char>, o: OutputView) -> KeySpec {
    (Seq::empty(), seq![lowered_label, o.0])
}

/// `rows` in the order of their keys; `lowered[i]` is the lowercased label
/// of `rows[i]`.
pub fn order_audio_outputs(rows: Vec<AudioOutputControlSpec>, lowered: Vec<String>) -> (r: Vec<AudioOutputControlSpec>)
    requires
        lowered@.len() == rows@.len(),
    ensures
        r@.len() == rows@.len(),
        exists|order: Seq<int>| {
            &&& is_permutation(order, rows@.len() as int)
            &&& is_sorted_by(
                Seq::new(rows@.len(), |i: int| output_key(lowered@[i]@, output_view(rows@[i]))),
                order,
            )
            &&& is_stable(Seq::new(rows@.len(), |i: int| output_key(lowered@[i]@, output_view(rows@[i]))), order)
            &&& forall|k: int| 0 <= k < r@.len() ==> #[trigger] output_view(r@[k]) == output_view(rows@[order[k]])
        },
{
    let ghost ks = Seq::new(rows@.len(), |i: int| output_key(lowered@[i]@, output_view(rows@[i])));
    let mut keys: Vec<SortKey> = Vec::new();
    let mut i: usize = 0;
    while i < rows.len()
        invariant
            i <= rows@.len(),
            lowered@.len() == rows@.len(),
            keys@.len() == i,
            forall|j: int| 0 <= j < i ==> (#[trigger] keys@[j]).view() == ks[j],
            ks == Seq::new(rows@.len(), |i: int| output_key(lowered@[i]@, output_view(rows@[i]))),
        decreases rows@.len() - i,
    {
        let mut strs: Vec<Vec<char>> = Vec::new();
        strs.push(chars_of(lowered[i].as_str()));
        strs.push(chars_of(rows[i].name.as_str()));
        let k = SortKey { nums: Vec::new(), strs };
        assert(k.view().0 =~= ks[i as int].0);
        assert(k.view().1 =~= ks[i as int].1);
        keys.push(k);
        i = i + 1;
    }
    assert(keys@.map_values(|k: SortKey| k.view()) =~= ks);
    let order = sort_indices(&keys);
    let ghost ov2 = order@.map_values(|x: usize| x as int);
    let mut r: Vec<AudioOutputControlSpec> = Vec::new();
    let mut k: usize = 0;
    while k < order.len()
        invariant
            k <= order@.len(),
            order@.len() == rows@.len(),
            ov2 == order@.map_values(|x: usize| x as int),
            is_permutation(ov2, rows@.len() as int),
            r@.len() == k,
            forall|x: int| 0 <= x < k ==> #[trigger] output_view(r@[x]) == output_view(rows@[ov2[x]]),
        decreases order@.len() - k,
    {
        assert(ov2[k as int] == order@[k as int] as int);
        let o = &rows[order[k]];
        r.push(AudioOutputControlSpec {
            name: o.name.clone(),
            label: o.label.clone(),
            detail: o.detail.clone(),
            icon_name: o.icon_name.clone(),
            selected: o.selected,
        });
        k = k + 1;
    }
    r
}

/// The label of the first selected output, else `No audio output`.
pub open spec fn audio_detail_spec(rows: Seq<OutputView>) -> Seq<char>
    decreases rows.len(),
{
    if rows.len() == 0 {
        "No audio output"@
    } else if rows[0].4 {
        rows[0].1
    } else {
        audio_detail_spec(rows.drop_first())
    }
}

fn audio_detail(rows: &Vec<AudioOutputControlSpec>) -> (r: String)
    ensures
        r@ == audio_detail_spec(rows@.map_values(|o: AudioOutputControlSpec| output_view(o))),
{
    let ghost vs = rows@.map_values(|o: AudioOutputControlSpec| output_view(o));
    let mut i: usize = 0;
    assert(vs.skip(0) =~= vs);
    while i < rows.len()
        invariant
            i <= rows@.len(),
            vs == rows@.map_values(|o: AudioOutputControlSpec| output_view(o)),
            audio_detail_spec(vs) == audio_detail_spec(vs.skip(i as int)),
        decreases rows@.len() - i,
    {
        assert(vs.skip(i as int)[0] == vs[i as int]);
        assert(vs.skip(i as int).drop_first() =~= vs.skip(i + 1));
        if rows[i].selected {
            return rows[i].label.clone();
        }
        i = i + 1;
    }
    assert(vs.skip(i as int).len() == 0);
    owned("No audio output")
}

// ---------------------------------------------------------------------------
// The whole control center
// ---------------------------------------------------------------------------

pub open spec fn timer_view(t: crate::control_center::TimerControlSpec) -> (Seq<char>, Seq<char>, u64, bool, bool) {
    (t.id@, t.label@, t.remaining_seconds, t.completed, t.paused)
}

pub open spec fn timer_row_spec(t: crate::state::TimerState) -> (Seq<char>, Seq<char>, u64, bool, bool) {
    (t.id@, t.label@, t.remaining_seconds, t.completed, !t.completed && t.target_epoch is None)
}

/// What the agenda shows when its source is unwell.
pub open spec fn agenda_error_spec(healths: Seq<(SourceId, SourceHealth)>) -> Option<Seq<char>> {
    match health_of(healths, SourceId::CalendarAgenda) {
        Some(SourceHealth::Disconnected { message }) => Some(message@),
        Some(SourceHealth::Stale { .. }) => Some("Calendar agenda is stale"@),
        _ => None,
    }
}

pub open spec fn profile_label_cc(p: PowerProfile) -> Seq<char> {
    match p {
        PowerProfile::Performance => "Performance"@,
        PowerProfile::Balanced => "Balanced"@,
        PowerProfile::PowerSaver => "Power saver"@,
    }
}

pub open spec fn profile_icon_cc(p: PowerProfile) -> Seq<char> {
    match p {
        PowerProfile::Performance => "power-profile-performance-symbolic"@,
        PowerProfile::Balanced => "power-profile-balanced-symbolic"@,
        PowerProfile::PowerSaver => "power-profile-power-saver-symbolic"@,
    }
}

/// The Bluetooth tile: the connected device, else on or off.
pub open spec fn bluetooth_tile(sys: SystemState) -> QuickView {
    (
        "bluetooth-symbolic"@,
        "Bluetooth"@,
        match sys.bluetooth.connected_device {
            Some(d) => d@,
            None => if sys.bluetooth.powered { "On"@ } else { "Off"@ },
        },
        sys.bluetooth.powered,
        sys.bluetooth.available,
        sys.bluetooth.available,
    )
}

/// The power tile: the profile, lit unless balanced.
pub open spec fn power_tile(sys: SystemState) -> QuickView {
    (
        profile_icon_cc(sys.power.profile),
        "Power"@,
        profile_label_cc(sys.power.profile),
        sys.power.profile != PowerProfile::Balanced,
        true,
        false,
    )
}

pub open spec fn capped(p: u8) -> u8 {
    if p > 100 { 100 } else { p }
}

fn copy_u64s(v: &Vec<u64>) -> (r: Vec<u64>)
    ensures
        r@ == v@,
{
    let mut r: Vec<u64> = Vec::new();
    let mut i: usize = 0;
    while i < v.len()
        invariant
            i <= v@.len(),
            r@ == v@.take(i as int),
        decreases v@.len() - i,
    {
        r.push(v[i]);
        i = i + 1;
        assert(r@ =~= v@.take(i as int));
    }
    assert(v@.take(v@.len() as int) =~= v@);
    r
}

fn copy_event(e: &CalendarAgendaEvent) -> (r: CalendarAgendaEvent)
    ensures
        r == *e,
{
    CalendarAgendaEvent {
        id: e.id.clone(),
        title: e.title.clone(),
        location: clone_opt(&e.location),
        calendar: clone_opt(&e.calendar),
        start_epoch: e.start_epoch,
        end_epoch: e.end_epoch,
        all_day: e.all_day,
    }
}

fn copy_agenda(a: &CalendarAgenda) -> (r: CalendarAgenda)
    ensures
        r.year == a.year,
        r.month == a.month,
        r.events@ == a.events@,
{
    let mut events: Vec<CalendarAgendaEvent> = Vec::new();
    let mut i: usize = 0;
    while i < a.events.len()
        invariant
            i <= a.events@.len(),
            events@ == a.events@.take(i as int),
        decreases a.events@.len() - i,
    {
        events.push(copy_event(&a.events[i]));
        i = i + 1;
        assert(events@ =~= a.events@.take(i as int));
    }
    assert(a.events@.take(a.events@.len() as int) =~= a.events@);
    CalendarAgenda { year: a.year, month: a.month, events }
}

/// `c` is what the control center shows for `snapshot`: each tile, list and
/// value as the functions above compute it from the system state, audio
/// outputs ordered by lowercased label then name, outputs that tie keeping
/// the order the system reported them in.
pub open spec fn shows(c: ControlCenterSpec, snapshot: BarSnapshot) -> bool {
        let sys = snapshot.system;
        &&& quick_view(c.network) == network_tile(sys.network)
        &&& ov(c.network_traffic.interface) == ov(sys.network.interface)
        &&& c.network_traffic.download_bytes_per_second == sys.network.download_bytes_per_second
        &&& c.network_traffic.upload_bytes_per_second == sys.network.upload_bytes_per_second
        &&& c.network_traffic.download_history@ == sys.network.download_history@
        &&& c.network_traffic.upload_history@ == sys.network.upload_history@
        &&& quick_view(c.bluetooth) == bluetooth_tile(sys)
        &&& c.bluetooth_manager.available == sys.bluetooth.available
        &&& c.bluetooth_manager.powered == sys.bluetooth.powered
        &&& c.bluetooth_manager.discovering == sys.bluetooth.discovering
        &&& c.bluetooth_manager.connected_count == connected_count_spec(sys.bluetooth.devices@)
        &&& c.bluetooth_manager.devices@.map_values(|d: BluetoothDeviceControlSpec| device_view(d))
            == sys.bluetooth.devices@.map_values(|d: BluetoothDeviceState| device_row_spec(d))
        &&& c.bluetooth_manager.prompt == sys.bluetooth.pairing_prompt
        &&& ov(c.bluetooth_manager.error) == ov(sys.bluetooth.error)
        &&& c.audio.percent == (match sys.audio.volume_percent { Some(v) => Some(capped(v)), None => None })
        &&& c.audio.muted == sys.audio.muted
        &&& c.audio.outputs@.len() == sys.audio.outputs@.len()
        &&& (exists|order: Seq<int>| {
            &&& is_permutation(order, sys.audio.outputs@.len() as int)
            &&& is_sorted_by(
                Seq::new(
                    sys.audio.outputs@.len(),
                    |i: int| output_key(unicode_lowercase(output_label(sys.audio.outputs@[i])), output_row_spec(sys.audio.outputs@[i])),
                ),
                order,
            )
            &&& is_stable(
                Seq::new(
                    sys.audio.outputs@.len(),
                    |i: int| output_key(unicode_lowercase(output_label(sys.audio.outputs@[i])), output_row_spec(sys.audio.outputs@[i])),
                ),
                order,
            )
            &&& forall|k: int| 0 <= k < c.audio.outputs@.len()
                ==> #[trigger] output_view(c.audio.outputs@[k]) == output_row_spec(sys.audio.outputs@[order[k]])
        })
        &&& c.audio.detail@ == audio_detail_spec(c.audio.outputs@.map_values(|o: AudioOutputControlSpec| output_view(o)))
        &&& quick_view(c.power) == power_tile(sys)
        &&& match c.brightness {
            Some(b) => sys.brightness.device matches Some(d) && sys.brightness.percent matches Some(p)
                && b.device@ == d@ && b.percent == capped(p),
            None => sys.brightness.device is None || sys.brightness.percent is None,
        }
        &&& (c.keyboard.summary@, c.keyboard.current@, c.keyboard.detail@) == keyboard_heading(sys.keyboard)
        &&& c.keyboard.layouts@.map_values(|l: KeyboardLayoutControlSpec| layout_view(l))
            == sys.keyboard.layouts@.map_values(|o: KeyboardLayoutOption| layout_row_spec(o, sys.keyboard.current_index))
        &&& c.cpu_percent == sys.resources.cpu_percent
        &&& c.memory_percent == sys.resources.memory_percent
        &&& c.battery_present == sys.power.battery_present
        &&& c.battery_percent == sys.power.battery_percent
        &&& c.charging == sys.power.charging
        &&& c.clock@ == sys.clock.label@
        &&& c.clock_epoch == sys.clock.epoch_seconds
        &&& match c.calendar {
            Some(e) => sys.calendar matches Some(s) && e.title@ == s.title@ && ov(e.location) == ov(s.location),
            None => sys.calendar is None,
        }
        &&& match c.calendar_agenda {
            Some(a) => sys.calendar_agenda matches Some(s) && a.year == s.year && a.month == s.month
                && a.events@ == s.events@,
            None => sys.calendar_agenda is None,
        }
        &&& ov(c.calendar_agenda_error) == agenda_error_spec(sys.source_health@)
        &&& c.timers@.map_values(|t: crate::control_center::TimerControlSpec| timer_view(t))
            == sys.timers@.map_values(|t: crate::state::TimerState| timer_row_spec(t))
        &&& match c.media {
            Some(m) => sys.media matches Some(s) && m.player@ == s.player@
                && m.title@ == (match s.title { Some(t) => t@, None => s.player@ })
                && m.artist@ == (match s.artist { Some(a) => a@, None => s.player@ })
                && m.playing == (s.status == PlaybackStatus::Playing)
                && ov(m.art_url) == ov(s.art_url),
            None => sys.media is None,
        }
}

/// Everything the control center shows for `snapshot`.
pub fn build_control_center_spec(snapshot: &BarSnapshot) -> (c: ControlCenterSpec)
    ensures
        shows(c, *snapshot),
{
    let sys = &snapshot.system;
    let network = network_control_spec(&sys.network);
    let network_traffic = NetworkTrafficSpec {
        interface: clone_opt(&sys.network.interface),
        download_bytes_per_second: sys.network.download_bytes_per_second,
        upload_bytes_per_second: sys.network.upload_bytes_per_second,
        download_history: copy_u64s(&sys.network.download_history),
        upload_history: copy_u64s(&sys.network.upload_history),
    };
    let bluetooth_detail = match &sys.bluetooth.connected_device {
        Some(d) => d.clone(),
        None => if sys.bluetooth.powered { owned("On") } else { owned("Off") },
    };
    let bluetooth = QuickControlSpec {
        icon_name: owned("bluetooth-symbolic"),
        label: owned("Bluetooth"),
        detail: bluetooth_detail,
        enabled: sys.bluetooth.powered,
        available: sys.bluetooth.available,
        toggle_available: sys.bluetooth.available,
    };
    let (devices, connected_count) = device_rows(&sys.bluetooth.devices);
    let bluetooth_manager = BluetoothManagerSpec {
        available: sys.bluetooth.available,
        powered: sys.bluetooth.powered,
        discovering: sys.bluetooth.discovering,
        connected_count,
        devices,
        prompt: match &sys.bluetooth.pairing_prompt {
            Some(p) => Some(copy_prompt(p)),
            None => None,
        },
        error: clone_opt(&sys.bluetooth.error),
    };
    // audio outputs, ordered by lowercased label then name
    let ghost outs = sys.audio.outputs@;
    let mut rows: Vec<AudioOutputControlSpec> = Vec::new();
    let mut lowered: Vec<String> = Vec::new();
    let mut i: usize = 0;
    while i < sys.audio.outputs.len()
        invariant
            i <= outs.len(),
            outs == sys.audio.outputs@,
            rows@.len() == i,
            lowered@.len() == i,
            forall|j: int| 0 <= j < i ==> output_view(#[trigger] rows@[j]) == output_row_spec(outs[j]),
            forall|j: int| 0 <= j < i ==> (#[trigger] lowered@[j])@ == unicode_lowercase(output_label(outs[j])),
        decreases outs.len() - i,
    {
        let row = audio_output_control_spec(&sys.audio.outputs[i]);
        let low = to_lowercase(row.label.as_str());
        rows.push(row);
        lowered.push(low);
        i = i + 1;
    }
    proof {
        assert(Seq::new(rows@.len(), |i: int| output_key(lowered@[i]@, output_view(rows@[i])))
            =~= Seq::new(outs.len(), |i: int| output_key(unicode_lowercase(output_label(outs[i])), output_row_spec(outs[i]))));
    }
    let ghost rows_before = rows@;
    let outputs = order_audio_outputs(rows, lowered);
    proof {
        let order = choose|order: Seq<int>| {
            &&& is_permutation(order, rows_before.len() as int)
            &&& is_sorted_by(
                Seq::new(rows_before.len(), |i: int| output_key(lowered@[i]@, output_view(rows_before[i]))),
                order,
            )
            &&& is_stable(Seq::new(rows_before.len(), |i: int| output_key(lowered@[i]@, output_view(rows_before[i]))), order)
            &&& forall|k: int| 0 <= k < outputs@.len() ==> #[trigger] output_view(outputs@[k]) == output_view(rows_before[order[k]])
        };
        assert forall|k: int| 0 <= k < outputs@.len() implies #[trigger] output_view(outputs@[k]) == output_row_spec(outs[order[k]]) by {
            assert(0 <= order[k] < outs.len());
        }
    }
    let audio_detail_text = audio_detail(&outputs);
    let audio = AudioControlSpec {
        percent: match sys.audio.volume_percent {
            Some(v) => Some(if v > 100 { 100 } else { v }),
            None => None,
        },
        muted: sys.audio.muted,
        detail: audio_detail_text,
        outputs,
    };
    let power_icon = match sys.power.profile {
        PowerProfile::Performance => "power-profile-performance-symbolic",
        PowerProfile::Balanced => "power-profile-balanced-symbolic",
        PowerProfile::PowerSaver => "power-profile-power-saver-symbolic",
    };
    let power_label = match sys.power.profile {
        PowerProfile::Performance => "Performance",
        PowerProfile::Balanced => "Balanced",
        PowerProfile::PowerSaver => "Power saver",
    };
    let power = QuickControlSpec {
        icon_name: owned(power_icon),
        label: owned("Power"),
        detail: owned(power_label),
        enabled: sys.power.profile != PowerProfile::Balanced,
        available: true,
        toggle_available: false,
    };
    let brightness = match (&sys.brightness.device, sys.brightness.percent) {
        (Some(d), Some(p)) => Some(BrightnessControlSpec { device: d.clone(), percent: if p > 100 { 100 } else { p } }),
        _ => None,
    };
    let keyboard = keyboard_control_spec(&sys.keyboard);
    let calendar = match &sys.calendar {
        Some(e) => Some(CalendarControlSpec { title: e.title.clone(), location: clone_opt(&e.location) }),
        None => None,
    };
    let calendar_agenda = match &sys.calendar_agenda {
        Some(a) => Some(copy_agenda(a)),
        None => None,
    };
    let calendar_agenda_error = match sys.health(SourceId::CalendarAgenda) {
        Some(SourceHealth::Disconnected { message }) => Some(message.clone()),
        Some(SourceHealth::Stale { .. }) => Some(owned("Calendar agenda is stale")),
        _ => None,
    };
    let mut timers: Vec<crate::control_center::TimerControlSpec> = Vec::new();
    let mut t: usize = 0;
    while t < sys.timers.len()
        invariant
            t <= sys.timers@.len(),
            timers@.len() == t,
            forall|j: int| 0 <= j < t ==> timer_view(#[trigger] timers@[j]) == timer_row_spec(sys.timers@[j]),
        decreases sys.timers@.len() - t,
    {
        let timer = &sys.timers[t];
        timers.push(crate::control_center::TimerControlSpec {
            id: timer.id.clone(),
            label: timer.label.clone(),
            remaining_seconds: timer.remaining_seconds,
            completed: timer.completed,
            paused: !timer.completed && timer.target_epoch.is_none(),
        });
        t = t + 1;
    }
    assert(timers@.map_values(|t: crate::control_center::TimerControlSpec| timer_view(t))
        =~= sys.timers@.map_values(|t: crate::state::TimerState| timer_row_spec(t)));
    let media = match &sys.media {
        Some(m) => Some(MediaControlSpec {
            player: m.player.clone(),
            title: match &m.title {
                Some(t) => t.clone(),
                None => m.player.clone(),
            },
            artist: match &m.artist {
                Some(a) => a.clone(),
                None => m.player.clone(),
            },
            playing: m.status == PlaybackStatus::Playing,
            art_url: clone_opt(&m.art_url),
        }),
        None => None,
    };
    ControlCenterSpec {
        network,
        network_traffic,
        bluetooth,
        bluetooth_manager,
        audio,
        power,
        brightness,
        keyboard,
        cpu_percent: sys.resources.cpu_percent,
        memory_percent: sys.resources.memory_percent,
        battery_present: sys.power.battery_present,
        battery_percent: sys.power.battery_percent,
        charging: sys.power.charging,
        clock: sys.clock.label.clone(),
        clock_epoch: sys.clock.epoch_seconds,
        calendar,
        calendar_agenda,
        calendar_agenda_error,
        timers,
        media,
    }
}

} // verus!

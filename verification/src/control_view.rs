//! What the control center's pages show for a spec: the overview's labels,
//! the quick-settings grid, the connectivity and Bluetooth pages, device rows
//! and pairing prompts.
use vstd::prelude::*;

use crate::control_center::{
    percent_label, placement_spec, quick_grid_placements, timer_summary, timer_summary_text, volume_icon_name,
    volume_icon_spec,
};
use crate::control_spec::{
    AudioControlSpec, BluetoothDeviceControlSpec, BluetoothManagerSpec, ControlCenterSpec, QuickControlSpec,
};
use crate::state::{BluetoothPairingPrompt, BluetoothPairingPromptKind};
use crate::text::{
    byte_len, chars_of, dec, is_ascii_alnum, is_ascii_digit, owned, push_char, push_dec, push_str, utf8_width,
};

verus! {

// ---------------------------------------------------------------------------
// Bluetooth device rows
// ---------------------------------------------------------------------------

pub open spec fn device_verb(d: BluetoothDeviceControlSpec) -> Seq<char> {
    if d.connected {
        "Disconnect"@
    } else if d.paired {
        "Connect"@
    } else {
        "Pair"@
    }
}

/// What a device row shows and offers.
#[derive(Clone, Debug, PartialEq, Eq)]
pub struct DeviceRowView {
    /// The accessible name of the main button: its verb and the device.
    pub action_label: String,
    /// The second line: the device's error when it has one, else its detail.
    pub detail: String,
    /// The controls take input only while no operation is under way.
    pub sensitive: bool,
    /// A spinner runs while an operation is under way.
    pub busy: bool,
    /// A check mark shows for a connected device with nothing under way.
    pub connected_mark: bool,
    /// Paired devices get a forget button, with this accessible name.
    pub forget_label: Option<String>,
}

pub open spec fn device_row_spec(d: BluetoothDeviceControlSpec) -> (
    Seq<char>,
    Seq<char>,
    bool,
    bool,
    bool,
    Option<Seq<char>>,
) {
    (
        device_verb(d) + " "@ + d.name@,
        match d.error {
            Some(e) => e@,
            None => d.detail@,
        },
        d.operation is None,
        d.operation is Some,
        d.operation is None && d.connected,
        if d.paired {
            Some("Forget "@ + d.name@)
        } else {
            None
        },
    )
}

pub open spec fn device_row_view(v: DeviceRowView) -> (Seq<char>, Seq<char>, bool, bool, bool, Option<Seq<char>>) {
    (
        v.action_label@,
        v.detail@,
        v.sensitive,
        v.busy,
        v.connected_mark,
        match v.forget_label {
            Some(s) => Some(s@),
            None => None,
        },
    )
}

/// The question asked before a device is forgotten.
pub fn forget_question(name: &str) -> (r: String)
    ensures
        r@ == "Forget "@ + name@ + "?"@,
{
    let mut r = owned("Forget ");
    push_str(&mut r, name);
    push_str(&mut r, "?");
    r
}

/// What a device row shows and offers.
pub fn bluetooth_device_row(device: &BluetoothDeviceControlSpec) -> (r: DeviceRowView)
    ensures
        device_row_view(r) == device_row_spec(*device),
{
    let mut action_label = if device.connected {
        owned("Disconnect")
    } else if device.paired {
        owned("Connect")
    } else {
        owned("Pair")
    };
    push_str(&mut action_label, " ");
    push_str(&mut action_label, &device.name);
    let detail = match &device.error {
        Some(e) => e.clone(),
        None => device.detail.clone(),
    };
    let idle = device.operation.is_none();
    let forget_label = if device.paired {
        let mut f = owned("Forget ");
        push_str(&mut f, &device.name);
        Some(f)
    } else {
        None
    };
    DeviceRowView {
        action_label,
        detail,
        sensitive: idle,
        busy: !idle,
        connected_mark: idle && device.connected,
        forget_label,
    }
}

// ---------------------------------------------------------------------------
// Pairing prompts
// ---------------------------------------------------------------------------

/// `s` padded on the left with zeros to `width` characters (`{:0width$}` for
/// digits).
pub open spec fn zero_padded(s: Seq<char>, width: nat) -> Seq<char> {
    if s.len() < width {
        Seq::new((width - s.len()) as nat, |i: int| '0') + s
    } else {
        s
    }
}

/// A six-digit code as the prompts show it (`{:06}`).
pub open spec fn code_text(passkey: u32) -> Seq<char> {
    zero_padded(dec(passkey as nat), 6)
}

/// A text field that a prompt asks the user to fill.
#[derive(Clone, Copy, Debug, PartialEq, Eq, Structural)]
pub enum PairingEntry {
    /// A PIN: up to sixteen letters and digits.
    PinCode,
    /// A passkey: up to six digits.
    Passkey,
}

/// What a pairing prompt shows.
#[derive(Clone, Debug, PartialEq, Eq)]
pub struct PairingPromptView {
    pub title: String,
    pub instruction: String,
    /// A code to compare with, or to type on, the device.
    pub code: Option<String>,
    pub entry: Option<PairingEntry>,
    /// The label of the button that answers the prompt; every prompt also
    /// has a cancel button.
    pub accept_label: Option<String>,
}

pub open spec fn prompt_instruction(k: BluetoothPairingPromptKind) -> Seq<char> {
    match k {
        BluetoothPairingPromptKind::ConfirmPasskey { .. } => "Confirm that this code matches the device:"@,
        BluetoothPairingPromptKind::EnterPinCode => "Enter the PIN shown by the device."@,
        BluetoothPairingPromptKind::EnterPasskey => "Enter the six-digit passkey shown by the device."@,
        BluetoothPairingPromptKind::DisplayPinCode { .. } => "Enter this PIN on the device, then wait for it to connect:"@,
        BluetoothPairingPromptKind::DisplayPasskey { entered, .. } => "Type this code on the device · "@ + dec(
            entered as nat,
        ) + "/6 digits entered"@,
        BluetoothPairingPromptKind::Authorize => "Allow this device to pair with this computer?"@,
    }
}

pub open spec fn prompt_code(k: BluetoothPairingPromptKind) -> Option<Seq<char>> {
    match k {
        BluetoothPairingPromptKind::ConfirmPasskey { passkey } => Some(code_text(passkey)),
        BluetoothPairingPromptKind::DisplayPinCode { pin_code } => Some(pin_code@),
        BluetoothPairingPromptKind::DisplayPasskey { passkey, .. } => Some(code_text(passkey)),
        _ => None,
    }
}

pub open spec fn prompt_entry(k: BluetoothPairingPromptKind) -> Option<PairingEntry> {
    match k {
        BluetoothPairingPromptKind::EnterPinCode => Some(PairingEntry::PinCode),
        BluetoothPairingPromptKind::EnterPasskey => Some(PairingEntry::Passkey),
        _ => None,
    }
}

pub open spec fn prompt_accept_label(k: BluetoothPairingPromptKind) -> Option<Seq<char>> {
    match k {
        BluetoothPairingPromptKind::ConfirmPasskey { .. } => Some("Pair"@),
        BluetoothPairingPromptKind::EnterPinCode => Some("Continue"@),
        BluetoothPairingPromptKind::EnterPasskey => Some("Continue"@),
        BluetoothPairingPromptKind::Authorize => Some("Allow"@),
        _ => None,
    }
}

pub open spec fn opt_text(o: Option<String>) -> Option<Seq<char>> {
    match o {
        Some(s) => Some(s@),
        None => None,
    }
}

/// The six-digit code text of `passkey`.
pub fn passkey_code(passkey: u32) -> (r: String)
    ensures
        r@ == code_text(passkey),
{
    let mut digits = String::new();
    push_dec(&mut digits, passkey as u64);
    let n = chars_of(&digits).len();
    let mut r = String::new();
    let mut i: usize = n;
    while i < 6
        invariant
            n == dec(passkey as nat).len(),
            n <= i,
            n <= 6 ==> i <= 6,
            n > 6 ==> i == n,
            r@ == Seq::new((i - n) as nat, |k: int| '0'),
        decreases 6 - i,
    {
        push_char(&mut r, '0');
        i = i + 1;
        assert(r@ =~= Seq::new((i - n) as nat, |k: int| '0'));
    }
    push_str(&mut r, &digits);
    assert(r@ =~= code_text(passkey));
    r
}

/// What a pairing prompt shows.
pub fn pairing_prompt_view(prompt: &BluetoothPairingPrompt) -> (r: PairingPromptView)
    ensures
        r.title@ == prompt.device_name@,
        r.instruction@ == prompt_instruction(prompt.kind),
        opt_text(r.code) == prompt_code(prompt.kind),
        r.entry == prompt_entry(prompt.kind),
        opt_text(r.accept_label) == prompt_accept_label(prompt.kind),
{
    let title = prompt.device_name.clone();
    match &prompt.kind {
        BluetoothPairingPromptKind::ConfirmPasskey { passkey } => PairingPromptView {
            title,
            instruction: owned("Confirm that this code matches the device:"),
            code: Some(passkey_code(*passkey)),
            entry: None,
            accept_label: Some(owned("Pair")),
        },
        BluetoothPairingPromptKind::EnterPinCode => PairingPromptView {
            title,
            instruction: owned("Enter the PIN shown by the device."),
            code: None,
            entry: Some(PairingEntry::PinCode),
            accept_label: Some(owned("Continue")),
        },
        BluetoothPairingPromptKind::EnterPasskey => PairingPromptView {
            title,
            instruction: owned("Enter the six-digit passkey shown by the device."),
            code: None,
            entry: Some(PairingEntry::Passkey),
            accept_label: Some(owned("Continue")),
        },
        BluetoothPairingPromptKind::DisplayPinCode { pin_code } => PairingPromptView {
            title,
            instruction: owned("Enter this PIN on the device, then wait for it to connect:"),
            code: Some(pin_code.clone()),
            entry: None,
            accept_label: None,
        },
        BluetoothPairingPromptKind::DisplayPasskey { passkey, entered } => {
            let mut instruction = owned("Type this code on the device · ");
            push_dec(&mut instruction, *entered as u64);
            push_str(&mut instruction, "/6 digits entered");
            PairingPromptView {
                title,
                instruction,
                code: Some(passkey_code(*passkey)),
                entry: None,
                accept_label: None,
            }
        },
        BluetoothPairingPromptKind::Authorize => PairingPromptView {
            title,
            instruction: owned("Allow this device to pair with this computer?"),
            code: None,
            entry: None,
            accept_label: Some(owned("Allow")),
        },
    }
}

/// A PIN can be sent once it is non-empty, at most sixteen bytes long and
/// made of ASCII letters and digits.
pub open spec fn pin_code_ready_spec(s: Seq<char>) -> bool {
    &&& s.len() > 0
    &&& byte_len(s) <= 16
    &&& forall|i: int| 0 <= i < s.len() ==> is_ascii_alnum(#[trigger] s[i])
}

/// A passkey can be sent once it is non-empty and made of ASCII digits.
pub open spec fn passkey_ready_spec(s: Seq<char>) -> bool {
    &&& s.len() > 0
    &&& forall|i: int| 0 <= i < s.len() ==> is_ascii_digit(#[trigger] s[i])
}

proof fn lemma_ascii_byte_len(s: Seq<char>)
    requires
        forall|i: int| 0 <= i < s.len() ==> is_ascii_alnum(#[trigger] s[i]),
    ensures
        byte_len(s) == s.len(),
    decreases s.len(),
{
    if s.len() > 0 {
        let t = s.drop_last();
        assert forall|i: int| 0 <= i < t.len() implies is_ascii_alnum(#[trigger] t[i]) by {
            assert(t[i] == s[i]);
        }
        lemma_ascii_byte_len(t);
        assert(is_ascii_alnum(s[s.len() - 1]));
        assert(utf8_width(s.last()) == 1);
    }
}

/// Whether the PIN typed so far can be sent.
pub fn pin_code_ready(value: &str) -> (r: bool)
    ensures
        r == pin_code_ready_spec(value@),
{
    let v = chars_of(value);
    let mut i: usize = 0;
    while i < v.len()
        invariant
            i <= v.len(),
            v@ == value@,
            forall|k: int| 0 <= k < i ==> is_ascii_alnum(#[trigger] v@[k]),
        decreases v.len() - i,
    {
        let c = v[i];
        if !(('0' <= c && c <= '9') || ('a' <= c && c <= 'z') || ('A' <= c && c <= 'Z')) {
            assert(!is_ascii_alnum(value@[i as int]));
            return false;
        }
        i = i + 1;
    }
    proof {
        lemma_ascii_byte_len(value@);
    }
    v.len() > 0 && v.len() <= 16
}

/// Whether the passkey typed so far can be sent.
pub fn passkey_ready(value: &str) -> (r: bool)
    ensures
        r == passkey_ready_spec(value@),
{
    let v = chars_of(value);
    let mut i: usize = 0;
    while i < v.len()
        invariant
            i <= v.len(),
            v@ == value@,
            forall|k: int| 0 <= k < i ==> is_ascii_digit(#[trigger] v@[k]),
        decreases v.len() - i,
    {
        let c = v[i];
        if !('0' <= c && c <= '9') {
            assert(!is_ascii_digit(value@[i as int]));
            return false;
        }
        i = i + 1;
    }
    v.len() > 0
}


// ---------------------------------------------------------------------------
// The quick-settings grid
// ---------------------------------------------------------------------------

/// A tile of the quick-settings grid.
#[derive(Clone, Copy, Debug, PartialEq, Eq, Structural)]
pub enum QuickTile {
    Network,
    Audio,
    Bluetooth,
    Power,
}

/// The tiles shown, in order: network and Bluetooth only when available.
pub open spec fn visible_tiles(network_available: bool, bluetooth_available: bool) -> Seq<QuickTile> {
    (if network_available {
        seq![QuickTile::Network]
    } else {
        Seq::empty()
    }) + seq![QuickTile::Audio] + (if bluetooth_available {
        seq![QuickTile::Bluetooth]
    } else {
        Seq::empty()
    }) + seq![QuickTile::Power]
}

/// Each shown tile with its cell `(column, row, width)`: two columns, the
/// last of an odd number spanning both.
pub fn quick_tile_layout(network_available: bool, bluetooth_available: bool) -> (r: Vec<(QuickTile, (i32, i32, i32))>)
    ensures
        r@.len() == visible_tiles(network_available, bluetooth_available).len(),
        forall|i: int|
            0 <= i < r@.len() ==> (#[trigger] r@[i]).0 == visible_tiles(network_available, bluetooth_available)[i]
                && r@[i].1 == placement_spec(i, r@.len() as int),
{
    let mut tiles: Vec<QuickTile> = Vec::new();
    if network_available {
        tiles.push(QuickTile::Network);
    }
    tiles.push(QuickTile::Audio);
    if bluetooth_available {
        tiles.push(QuickTile::Bluetooth);
    }
    tiles.push(QuickTile::Power);
    assert(tiles@ =~= visible_tiles(network_available, bluetooth_available));
    let placements = quick_grid_placements(tiles.len());
    let mut r: Vec<(QuickTile, (i32, i32, i32))> = Vec::new();
    let mut i: usize = 0;
    while i < tiles.len()
        invariant
            i <= tiles@.len(),
            tiles@ == visible_tiles(network_available, bluetooth_available),
            placements@.len() == tiles@.len(),
            forall|k: int| 0 <= k < tiles@.len() ==> #[trigger] placements@[k] == placement_spec(k, tiles@.len() as int),
            r@.len() == i,
            forall|k: int| 0 <= k < i ==> (#[trigger] r@[k]).0 == tiles@[k] && r@[k].1 == placements@[k],
        decreases tiles@.len() - i,
    {
        r.push((tiles[i], placements[i]));
        i = i + 1;
    }
    r
}

// ---------------------------------------------------------------------------
// The connectivity page
// ---------------------------------------------------------------------------

/// The state line of the network page: `On`/`Off` when it can be switched,
/// `Connected`/`Disconnected` otherwise.
pub open spec fn connectivity_state_spec(q: QuickControlSpec) -> Seq<char> {
    if q.toggle_available {
        if q.enabled {
            "On"@
        } else {
            "Off"@
        }
    } else if q.enabled {
        "Connected"@
    } else {
        "Disconnected"@
    }
}

/// The state line of the network page.
pub fn connectivity_state_label(spec: &QuickControlSpec) -> (r: &'static str)
    ensures
        r@ == connectivity_state_spec(*spec),
{
    if spec.toggle_available {
        if spec.enabled {
            "On"
        } else {
            "Off"
        }
    } else if spec.enabled {
        "Connected"
    } else {
        "Disconnected"
    }
}

/// The label beside the page's switch.
pub fn enable_toggle_label(label: &str) -> (r: String)
    ensures
        r@ == "Enable "@ + label@,
{
    let mut r = owned("Enable ");
    push_str(&mut r, label);
    r
}

// ---------------------------------------------------------------------------
// The overview
// ---------------------------------------------------------------------------

/// A percentage with its sign.
pub open spec fn percent_text(p: u8) -> Seq<char> {
    dec(p as nat) + "%"@
}

/// Metric digits, or `--`.
pub open spec fn metric_text(p: Option<u8>) -> Seq<char> {
    match p {
        Some(v) => dec(v as nat),
        None => "--"@,
    }
}

/// The audio controls act only with an output and a known volume.
pub open spec fn audio_available_spec(a: AudioControlSpec) -> bool {
    a.outputs@.len() > 0 && a.percent is Some
}

pub open spec fn audio_tile_detail_spec(a: AudioControlSpec) -> Seq<char> {
    match a.percent {
        Some(p) => (if a.muted {
            "Muted"@
        } else {
            a.detail@
        }) + " · "@ + percent_text(p),
        None => a.detail@,
    }
}

pub open spec fn audio_state_spec(a: AudioControlSpec) -> Seq<char> {
    if a.outputs@.len() == 0 {
        "Unavailable"@
    } else if a.muted {
        "Muted"@
    } else {
        "Sound on"@
    }
}

/// The time tile's summary: the first timer, else the next calendar event's
/// title, else the clock.
pub open spec fn time_summary_spec(spec: ControlCenterSpec) -> Seq<char> {
    if spec.timers@.len() > 0 {
        timer_summary_text(spec.timers@[0])
    } else {
        match spec.calendar {
            Some(c) => c.title@,
            None => spec.clock@,
        }
    }
}

/// The labels and states of the overview's tiles and summaries.
#[derive(Clone, Debug)]
pub struct OverviewLabels {
    pub audio_available: bool,
    /// The audio tile's second line: the volume after the output, or `Muted`.
    pub audio_detail: String,
    /// The audio tile is lit while sound is on.
    pub audio_enabled: bool,
    pub volume_value: u8,
    pub volume_label: String,
    pub volume_icon: &'static str,
    pub volume_tooltip: &'static str,
    pub audio_state: &'static str,
    /// Shown only when a backlight is present.
    pub brightness_label: Option<String>,
    /// `cpu / memory`.
    pub resources_summary: String,
    /// Shown only when a battery is present.
    pub battery_summary: Option<String>,
    pub battery_state: Option<String>,
    pub battery_detail: Option<&'static str>,
    pub time_summary: String,
}

/// What the overview shows for `spec`.
pub fn overview_labels(spec: &ControlCenterSpec) -> (r: OverviewLabels)
    ensures
        r.audio_available == audio_available_spec(spec.audio),
        r.audio_detail@ == audio_tile_detail_spec(spec.audio),
        r.audio_enabled == (audio_available_spec(spec.audio) && !spec.audio.muted),
        r.volume_value == (match spec.audio.percent {
            Some(p) => p,
            None => 0u8,
        }),
        r.volume_label@ == (match spec.audio.percent {
            Some(p) => percent_text(p),
            None => "--"@,
        }),
        r.volume_icon@ == volume_icon_spec(spec.audio.muted, spec.audio.percent),
        r.volume_tooltip@ == (if spec.audio.muted {
            "Unmute"@
        } else {
            "Mute"@
        }),
        r.audio_state@ == audio_state_spec(spec.audio),
        match (spec.brightness, r.brightness_label) {
            (Some(b), Some(l)) => l@ == percent_text(b.percent),
            (None, None) => true,
            _ => false,
        },
        r.resources_summary@ == metric_text(spec.cpu_percent) + " / "@ + metric_text(spec.memory_percent),
        spec.battery_present == r.battery_summary is Some,
        spec.battery_present == r.battery_state is Some,
        spec.battery_present == r.battery_detail is Some,
        spec.battery_present ==> r.battery_summary->0@ == (match spec.battery_percent {
            Some(p) => percent_text(p),
            None => "--"@,
        }),
        spec.battery_present ==> r.battery_state->0@ == (match spec.battery_percent {
            Some(p) => percent_text(p),
            None => "Reading battery"@,
        }),
        spec.battery_present ==> r.battery_detail->0@ == (if spec.charging {
            "Charging"@
        } else {
            "On battery"@
        }),
        r.time_summary@ == time_summary_spec(*spec),
{
    let audio = &spec.audio;
    let audio_available = audio.outputs.len() > 0 && audio.percent.is_some();
    let audio_detail = match audio.percent {
        Some(p) => {
            let mut d = if audio.muted {
                owned("Muted")
            } else {
                audio.detail.clone()
            };
            push_str(&mut d, " · ");
            push_percent(&mut d, p);
            d
        },
        None => audio.detail.clone(),
    };
    let volume_label = match audio.percent {
        Some(p) => {
            let mut l = String::new();
            push_percent(&mut l, p);
            l
        },
        None => owned("--"),
    };
    let audio_state = if audio.outputs.len() == 0 {
        "Unavailable"
    } else if audio.muted {
        "Muted"
    } else {
        "Sound on"
    };
    let brightness_label = match &spec.brightness {
        Some(b) => {
            let mut l = String::new();
            push_percent(&mut l, b.percent);
            Some(l)
        },
        None => None,
    };
    let mut resources_summary = percent_label(spec.cpu_percent);
    push_str(&mut resources_summary, " / ");
    let memory = percent_label(spec.memory_percent);
    push_str(&mut resources_summary, memory.as_str());
    let (battery_summary, battery_state, battery_detail) = if spec.battery_present {
        let (summary, state) = match spec.battery_percent {
            Some(p) => {
                let mut a = String::new();
                push_percent(&mut a, p);
                let mut b = String::new();
                push_percent(&mut b, p);
                (a, b)
            },
            None => (owned("--"), owned("Reading battery")),
        };
        let detail = if spec.charging {
            "Charging"
        } else {
            "On battery"
        };
        (Some(summary), Some(state), Some(detail))
    } else {
        (None, None, None)
    };
    let time_summary = if spec.timers.len() > 0 {
        timer_summary(&spec.timers[0])
    } else {
        match &spec.calendar {
            Some(c) => c.title.clone(),
            None => spec.clock.clone(),
        }
    };
    OverviewLabels {
        audio_available,
        audio_detail,
        audio_enabled: audio_available && !audio.muted,
        volume_value: match audio.percent {
            Some(p) => p,
            None => 0,
        },
        volume_label,
        volume_icon: volume_icon_name(audio.muted, audio.percent),
        volume_tooltip: if audio.muted {
            "Unmute"
        } else {
            "Mute"
        },
        audio_state,
        brightness_label,
        resources_summary,
        battery_summary,
        battery_state,
        battery_detail,
        time_summary,
    }
}

/// Appends `p%`.
fn push_percent(s: &mut String, p: u8)
    ensures
        final(s)@ == old(s)@ + percent_text(p),
{
    push_dec(s, p as u64);
    push_str(s, "%");
}

// ---------------------------------------------------------------------------
// The Bluetooth page
// ---------------------------------------------------------------------------

/// The page's second line: a hint when off, else the connected count, with
/// the scan when one runs.
pub open spec fn bluetooth_detail_spec(m: BluetoothManagerSpec) -> Seq<char> {
    if !m.powered {
        "Turn on Bluetooth to find devices"@
    } else if m.discovering {
        if m.connected_count == 0 {
            "Scanning for nearby devices…"@
        } else {
            dec(m.connected_count as nat) + " connected · Scanning…"@
        }
    } else if m.connected_count == 0 {
        "No devices connected"@
    } else if m.connected_count == 1 {
        "1 device connected"@
    } else {
        dec(m.connected_count as nat) + " devices connected"@
    }
}

/// The three lists of the page.
#[derive(Clone, Copy, Debug, PartialEq, Eq, Structural)]
pub enum DeviceSection {
    /// `CONNECTED`: connected devices.
    Connected,
    /// `SAVED DEVICES`: paired devices that are not connected.
    Saved,
    /// `NEARBY`: devices that are neither.
    Nearby,
}

pub open spec fn in_section(section: DeviceSection, d: BluetoothDeviceControlSpec) -> bool {
    match section {
        DeviceSection::Connected => d.connected,
        DeviceSection::Saved => d.paired && !d.connected,
        DeviceSection::Nearby => !d.paired && !d.connected,
    }
}

/// The rows of one section, in the order of the devices.
pub open spec fn section_rows(devices: Seq<BluetoothDeviceControlSpec>, section: DeviceSection) -> Seq<
    (Seq<char>, Seq<char>, bool, bool, bool, Option<Seq<char>>),
> {
    devices.filter(|d: BluetoothDeviceControlSpec| in_section(section, d)).map_values(
        |d: BluetoothDeviceControlSpec| device_row_spec(d),
    )
}

/// The lists of a powered page without a prompt.
#[derive(Clone, Debug)]
pub struct DeviceSections {
    /// The adapter's error, shown above the lists.
    pub error: Option<String>,
    pub connected: Vec<DeviceRowView>,
    pub saved: Vec<DeviceRowView>,
    pub nearby: Vec<DeviceRowView>,
    /// With no nearby device: whether a scan spinner runs beside the heading.
    pub scanning: bool,
    /// With no nearby device: the text in place of the list.
    pub nearby_empty: Option<&'static str>,
}

/// What fills the page below its header.
#[derive(Clone, Debug)]
pub enum BluetoothPageBody {
    /// A pairing prompt takes the whole page.
    Prompt(PairingPromptView),
    /// `Bluetooth is off`.
    Off,
    Devices(DeviceSections),
}

/// The Bluetooth page.
#[derive(Clone, Debug)]
pub struct BluetoothPageView {
    pub icon_name: &'static str,
    pub state: &'static str,
    pub detail: String,
    pub toggle_active: bool,
    pub toggle_sensitive: bool,
    pub body: BluetoothPageBody,
}

fn section_of(devices: &Vec<BluetoothDeviceControlSpec>, section: DeviceSection) -> (r: Vec<DeviceRowView>)
    ensures
        r@.map_values(|v: DeviceRowView| device_row_view(v)) == section_rows(devices@, section),
{
    let ghost pred = |d: BluetoothDeviceControlSpec| in_section(section, d);
    let mut rows: Vec<DeviceRowView> = Vec::new();
    let mut i: usize = 0;
    while i < devices.len()
        invariant
            i <= devices@.len(),
            pred == (|d: BluetoothDeviceControlSpec| in_section(section, d)),
            rows@.map_values(|v: DeviceRowView| device_row_view(v)) == devices@.take(i as int).filter(pred).map_values(
                |d: BluetoothDeviceControlSpec| device_row_spec(d),
            ),
        decreases devices@.len() - i,
    {
        proof {
            reveal(Seq::filter);
            assert(devices@.take(i + 1).drop_last() =~= devices@.take(i as int));
            assert(devices@.take(i + 1).last() == devices@[i as int]);
        }
        let d = &devices[i];
        let keep = match section {
            DeviceSection::Connected => d.connected,
            DeviceSection::Saved => d.paired && !d.connected,
            DeviceSection::Nearby => !d.paired && !d.connected,
        };
        if keep {
            let ghost before = rows@;
            rows.push(bluetooth_device_row(d));
            proof {
                assert(rows@.map_values(|v: DeviceRowView| device_row_view(v)) =~= before.map_values(
                    |v: DeviceRowView| device_row_view(v),
                ).push(device_row_spec(*d)));
                assert(devices@.take(i + 1).filter(pred) == devices@.take(i as int).filter(pred).push(*d));
                assert(devices@.take(i + 1).filter(pred).map_values(|d: BluetoothDeviceControlSpec| device_row_spec(d))
                    =~= devices@.take(i as int).filter(pred).map_values(
                    |d: BluetoothDeviceControlSpec| device_row_spec(d),
                ).push(device_row_spec(*d)));
            }
        }
        i = i + 1;
    }
    assert(devices@.take(devices@.len() as int) =~= devices@);
    rows
}

/// The page's header line for the connected count.
pub fn bluetooth_detail(manager: &BluetoothManagerSpec) -> (r: String)
    ensures
        r@ == bluetooth_detail_spec(*manager),
{
    if !manager.powered {
        owned("Turn on Bluetooth to find devices")
    } else if manager.discovering {
        if manager.connected_count == 0 {
            owned("Scanning for nearby devices…")
        } else {
            let mut r = String::new();
            push_dec(&mut r, manager.connected_count as u64);
            push_str(&mut r, " connected · Scanning…");
            r
        }
    } else if manager.connected_count == 0 {
        owned("No devices connected")
    } else if manager.connected_count == 1 {
        owned("1 device connected")
    } else {
        let mut r = String::new();
        push_dec(&mut r, manager.connected_count as u64);
        push_str(&mut r, " devices connected");
        r
    }
}

/// What the Bluetooth page shows for `manager`: a pending prompt first, then
/// the off state, then the adapter's error and the three device sections.
pub fn bluetooth_page_view(manager: &BluetoothManagerSpec) -> (r: BluetoothPageView)
    ensures
        r.icon_name@ == (if manager.powered {
            "bluetooth-active-symbolic"@
        } else {
            "bluetooth-disabled-symbolic"@
        }),
        r.state@ == (if manager.powered {
            "On"@
        } else {
            "Off"@
        }),
        r.detail@ == bluetooth_detail_spec(*manager),
        r.toggle_active == manager.powered,
        r.toggle_sensitive == manager.available,
        match manager.prompt {
            Some(p) => r.body matches BluetoothPageBody::Prompt(v) && prompt_view_matches(v, p),
            None => if !manager.powered {
                r.body is Off
            } else {
                r.body matches BluetoothPageBody::Devices(s) && {
                    &&& opt_text(s.error) == match manager.error {
                        Some(e) => Some(e@),
                        None => None,
                    }
                    &&& s.connected@.map_values(|v: DeviceRowView| device_row_view(v)) == section_rows(
                        manager.devices@,
                        DeviceSection::Connected,
                    )
                    &&& s.saved@.map_values(|v: DeviceRowView| device_row_view(v)) == section_rows(
                        manager.devices@,
                        DeviceSection::Saved,
                    )
                    &&& s.nearby@.map_values(|v: DeviceRowView| device_row_view(v)) == section_rows(
                        manager.devices@,
                        DeviceSection::Nearby,
                    )
                    &&& s.scanning == (s.nearby@.len() == 0 && manager.discovering)
                    &&& match s.nearby_empty {
                        Some(t) => s.nearby@.len() == 0 && t@ == (if manager.discovering {
                            "Looking for devices…"@
                        } else {
                            "No nearby devices found"@
                        }),
                        None => s.nearby@.len() > 0,
                    }
                }
            },
        },
{
    let icon_name = if manager.powered {
        "bluetooth-active-symbolic"
    } else {
        "bluetooth-disabled-symbolic"
    };
    let state = if manager.powered {
        "On"
    } else {
        "Off"
    };
    let detail = bluetooth_detail(manager);
    let body = match &manager.prompt {
        Some(p) => BluetoothPageBody::Prompt(pairing_prompt_view(p)),
        None => if !manager.powered {
            BluetoothPageBody::Off
        } else {
            let connected = section_of(&manager.devices, DeviceSection::Connected);
            let saved = section_of(&manager.devices, DeviceSection::Saved);
            let nearby = section_of(&manager.devices, DeviceSection::Nearby);
            let none_nearby = nearby.len() == 0;
            let nearby_empty = if none_nearby {
                Some(
                    if manager.discovering {
                        "Looking for devices…"
                    } else {
                        "No nearby devices found"
                    },
                )
            } else {
                None
            };
            BluetoothPageBody::Devices(
                DeviceSections {
                    error: match &manager.error {
                        Some(e) => Some(e.clone()),
                        None => None,
                    },
                    connected,
                    saved,
                    nearby,
                    scanning: none_nearby && manager.discovering,
                    nearby_empty,
                },
            )
        },
    };
    BluetoothPageView {
        icon_name,
        state,
        detail,
        toggle_active: manager.powered,
        toggle_sensitive: manager.available,
        body,
    }
}

/// `v` is what `pairing_prompt_view` shows for `p`.
pub open spec fn prompt_view_matches(v: PairingPromptView, p: BluetoothPairingPrompt) -> bool {
    &&& v.title@ == p.device_name@
    &&& v.instruction@ == prompt_instruction(p.kind)
    &&& opt_text(v.code) == prompt_code(p.kind)
    &&& v.entry == prompt_entry(p.kind)
    &&& opt_text(v.accept_label) == prompt_accept_label(p.kind)
}

} // verus!

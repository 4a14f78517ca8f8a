//! The status bar's state model: a snapshot of outputs, workspaces, windows
//! and system sources, and the bar's configuration.
use vstd::prelude::*;

use crate::text::seq_lt;

verus! {

#[derive(Clone, Copy, Debug, PartialEq, Eq, Structural)]
pub enum SourceId {
    Compositor,
    Resources,
    Network,
    Audio,
    Bluetooth,
    Power,
    Clock,
    Calendar,
    CalendarAgenda,
    Timers,
    Media,
}

#[derive(Clone, Debug, PartialEq, Eq)]
pub enum SourceHealth {
    Healthy,
    Stale { since_epoch: i64 },
    Disconnected { message: String },
}

#[derive(Clone, Copy, Debug, PartialEq, Eq, Structural)]
pub enum PowerProfile {
    Performance,
    Balanced,
    PowerSaver,
}

#[derive(Clone, Copy, Debug, PartialEq, Eq, Structural)]
pub enum ConnectivityState {
    Connected,
    Connecting,
    Disconnected,
    Unknown,
}

#[derive(Clone, Copy, Debug, PartialEq, Eq, Structural)]
pub enum PlaybackStatus {
    Playing,
    Paused,
    Stopped,
}

#[derive(Clone, Copy, Debug, PartialEq, Eq, Structural)]
pub enum OutputRole {
    Primary,
    Reduced,
}

#[derive(Clone, Debug, PartialEq, Eq)]
pub struct ClockState {
    pub epoch_seconds: i64,
    pub label: String,
}

#[derive(Clone, Debug, PartialEq, Eq)]
pub struct NetworkState {
    pub connectivity: ConnectivityState,
    pub icon_hint: Option<String>,
    pub label: Option<String>,
    pub wifi_available: bool,
    pub ethernet_available: bool,
    pub wifi_enabled: Option<bool>,
    pub interface: Option<String>,
    pub download_bytes_per_second: Option<u64>,
    pub upload_bytes_per_second: Option<u64>,
    /// Recent download rates, oldest first.
    pub download_history: Vec<u64>,
    /// Recent upload rates, oldest first.
    pub upload_history: Vec<u64>,
}

#[derive(Clone, Copy, Debug, PartialEq, Eq, Structural)]
pub enum BluetoothDeviceOperation {
    Connecting,
    Disconnecting,
    Pairing,
    Forgetting,
}

#[derive(Clone, Debug, Default, PartialEq, Eq)]
pub struct BluetoothDeviceState {
    pub address: String,
    pub name: String,
    pub icon_name: String,
    pub paired: bool,
    pub trusted: bool,
    pub connected: bool,
    pub audio_capable: bool,
    pub battery_percent: Option<u8>,
    /// Signal strength in dBm.
    pub rssi: Option<i16>,
    pub operation: Option<BluetoothDeviceOperation>,
    pub error: Option<String>,
}

#[derive(Clone, Debug, PartialEq, Eq)]
pub enum BluetoothPairingPromptKind {
    ConfirmPasskey { passkey: u32 },
    EnterPinCode,
    EnterPasskey,
    DisplayPinCode { pin_code: String },
    DisplayPasskey { passkey: u32, entered: u16 },
    Authorize,
}

#[derive(Clone, Debug, PartialEq, Eq)]
pub struct BluetoothPairingPrompt {
    pub id: u64,
    pub address: String,
    pub device_name: String,
    pub kind: BluetoothPairingPromptKind,
}

#[derive(Clone, Debug, PartialEq, Eq)]
pub struct BluetoothState {
    pub available: bool,
    pub powered: bool,
    pub connected_device: Option<String>,
    pub audio_device: Option<String>,
    pub discovering: bool,
    pub devices: Vec<BluetoothDeviceState>,
    pub pairing_prompt: Option<BluetoothPairingPrompt>,
    pub error: Option<String>,
}

#[derive(Clone, Debug, Default, PartialEq, Eq)]
pub struct AudioOutputState {
    pub name: String,
    pub description: String,
    pub alias: Option<String>,
    pub port_description: Option<String>,
    pub port_type: Option<String>,
    pub bus: Option<String>,
    pub is_default: bool,
}

#[derive(Clone, Debug, PartialEq, Eq)]
pub struct AudioState {
    pub volume_percent: Option<u8>,
    pub muted: bool,
    pub outputs: Vec<AudioOutputState>,
}

#[derive(Clone, Debug, Default, PartialEq, Eq)]
pub struct BrightnessState {
    /// The backlight device, when the machine has one.
    pub device: Option<String>,
    pub percent: Option<u8>,
}

#[derive(Clone, Debug, Default, PartialEq, Eq)]
pub struct KeyboardLayoutOption {
    pub index: u8,
    /// The compositor's name for the layout, such as `English (US)`.
    pub name: String,
    /// The XKB layout, such as `us`.
    pub layout: Option<String>,
    /// The XKB variant, such as `dvorak`.
    pub variant: Option<String>,
}

#[derive(Clone, Debug, Default, PartialEq, Eq)]
pub struct KeyboardLayoutState {
    pub current_index: Option<u8>,
    pub current_name: Option<String>,
    pub layouts: Vec<KeyboardLayoutOption>,
}

#[derive(Clone, Debug, PartialEq, Eq)]
pub struct CalendarEvent {
    pub id: String,
    pub title: String,
    pub location: Option<String>,
    pub start_epoch: i64,
}

#[derive(Clone, Debug, PartialEq, Eq)]
pub struct CalendarAgendaEvent {
    pub id: String,
    pub title: String,
    pub location: Option<String>,
    pub calendar: Option<String>,
    pub start_epoch: i64,
    pub end_epoch: i64,
    pub all_day: bool,
}

/// The events of one month.
#[derive(Clone, Debug, PartialEq, Eq)]
pub struct CalendarAgenda {
    pub year: i32,
    pub month: u32,
    pub events: Vec<CalendarAgendaEvent>,
}

#[derive(Clone, Debug, PartialEq, Eq)]
pub struct TimerState {
    pub id: String,
    pub label: String,
    pub remaining_seconds: u64,
    /// When the timer ends; none while it is paused.
    pub target_epoch: Option<i64>,
    pub completed: bool,
    pub changed_at: i64,
}

#[derive(Clone, Copy, Debug, PartialEq, Eq)]
pub struct PowerState {
    pub battery_present: bool,
    pub battery_percent: Option<u8>,
    pub charging: bool,
    pub profile: PowerProfile,
    pub changed_at: i64,
}

#[derive(Clone, Copy, Debug, PartialEq, Eq)]
pub struct ResourceState {
    pub cpu_percent: Option<u8>,
    pub memory_percent: Option<u8>,
}

#[derive(Clone, Debug, PartialEq, Eq)]
pub struct MediaState {
    pub player: String,
    pub status: PlaybackStatus,
    pub title: Option<String>,
    pub artist: Option<String>,
    pub art_url: Option<String>,
    pub changed_at: i64,
}

#[derive(Clone, Debug)]
pub struct SystemState {
    pub clock: ClockState,
    pub network: NetworkState,
    pub bluetooth: BluetoothState,
    pub audio: AudioState,
    pub power: PowerState,
    pub resources: ResourceState,
    /// The name of the active keyboard layout, as the bar shows it.
    pub keyboard_layout: Option<String>,
    /// The keyboard layouts the control center lists.
    pub keyboard: KeyboardLayoutState,
    pub brightness: BrightnessState,
    pub media: Option<MediaState>,
    /// The next calendar event.
    pub calendar: Option<CalendarEvent>,
    /// The month of events the control center shows.
    pub calendar_agenda: Option<CalendarAgenda>,
    pub timers: Vec<TimerState>,
    /// The health of each source that reported one; the first entry for a
    /// source counts.
    pub source_health: Vec<(SourceId, SourceHealth)>,
}

#[derive(Clone, Debug, PartialEq, Eq)]
pub struct WorkspaceState {
    pub id: String,
    pub label: String,
    pub output: String,
    pub active: bool,
    pub urgent: bool,
    pub changed_at: i64,
}

#[derive(Clone, Debug, PartialEq, Eq)]
pub struct WindowState {
    pub id: String,
    pub app_id: Option<String>,
    pub title: String,
    pub urgent: bool,
    pub workspace_id: Option<String>,
    pub changed_at: i64,
}

#[derive(Clone, Debug, PartialEq, Eq)]
pub struct OutputState {
    pub name: String,
    pub workspaces: Vec<WorkspaceState>,
    pub windows: Vec<WindowState>,
    pub focused_window: Option<WindowState>,
    pub urgent: bool,
    pub changed_at: i64,
}

/// Each output once, in strictly increasing name order (the order of a map
/// keyed by output name).
pub open spec fn outputs_in_name_order(outputs: Seq<OutputState>) -> bool {
    forall|i: int, j: int| 0 <= i < j < outputs.len() ==> seq_lt(#[trigger] outputs[i].name@, #[trigger] outputs[j].name@)
}

#[derive(Clone, Debug)]
pub struct BarSnapshot {
    /// The outputs in name order.
    pub outputs: Vec<OutputState>,
    pub focused_output: Option<String>,
    pub system: SystemState,
}

impl BarSnapshot {
    /// The outputs are each named once, in name order.
    pub open spec fn wf(&self) -> bool {
        outputs_in_name_order(self.outputs@)
    }
}

#[derive(Clone, Copy, Debug, PartialEq, Eq)]
pub struct Thresholds {
    pub battery_low_percent: u8,
    pub battery_critical_percent: u8,
}

#[derive(Clone, Debug)]
pub struct AppConfig {
    pub primary_output: Option<String>,
    pub thresholds: Thresholds,
}

// ---------------------------------------------------------------------------
// Source health
// ---------------------------------------------------------------------------

/// The health recorded for `id`: the first entry for it.
pub open spec fn health_of(entries: Seq<(SourceId, SourceHealth)>, id: SourceId) -> Option<SourceHealth>
    decreases entries.len(),
{
    if entries.len() == 0 {
        None
    } else if entries[0].0 == id {
        Some(entries[0].1)
    } else {
        health_of(entries.drop_first(), id)
    }
}

proof fn lemma_health_of(entries: Seq<(SourceId, SourceHealth)>, id: SourceId, i: int)
    requires
        0 <= i <= entries.len(),
        forall|j: int| 0 <= j < i ==> entries[j].0 != id,
        i < entries.len() ==> entries[i].0 == id,
    ensures
        health_of(entries, id) == (if i < entries.len() { Some(entries[i].1) } else { None::<SourceHealth> }),
    decreases i,
{
    if entries.len() > 0 && i > 0 {
        lemma_health_of(entries.drop_first(), id, i - 1);
    }
}

impl SystemState {
    /// The health recorded for source `id`, if any.
    pub fn health(&self, id: SourceId) -> (h: Option<&SourceHealth>)
        ensures
            match h {
                Some(x) => health_of(self.source_health@, id) == Some(*x),
                None => health_of(self.source_health@, id) is None,
            },
    {
        let mut i: usize = 0;
        while i < self.source_health.len()
            invariant
                i <= self.source_health.len(),
                forall|j: int| 0 <= j < i ==> self.source_health@[j].0 != id,
            decreases self.source_health.len() - i,
        {
            if self.source_health[i].0 == id {
                proof {
                    lemma_health_of(self.source_health@, id, i as int);
                }
                return Some(&self.source_health[i].1);
            }
            i = i + 1;
        }
        proof {
            lemma_health_of(self.source_health@, id, self.source_health@.len() as int);
        }
        None
    }

    /// Records the health of source `id`, replacing what was recorded for it.
    pub fn set_health(&mut self, id: SourceId, health: SourceHealth)
        ensures
            health_of(final(self).source_health@, id) == Some(health),
            forall|other: SourceId| other != id ==> health_of(final(self).source_health@, other)
                == health_of(old(self).source_health@, other),
    {
        self.source_health.insert(0, (id, health));
        assert(self.source_health@.drop_first() =~= old(self).source_health@);
    }
}

// ---------------------------------------------------------------------------
// Defaults
// ---------------------------------------------------------------------------

/// A clock at the epoch with no label.
pub open spec fn is_default_clock(c: ClockState) -> bool {
    c.epoch_seconds == 0 && c.label@.len() == 0
}

/// A network with nothing known.
pub open spec fn is_default_network(n: NetworkState) -> bool {
    &&& n.connectivity == ConnectivityState::Unknown
    &&& n.icon_hint is None
    &&& n.label is None
    &&& !n.wifi_available
    &&& !n.ethernet_available
    &&& n.wifi_enabled is None
    &&& n.interface is None
    &&& n.download_bytes_per_second is None
    &&& n.upload_bytes_per_second is None
    &&& n.download_history@.len() == 0
    &&& n.upload_history@.len() == 0
}

/// No Bluetooth adapter, device, prompt or error.
pub open spec fn is_default_bluetooth(b: BluetoothState) -> bool {
    &&& !b.available
    &&& !b.powered
    &&& b.connected_device is None
    &&& b.audio_device is None
    &&& !b.discovering
    &&& b.devices@.len() == 0
    &&& b.pairing_prompt is None
    &&& b.error is None
}

/// No volume, not muted, no outputs.
pub open spec fn is_default_audio(a: AudioState) -> bool {
    a.volume_percent is None && !a.muted && a.outputs@.len() == 0
}

/// A system with nothing reported yet.
pub open spec fn is_default_system(s: SystemState) -> bool {
    &&& is_default_clock(s.clock)
    &&& is_default_network(s.network)
    &&& is_default_bluetooth(s.bluetooth)
    &&& is_default_audio(s.audio)
    &&& s.power == (PowerState {
        battery_present: false,
        battery_percent: None,
        charging: false,
        profile: PowerProfile::Balanced,
        changed_at: 0,
    })
    &&& s.resources == (ResourceState { cpu_percent: None, memory_percent: None })
    &&& s.keyboard_layout is None
    &&& s.keyboard.current_index is None
    &&& s.keyboard.current_name is None
    &&& s.keyboard.layouts@.len() == 0
    &&& s.brightness.device is None
    &&& s.brightness.percent is None
    &&& s.media is None
    &&& s.calendar is None
    &&& s.calendar_agenda is None
    &&& s.timers@.len() == 0
    &&& s.source_health@.len() == 0
}

impl Default for ClockState {
    fn default() -> (r: Self)
        ensures
            is_default_clock(r),
    {
        ClockState { epoch_seconds: 0, label: String::new() }
    }
}

impl Default for NetworkState {
    fn default() -> (r: Self)
        ensures
            is_default_network(r),
    {
        NetworkState {
            connectivity: ConnectivityState::Unknown,
            icon_hint: None,
            label: None,
            wifi_available: false,
            ethernet_available: false,
            wifi_enabled: None,
            interface: None,
            download_bytes_per_second: None,
            upload_bytes_per_second: None,
            download_history: Vec::new(),
            upload_history: Vec::new(),
        }
    }
}

impl Default for BluetoothState {
    fn default() -> (r: Self)
        ensures
            is_default_bluetooth(r),
    {
        BluetoothState {
            available: false,
            powered: false,
            connected_device: None,
            audio_device: None,
            discovering: false,
            devices: Vec::new(),
            pairing_prompt: None,
            error: None,
        }
    }
}

impl Default for AudioState {
    fn default() -> (r: Self)
        ensures
            is_default_audio(r),
    {
        AudioState { volume_percent: None, muted: false, outputs: Vec::new() }
    }
}

impl Default for PowerState {
    fn default() -> (r: Self)
        ensures
            r == (PowerState {
                battery_present: false,
                battery_percent: None,
                charging: false,
                profile: PowerProfile::Balanced,
                changed_at: 0,
            }),
    {
        PowerState {
            battery_present: false,
            battery_percent: None,
            charging: false,
            profile: PowerProfile::Balanced,
            changed_at: 0,
        }
    }
}

impl Default for ResourceState {
    fn default() -> (r: Self)
        ensures
            r == (ResourceState { cpu_percent: None, memory_percent: None }),
    {
        ResourceState { cpu_percent: None, memory_percent: None }
    }
}

impl Default for SystemState {
    fn default() -> (r: Self)
        ensures
            is_default_system(r),
    {
        SystemState {
            clock: ClockState::default(),
            network: NetworkState::default(),
            bluetooth: BluetoothState::default(),
            audio: AudioState::default(),
            power: PowerState::default(),
            resources: ResourceState::default(),
            keyboard_layout: None,
            keyboard: KeyboardLayoutState { current_index: None, current_name: None, layouts: Vec::new() },
            brightness: BrightnessState { device: None, percent: None },
            media: None,
            calendar: None,
            calendar_agenda: None,
            timers: Vec::new(),
            source_health: Vec::new(),
        }
    }
}

impl Default for BarSnapshot {
    fn default() -> (r: Self)
        ensures
            r.outputs@.len() == 0,
            r.focused_output is None,
            is_default_system(r.system),
    {
        BarSnapshot { outputs: Vec::new(), focused_output: None, system: SystemState::default() }
    }
}

impl Default for Thresholds {
    fn default() -> (r: Self)
        ensures
            r.battery_low_percent == 20,
            r.battery_critical_percent == 10,
    {
        Thresholds { battery_low_percent: 20, battery_critical_percent: 10 }
    }
}

impl Default for AppConfig {
    /// The configured primary output is `DP-5`.
    fn default() -> (r: Self)
        ensures
            r.primary_output matches Some(p) && p@ == "DP-5"@,
            r.thresholds == (Thresholds { battery_low_percent: 20, battery_critical_percent: 10 }),
    {
        AppConfig { primary_output: Some(crate::text::owned("DP-5")), thresholds: Thresholds::default() }
    }
}

} // verus!

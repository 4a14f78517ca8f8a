//! Whether two bar specs show the same thing: each spec type compared value
//! by value, text by its characters. The bar redraws a part only when this
//! comparison finds it changed.
use vstd::prelude::*;

use crate::context::ContextCard;
use crate::control_center::TimerControlSpec;
use crate::control_spec::{
    device_view, layout_view, output_view, ov, quick_view, timer_view, AudioControlSpec, AudioOutputControlSpec,
    BluetoothDeviceControlSpec, BluetoothManagerSpec, BrightnessControlSpec, CalendarControlSpec,
    ControlCenterSpec, KeyboardControlSpec, KeyboardLayoutControlSpec, MediaControlSpec, NetworkTrafficSpec,
    QuickControlSpec,
};
use crate::state::{BluetoothPairingPrompt, BluetoothPairingPromptKind, CalendarAgenda, CalendarAgendaEvent};
use crate::surface::{workspace_view, ContextSpec, SurfaceSpec, TitleSpec, WarningSpec, WorkspaceButtonSpec};
use crate::system::{button_view, SystemCluster, SystemModuleSpec};
use crate::wm::{group_view, item_view, opt_chars, WindowGroupSpec, WindowMenuItemSpec};

verus! {

// ---------------------------------------------------------------------------
// Sequences compared element by element
// ---------------------------------------------------------------------------

/// Sequences of one length that map to the same value at each position map
/// to the same sequence.
pub proof fn lemma_mapped_agree<A, B>(a: Seq<A>, b: Seq<A>, f: spec_fn(A) -> B)
    requires
        a.len() == b.len(),
        forall|k: int| 0 <= k < a.len() ==> f(#[trigger] a[k]) == f(b[k]),
    ensures
        a.map_values(f) == b.map_values(f),
{
    assert(a.map_values(f) =~= b.map_values(f));
}

/// Sequences that map to different values somewhere, or differ in length,
/// map to different sequences.
pub proof fn lemma_mapped_differ<A, B>(a: Seq<A>, b: Seq<A>, f: spec_fn(A) -> B, i: int)
    requires
        a.len() != b.len() || (0 <= i < a.len() && i < b.len() && f(a[i]) != f(b[i])),
    ensures
        a.map_values(f) != b.map_values(f),
{
    if a.len() == b.len() {
        assert(a.map_values(f)[i] == f(a[i]));
        assert(b.map_values(f)[i] == f(b[i]));
    } else {
        assert(a.map_values(f).len() != b.map_values(f).len());
    }
}

fn same_opt_string(a: &Option<String>, b: &Option<String>) -> (r: bool)
    ensures
        r == (ov(*a) == ov(*b)),
{
    match (a, b) {
        (Some(x), Some(y)) => *x == *y,
        (None, None) => true,
        _ => false,
    }
}

fn same_u64s(a: &Vec<u64>, b: &Vec<u64>) -> (r: bool)
    ensures
        r == (a@ == b@),
{
    if a.len() != b.len() {
        return false;
    }
    let mut i: usize = 0;
    while i < a.len()
        invariant
            i <= a@.len(),
            a@.len() == b@.len(),
            forall|k: int| 0 <= k < i ==> a@[k] == b@[k],
        decreases a@.len() - i,
    {
        if a[i] != b[i] {
            return false;
        }
        i = i + 1;
    }
    assert(a@ =~= b@);
    true
}

fn same_strings(a: &Vec<String>, b: &Vec<String>) -> (r: bool)
    ensures
        r == (a@.map_values(|s: String| s@) == b@.map_values(|s: String| s@)),
{
    if a.len() != b.len() {
        proof {
            lemma_mapped_differ(a@, b@, |s: String| s@, 0);
        }
        return false;
    }
    let mut i: usize = 0;
    while i < a.len()
        invariant
            i <= a@.len(),
            a@.len() == b@.len(),
            forall|k: int| 0 <= k < i ==> a@[k]@ == b@[k]@,
        decreases a@.len() - i,
    {
        if a[i] != b[i] {
            proof {
                lemma_mapped_differ(a@, b@, |s: String| s@, i as int);
            }
            return false;
        }
        i = i + 1;
    }
    proof {
        lemma_mapped_agree(a@, b@, |s: String| s@);
    }
    true
}

// ---------------------------------------------------------------------------
// The control center's spec
// ---------------------------------------------------------------------------

pub open spec fn same_traffic(a: NetworkTrafficSpec, b: NetworkTrafficSpec) -> bool {
    &&& ov(a.interface) == ov(b.interface)
    &&& a.download_bytes_per_second == b.download_bytes_per_second
    &&& a.upload_bytes_per_second == b.upload_bytes_per_second
    &&& a.download_history@ == b.download_history@
    &&& a.upload_history@ == b.upload_history@
}

pub open spec fn same_prompt_kind(a: BluetoothPairingPromptKind, b: BluetoothPairingPromptKind) -> bool {
    match (a, b) {
        (
            BluetoothPairingPromptKind::ConfirmPasskey { passkey: x },
            BluetoothPairingPromptKind::ConfirmPasskey { passkey: y },
        ) => x == y,
        (BluetoothPairingPromptKind::EnterPinCode, BluetoothPairingPromptKind::EnterPinCode) => true,
        (BluetoothPairingPromptKind::EnterPasskey, BluetoothPairingPromptKind::EnterPasskey) => true,
        (
            BluetoothPairingPromptKind::DisplayPinCode { pin_code: x },
            BluetoothPairingPromptKind::DisplayPinCode { pin_code: y },
        ) => x@ == y@,
        (
            BluetoothPairingPromptKind::DisplayPasskey { passkey: x, entered: e },
            BluetoothPairingPromptKind::DisplayPasskey { passkey: y, entered: f },
        ) => x == y && e == f,
        (BluetoothPairingPromptKind::Authorize, BluetoothPairingPromptKind::Authorize) => true,
        _ => false,
    }
}

pub open spec fn same_prompt(a: Option<BluetoothPairingPrompt>, b: Option<BluetoothPairingPrompt>) -> bool {
    match (a, b) {
        (Some(x), Some(y)) => x.id == y.id && x.address@ == y.address@ && x.device_name@ == y.device_name@
            && same_prompt_kind(x.kind, y.kind),
        (None, None) => true,
        _ => false,
    }
}

pub open spec fn same_manager(a: BluetoothManagerSpec, b: BluetoothManagerSpec) -> bool {
    &&& a.available == b.available
    &&& a.powered == b.powered
    &&& a.discovering == b.discovering
    &&& a.connected_count == b.connected_count
    &&& a.devices@.map_values(|d: BluetoothDeviceControlSpec| device_view(d)) == b.devices@.map_values(
        |d: BluetoothDeviceControlSpec| device_view(d),
    )
    &&& same_prompt(a.prompt, b.prompt)
    &&& ov(a.error) == ov(b.error)
}

pub open spec fn same_audio(a: AudioControlSpec, b: AudioControlSpec) -> bool {
    &&& a.percent == b.percent
    &&& a.muted == b.muted
    &&& a.detail@ == b.detail@
    &&& a.outputs@.map_values(|o: AudioOutputControlSpec| output_view(o)) == b.outputs@.map_values(
        |o: AudioOutputControlSpec| output_view(o),
    )
}

pub open spec fn same_brightness(a: Option<BrightnessControlSpec>, b: Option<BrightnessControlSpec>) -> bool {
    match (a, b) {
        (Some(x), Some(y)) => x.device@ == y.device@ && x.percent == y.percent,
        (None, None) => true,
        _ => false,
    }
}

pub open spec fn same_keyboard(a: KeyboardControlSpec, b: KeyboardControlSpec) -> bool {
    &&& a.summary@ == b.summary@
    &&& a.current@ == b.current@
    &&& a.detail@ == b.detail@
    &&& a.layouts@.map_values(|l: KeyboardLayoutControlSpec| layout_view(l)) == b.layouts@.map_values(
        |l: KeyboardLayoutControlSpec| layout_view(l),
    )
}

pub open spec fn same_calendar(a: Option<CalendarControlSpec>, b: Option<CalendarControlSpec>) -> bool {
    match (a, b) {
        (Some(x), Some(y)) => x.title@ == y.title@ && ov(x.location) == ov(y.location),
        (None, None) => true,
        _ => false,
    }
}

/// An agenda event as plain values.
pub open spec fn event_view(e: CalendarAgendaEvent) -> (
    Seq<char>,
    Seq<char>,
    Option<Seq<char>>,
    Option<Seq<char>>,
    i64,
    i64,
    bool,
) {
    (e.id@, e.title@, ov(e.location), ov(e.calendar), e.start_epoch, e.end_epoch, e.all_day)
}

pub open spec fn same_agenda(a: Option<CalendarAgenda>, b: Option<CalendarAgenda>) -> bool {
    match (a, b) {
        (Some(x), Some(y)) => x.year == y.year && x.month == y.month && x.events@.map_values(
            |e: CalendarAgendaEvent| event_view(e),
        ) == y.events@.map_values(|e: CalendarAgendaEvent| event_view(e)),
        (None, None) => true,
        _ => false,
    }
}

pub open spec fn same_media(a: Option<MediaControlSpec>, b: Option<MediaControlSpec>) -> bool {
    match (a, b) {
        (Some(x), Some(y)) => x.player@ == y.player@ && x.title@ == y.title@ && x.artist@ == y.artist@ && x.playing
            == y.playing && ov(x.art_url) == ov(y.art_url),
        (None, None) => true,
        _ => false,
    }
}

/// Two control-center specs show the same thing.
pub open spec fn same_control_center(a: ControlCenterSpec, b: ControlCenterSpec) -> bool {
    &&& quick_view(a.network) == quick_view(b.network)
    &&& same_traffic(a.network_traffic, b.network_traffic)
    &&& quick_view(a.bluetooth) == quick_view(b.bluetooth)
    &&& same_manager(a.bluetooth_manager, b.bluetooth_manager)
    &&& same_audio(a.audio, b.audio)
    &&& quick_view(a.power) == quick_view(b.power)
    &&& same_brightness(a.brightness, b.brightness)
    &&& same_keyboard(a.keyboard, b.keyboard)
    &&& a.cpu_percent == b.cpu_percent
    &&& a.memory_percent == b.memory_percent
    &&& a.battery_present == b.battery_present
    &&& a.battery_percent == b.battery_percent
    &&& a.charging == b.charging
    &&& a.clock@ == b.clock@
    &&& a.clock_epoch == b.clock_epoch
    &&& same_calendar(a.calendar, b.calendar)
    &&& same_agenda(a.calendar_agenda, b.calendar_agenda)
    &&& ov(a.calendar_agenda_error) == ov(b.calendar_agenda_error)
    &&& a.timers@.map_values(|t: TimerControlSpec| timer_view(t)) == b.timers@.map_values(
        |t: TimerControlSpec| timer_view(t),
    )
    &&& same_media(a.media, b.media)
}

fn same_quick(a: &QuickControlSpec, b: &QuickControlSpec) -> (r: bool)
    ensures
        r == (quick_view(*a) == quick_view(*b)),
{
    a.icon_name == b.icon_name && a.label == b.label && a.detail == b.detail && a.enabled == b.enabled
        && a.available == b.available && a.toggle_available == b.toggle_available
}

fn same_traffic_exec(a: &NetworkTrafficSpec, b: &NetworkTrafficSpec) -> (r: bool)
    ensures
        r == same_traffic(*a, *b),
{
    same_opt_string(&a.interface, &b.interface) && a.download_bytes_per_second == b.download_bytes_per_second
        && a.upload_bytes_per_second == b.upload_bytes_per_second && same_u64s(
        &a.download_history,
        &b.download_history,
    ) && same_u64s(&a.upload_history, &b.upload_history)
}

fn same_device(a: &BluetoothDeviceControlSpec, b: &BluetoothDeviceControlSpec) -> (r: bool)
    ensures
        r == (device_view(*a) == device_view(*b)),
{
    a.address == b.address && a.name == b.name && a.icon_name == b.icon_name && a.detail == b.detail && a.paired
        == b.paired && a.connected == b.connected && a.operation == b.operation && same_opt_string(
        &a.error,
        &b.error,
    )
}

fn same_devices(a: &Vec<BluetoothDeviceControlSpec>, b: &Vec<BluetoothDeviceControlSpec>) -> (r: bool)
    ensures
        r == (a@.map_values(|d: BluetoothDeviceControlSpec| device_view(d)) == b@.map_values(
            |d: BluetoothDeviceControlSpec| device_view(d),
        )),
{
    if a.len() != b.len() {
        proof {
            lemma_mapped_differ(a@, b@, |d: BluetoothDeviceControlSpec| device_view(d), 0);
        }
        return false;
    }
    let mut i: usize = 0;
    while i < a.len()
        invariant
            i <= a@.len(),
            a@.len() == b@.len(),
            forall|k: int| 0 <= k < i ==> device_view(a@[k]) == device_view(b@[k]),
        decreases a@.len() - i,
    {
        if !same_device(&a[i], &b[i]) {
            proof {
                lemma_mapped_differ(a@, b@, |d: BluetoothDeviceControlSpec| device_view(d), i as int);
            }
            return false;
        }
        i = i + 1;
    }
    proof {
        lemma_mapped_agree(a@, b@, |d: BluetoothDeviceControlSpec| device_view(d));
    }
    true
}

fn same_prompt_exec(a: &Option<BluetoothPairingPrompt>, b: &Option<BluetoothPairingPrompt>) -> (r: bool)
    ensures
        r == same_prompt(*a, *b),
{
    match (a, b) {
        (Some(x), Some(y)) => {
            let kinds = match (&x.kind, &y.kind) {
                (
                    BluetoothPairingPromptKind::ConfirmPasskey { passkey: p },
                    BluetoothPairingPromptKind::ConfirmPasskey { passkey: q },
                ) => *p == *q,
                (BluetoothPairingPromptKind::EnterPinCode, BluetoothPairingPromptKind::EnterPinCode) => true,
                (BluetoothPairingPromptKind::EnterPasskey, BluetoothPairingPromptKind::EnterPasskey) => true,
                (
                    BluetoothPairingPromptKind::DisplayPinCode { pin_code: p },
                    BluetoothPairingPromptKind::DisplayPinCode { pin_code: q },
                ) => *p == *q,
                (
                    BluetoothPairingPromptKind::DisplayPasskey { passkey: p, entered: e },
                    BluetoothPairingPromptKind::DisplayPasskey { passkey: q, entered: f },
                ) => *p == *q && *e == *f,
                (BluetoothPairingPromptKind::Authorize, BluetoothPairingPromptKind::Authorize) => true,
                _ => false,
            };
            x.id == y.id && x.address == y.address && x.device_name == y.device_name && kinds
        },
        (None, None) => true,
        _ => false,
    }
}

fn same_manager_exec(a: &BluetoothManagerSpec, b: &BluetoothManagerSpec) -> (r: bool)
    ensures
        r == same_manager(*a, *b),
{
    a.available == b.available && a.powered == b.powered && a.discovering == b.discovering && a.connected_count
        == b.connected_count && same_devices(&a.devices, &b.devices) && same_prompt_exec(&a.prompt, &b.prompt)
        && same_opt_string(&a.error, &b.error)
}

fn same_outputs(a: &Vec<AudioOutputControlSpec>, b: &Vec<AudioOutputControlSpec>) -> (r: bool)
    ensures
        r == (a@.map_values(|o: AudioOutputControlSpec| output_view(o)) == b@.map_values(
            |o: AudioOutputControlSpec| output_view(o),
        )),
{
    if a.len() != b.len() {
        proof {
            lemma_mapped_differ(a@, b@, |o: AudioOutputControlSpec| output_view(o), 0);
        }
        return false;
    }
    let mut i: usize = 0;
    while i < a.len()
        invariant
            i <= a@.len(),
            a@.len() == b@.len(),
            forall|k: int| 0 <= k < i ==> output_view(a@[k]) == output_view(b@[k]),
        decreases a@.len() - i,
    {
        let (x, y) = (&a[i], &b[i]);
        if !(x.name == y.name && x.label == y.label && x.detail == y.detail && x.icon_name == y.icon_name
            && x.selected == y.selected) {
            proof {
                lemma_mapped_differ(a@, b@, |o: AudioOutputControlSpec| output_view(o), i as int);
            }
            return false;
        }
        i = i + 1;
    }
    proof {
        lemma_mapped_agree(a@, b@, |o: AudioOutputControlSpec| output_view(o));
    }
    true
}

fn same_audio_exec(a: &AudioControlSpec, b: &AudioControlSpec) -> (r: bool)
    ensures
        r == same_audio(*a, *b),
{
    a.percent == b.percent && a.muted == b.muted && a.detail == b.detail && same_outputs(&a.outputs, &b.outputs)
}

fn same_brightness_exec(a: &Option<BrightnessControlSpec>, b: &Option<BrightnessControlSpec>) -> (r: bool)
    ensures
        r == same_brightness(*a, *b),
{
    match (a, b) {
        (Some(x), Some(y)) => x.device == y.device && x.percent == y.percent,
        (None, None) => true,
        _ => false,
    }
}

fn same_layouts(a: &Vec<KeyboardLayoutControlSpec>, b: &Vec<KeyboardLayoutControlSpec>) -> (r: bool)
    ensures
        r == (a@.map_values(|l: KeyboardLayoutControlSpec| layout_view(l)) == b@.map_values(
            |l: KeyboardLayoutControlSpec| layout_view(l),
        )),
{
    if a.len() != b.len() {
        proof {
            lemma_mapped_differ(a@, b@, |l: KeyboardLayoutControlSpec| layout_view(l), 0);
        }
        return false;
    }
    let mut i: usize = 0;
    while i < a.len()
        invariant
            i <= a@.len(),
            a@.len() == b@.len(),
            forall|k: int| 0 <= k < i ==> layout_view(a@[k]) == layout_view(b@[k]),
        decreases a@.len() - i,
    {
        let (x, y) = (&a[i], &b[i]);
        if !(x.index == y.index && x.title == y.title && x.detail == y.detail && x.raw_name == y.raw_name
            && x.selected == y.selected) {
            proof {
                lemma_mapped_differ(a@, b@, |l: KeyboardLayoutControlSpec| layout_view(l), i as int);
            }
            return false;
        }
        i = i + 1;
    }
    proof {
        lemma_mapped_agree(a@, b@, |l: KeyboardLayoutControlSpec| layout_view(l));
    }
    true
}

fn same_keyboard_exec(a: &KeyboardControlSpec, b: &KeyboardControlSpec) -> (r: bool)
    ensures
        r == same_keyboard(*a, *b),
{
    a.summary == b.summary && a.current == b.current && a.detail == b.detail && same_layouts(&a.layouts, &b.layouts)
}

fn same_calendar_exec(a: &Option<CalendarControlSpec>, b: &Option<CalendarControlSpec>) -> (r: bool)
    ensures
        r == same_calendar(*a, *b),
{
    match (a, b) {
        (Some(x), Some(y)) => x.title == y.title && same_opt_string(&x.location, &y.location),
        (None, None) => true,
        _ => false,
    }
}

fn same_events(a: &Vec<CalendarAgendaEvent>, b: &Vec<CalendarAgendaEvent>) -> (r: bool)
    ensures
        r == (a@.map_values(|e: CalendarAgendaEvent| event_view(e)) == b@.map_values(
            |e: CalendarAgendaEvent| event_view(e),
        )),
{
    if a.len() != b.len() {
        proof {
            lemma_mapped_differ(a@, b@, |e: CalendarAgendaEvent| event_view(e), 0);
        }
        return false;
    }
    let mut i: usize = 0;
    while i < a.len()
        invariant
            i <= a@.len(),
            a@.len() == b@.len(),
            forall|k: int| 0 <= k < i ==> event_view(a@[k]) == event_view(b@[k]),
        decreases a@.len() - i,
    {
        let (x, y) = (&a[i], &b[i]);
        if !(x.id == y.id && x.title == y.title && same_opt_string(&x.location, &y.location) && same_opt_string(
            &x.calendar,
            &y.calendar,
        ) && x.start_epoch == y.start_epoch && x.end_epoch == y.end_epoch && x.all_day == y.all_day) {
            proof {
                lemma_mapped_differ(a@, b@, |e: CalendarAgendaEvent| event_view(e), i as int);
            }
            return false;
        }
        i = i + 1;
    }
    proof {
        lemma_mapped_agree(a@, b@, |e: CalendarAgendaEvent| event_view(e));
    }
    true
}

fn same_agenda_exec(a: &Option<CalendarAgenda>, b: &Option<CalendarAgenda>) -> (r: bool)
    ensures
        r == same_agenda(*a, *b),
{
    match (a, b) {
        (Some(x), Some(y)) => x.year == y.year && x.month == y.month && same_events(&x.events, &y.events),
        (None, None) => true,
        _ => false,
    }
}

fn same_timers(a: &Vec<TimerControlSpec>, b: &Vec<TimerControlSpec>) -> (r: bool)
    ensures
        r == (a@.map_values(|t: TimerControlSpec| timer_view(t)) == b@.map_values(|t: TimerControlSpec| timer_view(t))),
{
    if a.len() != b.len() {
        proof {
            lemma_mapped_differ(a@, b@, |t: TimerControlSpec| timer_view(t), 0);
        }
        return false;
    }
    let mut i: usize = 0;
    while i < a.len()
        invariant
            i <= a@.len(),
            a@.len() == b@.len(),
            forall|k: int| 0 <= k < i ==> timer_view(a@[k]) == timer_view(b@[k]),
        decreases a@.len() - i,
    {
        let (x, y) = (&a[i], &b[i]);
        if !(x.id == y.id && x.label == y.label && x.remaining_seconds == y.remaining_seconds && x.completed
            == y.completed && x.paused == y.paused) {
            proof {
                lemma_mapped_differ(a@, b@, |t: TimerControlSpec| timer_view(t), i as int);
            }
            return false;
        }
        i = i + 1;
    }
    proof {
        lemma_mapped_agree(a@, b@, |t: TimerControlSpec| timer_view(t));
    }
    true
}

fn same_media_exec(a: &Option<MediaControlSpec>, b: &Option<MediaControlSpec>) -> (r: bool)
    ensures
        r == same_media(*a, *b),
{
    match (a, b) {
        (Some(x), Some(y)) => x.player == y.player && x.title == y.title && x.artist == y.artist && x.playing
            == y.playing && same_opt_string(&x.art_url, &y.art_url),
        (None, None) => true,
        _ => false,
    }
}

/// Whether two control-center specs show the same thing.
pub fn same_control_center_spec(a: &ControlCenterSpec, b: &ControlCenterSpec) -> (r: bool)
    ensures
        r == same_control_center(*a, *b),
{
    same_quick(&a.network, &b.network) && same_traffic_exec(&a.network_traffic, &b.network_traffic) && same_quick(
        &a.bluetooth,
        &b.bluetooth,
    ) && same_manager_exec(&a.bluetooth_manager, &b.bluetooth_manager) && same_audio_exec(&a.audio, &b.audio)
        && same_quick(&a.power, &b.power) && same_brightness_exec(&a.brightness, &b.brightness)
        && same_keyboard_exec(&a.keyboard, &b.keyboard) && a.cpu_percent == b.cpu_percent && a.memory_percent
        == b.memory_percent && a.battery_present == b.battery_present && a.battery_percent == b.battery_percent
        && a.charging == b.charging && a.clock == b.clock && a.clock_epoch == b.clock_epoch && same_calendar_exec(
        &a.calendar,
        &b.calendar,
    ) && same_agenda_exec(&a.calendar_agenda, &b.calendar_agenda) && same_opt_string(
        &a.calendar_agenda_error,
        &b.calendar_agenda_error,
    ) && same_timers(&a.timers, &b.timers) && same_media_exec(&a.media, &b.media)
}

// ---------------------------------------------------------------------------
// The parts of a bar
// ---------------------------------------------------------------------------

pub open spec fn same_workspaces(a: Seq<WorkspaceButtonSpec>, b: Seq<WorkspaceButtonSpec>) -> bool {
    a.map_values(|w: WorkspaceButtonSpec| workspace_view(w)) == b.map_values(|w: WorkspaceButtonSpec| workspace_view(w))
}

pub open spec fn same_title(a: TitleSpec, b: TitleSpec) -> bool {
    &&& a.app@ == b.app@
    &&& a.text@ == b.text@
    &&& a.window_groups@.map_values(|g: WindowGroupSpec| group_view(g)) == b.window_groups@.map_values(
        |g: WindowGroupSpec| group_view(g),
    )
}

pub open spec fn same_card(a: ContextCard, b: ContextCard) -> bool {
    match (a, b) {
        (
            ContextCard::Battery { percent: p, charging: c, tier: t },
            ContextCard::Battery { percent: q, charging: d, tier: u },
        ) => p == q && c == d && t == u,
        (
            ContextCard::Calendar { id: i, title: n, location: l, start_epoch: s, tier: t },
            ContextCard::Calendar { id: j, title: m, location: k, start_epoch: r, tier: u },
        ) => i@ == j@ && n@ == m@ && ov(l) == ov(k) && s == r && t == u,
        (
            ContextCard::Timer { id: i, label: n, remaining_seconds: s, target_epoch: e, completed: c, tier: t },
            ContextCard::Timer { id: j, label: m, remaining_seconds: r, target_epoch: f, completed: d, tier: u },
        ) => i@ == j@ && n@ == m@ && s == r && e == f && c == d && t == u,
        (
            ContextCard::Activity { id: i, label: n, cwd: w, status: s, started_at: b0, finished_at: f0 },
            ContextCard::Activity { id: j, label: m, cwd: x, status: r, started_at: b1, finished_at: f1 },
        ) => i@ == j@ && n@ == m@ && w@ == x@ && s == r && b0 == b1 && f0 == f1,
        (
            ContextCard::Media { player: p, title: t, artist: r },
            ContextCard::Media { player: q, title: u, artist: s },
        ) => p@ == q@ && ov(t) == ov(u) && ov(r) == ov(s),
        (
            ContextCard::Urgent { window_title: t, workspace: w, output: o },
            ContextCard::Urgent { window_title: u, workspace: x, output: p },
        ) => ov(t) == ov(u) && ov(w) == ov(x) && o@ == p@,
        _ => false,
    }
}

pub open spec fn same_context(a: Option<ContextSpec>, b: Option<ContextSpec>) -> bool {
    match (a, b) {
        (Some(x), Some(y)) => same_card(x.card, y.card) && x.icon_name@ == y.icon_name@ && x.text@ == y.text@
            && x.tier == y.tier,
        (None, None) => true,
        _ => false,
    }
}

pub open spec fn same_warning(a: Option<WarningSpec>, b: Option<WarningSpec>) -> bool {
    match (a, b) {
        (Some(x), Some(y)) => x.text@ == y.text@ && x.tier == y.tier,
        (None, None) => true,
        _ => false,
    }
}

pub open spec fn same_system(a: Option<SystemCluster>, b: Option<SystemCluster>) -> bool {
    match (a, b) {
        (Some(x), Some(y)) => x.modules_view() == y.modules_view() && same_control_center(
            x.control_center_spec(),
            y.control_center_spec(),
        ),
        (None, None) => true,
        _ => false,
    }
}

/// Whether two rows of workspace buttons are the same.
pub fn same_workspace_buttons(a: &Vec<WorkspaceButtonSpec>, b: &Vec<WorkspaceButtonSpec>) -> (r: bool)
    ensures
        r == same_workspaces(a@, b@),
{
    if a.len() != b.len() {
        proof {
            lemma_mapped_differ(a@, b@, |w: WorkspaceButtonSpec| workspace_view(w), 0);
        }
        return false;
    }
    let mut i: usize = 0;
    while i < a.len()
        invariant
            i <= a@.len(),
            a@.len() == b@.len(),
            forall|k: int| 0 <= k < i ==> workspace_view(a@[k]) == workspace_view(b@[k]),
        decreases a@.len() - i,
    {
        let (x, y) = (&a[i], &b[i]);
        if !(x.id == y.id && x.label == y.label && x.active == y.active && x.urgent == y.urgent) {
            proof {
                lemma_mapped_differ(a@, b@, |w: WorkspaceButtonSpec| workspace_view(w), i as int);
            }
            return false;
        }
        i = i + 1;
    }
    proof {
        lemma_mapped_agree(a@, b@, |w: WorkspaceButtonSpec| workspace_view(w));
    }
    true
}

fn same_items(a: &Vec<WindowMenuItemSpec>, b: &Vec<WindowMenuItemSpec>) -> (r: bool)
    ensures
        r == (a@.map_values(|i: WindowMenuItemSpec| item_view(i)) == b@.map_values(|i: WindowMenuItemSpec| item_view(i))),
{
    if a.len() != b.len() {
        proof {
            lemma_mapped_differ(a@, b@, |i: WindowMenuItemSpec| item_view(i), 0);
        }
        return false;
    }
    let mut i: usize = 0;
    while i < a.len()
        invariant
            i <= a@.len(),
            a@.len() == b@.len(),
            forall|k: int| 0 <= k < i ==> item_view(a@[k]) == item_view(b@[k]),
        decreases a@.len() - i,
    {
        let (x, y) = (&a[i], &b[i]);
        let apps = same_opt_string(&x.app_id, &y.app_id);
        proof {
            assert(ov(x.app_id) == opt_chars(x.app_id));
            assert(ov(y.app_id) == opt_chars(y.app_id));
        }
        if !(x.output_name == y.output_name && x.window_id == y.window_id && x.title == y.title && apps && x.focused
            == y.focused) {
            proof {
                lemma_mapped_differ(a@, b@, |i: WindowMenuItemSpec| item_view(i), i as int);
            }
            return false;
        }
        i = i + 1;
    }
    proof {
        lemma_mapped_agree(a@, b@, |i: WindowMenuItemSpec| item_view(i));
    }
    true
}

fn same_groups(a: &Vec<WindowGroupSpec>, b: &Vec<WindowGroupSpec>) -> (r: bool)
    ensures
        r == (a@.map_values(|g: WindowGroupSpec| group_view(g)) == b@.map_values(|g: WindowGroupSpec| group_view(g))),
{
    if a.len() != b.len() {
        proof {
            lemma_mapped_differ(a@, b@, |g: WindowGroupSpec| group_view(g), 0);
        }
        return false;
    }
    let mut i: usize = 0;
    while i < a.len()
        invariant
            i <= a@.len(),
            a@.len() == b@.len(),
            forall|k: int| 0 <= k < i ==> group_view(a@[k]) == group_view(b@[k]),
        decreases a@.len() - i,
    {
        let (x, y) = (&a[i], &b[i]);
        let ids = same_opt_string(&x.workspace_id, &y.workspace_id);
        proof {
            assert(ov(x.workspace_id) == opt_chars(x.workspace_id));
            assert(ov(y.workspace_id) == opt_chars(y.workspace_id));
        }
        if !(x.output_name == y.output_name && ids && x.workspace_label == y.workspace_label && same_items(
            &x.windows,
            &y.windows,
        )) {
            proof {
                lemma_mapped_differ(a@, b@, |g: WindowGroupSpec| group_view(g), i as int);
            }
            return false;
        }
        i = i + 1;
    }
    proof {
        lemma_mapped_agree(a@, b@, |g: WindowGroupSpec| group_view(g));
    }
    true
}

/// Whether two title parts are the same.
pub fn same_title_spec(a: &TitleSpec, b: &TitleSpec) -> (r: bool)
    ensures
        r == same_title(*a, *b),
{
    a.app == b.app && a.text == b.text && same_groups(&a.window_groups, &b.window_groups)
}

fn same_card_exec(a: &ContextCard, b: &ContextCard) -> (r: bool)
    ensures
        r == same_card(*a, *b),
{
    match (a, b) {
        (
            ContextCard::Battery { percent: p, charging: c, tier: t },
            ContextCard::Battery { percent: q, charging: d, tier: u },
        ) => *p == *q && *c == *d && *t == *u,
        (
            ContextCard::Calendar { id: i, title: n, location: l, start_epoch: s, tier: t },
            ContextCard::Calendar { id: j, title: m, location: k, start_epoch: r, tier: u },
        ) => *i == *j && *n == *m && same_opt_string(l, k) && *s == *r && *t == *u,
        (
            ContextCard::Timer { id: i, label: n, remaining_seconds: s, target_epoch: e, completed: c, tier: t },
            ContextCard::Timer { id: j, label: m, remaining_seconds: r, target_epoch: f, completed: d, tier: u },
        ) => *i == *j && *n == *m && *s == *r && *e == *f && *c == *d && *t == *u,
        (
            ContextCard::Activity { id: i, label: n, cwd: w, status: s, started_at: b0, finished_at: f0 },
            ContextCard::Activity { id: j, label: m, cwd: x, status: r, started_at: b1, finished_at: f1 },
        ) => *i == *j && *n == *m && *w == *x && *s == *r && *b0 == *b1 && *f0 == *f1,
        (
            ContextCard::Media { player: p, title: t, artist: r },
            ContextCard::Media { player: q, title: u, artist: s },
        ) => *p == *q && same_opt_string(t, u) && same_opt_string(r, s),
        (
            ContextCard::Urgent { window_title: t, workspace: w, output: o },
            ContextCard::Urgent { window_title: u, workspace: x, output: p },
        ) => same_opt_string(t, u) && same_opt_string(w, x) && *o == *p,
        _ => false,
    }
}

/// Whether two context parts are the same.
pub fn same_context_spec(a: &Option<ContextSpec>, b: &Option<ContextSpec>) -> (r: bool)
    ensures
        r == same_context(*a, *b),
{
    match (a, b) {
        (Some(x), Some(y)) => same_card_exec(&x.card, &y.card) && x.icon_name == y.icon_name && x.text == y.text
            && x.tier == y.tier,
        (None, None) => true,
        _ => false,
    }
}

/// Whether two warning parts are the same.
pub fn same_warning_spec(a: &Option<WarningSpec>, b: &Option<WarningSpec>) -> (r: bool)
    ensures
        r == same_warning(*a, *b),
{
    match (a, b) {
        (Some(x), Some(y)) => x.text == y.text && x.tier == y.tier,
        (None, None) => true,
        _ => false,
    }
}

fn same_buttons(a: &[SystemModuleSpec], b: &[SystemModuleSpec]) -> (r: bool)
    ensures
        r == (a@.map_values(|m: SystemModuleSpec| button_view(m.button)) == b@.map_values(
            |m: SystemModuleSpec| button_view(m.button),
        )),
{
    if a.len() != b.len() {
        proof {
            lemma_mapped_differ(a@, b@, |m: SystemModuleSpec| button_view(m.button), 0);
        }
        return false;
    }
    let mut i: usize = 0;
    while i < a.len()
        invariant
            i <= a@.len(),
            a@.len() == b@.len(),
            forall|k: int| 0 <= k < i ==> button_view(a@[k].button) == button_view(b@[k].button),
        decreases a@.len() - i,
    {
        let (x, y) = (&a[i].button, &b[i].button);
        let labels = same_opt_string(&x.label, &y.label);
        if !(x.id == y.id && x.icon_name == y.icon_name && labels && x.tooltip == y.tooltip && same_strings(
            &x.classes,
            &y.classes,
        )) {
            proof {
                lemma_mapped_differ(a@, b@, |m: SystemModuleSpec| button_view(m.button), i as int);
            }
            return false;
        }
        i = i + 1;
    }
    proof {
        lemma_mapped_agree(a@, b@, |m: SystemModuleSpec| button_view(m.button));
    }
    true
}

/// Whether two system parts are the same.
pub fn same_system_spec(a: &Option<SystemCluster>, b: &Option<SystemCluster>) -> (r: bool)
    ensures
        r == same_system(*a, *b),
{
    match (a, b) {
        (Some(x), Some(y)) => same_buttons(x.modules(), y.modules()) && same_control_center_spec(
            x.control_center(),
            y.control_center(),
        ),
        (None, None) => true,
        _ => false,
    }
}

/// Nothing of a bar differs from itself: compared with an identical spec,
/// no part needs drawing again.
pub proof fn unchanged_bar_has_no_changed_part(s: SurfaceSpec)
    ensures
        same_workspaces(s.workspaces@, s.workspaces@),
        same_title(s.title, s.title),
        same_context(s.context, s.context),
        same_warning(s.warning, s.warning),
        same_system(s.system, s.system),
{
    match s.context {
        Some(c) => {
            assert(same_card(c.card, c.card));
        },
        None => {},
    }
    match s.system {
        Some(x) => {
            let c = x.control_center_spec();
            assert(same_prompt(c.bluetooth_manager.prompt, c.bluetooth_manager.prompt)) by {
                match c.bluetooth_manager.prompt {
                    Some(p) => {
                        assert(same_prompt_kind(p.kind, p.kind));
                    },
                    None => {},
                }
            }
            assert(same_control_center(c, c));
        },
        None => {},
    }
}

} // verus!

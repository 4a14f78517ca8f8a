//! The system modules at the right of the primary bar: keyboard, resources,
//! network, audio, power and clock buttons.
use vstd::prelude::*;

use crate::state::{
    health_of, AppConfig, AudioState, BarSnapshot, ConnectivityState, MediaState, PlaybackStatus,
    PowerProfile, SourceHealth, SourceId,
};
use crate::text::{
    chars_of, contains_seq, dec, find_seq, is_ascii_alnum, is_ascii_alnum_char, lower_seq, lower_vec,
    owned, push_dec, push_str, upper, upper_char,
};

use crate::control_spec::{build_control_center_spec, shows, ControlCenterSpec};

verus! {

#[derive(Clone, Copy, Debug, PartialEq, Eq, PartialOrd, Ord, Hash, Structural)]
pub enum SystemModuleId {
    Keyboard,
    Resources,
    Network,
    Audio,
    Power,
    Clock,
}

#[derive(Clone, Debug, PartialEq, Eq)]
pub struct SystemButtonSpec {
    pub id: SystemModuleId,
    pub icon_name: String,
    pub label: Option<String>,
    pub tooltip: String,
    pub classes: Vec<String>,
}

#[derive(Clone, Debug, PartialEq, Eq)]
pub struct SystemModuleSpec {
    pub button: SystemButtonSpec,
}

/// The system modules, in bar order.
#[derive(Clone, Debug, PartialEq, Eq)]
pub struct SystemCluster {
    modules: Vec<SystemModuleSpec>,
    control_center: ControlCenterSpec,
}

/// A button as plain values: id, icon, label, tooltip, CSS classes.
pub type ButtonView = (SystemModuleId, Seq<char>, Option<Seq<char>>, Seq<char>, Seq<Seq<char>>);

pub open spec fn button_view(b: SystemButtonSpec) -> ButtonView {
    (
        b.id,
        b.icon_name@,
        match b.label { Some(l) => Some(l@), None => None },
        b.tooltip@,
        b.classes@.map_values(|c: String| c@),
    )
}

// ---------------------------------------------------------------------------
// Specification
// ---------------------------------------------------------------------------

pub open spec fn module_name(id: SystemModuleId) -> Seq<char> {
    match id {
        SystemModuleId::Keyboard => "keyboard"@,
        SystemModuleId::Resources => "resources"@,
        SystemModuleId::Network => "network"@,
        SystemModuleId::Audio => "audio"@,
        SystemModuleId::Power => "power"@,
        SystemModuleId::Clock => "clock"@,
    }
}

pub open spec fn base_classes_spec(id: SystemModuleId) -> Seq<Seq<char>> {
    seq!["system-module"@, module_name(id)]
}

/// The CSS class that a source health adds: `stale` or `disconnected`.
pub open spec fn health_classes(classes: Seq<Seq<char>>, health: Option<SourceHealth>) -> Seq<Seq<char>> {
    match health {
        Some(SourceHealth::Stale { .. }) => classes.push("stale"@),
        Some(SourceHealth::Disconnected { .. }) => classes.push("disconnected"@),
        _ => classes,
    }
}

/// A tooltip with a line about stale or missing data appended.
pub open spec fn health_note(base: Seq<char>, health: Option<SourceHealth>) -> Seq<char> {
    match health {
        Some(SourceHealth::Stale { .. }) => base + "\nStale"@,
        Some(SourceHealth::Disconnected { message }) => base + "\nDependency: "@ + message@,
        _ => base,
    }
}

pub open spec fn percent_text(value: Option<u8>) -> Seq<char> {
    match value {
        Some(p) => dec(p as nat) + "%"@,
        None => "unavailable"@,
    }
}

/// The health of the first of `ids` whose source is disconnected.
pub open spec fn first_disconnected(healths: Seq<(SourceId, SourceHealth)>, ids: Seq<SourceId>) -> Option<SourceHealth>
    decreases ids.len(),
{
    if ids.len() == 0 {
        None
    } else {
        match health_of(healths, ids[0]) {
            Some(SourceHealth::Disconnected { message }) => Some(SourceHealth::Disconnected { message }),
            _ => first_disconnected(healths, ids.drop_first()),
        }
    }
}

/// The health of the first of `ids` whose source is stale.
pub open spec fn first_stale(healths: Seq<(SourceId, SourceHealth)>, ids: Seq<SourceId>) -> Option<SourceHealth>
    decreases ids.len(),
{
    if ids.len() == 0 {
        None
    } else {
        match health_of(healths, ids[0]) {
            Some(SourceHealth::Stale { since_epoch }) => Some(SourceHealth::Stale { since_epoch }),
            _ => first_stale(healths, ids.drop_first()),
        }
    }
}

/// The first of `ids` whose source is disconnected, else the first that is
/// stale.
pub open spec fn worst_health(healths: Seq<(SourceId, SourceHealth)>, ids: Seq<SourceId>) -> Option<SourceHealth> {
    match first_disconnected(healths, ids) {
        Some(h) => Some(h),
        None => first_stale(healths, ids),
    }
}

/// The first maximal run of ASCII letters and digits in `s`.
pub open spec fn first_alnum_run(s: Seq<char>) -> Seq<char>
    decreases s.len(),
{
    if s.len() == 0 {
        Seq::empty()
    } else if !is_ascii_alnum(s[0]) {
        first_alnum_run(s.drop_first())
    } else {
        leading_alnum(s)
    }
}

/// The longest prefix of `s` made of ASCII letters and digits.
pub open spec fn leading_alnum(s: Seq<char>) -> Seq<char>
    decreases s.len(),
{
    if s.len() > 0 && is_ascii_alnum(s[0]) {
        seq![s[0]] + leading_alnum(s.drop_first())
    } else {
        Seq::empty()
    }
}

/// A short keyboard label: `DV` for Dvorak, `US` when "us" occurs, else the
/// first two characters of the first alphanumeric word upper-cased, else `KB`.
pub open spec fn short_layout_spec(layout: Seq<char>) -> Seq<char> {
    let lower = lower_seq(layout);
    if contains_seq(lower, "dvorak"@) {
        "DV"@
    } else if contains_seq(lower, "us"@) {
        "US"@
    } else {
        let word = first_alnum_run(layout);
        if word.len() == 0 {
            "KB"@
        } else {
            word.take(if word.len() < 2 { word.len() as int } else { 2 }).map_values(|c: char| upper(c))
        }
    }
}

pub open spec fn resource_severity_spec(cpu: Option<u8>, memory: Option<u8>) -> Option<Seq<char>> {
    let pressure: Option<int> = match (cpu, memory) {
        (Some(c), Some(m)) => Some(if c >= m { c as int } else { m as int }),
        (Some(c), None) => Some(c as int),
        (None, Some(m)) => Some(m as int),
        (None, None) => None,
    };
    match pressure {
        Some(p) => if p >= 90 { Some("critical"@) } else if p >= 75 { Some("warning"@) } else { None },
        None => None,
    }
}

/// The resources module's severity follows the higher of the known
/// readings, whichever of CPU and memory it is: critical when a known
/// reading is at least 90, a warning when one is at least 75 and none
/// reaches 90, nothing otherwise (and nothing with no readings).
pub proof fn resource_severity_follows_the_higher_reading(cpu: Option<u8>, memory: Option<u8>)
    ensures
        resource_severity_spec(cpu, memory) == resource_severity_spec(memory, cpu),
        (resource_severity_spec(cpu, memory) == Some("critical"@)) <==> (
            (cpu matches Some(c) && c >= 90) || (memory matches Some(m) && m >= 90)),
        (resource_severity_spec(cpu, memory) == Some("warning"@)) <==> (
            !((cpu matches Some(c) && c >= 90) || (memory matches Some(m) && m >= 90))
            && ((cpu matches Some(c) && c >= 75) || (memory matches Some(m) && m >= 75))),
        (resource_severity_spec(cpu, memory) is None) <==> (
            !((cpu matches Some(c) && c >= 75) || (memory matches Some(m) && m >= 75))),
{
    reveal_strlit("critical");
    reveal_strlit("warning");
    assert("critical"@ != "warning"@) by {
        assert("critical"@.len() != "warning"@.len());
    }
}

pub open spec fn audio_icon_spec(audio: AudioState, bluetooth_powered: bool) -> Seq<char> {
    if !bluetooth_powered {
        "bluetooth-disabled-symbolic"@
    } else if audio.muted {
        "audio-volume-muted-symbolic"@
    } else {
        let v: int = match audio.volume_percent { Some(v) => v as int, None => 0 };
        if v == 0 {
            "audio-volume-muted-symbolic"@
        } else if v <= 33 {
            "audio-volume-low-symbolic"@
        } else if v <= 66 {
            "audio-volume-medium-symbolic"@
        } else {
            "audio-volume-high-symbolic"@
        }
    }
}

pub open spec fn power_icon_spec(percent: Option<u8>, charging: bool) -> Seq<char> {
    let p: int = match percent { Some(p) => p as int, None => 100 };
    if charging {
        "battery-level-100-charging-symbolic"@
    } else if p <= 10 {
        "battery-level-10-symbolic"@
    } else if p <= 30 {
        "battery-level-30-symbolic"@
    } else if p <= 60 {
        "battery-level-50-symbolic"@
    } else if p <= 80 {
        "battery-level-80-symbolic"@
    } else {
        "battery-level-100-symbolic"@
    }
}

pub open spec fn profile_label_spec(profile: PowerProfile) -> Seq<char> {
    match profile {
        PowerProfile::Performance => "Performance"@,
        PowerProfile::Balanced => "Balanced"@,
        PowerProfile::PowerSaver => "Power Saver"@,
    }
}

pub open spec fn profile_icon_spec(profile: PowerProfile) -> Seq<char> {
    match profile {
        PowerProfile::Performance => "power-profile-performance-symbolic"@,
        PowerProfile::Balanced => "power-profile-balanced-symbolic"@,
        PowerProfile::PowerSaver => "power-profile-power-saver-symbolic"@,
    }
}

pub open spec fn network_tooltip_spec(snapshot: BarSnapshot) -> Seq<char> {
    match snapshot.system.network.connectivity {
        ConnectivityState::Connected => match snapshot.system.network.label {
            Some(l) => "Network: "@ + l@,
            None => "Network connected"@,
        },
        ConnectivityState::Connecting => "Network connecting"@,
        ConnectivityState::Disconnected => "Network disconnected"@,
        ConnectivityState::Unknown => "Network status unavailable"@,
    }
}

pub open spec fn playback_word(status: PlaybackStatus) -> Seq<char> {
    match status {
        PlaybackStatus::Playing => "Playing"@,
        PlaybackStatus::Paused => "Paused"@,
        PlaybackStatus::Stopped => "Stopped"@,
    }
}

pub open spec fn media_summary_spec(media: MediaState) -> Seq<char> {
    let s = playback_word(media.status);
    match (media.title, media.artist) {
        (Some(t), Some(a)) => s + ": "@ + t@ + " - "@ + a@,
        (Some(t), None) => s + ": "@ + t@,
        (None, Some(a)) => s + ": "@ + a@,
        (None, None) => s + ": "@ + media.player@,
    }
}

/// The lines of the audio tooltip: volume, mute, Bluetooth, media.
pub open spec fn audio_tooltip_lines(snapshot: BarSnapshot) -> Seq<Seq<char>> {
    let sys = snapshot.system;
    let l0 = seq!["Volume "@ + percent_text(sys.audio.volume_percent)];
    let l1 = if sys.audio.muted { l0.push("Muted"@) } else { l0 };
    let l2 = if sys.bluetooth.powered {
        l1.push(match sys.bluetooth.connected_device {
            Some(d) => "Bluetooth: "@ + d@,
            None => "Bluetooth on"@,
        })
    } else if sys.bluetooth.available {
        l1.push("Bluetooth off"@)
    } else {
        l1
    };
    match sys.media {
        Some(m) => l2.push(media_summary_spec(m)),
        None => l2,
    }
}

pub open spec fn power_tooltip_spec(snapshot: BarSnapshot) -> Seq<char> {
    let power = snapshot.system.power;
    if !power.battery_present {
        "Power profile: "@ + profile_label_spec(power.profile)
    } else {
        let battery = match power.battery_percent {
            Some(p) => if power.charging {
                "Battery "@ + dec(p as nat) + "% (charging)"@
            } else {
                "Battery "@ + dec(p as nat) + "%"@
            },
            None => "Battery unavailable"@,
        };
        battery + "\nProfile: "@ + profile_label_spec(power.profile)
    }
}

pub open spec fn battery_severity_spec(snapshot: BarSnapshot, config: AppConfig) -> Option<Seq<char>> {
    match snapshot.system.power.battery_percent {
        Some(p) => if p <= config.thresholds.battery_critical_percent {
            Some("critical"@)
        } else if p <= config.thresholds.battery_low_percent {
            Some("warning"@)
        } else {
            None
        },
        None => None,
    }
}

pub open spec fn keyboard_button_spec(snapshot: BarSnapshot) -> ButtonView {
    let layout = match snapshot.system.keyboard_layout { Some(l) => l@, None => "Unknown layout"@ };
    let health = health_of(snapshot.system.source_health@, SourceId::Compositor);
    (
        SystemModuleId::Keyboard,
        "input-keyboard-symbolic"@,
        Some(short_layout_spec(layout)),
        health_note("Keyboard layout: "@ + layout, health),
        health_classes(base_classes_spec(SystemModuleId::Keyboard), health),
    )
}

pub open spec fn resources_button_spec(snapshot: BarSnapshot) -> ButtonView {
    let cpu = snapshot.system.resources.cpu_percent;
    let memory = snapshot.system.resources.memory_percent;
    let health = health_of(snapshot.system.source_health@, SourceId::Resources);
    let base = base_classes_spec(SystemModuleId::Resources);
    let with_severity = match resource_severity_spec(cpu, memory) {
        Some(s) => base.push(s),
        None => base,
    };
    let label = match (cpu, memory) {
        (Some(c), Some(m)) => Some(dec(c as nat) + "/"@ + dec(m as nat)),
        (Some(c), None) => Some(dec(c as nat) + "/--"@),
        (None, Some(m)) => Some("--/"@ + dec(m as nat)),
        (None, None) => None,
    };
    (
        SystemModuleId::Resources,
        "utilities-system-monitor-symbolic"@,
        label,
        health_note("CPU "@ + percent_text(cpu) + "\nMemory "@ + percent_text(memory), health),
        health_classes(with_severity, health),
    )
}

pub open spec fn network_button_spec(snapshot: BarSnapshot) -> ButtonView {
    let health = health_of(snapshot.system.source_health@, SourceId::Network);
    (
        SystemModuleId::Network,
        match snapshot.system.network.icon_hint { Some(i) => i@, None => "network-idle-symbolic"@ },
        None,
        health_note(network_tooltip_spec(snapshot), health),
        health_classes(base_classes_spec(SystemModuleId::Network), health),
    )
}

pub open spec fn audio_button_spec(snapshot: BarSnapshot) -> ButtonView {
    let bt = snapshot.system.bluetooth;
    let base = base_classes_spec(SystemModuleId::Audio);
    let classes = if bt.available && !bt.powered { base.push("inactive"@) } else { base };
    let health = if bt.available {
        worst_health(snapshot.system.source_health@, seq![SourceId::Audio, SourceId::Bluetooth])
    } else {
        health_of(snapshot.system.source_health@, SourceId::Audio)
    };
    (
        SystemModuleId::Audio,
        audio_icon_spec(snapshot.system.audio, bt.powered),
        None,
        health_note(crate::text::join(audio_tooltip_lines(snapshot), "\n"@), health),
        health_classes(classes, health),
    )
}

pub open spec fn power_button_spec(snapshot: BarSnapshot, config: AppConfig) -> ButtonView {
    let power = snapshot.system.power;
    let health = health_of(snapshot.system.source_health@, SourceId::Power);
    let base = base_classes_spec(SystemModuleId::Power);
    let classes = if power.battery_present {
        if power.charging {
            base.push("charging"@)
        } else {
            match battery_severity_spec(snapshot, config) {
                Some(s) => base.push(s),
                None => base,
            }
        }
    } else {
        base
    };
    let icon = if power.battery_present {
        power_icon_spec(power.battery_percent, power.charging)
    } else {
        profile_icon_spec(power.profile)
    };
    let label = if power.battery_present {
        match power.battery_percent { Some(p) => Some(dec(p as nat) + "%"@), None => None }
    } else {
        None
    };
    (SystemModuleId::Power, icon, label, health_note(power_tooltip_spec(snapshot), health), health_classes(classes, health))
}

pub open spec fn clock_button_spec(snapshot: BarSnapshot) -> ButtonView {
    let health = worst_health(snapshot.system.source_health@, seq![SourceId::Clock, SourceId::Calendar, SourceId::Timers]);
    (
        SystemModuleId::Clock,
        "preferences-system-time-symbolic"@,
        Some(snapshot.system.clock.label@),
        health_note("Clock: "@ + snapshot.system.clock.label@, health),
        health_classes(base_classes_spec(SystemModuleId::Clock), health),
    )
}

pub open spec fn button_spec(id: SystemModuleId, snapshot: BarSnapshot, config: AppConfig) -> ButtonView {
    match id {
        SystemModuleId::Keyboard => keyboard_button_spec(snapshot),
        SystemModuleId::Resources => resources_button_spec(snapshot),
        SystemModuleId::Network => network_button_spec(snapshot),
        SystemModuleId::Audio => audio_button_spec(snapshot),
        SystemModuleId::Power => power_button_spec(snapshot, config),
        SystemModuleId::Clock => clock_button_spec(snapshot),
    }
}

pub open spec fn module_order() -> Seq<SystemModuleId> {
    seq![
        SystemModuleId::Keyboard,
        SystemModuleId::Resources,
        SystemModuleId::Network,
        SystemModuleId::Audio,
        SystemModuleId::Power,
        SystemModuleId::Clock,
    ]
}

// ---------------------------------------------------------------------------
// Operations
// ---------------------------------------------------------------------------

impl SystemModuleId {
    /// The module's name, also its CSS class.
    pub fn as_str(self) -> (r: &'static str)
        ensures
            r@ == module_name(self),
    {
        match self {
            SystemModuleId::Keyboard => "keyboard",
            SystemModuleId::Resources => "resources",
            SystemModuleId::Network => "network",
            SystemModuleId::Audio => "audio",
            SystemModuleId::Power => "power",
            SystemModuleId::Clock => "clock",
        }
    }
}

pub open spec fn strings_view(v: Seq<String>) -> Seq<Seq<char>> {
    v.map_values(|c: String| c@)
}

fn push_class(classes: &mut Vec<String>, class: &str)
    ensures
        strings_view(final(classes)@) == strings_view(old(classes)@).push(class@),
{
    classes.push(owned(class));
    assert(strings_view(classes@) =~= strings_view(old(classes)@).push(class@));
}

fn base_classes(id: SystemModuleId) -> (r: Vec<String>)
    ensures
        strings_view(r@) == base_classes_spec(id),
{
    let mut r: Vec<String> = Vec::new();
    push_class(&mut r, "system-module");
    push_class(&mut r, id.as_str());
    assert(strings_view(r@) =~= base_classes_spec(id));
    r
}

fn apply_health(classes: &mut Vec<String>, health: Option<&SourceHealth>)
    ensures
        strings_view(final(classes)@) == health_classes(strings_view(old(classes)@), match health {
            Some(h) => Some(*h),
            None => None::<SourceHealth>,
        }),
{
    match health {
        Some(SourceHealth::Stale { .. }) => push_class(classes, "stale"),
        Some(SourceHealth::Disconnected { .. }) => push_class(classes, "disconnected"),
        _ => {},
    }
}

fn with_health_note(base: String, health: Option<&SourceHealth>) -> (r: String)
    ensures
        r@ == health_note(base@, match health { Some(h) => Some(*h), None => None::<SourceHealth> }),
{
    let mut r = base;
    match health {
        Some(SourceHealth::Stale { .. }) => push_str(&mut r, "\nStale"),
        Some(SourceHealth::Disconnected { message }) => {
            push_str(&mut r, "\nDependency: ");
            push_str(&mut r, message.as_str());
        },
        _ => {},
    }
    r
}

fn percent_or_unavailable(value: Option<u8>) -> (r: String)
    ensures
        r@ == percent_text(value),
{
    match value {
        Some(p) => {
            let mut r = String::new();
            push_dec(&mut r, p as u64);
            push_str(&mut r, "%");
            assert(r@ =~= percent_text(value));
            r
        },
        None => owned("unavailable"),
    }
}

fn module_health<'a>(snapshot: &'a BarSnapshot, ids: &[SourceId]) -> (r: Option<&'a SourceHealth>)
    ensures
        match r {
            Some(h) => worst_health(snapshot.system.source_health@, ids@) == Some(*h),
            None => worst_health(snapshot.system.source_health@, ids@) is None,
        },
{
    let ghost healths = snapshot.system.source_health@;
    assert(ids@.skip(0) =~= ids@);
    let mut i: usize = 0;
    while i < ids.len()
        invariant
            i <= ids@.len(),
            healths == snapshot.system.source_health@,
            first_disconnected(healths, ids@) == first_disconnected(healths, ids@.skip(i as int)),
        decreases ids@.len() - i,
    {
        assert(ids@.skip(i as int).drop_first() =~= ids@.skip(i + 1));
        let h = snapshot.system.health(ids[i]);
        if let Some(SourceHealth::Disconnected { .. }) = h {
            return h;
        }
        i = i + 1;
    }
    assert(ids@.skip(i as int).len() == 0);
    let mut k: usize = 0;
    assert(ids@.skip(0) =~= ids@);
    while k < ids.len()
        invariant
            k <= ids@.len(),
            healths == snapshot.system.source_health@,
            first_disconnected(healths, ids@) is None,
            first_stale(healths, ids@) == first_stale(healths, ids@.skip(k as int)),
        decreases ids@.len() - k,
    {
        assert(ids@.skip(k as int).drop_first() =~= ids@.skip(k + 1));
        let h = snapshot.system.health(ids[k]);
        if let Some(SourceHealth::Stale { .. }) = h {
            return h;
        }
        k = k + 1;
    }
    assert(ids@.skip(k as int).len() == 0);
    None
}

fn leading_alnum_len(v: &Vec<char>, start: usize) -> (end: usize)
    requires
        start <= v.len(),
    ensures
        start <= end <= v.len(),
        v@.subrange(start as int, end as int) == leading_alnum(v@.skip(start as int)),
    decreases v.len() - start,
{
    if start < v.len() && is_ascii_alnum_char(v[start]) {
        let end = leading_alnum_len(v, start + 1);
        assert(v@.skip(start as int).drop_first() =~= v@.skip(start + 1));
        assert(v@.subrange(start as int, end as int) =~= seq![v@[start as int]] + v@.subrange(start + 1, end as int));
        end
    } else {
        start
    }
}

fn short_layout_label(layout: &str) -> (r: String)
    ensures
        r@ == short_layout_spec(layout@),
{
    let v = chars_of(layout);
    let lower = lower_vec(&v);
    if find_seq(&lower, &chars_of("dvorak")).is_some() {
        return owned("DV");
    }
    if find_seq(&lower, &chars_of("us")).is_some() {
        return owned("US");
    }
    let mut i: usize = 0;
    assert(v@.skip(0) =~= v@);
    while i < v.len() && !is_ascii_alnum_char(v[i])
        invariant
            i <= v.len(),
            first_alnum_run(v@) == first_alnum_run(v@.skip(i as int)),
        decreases v.len() - i,
    {
        assert(v@.skip(i as int).drop_first() =~= v@.skip(i + 1));
        i = i + 1;
    }
    let end = leading_alnum_len(&v, i);
    proof {
        if i == v.len() {
            assert(v@.skip(i as int).len() == 0);
        }
    }
    if end == i {
        return owned("KB");
    }
    let take = if end - i < 2 { end - i } else { 2 };
    let mut r = String::new();
    let mut k: usize = 0;
    while k < take
        invariant
            k <= take <= end - i,
            end <= v.len(),
            r@ == v@.subrange(i as int, i + k).map_values(|c: char| upper(c)),
        decreases take - k,
    {
        crate::text::push_char(&mut r, upper_char(v[i + k]));
        k = k + 1;
        assert(r@ =~= v@.subrange(i as int, i + k).map_values(|c: char| upper(c)));
    }
    assert(v@.subrange(i as int, end as int).take(take as int) =~= v@.subrange(i as int, i + take));
    r
}

fn resource_severity(cpu: Option<u8>, memory: Option<u8>) -> (r: Option<&'static str>)
    ensures
        match r { Some(s) => resource_severity_spec(cpu, memory) == Some(s@), None => resource_severity_spec(cpu, memory) is None },
{
    let pressure: Option<u8> = match (cpu, memory) {
        (Some(c), Some(m)) => Some(if c >= m { c } else { m }),
        (Some(c), None) => Some(c),
        (None, Some(m)) => Some(m),
        (None, None) => None,
    };
    match pressure {
        Some(p) => if p >= 90 { Some("critical") } else if p >= 75 { Some("warning") } else { None },
        None => None,
    }
}

fn audio_icon(audio: &AudioState, bluetooth_powered: bool) -> (r: &'static str)
    ensures
        r@ == audio_icon_spec(*audio, bluetooth_powered),
{
    if !bluetooth_powered {
        "bluetooth-disabled-symbolic"
    } else if audio.muted {
        "audio-volume-muted-symbolic"
    } else {
        let v: u8 = match audio.volume_percent { Some(v) => v, None => 0 };
        if v == 0 {
            "audio-volume-muted-symbolic"
        } else if v <= 33 {
            "audio-volume-low-symbolic"
        } else if v <= 66 {
            "audio-volume-medium-symbolic"
        } else {
            "audio-volume-high-symbolic"
        }
    }
}

fn power_icon(percent: Option<u8>, charging: bool) -> (r: &'static str)
    ensures
        r@ == power_icon_spec(percent, charging),
{
    let p: u8 = match percent { Some(p) => p, None => 100 };
    if charging {
        "battery-level-100-charging-symbolic"
    } else if p <= 10 {
        "battery-level-10-symbolic"
    } else if p <= 30 {
        "battery-level-30-symbolic"
    } else if p <= 60 {
        "battery-level-50-symbolic"
    } else if p <= 80 {
        "battery-level-80-symbolic"
    } else {
        "battery-level-100-symbolic"
    }
}

fn power_profile_label(profile: PowerProfile) -> (r: &'static str)
    ensures
        r@ == profile_label_spec(profile),
{
    match profile {
        PowerProfile::Performance => "Performance",
        PowerProfile::Balanced => "Balanced",
        PowerProfile::PowerSaver => "Power Saver",
    }
}

fn power_profile_icon(profile: PowerProfile) -> (r: &'static str)
    ensures
        r@ == profile_icon_spec(profile),
{
    match profile {
        PowerProfile::Performance => "power-profile-performance-symbolic",
        PowerProfile::Balanced => "power-profile-balanced-symbolic",
        PowerProfile::PowerSaver => "power-profile-power-saver-symbolic",
    }
}

fn network_tooltip(snapshot: &BarSnapshot) -> (r: String)
    ensures
        r@ == network_tooltip_spec(*snapshot),
{
    match snapshot.system.network.connectivity {
        ConnectivityState::Connected => match &snapshot.system.network.label {
            Some(l) => {
                let mut r = owned("Network: ");
                push_str(&mut r, l.as_str());
                r
            },
            None => owned("Network connected"),
        },
        ConnectivityState::Connecting => owned("Network connecting"),
        ConnectivityState::Disconnected => owned("Network disconnected"),
        ConnectivityState::Unknown => owned("Network status unavailable"),
    }
}

fn media_summary(media: &MediaState) -> (r: String)
    ensures
        r@ == media_summary_spec(*media),
{
    let word = match media.status {
        PlaybackStatus::Playing => "Playing",
        PlaybackStatus::Paused => "Paused",
        PlaybackStatus::Stopped => "Stopped",
    };
    let mut r = owned(word);
    push_str(&mut r, ": ");
    match (&media.title, &media.artist) {
        (Some(t), Some(a)) => {
            push_str(&mut r, t.as_str());
            push_str(&mut r, " - ");
            push_str(&mut r, a.as_str());
        },
        (Some(t), None) => push_str(&mut r, t.as_str()),
        (None, Some(a)) => push_str(&mut r, a.as_str()),
        (None, None) => push_str(&mut r, media.player.as_str()),
    }
    r
}

fn join_lines(lines: &Vec<String>) -> (r: String)
    ensures
        r@ == crate::text::join(strings_view(lines@), "\n"@),
{
    let mut r = String::new();
    let mut i: usize = 0;
    while i < lines.len()
        invariant
            i <= lines.len(),
            r@ == crate::text::join(strings_view(lines@).take(i as int), "\n"@),
        decreases lines.len() - i,
    {
        let ghost before = strings_view(lines@).take(i as int);
        let ghost after = strings_view(lines@).take(i + 1);
        assert(after.drop_last() =~= before);
        if i > 0 {
            push_str(&mut r, "\n");
        } else {
            assert(before.len() == 0);
        }
        push_str(&mut r, lines[i].as_str());
        i = i + 1;
    }
    assert(strings_view(lines@).take(i as int) =~= strings_view(lines@));
    r
}

fn audio_tooltip(snapshot: &BarSnapshot) -> (r: String)
    ensures
        r@ == crate::text::join(audio_tooltip_lines(*snapshot), "\n"@),
{
    let sys = &snapshot.system;
    let mut lines: Vec<String> = Vec::new();
    let mut first = owned("Volume ");
    let pct = percent_or_unavailable(sys.audio.volume_percent);
    push_str(&mut first, pct.as_str());
    lines.push(first);
    if sys.audio.muted {
        lines.push(owned("Muted"));
    }
    if sys.bluetooth.powered {
        match &sys.bluetooth.connected_device {
            Some(d) => {
                let mut l = owned("Bluetooth: ");
                push_str(&mut l, d.as_str());
                lines.push(l);
            },
            None => lines.push(owned("Bluetooth on")),
        }
    } else if sys.bluetooth.available {
        lines.push(owned("Bluetooth off"));
    }
    match &sys.media {
        Some(m) => lines.push(media_summary(m)),
        None => {},
    }
    assert(strings_view(lines@) =~= audio_tooltip_lines(*snapshot));
    join_lines(&lines)
}

fn power_tooltip(snapshot: &BarSnapshot) -> (r: String)
    ensures
        r@ == power_tooltip_spec(*snapshot),
{
    let power = &snapshot.system.power;
    if !power.battery_present {
        let mut r = owned("Power profile: ");
        push_str(&mut r, power_profile_label(power.profile));
        return r;
    }
    let mut r = match power.battery_percent {
        Some(p) => {
            let mut b = owned("Battery ");
            push_dec(&mut b, p as u64);
            if power.charging {
                push_str(&mut b, "% (charging)");
            } else {
                push_str(&mut b, "%");
            }
            b
        },
        None => owned("Battery unavailable"),
    };
    push_str(&mut r, "\nProfile: ");
    push_str(&mut r, power_profile_label(power.profile));
    r
}

fn battery_severity_class(snapshot: &BarSnapshot, config: &AppConfig) -> (r: Option<&'static str>)
    ensures
        match r {
            Some(s) => battery_severity_spec(*snapshot, *config) == Some(s@),
            None => battery_severity_spec(*snapshot, *config) is None,
        },
{
    match snapshot.system.power.battery_percent {
        Some(p) => if p <= config.thresholds.battery_critical_percent {
            Some("critical")
        } else if p <= config.thresholds.battery_low_percent {
            Some("warning")
        } else {
            None
        },
        None => None,
    }
}

fn keyboard_button(snapshot: &BarSnapshot) -> (b: SystemButtonSpec)
    ensures
        button_view(b) == keyboard_button_spec(*snapshot),
{
    let layout: &str = match &snapshot.system.keyboard_layout {
        Some(l) => l.as_str(),
        None => "Unknown layout",
    };
    let health = snapshot.system.health(SourceId::Compositor);
    let mut classes = base_classes(SystemModuleId::Keyboard);
    apply_health(&mut classes, health);
    let mut tip = owned("Keyboard layout: ");
    push_str(&mut tip, layout);
    let b = SystemButtonSpec {
        id: SystemModuleId::Keyboard,
        icon_name: owned("input-keyboard-symbolic"),
        label: Some(short_layout_label(layout)),
        tooltip: with_health_note(tip, health),
        classes,
    };
    b
}

fn resources_button(snapshot: &BarSnapshot) -> (b: SystemButtonSpec)
    ensures
        button_view(b) == resources_button_spec(*snapshot),
{
    let cpu = snapshot.system.resources.cpu_percent;
    let memory = snapshot.system.resources.memory_percent;
    let health = snapshot.system.health(SourceId::Resources);
    let mut classes = base_classes(SystemModuleId::Resources);
    match resource_severity(cpu, memory) {
        Some(s) => push_class(&mut classes, s),
        None => {},
    }
    apply_health(&mut classes, health);
    let label = match (cpu, memory) {
        (Some(c), Some(m)) => {
            let mut l = String::new();
            push_dec(&mut l, c as u64);
            push_str(&mut l, "/");
            push_dec(&mut l, m as u64);
            Some(l)
        },
        (Some(c), None) => {
            let mut l = String::new();
            push_dec(&mut l, c as u64);
            push_str(&mut l, "/--");
            Some(l)
        },
        (None, Some(m)) => {
            let mut l = owned("--/");
            push_dec(&mut l, m as u64);
            Some(l)
        },
        (None, None) => None,
    };
    let mut tip = owned("CPU ");
    let c = percent_or_unavailable(cpu);
    push_str(&mut tip, c.as_str());
    push_str(&mut tip, "\nMemory ");
    let m = percent_or_unavailable(memory);
    push_str(&mut tip, m.as_str());
    SystemButtonSpec {
        id: SystemModuleId::Resources,
        icon_name: owned("utilities-system-monitor-symbolic"),
        label,
        tooltip: with_health_note(tip, health),
        classes,
    }
}

fn network_button(snapshot: &BarSnapshot) -> (b: SystemButtonSpec)
    ensures
        button_view(b) == network_button_spec(*snapshot),
{
    let health = snapshot.system.health(SourceId::Network);
    let mut classes = base_classes(SystemModuleId::Network);
    apply_health(&mut classes, health);
    let icon = match &snapshot.system.network.icon_hint {
        Some(i) => i.clone(),
        None => owned("network-idle-symbolic"),
    };
    SystemButtonSpec {
        id: SystemModuleId::Network,
        icon_name: icon,
        label: None,
        tooltip: with_health_note(network_tooltip(snapshot), health),
        classes,
    }
}

fn audio_button(snapshot: &BarSnapshot) -> (b: SystemButtonSpec)
    ensures
        button_view(b) == audio_button_spec(*snapshot),
{
    let mut classes = base_classes(SystemModuleId::Audio);
    if snapshot.system.bluetooth.available && !snapshot.system.bluetooth.powered {
        push_class(&mut classes, "inactive");
    }
    let health = if snapshot.system.bluetooth.available {
        let ids: Vec<SourceId> = vec![SourceId::Audio, SourceId::Bluetooth];
        assert(ids@ =~= seq![SourceId::Audio, SourceId::Bluetooth]);
        module_health(snapshot, ids.as_slice())
    } else {
        snapshot.system.health(SourceId::Audio)
    };
    apply_health(&mut classes, health);
    SystemButtonSpec {
        id: SystemModuleId::Audio,
        icon_name: owned(audio_icon(&snapshot.system.audio, snapshot.system.bluetooth.powered)),
        label: None,
        tooltip: with_health_note(audio_tooltip(snapshot), health),
        classes,
    }
}

fn power_button(snapshot: &BarSnapshot, config: &AppConfig) -> (b: SystemButtonSpec)
    ensures
        button_view(b) == power_button_spec(*snapshot, *config),
{
    let power = &snapshot.system.power;
    let health = snapshot.system.health(SourceId::Power);
    let mut classes = base_classes(SystemModuleId::Power);
    if power.battery_present {
        if power.charging {
            push_class(&mut classes, "charging");
        } else {
            match battery_severity_class(snapshot, config) {
                Some(s) => push_class(&mut classes, s),
                None => {},
            }
        }
    }
    apply_health(&mut classes, health);
    let (icon, label) = if power.battery_present {
        let label = match power.battery_percent {
            Some(p) => {
                let mut l = String::new();
                push_dec(&mut l, p as u64);
                push_str(&mut l, "%");
                Some(l)
            },
            None => None,
        };
        (power_icon(power.battery_percent, power.charging), label)
    } else {
        (power_profile_icon(power.profile), None)
    };
    SystemButtonSpec {
        id: SystemModuleId::Power,
        icon_name: owned(icon),
        label,
        tooltip: with_health_note(power_tooltip(snapshot), health),
        classes,
    }
}

fn clock_button(snapshot: &BarSnapshot) -> (b: SystemButtonSpec)
    ensures
        button_view(b) == clock_button_spec(*snapshot),
{
    let ids: Vec<SourceId> = vec![SourceId::Clock, SourceId::Calendar, SourceId::Timers];
    assert(ids@ =~= seq![SourceId::Clock, SourceId::Calendar, SourceId::Timers]);
    let health = module_health(snapshot, ids.as_slice());
    let mut classes = base_classes(SystemModuleId::Clock);
    apply_health(&mut classes, health);
    let mut tip = owned("Clock: ");
    push_str(&mut tip, snapshot.system.clock.label.as_str());
    SystemButtonSpec {
        id: SystemModuleId::Clock,
        icon_name: owned("preferences-system-time-symbolic"),
        label: Some(snapshot.system.clock.label.clone()),
        tooltip: with_health_note(tip, health),
        classes,
    }
}

/// The button of one system module.
pub fn build_button_spec(id: SystemModuleId, snapshot: &BarSnapshot, config: &AppConfig) -> (b: SystemButtonSpec)
    ensures
        button_view(b) == button_spec(id, *snapshot, *config),
{
    match id {
        SystemModuleId::Keyboard => keyboard_button(snapshot),
        SystemModuleId::Resources => resources_button(snapshot),
        SystemModuleId::Network => network_button(snapshot),
        SystemModuleId::Audio => audio_button(snapshot),
        SystemModuleId::Power => power_button(snapshot, config),
        SystemModuleId::Clock => clock_button(snapshot),
    }
}

fn module_at(k: usize) -> (id: SystemModuleId)
    requires
        k < 6,
    ensures
        id == module_order()[k as int],
{
    if k == 0 {
        SystemModuleId::Keyboard
    } else if k == 1 {
        SystemModuleId::Resources
    } else if k == 2 {
        SystemModuleId::Network
    } else if k == 3 {
        SystemModuleId::Audio
    } else if k == 4 {
        SystemModuleId::Power
    } else {
        SystemModuleId::Clock
    }
}

impl SystemCluster {
    /// The modules as plain values, in bar order.
    pub closed spec fn modules_view(&self) -> Seq<ButtonView> {
        self.modules@.map_values(|m: SystemModuleSpec| button_view(m.button))
    }

    /// The modules, in bar order.
    pub fn modules(&self) -> (m: &[SystemModuleSpec])
        ensures
            m@.map_values(|x: SystemModuleSpec| button_view(x.button)) == self.modules_view(),
    {
        self.modules.as_slice()
    }

    /// The button of module `id`.
    pub fn module(&self, id: SystemModuleId) -> (b: &SystemButtonSpec)
        requires
            exists|i: int| 0 <= i < self.modules_view().len() && (#[trigger] self.modules_view()[i]).0 == id,
        ensures
            exists|i: int| 0 <= i < self.modules_view().len() && #[trigger] self.modules_view()[i] == button_view(*b)
                && b.id == id && forall|j: int| 0 <= j < i ==> (#[trigger] self.modules_view()[j]).0 != id,
    {
        let mut i: usize = 0;
        while i < self.modules.len()
            invariant
                i <= self.modules.len(),
                exists|k: int| 0 <= k < self.modules_view().len() && (#[trigger] self.modules_view()[k]).0 == id,
                forall|j: int| 0 <= j < i ==> (#[trigger] self.modules_view()[j]).0 != id,
            decreases self.modules.len() - i,
        {
            assert(self.modules_view()[i as int] == button_view(self.modules@[i as int].button));
            if self.modules[i].button.id == id {
                return &self.modules[i].button;
            }
            i = i + 1;
        }
        proof {
            let k = choose|k: int| 0 <= k < self.modules_view().len() && (#[trigger] self.modules_view()[k]).0 == id;
            assert(self.modules_view()[k].0 != id);
        }
        &self.modules[0].button
    }

    /// What the control center shows.
    pub closed spec fn control_center_spec(&self) -> ControlCenterSpec {
        self.control_center
    }

    /// What the control center shows.
    pub fn control_center(&self) -> (c: &ControlCenterSpec)
        ensures
            *c == self.control_center_spec(),
    {
        &self.control_center
    }
}

/// The system modules of the primary bar: keyboard, resources, network,
/// audio, power and clock, in that order.
pub fn build_system_cluster(snapshot: &BarSnapshot, config: &AppConfig) -> (c: SystemCluster)
    ensures
        c.modules_view().len() == 6,
        forall|k: int| 0 <= k < 6 ==> #[trigger] c.modules_view()[k] == button_spec(module_order()[k], *snapshot, *config),
        shows(c.control_center_spec(), *snapshot),
{
    let mut modules: Vec<SystemModuleSpec> = Vec::new();
    let mut k: usize = 0;
    while k < 6
        invariant
            k <= 6,
            modules@.len() == k,
            forall|j: int| 0 <= j < k ==> button_view((#[trigger] modules@[j]).button) == button_spec(module_order()[j], *snapshot, *config),
        decreases 6 - k,
    {
        let id = module_at(k);
        modules.push(SystemModuleSpec { button: build_button_spec(id, snapshot, config) });
        k = k + 1;
    }
    let c = SystemCluster { modules, control_center: build_control_center_spec(snapshot) };
    assert forall|j: int| 0 <= j < 6 implies #[trigger] c.modules_view()[j] == button_spec(module_order()[j], *snapshot, *config) by {
        assert(c.modules_view()[j] == button_view(c.modules@[j].button));
    }
    c
}

} // verus!

//! Context cards: what the bar's centre shows (battery, calendar, timer,
//! activity, media, urgent window) and how it is worded.
use vstd::prelude::*;

use crate::text::{dec, dec2, owned, push_dec, push_dec2, push_str};

verus! {

#[derive(Clone, Copy, Debug, PartialEq, Eq, Structural)]
pub enum ContextTier {
    Ambient,
    Work,
    Imminent,
    Critical,
}

#[derive(Clone, Copy, Debug, PartialEq, Eq, Structural)]
pub enum ActivityStatus {
    Running,
    Succeeded,
    Failed,
}

#[derive(Clone, Debug, PartialEq, Eq)]
pub enum ContextCard {
    Battery { percent: u8, charging: bool, tier: ContextTier },
    Calendar { id: String, title: String, location: Option<String>, start_epoch: i64, tier: ContextTier },
    Timer {
        id: String,
        label: String,
        remaining_seconds: u64,
        target_epoch: Option<i64>,
        completed: bool,
        tier: ContextTier,
    },
    Activity {
        id: String,
        label: String,
        cwd: String,
        status: ActivityStatus,
        started_at: i64,
        finished_at: Option<i64>,
    },
    Media { player: String, title: Option<String>, artist: Option<String> },
    Urgent { window_title: Option<String>, workspace: Option<String>, output: String },
}

#[derive(Clone, Debug, PartialEq, Eq)]
pub struct ContextPresentation {
    pub icon_name: String,
    pub text: String,
    pub tier: ContextTier,
}

// ---------------------------------------------------------------------------
// Specification
// ---------------------------------------------------------------------------

/// The tier of a card: its own for battery, calendar and timer cards; work
/// for activities, ambient for media, critical for urgent windows.
pub open spec fn tier_of(card: ContextCard) -> ContextTier {
    match card {
        ContextCard::Battery { tier, .. } => tier,
        ContextCard::Calendar { tier, .. } => tier,
        ContextCard::Timer { tier, .. } => tier,
        ContextCard::Activity { .. } => ContextTier::Work,
        ContextCard::Media { .. } => ContextTier::Ambient,
        ContextCard::Urgent { .. } => ContextTier::Critical,
    }
}

pub open spec fn icon_of(card: ContextCard) -> Seq<char> {
    match card {
        ContextCard::Battery { .. } => "battery-caution-symbolic"@,
        ContextCard::Calendar { .. } => "appointment-soon-symbolic"@,
        ContextCard::Timer { .. } => "alarm-symbolic"@,
        ContextCard::Activity { .. } => "system-run-symbolic"@,
        ContextCard::Media { .. } => "media-playback-start-symbolic"@,
        ContextCard::Urgent { .. } => "dialog-warning-symbolic"@,
    }
}

/// `start - now`, saturated to the range of `i64`.
pub open spec fn saturating_diff(start: i64, now: i64) -> int {
    let d = start - now;
    if d > i64::MAX { i64::MAX as int } else if d < i64::MIN { i64::MIN as int } else { d }
}

/// How far ahead `start` is: "now", "in <1m", then minutes below two hours,
/// hours below two days, and days, each rounded up.
pub open spec fn relative_time_spec(start: i64, now: i64) -> Seq<char> {
    let remaining = saturating_diff(start, now);
    if remaining <= 0 {
        "now"@
    } else if remaining < 60 {
        "in <1m"@
    } else {
        let minutes = (remaining + 59) / 60;
        if minutes < 120 {
            "in "@ + dec(minutes as nat) + "m"@
        } else {
            let hours = (minutes + 59) / 60;
            if hours < 48 {
                "in "@ + dec(hours as nat) + "h"@
            } else {
                "in "@ + dec(((hours + 23) / 24) as nat) + "d"@
            }
        }
    }
}

/// `H:MM:SS` when there is at least an hour, else `M:SS`.
pub open spec fn clock_duration_spec(seconds: nat) -> Seq<char> {
    let hours = seconds / 3600;
    let minutes = (seconds % 3600) / 60;
    let secs = seconds % 60;
    if hours > 0 {
        dec(hours) + ":"@ + dec2(minutes) + ":"@ + dec2(secs)
    } else {
        dec(minutes) + ":"@ + dec2(secs)
    }
}

pub open spec fn status_word(status: ActivityStatus) -> Seq<char> {
    match status {
        ActivityStatus::Running => "running"@,
        ActivityStatus::Succeeded => "finished"@,
        ActivityStatus::Failed => "failed"@,
    }
}

/// The text of an urgent-window card: the window title, else the workspace,
/// else "Urgent on OUTPUT".
pub open spec fn urgent_text(window_title: Option<String>, workspace: Option<String>, output: String) -> Seq<char> {
    match window_title {
        Some(t) => t@,
        None => match workspace {
            Some(w) => w@,
            None => "Urgent on "@ + output@,
        },
    }
}

/// A card's text at time `now` (for the calendar countdown).
pub open spec fn context_text_spec(card: ContextCard, now: i64) -> Seq<char> {
    match card {
        ContextCard::Battery { percent, charging, .. } => if charging {
            "Battery "@ + dec(percent as nat) + "% charging"@
        } else {
            "Battery "@ + dec(percent as nat) + "%"@
        },
        ContextCard::Calendar { title, location, start_epoch, .. } => {
            let event = match location {
                Some(l) => title@ + " — "@ + l@,
                None => title@,
            };
            event + " · "@ + relative_time_spec(start_epoch, now)
        },
        ContextCard::Timer { label, remaining_seconds, completed, .. } => if completed {
            label@ + " done"@
        } else {
            label@ + " · "@ + clock_duration_spec(remaining_seconds as nat)
        },
        ContextCard::Activity { label, status, .. } => label@ + " · "@ + status_word(status),
        ContextCard::Media { player, title, artist } => match (title, artist) {
            (Some(t), Some(a)) => t@ + " - "@ + a@,
            (Some(t), None) => t@,
            _ => player@,
        },
        ContextCard::Urgent { window_title, workspace, output } => urgent_text(window_title, workspace, output),
    }
}

/// Calendar countdowns stay within `i64` when rounded up to minutes.
pub open spec fn countdown_fits(card: ContextCard, now: i64) -> bool {
    card matches ContextCard::Calendar { start_epoch, .. } ==> saturating_diff(start_epoch, now) <= i64::MAX - 59
}

// ---------------------------------------------------------------------------
// Operations
// ---------------------------------------------------------------------------

/// The tier of a card.
pub fn context_tier(card: &ContextCard) -> (tier: ContextTier)
    ensures
        tier == tier_of(*card),
{
    match card {
        ContextCard::Battery { tier, .. } => *tier,
        ContextCard::Calendar { tier, .. } => *tier,
        ContextCard::Timer { tier, .. } => *tier,
        ContextCard::Activity { .. } => ContextTier::Work,
        ContextCard::Media { .. } => ContextTier::Ambient,
        ContextCard::Urgent { .. } => ContextTier::Critical,
    }
}

/// The symbolic icon of a card.
pub fn context_icon_name(card: &ContextCard) -> (icon: &'static str)
    ensures
        icon@ == icon_of(*card),
{
    match card {
        ContextCard::Battery { .. } => "battery-caution-symbolic",
        ContextCard::Calendar { .. } => "appointment-soon-symbolic",
        ContextCard::Timer { .. } => "alarm-symbolic",
        ContextCard::Activity { .. } => "system-run-symbolic",
        ContextCard::Media { .. } => "media-playback-start-symbolic",
        ContextCard::Urgent { .. } => "dialog-warning-symbolic",
    }
}

/// How far ahead `start_epoch` is from `now_epoch`, in words.
pub fn relative_time(start_epoch: i64, now_epoch: i64) -> (r: String)
    requires
        saturating_diff(start_epoch, now_epoch) <= i64::MAX - 59,
    ensures
        r@ == relative_time_spec(start_epoch, now_epoch),
{
    let wide: i128 = start_epoch as i128 - now_epoch as i128;
    let remaining: i64 = if wide > i64::MAX as i128 {
        i64::MAX
    } else if wide < i64::MIN as i128 {
        i64::MIN
    } else {
        wide as i64
    };
    if remaining <= 0 {
        return owned("now");
    }
    if remaining < 60 {
        return owned("in <1m");
    }
    let minutes = (remaining + 59) / 60;
    let mut r = owned("in ");
    if minutes < 120 {
        push_dec(&mut r, minutes as u64);
        push_str(&mut r, "m");
        return r;
    }
    let hours = (minutes + 59) / 60;
    if hours < 48 {
        push_dec(&mut r, hours as u64);
        push_str(&mut r, "h");
        return r;
    }
    let days = (hours + 23) / 24;
    push_dec(&mut r, days as u64);
    push_str(&mut r, "d");
    r
}

/// A duration as a clock: `H:MM:SS`, or `M:SS` below an hour.
pub fn clock_duration(seconds: u64) -> (r: String)
    ensures
        r@ == clock_duration_spec(seconds as nat),
{
    let hours = seconds / 3_600;
    let minutes = (seconds % 3_600) / 60;
    let secs = seconds % 60;
    let mut r = String::new();
    if hours > 0 {
        push_dec(&mut r, hours);
        push_str(&mut r, ":");
        push_dec2(&mut r, minutes);
        push_str(&mut r, ":");
        push_dec2(&mut r, secs);
    } else {
        push_dec(&mut r, minutes);
        push_str(&mut r, ":");
        push_dec2(&mut r, secs);
    }
    assert(r@ =~= clock_duration_spec(seconds as nat));
    r
}

fn urgent_text_of(window_title: &Option<String>, workspace: &Option<String>, output: &String) -> (r: String)
    ensures
        r@ == urgent_text(*window_title, *workspace, *output),
{
    match window_title {
        Some(t) => t.clone(),
        None => match workspace {
            Some(w) => w.clone(),
            None => {
                let mut r = owned("Urgent on ");
                push_str(&mut r, output.as_str());
                r
            },
        },
    }
}

/// The words a card shows at time `now_epoch`.
pub fn context_text(card: &ContextCard, now_epoch: i64) -> (r: String)
    requires
        countdown_fits(*card, now_epoch),
    ensures
        r@ == context_text_spec(*card, now_epoch),
{
    match card {
        ContextCard::Battery { percent, charging, .. } => {
            let mut r = owned("Battery ");
            push_dec(&mut r, *percent as u64);
            if *charging {
                push_str(&mut r, "% charging");
            } else {
                push_str(&mut r, "%");
            }
            r
        },
        ContextCard::Calendar { title, location, start_epoch, .. } => {
            let mut r = title.clone();
            match location {
                Some(l) => {
                    push_str(&mut r, " — ");
                    push_str(&mut r, l.as_str());
                },
                None => {},
            }
            push_str(&mut r, " · ");
            let rel = relative_time(*start_epoch, now_epoch);
            push_str(&mut r, rel.as_str());
            r
        },
        ContextCard::Timer { label, remaining_seconds, completed, .. } => {
            let mut r = label.clone();
            if *completed {
                push_str(&mut r, " done");
            } else {
                push_str(&mut r, " · ");
                let d = clock_duration(*remaining_seconds);
                push_str(&mut r, d.as_str());
            }
            r
        },
        ContextCard::Activity { label, status, .. } => {
            let mut r = label.clone();
            push_str(&mut r, " · ");
            let word = match status {
                ActivityStatus::Running => "running",
                ActivityStatus::Succeeded => "finished",
                ActivityStatus::Failed => "failed",
            };
            push_str(&mut r, word);
            r
        },
        ContextCard::Media { player, title, artist } => match (title, artist) {
            (Some(t), Some(a)) => {
                let mut r = t.clone();
                push_str(&mut r, " - ");
                push_str(&mut r, a.as_str());
                r
            },
            (Some(t), None) => t.clone(),
            _ => player.clone(),
        },
        ContextCard::Urgent { window_title, workspace, output } => urgent_text_of(window_title, workspace, output),
    }
}

/// A card's presentation: icon, text and tier.
pub fn context_presentation(card: &ContextCard, now_epoch: i64) -> (p: ContextPresentation)
    requires
        countdown_fits(*card, now_epoch),
    ensures
        p.icon_name@ == icon_of(*card),
        p.text@ == context_text_spec(*card, now_epoch),
        p.tier == tier_of(*card),
{
    ContextPresentation {
        icon_name: owned(context_icon_name(card)),
        text: context_text(card, now_epoch),
        tier: context_tier(card),
    }
}

/// The words of a warning: an urgent window's title (else its workspace,
/// else its output); for any other card its text as at epoch 0.
pub fn warning_text(card: &ContextCard) -> (r: String)
    requires
        countdown_fits(*card, 0),
    ensures
        r@ == context_text_spec(*card, 0),
{
    match card {
        ContextCard::Urgent { window_title, workspace, output } => urgent_text_of(window_title, workspace, output),
        other => context_text(other, 0),
    }
}

} // verus!

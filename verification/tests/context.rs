use dotfiles_tools::context::{
    context_presentation, context_text, context_tier, warning_text, ActivityStatus, ContextCard,
    ContextTier,
};

#[test]
fn timer_presentation_uses_stable_clock_digits_and_icon() {
    let presentation = context_presentation(
        &ContextCard::Timer {
            id: "timer-1".to_string(),
            label: "Tea".to_string(),
            remaining_seconds: 62,
            target_epoch: Some(1_800_000_062),
            completed: false,
            tier: ContextTier::Imminent,
        },
        1_800_000_000,
    );

    assert_eq!(presentation.icon_name, "alarm-symbolic");
    assert_eq!(presentation.text, "Tea · 1:02");
}

#[test]
fn calendar_presentation_includes_location_and_relative_time() {
    let presentation = context_presentation(
        &ContextCard::Calendar {
            id: "event-1".to_string(),
            title: "Review".to_string(),
            location: Some("Lab".to_string()),
            start_epoch: 1_800_000_600,
            tier: ContextTier::Imminent,
        },
        1_800_000_000,
    );

    assert_eq!(presentation.icon_name, "appointment-soon-symbolic");
    assert_eq!(presentation.text, "Review — Lab · in 10m");
}

#[test]
fn activity_presentation_uses_human_status_text() {
    let presentation = context_presentation(
        &ContextCard::Activity {
            id: "build-1".to_string(),
            label: "Cargo test".to_string(),
            cwd: "/tmp/project".to_string(),
            status: ActivityStatus::Succeeded,
            started_at: 1_800_000_000,
            finished_at: Some(1_800_000_010),
        },
        1_800_000_010,
    );

    assert_eq!(presentation.icon_name, "system-run-symbolic");
    assert_eq!(presentation.text, "Cargo test · finished");
}

fn calendar_at(start_epoch: i64) -> ContextCard {
    ContextCard::Calendar {
        id: "e".to_string(),
        title: "Standup".to_string(),
        location: None,
        start_epoch,
        tier: ContextTier::Work,
    }
}

#[test]
fn relative_time_rounds_up_through_minutes_hours_and_days() {
    assert_eq!(context_text(&calendar_at(100), 100), "Standup · now");
    assert_eq!(context_text(&calendar_at(130), 100), "Standup · in <1m");
    assert_eq!(context_text(&calendar_at(100 + 61), 100), "Standup · in 2m");
    assert_eq!(context_text(&calendar_at(100 + 119 * 60), 100), "Standup · in 119m");
    assert_eq!(context_text(&calendar_at(100 + 120 * 60), 100), "Standup · in 2h");
    assert_eq!(context_text(&calendar_at(100 + 47 * 3600), 100), "Standup · in 47h");
    assert_eq!(context_text(&calendar_at(100 + 48 * 3600), 100), "Standup · in 2d");
    assert_eq!(context_text(&calendar_at(i64::MIN), i64::MAX), "Standup · now");
}

#[test]
fn timers_show_hours_when_needed_and_done_when_completed() {
    let timer = |remaining_seconds: u64, completed: bool| ContextCard::Timer {
        id: "t".to_string(),
        label: "Oven".to_string(),
        remaining_seconds,
        target_epoch: None,
        completed,
        tier: ContextTier::Imminent,
    };
    assert_eq!(context_text(&timer(3_661, false), 0), "Oven · 1:01:01");
    assert_eq!(context_text(&timer(59, false), 0), "Oven · 0:59");
    assert_eq!(context_text(&timer(59, true), 0), "Oven done");
}

#[test]
fn tiers_and_texts_of_the_other_cards() {
    let battery = ContextCard::Battery { percent: 9, charging: false, tier: ContextTier::Critical };
    assert_eq!(context_tier(&battery), ContextTier::Critical);
    assert_eq!(context_text(&battery, 0), "Battery 9%");
    let charging = ContextCard::Battery { percent: 9, charging: true, tier: ContextTier::Work };
    assert_eq!(context_text(&charging, 0), "Battery 9% charging");

    let media = ContextCard::Media {
        player: "spotify".to_string(),
        title: Some("Song".to_string()),
        artist: Some("Band".to_string()),
    };
    assert_eq!(context_tier(&media), ContextTier::Ambient);
    assert_eq!(context_text(&media, 0), "Song - Band");
    let bare = ContextCard::Media { player: "spotify".to_string(), title: None, artist: Some("Band".to_string()) };
    assert_eq!(context_text(&bare, 0), "spotify");

    let urgent = ContextCard::Urgent { window_title: None, workspace: None, output: "DP-1".to_string() };
    assert_eq!(context_tier(&urgent), ContextTier::Critical);
    assert_eq!(warning_text(&urgent), "Urgent on DP-1");
    let urgent_ws = ContextCard::Urgent {
        window_title: None,
        workspace: Some("3".to_string()),
        output: "DP-1".to_string(),
    };
    assert_eq!(warning_text(&urgent_ws), "3");
    assert_eq!(warning_text(&battery), "Battery 9%");
}

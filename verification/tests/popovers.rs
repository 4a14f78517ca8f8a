use dotfiles_tools::popovers::{popover_id_from_origin, ActionResult, PopoverCoordinator};

#[test]
fn opening_one_popover_closes_the_previous_and_escape_clears_active_id() {
    let mut coordinator = PopoverCoordinator::default();

    assert_eq!(coordinator.open("keyboard"), None);
    assert_eq!(coordinator.active_id(), Some("keyboard"));

    assert_eq!(coordinator.open("power"), Some("keyboard".to_string()));
    assert_eq!(coordinator.active_id(), Some("power"));

    assert_eq!(coordinator.clear_active(), Some("power".to_string()));
    assert_eq!(coordinator.active_id(), None);
}

#[test]
fn failures_stay_with_the_originating_popover_until_next_action_or_close() {
    let mut coordinator = PopoverCoordinator::default();
    coordinator.open("power");

    coordinator.record_completion(
        "system-popover:power:cycle-next",
        &ActionResult::Failed {
            summary: "Action failed".to_string(),
            detail: "powerprofilesctl missing".to_string(),
        },
    );
    assert_eq!(coordinator.error_for("power"), Some("powerprofilesctl missing"));

    coordinator.before_action("system-popover:power:cycle-prev");
    assert_eq!(coordinator.error_for("power"), None);

    coordinator.record_completion(
        "system-popover:power:cycle-prev",
        &ActionResult::Failed {
            summary: "Action failed".to_string(),
            detail: "permission denied".to_string(),
        },
    );
    coordinator.close("power");
    assert_eq!(coordinator.active_id(), None);
    assert_eq!(coordinator.error_for("power"), None);
}

#[test]
fn popover_ids_come_from_the_origin_between_its_prefix_and_action() {
    assert_eq!(popover_id_from_origin("system-popover:power:cycle-next"), Some("power".to_string()));
    assert_eq!(popover_id_from_origin("system-popover:audio"), Some("audio".to_string()));
    assert_eq!(popover_id_from_origin("system-popover:"), None);
    assert_eq!(popover_id_from_origin("control-center:power"), None);
}

#[test]
fn success_keeps_the_recorded_error_and_other_popovers_keep_theirs() {
    let mut coordinator = PopoverCoordinator::new();
    coordinator.record_completion(
        "system-popover:audio:mute",
        &ActionResult::Failed { summary: "failed".to_string(), detail: "no sink".to_string() },
    );
    coordinator.record_completion(
        "system-popover:power:cycle",
        &ActionResult::Failed { summary: "failed".to_string(), detail: "denied".to_string() },
    );
    coordinator.record_completion(
        "system-popover:power:cycle",
        &ActionResult::Succeeded { summary: "ok".to_string() },
    );
    assert_eq!(coordinator.error_for("power"), Some("denied"));
    assert_eq!(coordinator.error_for("audio"), Some("no sink"));
    coordinator.close("system:audio");
    assert_eq!(coordinator.error_for("audio"), None);
    coordinator.before_action("system-popover:keyboard:next");
    assert_eq!(coordinator.error_for("power"), Some("denied"));
}

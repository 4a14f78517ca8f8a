use dotfiles_tools::control_center::{ControlCenterErrors, ControlCenterFocus};
use dotfiles_tools::intents::ActionIntent;
use dotfiles_tools::navigation::{
    begin_request, handle_completion, navigate, page_status, status_text, ActionResult, PageStatus,
    PageTransition, PendingActions,
};

#[test]
fn navigating_sets_header_and_slide() {
    let view = navigate(ControlCenterFocus::Bluetooth, false);
    assert_eq!(view.transition, PageTransition::SlideLeft);
    assert!(view.back_visible);
    assert_eq!(view.title, "Bluetooth");
    assert_eq!(view.subtitle, "Devices and discovery");
    assert_eq!(view.footer, "Open Bluetooth in Luma");

    let back = navigate(ControlCenterFocus::Overview, true);
    assert_eq!(back.transition, PageTransition::SlideRight);
    assert!(!back.back_visible);
    assert_eq!(back.footer, "Open Quick Settings in Luma");
}

#[test]
fn pending_counts_go_up_and_back_down() {
    let mut pending = PendingActions::new();
    pending.begin(ControlCenterFocus::Audio);
    pending.begin(ControlCenterFocus::Audio);
    assert_eq!(pending.count_of(ControlCenterFocus::Audio), 2);
    assert_eq!(pending.count_of(ControlCenterFocus::Power), 0);
    pending.finish(ControlCenterFocus::Audio);
    pending.finish(ControlCenterFocus::Audio);
    pending.finish(ControlCenterFocus::Audio);
    assert_eq!(pending.count_of(ControlCenterFocus::Audio), 0);
}

#[test]
fn status_line_shows_errors_before_pending_work() {
    let mut errors = ControlCenterErrors::new();
    let mut pending = PendingActions::new();
    assert_eq!(page_status(&errors, &pending, ControlCenterFocus::Network), PageStatus::Idle);
    assert_eq!(status_text(&PageStatus::Idle), "");

    let request = begin_request(
        &mut errors,
        &mut pending,
        ControlCenterFocus::Network,
        "toggle",
        ActionIntent::SetWifiEnabled { enabled: true },
    );
    assert_eq!(request.origin, "control-center:network:toggle");
    let status = page_status(&errors, &pending, ControlCenterFocus::Network);
    assert_eq!(status, PageStatus::Pending);
    assert_eq!(status_text(&status), "Applying change…");

    let outcome = handle_completion(
        &mut errors,
        &mut pending,
        "control-center:network:toggle",
        &ActionResult::Failed { detail: "rfkill blocked".to_string() },
    );
    assert!(outcome.handled);
    assert!(!outcome.present);
    let status = page_status(&errors, &pending, ControlCenterFocus::Network);
    assert_eq!(status, PageStatus::Error("rfkill blocked".to_string()));
    assert_eq!(status_text(&status), "rfkill blocked");
    assert_eq!(pending.count_of(ControlCenterFocus::Network), 0);

    begin_request(&mut errors, &mut pending, ControlCenterFocus::Network, "toggle", ActionIntent::ToggleMute);
    assert_eq!(page_status(&errors, &pending, ControlCenterFocus::Network), PageStatus::Pending);
    let done = handle_completion(&mut errors, &mut pending, "control-center:network:toggle", &ActionResult::Completed);
    assert!(done.handled);
    assert_eq!(page_status(&errors, &pending, ControlCenterFocus::Network), PageStatus::Idle);
}

#[test]
fn completions_from_elsewhere_are_not_handled() {
    let mut errors = ControlCenterErrors::new();
    let mut pending = PendingActions::new();
    let outcome = handle_completion(&mut errors, &mut pending, "workspace:DP-1:2", &ActionResult::Completed);
    assert!(!outcome.handled);
    assert!(!outcome.present);
}

#[test]
fn a_failed_question_reopens_the_center() {
    let mut errors = ControlCenterErrors::new();
    let mut pending = PendingActions::new();
    let outcome = handle_completion(
        &mut errors,
        &mut pending,
        "control-center:power:open-luma",
        &ActionResult::Failed { detail: "assistant unavailable".to_string() },
    );
    assert!(outcome.handled);
    assert!(outcome.present);
    assert_eq!(errors.message(ControlCenterFocus::Power), Some("assistant unavailable"));
}

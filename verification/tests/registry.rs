use dotfiles_tools::registry::{SurfaceRegistry, SurfaceStep};
use dotfiles_tools::state::OutputRole;
use dotfiles_tools::surface::{SurfaceSpec, TitleSpec};

fn spec(output: &str, role: OutputRole) -> SurfaceSpec {
    SurfaceSpec {
        output_name: output.to_string(),
        role,
        workspaces: Vec::new(),
        title: TitleSpec { app: "Desktop".to_string(), text: String::new(), window_groups: Vec::new() },
        context: None,
        warning: None,
        system: None,
        clock_label: "12:00".to_string(),
    }
}

fn monitors(names: &[&str]) -> Vec<String> {
    names.iter().map(|n| n.to_string()).collect()
}

#[test]
fn reconcile_opens_bars_then_redraws_them() {
    let mut registry = SurfaceRegistry::new();
    let desired = vec![spec("HDMI-A-1", OutputRole::Reduced), spec("DP-1", OutputRole::Primary)];
    let steps = registry.reconcile(&desired, &monitors(&["DP-1", "HDMI-A-1"]));
    assert_eq!(steps, vec![SurfaceStep::Create(0), SurfaceStep::Create(1)]);
    assert_eq!(registry.role("DP-1"), Some(OutputRole::Primary));
    assert_eq!(registry.role("HDMI-A-1"), Some(OutputRole::Reduced));

    let again = registry.reconcile(&desired, &monitors(&["DP-1", "HDMI-A-1"]));
    assert_eq!(again, vec![SurfaceStep::Render(0), SurfaceStep::Render(1)]);
}

#[test]
fn reconcile_recreates_bars_whose_role_changed_and_closes_stale_ones() {
    let mut registry = SurfaceRegistry::new();
    registry.reconcile(
        &vec![spec("DP-1", OutputRole::Primary), spec("DP-2", OutputRole::Reduced), spec("eDP-1", OutputRole::Reduced)],
        &monitors(&["DP-1", "DP-2", "eDP-1"]),
    );
    let steps = registry.reconcile(
        &vec![spec("DP-2", OutputRole::Primary), spec("DP-1", OutputRole::Reduced)],
        &monitors(&["DP-1", "DP-2", "eDP-1"]),
    );
    assert_eq!(
        steps,
        vec![
            SurfaceStep::Close("eDP-1".to_string()),
            SurfaceStep::Close("DP-2".to_string()),
            SurfaceStep::Create(0),
            SurfaceStep::Close("DP-1".to_string()),
            SurfaceStep::Create(1),
        ]
    );
    assert_eq!(registry.role("DP-2"), Some(OutputRole::Primary));
    assert_eq!(registry.role("DP-1"), Some(OutputRole::Reduced));
    assert_eq!(registry.role("eDP-1"), None);
}

#[test]
fn reconcile_skips_outputs_without_a_monitor() {
    let mut registry = SurfaceRegistry::new();
    let steps = registry.reconcile(
        &vec![spec("DP-9", OutputRole::Primary), spec("DP-1", OutputRole::Reduced)],
        &monitors(&["DP-1"]),
    );
    assert_eq!(steps, vec![SurfaceStep::Create(1)]);
    assert_eq!(registry.role("DP-9"), None);
    let unplugged = registry.reconcile(&vec![spec("DP-1", OutputRole::Reduced)], &monitors(&[]));
    assert_eq!(unplugged, vec![SurfaceStep::Close("DP-1".to_string())]);
}

#[test]
fn control_center_opens_on_the_requested_primary_bar_or_the_first_one() {
    let mut registry = SurfaceRegistry::new();
    assert_eq!(registry.control_center_output(None), None);
    registry.reconcile(
        &vec![spec("DP-1", OutputRole::Reduced), spec("HDMI-A-1", OutputRole::Primary)],
        &monitors(&["DP-1", "HDMI-A-1"]),
    );
    assert_eq!(registry.control_center_output(Some("HDMI-A-1")), Some("HDMI-A-1".to_string()));
    assert_eq!(registry.control_center_output(Some("DP-1")), Some("HDMI-A-1".to_string()));
    assert_eq!(registry.control_center_output(None), Some("HDMI-A-1".to_string()));
    let closed = registry.clear();
    assert_eq!(closed, vec!["DP-1".to_string(), "HDMI-A-1".to_string()]);
    assert_eq!(registry.role("DP-1"), None);
}

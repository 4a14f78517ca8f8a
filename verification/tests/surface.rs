use dotfiles_tools::context::{ContextCard, ContextTier};
use dotfiles_tools::control_center::ControlCenterFocus;
use dotfiles_tools::state::{
    AppConfig, BarSnapshot, ClockState, OutputRole, OutputState, SystemState, WindowState,
    WorkspaceState,
};
use dotfiles_tools::surface::{
    bar_window_width_for_monitor_width, control_focus, surface_specs, ContextSpec, RenderPlan, SurfaceSpec,
    TitleSpec, WarningSpec, WorkspaceButtonSpec,
};
use dotfiles_tools::system::SystemModuleId;

fn snapshot(mut outputs: Vec<OutputState>) -> BarSnapshot {
    outputs.sort_by(|a, b| a.name.cmp(&b.name));
    BarSnapshot {
        outputs,
        focused_output: Some("DP-4".to_string()),
        system: SystemState {
            clock: ClockState { epoch_seconds: 1_800_000_000, label: "12:00".to_string() },
            ..SystemState::default()
        },
    }
}

fn output(name: &str, workspaces: &[WorkspaceState], focused_window: Option<WindowState>, urgent: bool) -> OutputState {
    OutputState {
        name: name.to_string(),
        workspaces: workspaces.to_vec(),
        windows: focused_window.iter().cloned().collect(),
        focused_window,
        urgent,
        changed_at: 0,
    }
}

fn workspace(id: &str, label: &str, output: &str, active: bool, urgent: bool) -> WorkspaceState {
    WorkspaceState {
        id: id.to_string(),
        label: label.to_string(),
        output: output.to_string(),
        active,
        urgent,
        changed_at: 0,
    }
}

fn window(id: &str, title: &str) -> WindowState {
    WindowState {
        id: id.to_string(),
        app_id: Some(id.to_string()),
        title: title.to_string(),
        urgent: false,
        workspace_id: None,
        changed_at: 0,
    }
}

fn three_outputs() -> BarSnapshot {
    snapshot(vec![
        output("DP-4", &[workspace("1", "1", "DP-4", true, false)], Some(window("notes", "Notes")), false),
        output("DP-5", &[workspace("2", "2", "DP-5", true, false)], Some(window("editor", "Editor")), false),
        output("HDMI-A-2", &[workspace("3", "3", "HDMI-A-2", true, false)], Some(window("chat", "Chat")), false),
    ])
}

#[test]
fn surface_specs_choose_configured_primary_and_reduce_other_outputs() {
    let specs = surface_specs(&three_outputs(), &AppConfig::default(), None);

    assert_eq!(
        specs.iter().map(|spec| (&spec.output_name, spec.role)).collect::<Vec<_>>(),
        vec![
            (&"DP-5".to_string(), OutputRole::Primary),
            (&"DP-4".to_string(), OutputRole::Reduced),
            (&"HDMI-A-2".to_string(), OutputRole::Reduced),
        ]
    );
}

#[test]
fn surface_specs_fall_back_to_focused_output_when_primary_is_missing() {
    let snapshot = snapshot(vec![
        output("DP-4", &[workspace("1", "1", "DP-4", true, false)], Some(window("notes", "Notes")), false),
        output("HDMI-A-2", &[workspace("3", "3", "HDMI-A-2", true, false)], Some(window("chat", "Chat")), false),
    ]);

    let specs = surface_specs(&snapshot, &AppConfig::default(), None);

    assert_eq!(specs[0].output_name, "DP-4");
    assert_eq!(specs[0].role, OutputRole::Primary);
}

#[test]
fn surface_specs_restore_configured_primary_when_it_returns() {
    let without_primary = snapshot(vec![
        output("DP-4", &[workspace("1", "1", "DP-4", true, false)], Some(window("notes", "Notes")), false),
        output("HDMI-A-2", &[workspace("3", "3", "HDMI-A-2", true, false)], Some(window("chat", "Chat")), false),
    ]);

    assert_eq!(surface_specs(&without_primary, &AppConfig::default(), None)[0].output_name, "DP-4");
    assert_eq!(surface_specs(&three_outputs(), &AppConfig::default(), None)[0].output_name, "DP-5");
}

#[test]
fn surface_specs_recalculate_primary_role_after_runtime_reload() {
    let snapshot = snapshot(vec![
        output("DP-4", &[workspace("1", "1", "DP-4", true, false)], Some(window("notes", "Notes")), false),
        output("DP-5", &[workspace("2", "2", "DP-5", true, false)], Some(window("editor", "Editor")), false),
    ]);
    let mut reloaded = AppConfig::default();
    reloaded.primary_output = Some("DP-4".to_string());

    let specs = surface_specs(&snapshot, &reloaded, None);

    assert_eq!(specs[0].output_name, "DP-4");
    assert_eq!(specs[0].role, OutputRole::Primary);
}

#[test]
fn surface_specs_use_output_local_workspaces_and_title() {
    let snapshot = snapshot(vec![
        output(
            "DP-4",
            &[workspace("1", "web", "DP-4", false, false), workspace("2", "term", "DP-4", true, true)],
            Some(window("terminal", "cargo test")),
            false,
        ),
        output("DP-5", &[workspace("3", "edit", "DP-5", true, false)], Some(window("editor", "nvim")), false),
    ]);

    let specs = surface_specs(&snapshot, &AppConfig::default(), None);
    let reduced = specs.iter().find(|spec| spec.output_name == "DP-4").expect("reduced output spec");

    assert_eq!(
        reduced.workspaces.iter().map(|workspace| workspace.label.as_str()).collect::<Vec<_>>(),
        vec!["web", "term"]
    );
    assert_eq!(reduced.title.text, "cargo test");
    assert_eq!(reduced.title.app, "terminal");
    assert!(reduced.workspaces[1].active);
    assert!(reduced.workspaces[1].urgent);
    assert_eq!(reduced.title.window_groups.len(), 2);
    assert_eq!(reduced.clock_label, "12:00");
}

#[test]
fn surface_specs_keep_reduced_outputs_free_of_system_modules() {
    let snapshot = snapshot(vec![
        output("DP-4", &[workspace("1", "web", "DP-4", false, false)], Some(window("terminal", "cargo test")), false),
        output("DP-5", &[workspace("2", "edit", "DP-5", true, false)], Some(window("editor", "nvim")), false),
    ]);

    let specs = surface_specs(&snapshot, &AppConfig::default(), None);
    let primary = specs.iter().find(|spec| spec.output_name == "DP-5").expect("primary output spec");
    let reduced = specs.iter().find(|spec| spec.output_name == "DP-4").expect("reduced output spec");

    assert!(primary.system.is_some());
    assert_eq!(reduced.system, None);
}

#[test]
fn surface_specs_hide_reduced_warning_when_context_is_not_critical() {
    let snapshot = snapshot(vec![
        output("DP-4", &[workspace("1", "1", "DP-4", true, false)], Some(window("notes", "Notes")), false),
        output("DP-5", &[workspace("2", "2", "DP-5", true, false)], Some(window("editor", "Editor")), false),
    ]);
    let card = ContextCard::Battery { percent: 30, charging: false, tier: ContextTier::Work };

    let specs = surface_specs(&snapshot, &AppConfig::default(), Some(&card));
    let reduced = specs.iter().find(|spec| spec.output_name == "DP-4").expect("reduced output spec");

    assert!(reduced.warning.is_none());
    assert_eq!(specs[0].context.as_ref().map(|c| c.text.as_str()), Some("Battery 30%"));
}

#[test]
fn surface_specs_propagate_critical_warning_to_reduced_bars() {
    let snapshot = snapshot(vec![
        output("DP-4", &[workspace("1", "1", "DP-4", true, false)], Some(window("notes", "Notes")), false),
        output("DP-5", &[workspace("2", "2", "DP-5", true, false)], Some(window("editor", "Editor")), false),
    ]);
    let card = ContextCard::Battery { percent: 6, charging: false, tier: ContextTier::Critical };

    let specs = surface_specs(&snapshot, &AppConfig::default(), Some(&card));
    let reduced = specs.iter().find(|spec| spec.output_name == "DP-4").expect("reduced output spec");

    assert_eq!(reduced.warning.as_ref().map(|warning| warning.tier), Some(ContextTier::Critical));
    assert_eq!(reduced.warning.as_ref().map(|warning| warning.text.as_str()), Some("Battery 6%"));
    assert!(specs[0].warning.is_none());
}

#[test]
fn no_outputs_means_no_bars() {
    assert!(surface_specs(&snapshot(Vec::new()), &AppConfig::default(), None).is_empty());
}

#[test]
fn bar_window_width_matches_monitor_width_minus_layer_margins() {
    assert_eq!(bar_window_width_for_monitor_width(3_840), 3_830);
    assert_eq!(bar_window_width_for_monitor_width(1), 1);
    assert_eq!(bar_window_width_for_monitor_width(i32::MIN), 1);
}

#[test]
fn system_modules_open_their_control_center_page() {
    assert_eq!(control_focus(SystemModuleId::Clock), ControlCenterFocus::Clock);
    assert_eq!(control_focus(SystemModuleId::Keyboard), ControlCenterFocus::Keyboard);
}

#[test]
fn render_plan_skips_workspace_rebuilds_for_clock_only_changes() {
    let previous = SurfaceSpec {
        output_name: "DP-5".to_string(),
        role: OutputRole::Primary,
        workspaces: vec![WorkspaceButtonSpec {
            id: "1".to_string(),
            label: "1".to_string(),
            active: true,
            urgent: false,
        }],
        title: TitleSpec {
            app: "editor".to_string(),
            text: "Editor".to_string(),
            window_groups: Vec::new(),
        },
        context: None,
        warning: None,
        system: None,
        clock_label: "12:00".to_string(),
    };
    let next = SurfaceSpec {
        clock_label: "12:01".to_string(),
        ..previous.clone()
    };

    let plan = RenderPlan::between(Some(&previous), &next);

    assert!(!plan.workspaces);
    assert!(!plan.title);
    assert!(plan.clock);
}

fn plain_surface() -> SurfaceSpec {
    SurfaceSpec {
        output_name: "DP-5".to_string(),
        role: OutputRole::Reduced,
        workspaces: vec![WorkspaceButtonSpec {
            id: "1".to_string(),
            label: "1".to_string(),
            active: true,
            urgent: false,
        }],
        title: TitleSpec { app: "editor".to_string(), text: "Editor".to_string(), window_groups: Vec::new() },
        context: None,
        warning: None,
        system: None,
        clock_label: "12:00".to_string(),
    }
}

#[test]
fn render_plan_draws_everything_first_and_nothing_for_an_equal_spec() {
    let spec = plain_surface();
    let first = RenderPlan::between(None, &spec);
    assert!(first.workspaces && first.title && first.context && first.warning && first.system && first.clock);
    assert_eq!(RenderPlan::between(Some(&spec), &spec.clone()), RenderPlan::default());
}

#[test]
fn render_plan_names_each_changed_part() {
    let previous = plain_surface();
    let mut next = previous.clone();
    next.workspaces[0].active = false;
    next.title.text = "Terminal".to_string();
    next.warning = Some(WarningSpec { text: "Battery 4%".to_string(), tier: ContextTier::Critical });
    let plan = RenderPlan::between(Some(&previous), &next);
    assert!(plan.workspaces && plan.title && plan.warning);
    assert!(!plan.context && !plan.system && !plan.clock);

    let mut with_card = previous.clone();
    with_card.context = Some(ContextSpec {
        card: ContextCard::Battery { percent: 12, charging: false, tier: ContextTier::Imminent },
        icon_name: "battery-low-symbolic".to_string(),
        text: "12%".to_string(),
        tier: ContextTier::Imminent,
    });
    let mut other_card = with_card.clone();
    other_card.context = Some(ContextSpec {
        card: ContextCard::Battery { percent: 11, charging: false, tier: ContextTier::Imminent },
        icon_name: "battery-low-symbolic".to_string(),
        text: "12%".to_string(),
        tier: ContextTier::Imminent,
    });
    assert!(RenderPlan::between(Some(&with_card), &other_card).context);
    assert!(!RenderPlan::between(Some(&with_card), &with_card.clone()).context);
}

use dotfiles_tools::state::{AppConfig, BarSnapshot, OutputState, WindowState, WorkspaceState};
use dotfiles_tools::wm::{select_primary_output, title_for_output, window_groups};

fn workspace(id: &str, label: &str, active: bool) -> WorkspaceState {
    WorkspaceState {
        id: id.to_string(),
        label: label.to_string(),
        output: String::new(),
        active,
        urgent: false,
        changed_at: 0,
    }
}

fn window(title: &str, app_id: Option<&str>) -> WindowState {
    WindowState {
        id: "w1".to_string(),
        app_id: app_id.map(str::to_string),
        title: title.to_string(),
        urgent: false,
        workspace_id: None,
        changed_at: 0,
    }
}

fn output(name: &str, workspaces: Vec<WorkspaceState>, focused: Option<WindowState>) -> OutputState {
    OutputState {
        name: name.to_string(),
        workspaces,
        windows: Vec::new(),
        focused_window: focused,
        urgent: false,
        changed_at: 0,
    }
}

fn snapshot(names: &[&str], focused: Option<&str>) -> BarSnapshot {
    BarSnapshot {
        outputs: names.iter().map(|n| output(n, Vec::new(), None)).collect(),
        focused_output: focused.map(str::to_string),
        ..BarSnapshot::default()
    }
}

#[test]
fn primary_output_prefers_configured_then_focused_then_first() {
    let config = AppConfig::default();
    assert_eq!(
        select_primary_output(&snapshot(&["DP-5", "HDMI-A-1"], Some("HDMI-A-1")), &config),
        Some("DP-5".to_string())
    );
    assert_eq!(
        select_primary_output(&snapshot(&["DP-1", "HDMI-A-1"], Some("HDMI-A-1")), &config),
        Some("HDMI-A-1".to_string())
    );
    assert_eq!(
        select_primary_output(&snapshot(&["DP-1", "HDMI-A-1"], Some("eDP-1")), &config),
        Some("DP-1".to_string())
    );
    assert_eq!(select_primary_output(&snapshot(&[], Some("DP-5")), &config), None);
}

#[test]
fn title_prefers_window_title_then_app_id_then_workspace_then_output() {
    let ws = vec![workspace("1", "one", false), workspace("2", "two", true)];
    assert_eq!(title_for_output(&output("DP-1", ws.clone(), Some(window("Editor", Some("code"))))), "Editor");
    assert_eq!(title_for_output(&output("DP-1", ws.clone(), Some(window("  ", Some("code"))))), "code");
    assert_eq!(title_for_output(&output("DP-1", ws.clone(), Some(window(" ", Some(" "))))), "two");
    assert_eq!(title_for_output(&output("DP-1", vec![workspace("1", "one", false)], None)), "one");
    assert_eq!(title_for_output(&output("DP-1", Vec::new(), None)), "DP-1");
}

#[test]
fn window_groups_cover_outputs_with_a_focused_window() {
    let snapshot = BarSnapshot {
        outputs: vec![
            output("DP-1", vec![workspace("1", "one", true)], Some(window("", None))),
            output("DP-2", Vec::new(), None),
            output("DP-3", Vec::new(), Some(window("Mail", Some("thunderbird")))),
        ],
        ..BarSnapshot::default()
    };
    let groups = window_groups(&snapshot);
    assert_eq!(groups.len(), 2);
    assert_eq!(groups[0].output_name, "DP-1");
    assert_eq!(groups[0].workspace_id.as_deref(), Some("1"));
    assert_eq!(groups[0].workspace_label, "one");
    assert_eq!(groups[0].windows.len(), 1);
    assert_eq!(groups[0].windows[0].title, "Window");
    assert!(groups[0].windows[0].focused);
    assert_eq!(groups[1].output_name, "DP-3");
    assert_eq!(groups[1].workspace_id, None);
    assert_eq!(groups[1].workspace_label, "DP-3");
    assert_eq!(groups[1].windows[0].title, "Mail");
    assert_eq!(groups[1].windows[0].app_id.as_deref(), Some("thunderbird"));
}

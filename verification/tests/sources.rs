use dotfiles_tools::model::{
    Action, PasswordOperation, PowerOperation, QueryInput, ResultItem, SearchMode, SourceFilter,
    WindowFocusTarget,
};
use dotfiles_tools::prediction::{PredictionStore, StoredPrediction};
use dotfiles_tools::search::{
    no_results_item, window_focus_command, window_result_item, AppEntry, BookmarkEntry, PassEntry, RecentFileEntry,
    WindowEntry,
};
use dotfiles_tools::sources::{parse_file_search_line, FileSearchBackend, OutsideResults, Sources};

const NOW: u64 = 1_780_000_000;

fn empty_sources() -> Sources {
    Sources {
        apps: Vec::new(),
        ssh_hosts: Vec::new(),
        pass_entries: Vec::new(),
        commands: Vec::new(),
        bookmarks: Vec::new(),
        recent_files: Vec::new(),
        file_search_backend: None,
        pass_available: false,
        qalc_available: false,
        predictions: PredictionStore::disabled(),
    }
}

fn nothing_fetched() -> OutsideResults {
    OutsideResults { windows: Vec::new(), file_lines: None, calc_output: None }
}

fn prediction_store_with(prediction: StoredPrediction, now: u64) -> PredictionStore {
    let mut store = PredictionStore::disabled();
    store.record(prediction, now);
    store
}

fn search(sources: &Sources, raw: &str, mode: SearchMode) -> Vec<ResultItem> {
    sources.search(raw, mode, NOW, &nothing_fetched())
}

#[test]
fn indexed_paths_are_uri_decoded() {
    let line = "file:///tmp/with%20space%23hash.txt";
    assert_eq!(parse_file_search_line(line).as_deref(), Some("/tmp/with space#hash.txt"));
}

#[test]
fn builds_native_focus_command_for_hyprland_window() {
    let (program, args) = window_focus_command(&WindowFocusTarget::Hyprland {
        address: "0xabc".to_string(),
        xwayland: false,
    });

    assert_eq!(program, "hyprctl");
    assert_eq!(args, vec!["dispatch", "focuswindow", "address:0xabc"]);
}

#[test]
fn builds_native_focus_command_for_niri_window() {
    let (program, args) = window_focus_command(&WindowFocusTarget::Niri { id: 42 });

    assert_eq!(program, "niri");
    assert_eq!(args, vec!["msg", "action", "focus-window", "--id", "42"]);
}

#[test]
fn builds_focus_command_for_x11_window() {
    let (program, args) = window_focus_command(&WindowFocusTarget::X11 { window_id: "12345".to_string() });

    assert_eq!(program, "xdotool");
    assert_eq!(args, vec!["windowactivate", "--sync", "12345"]);
}

#[test]
fn search_returns_status_item_when_no_matches_exist() {
    let sources = empty_sources();

    let results = search(&sources, "unlikely-query", SearchMode::Apps);
    assert_eq!(results.len(), 1);
    assert_eq!(results[0].source, "Status");
    assert!(matches!(results[0].action, Action::Nothing));
}

#[test]
fn bare_urls_surface_as_browser_results_in_all_mode() {
    let sources = empty_sources();

    let results = search(&sources, "example.com/docs", SearchMode::All);
    assert!(matches!(
        results.first().map(|item| &item.action),
        Some(Action::OpenUrl { url }) if url == "https://example.com/docs"
    ));
}

#[test]
fn no_results_item_uses_mode_specific_guidance() {
    let item = no_results_item(&QueryInput {
        mode: SearchMode::Files,
        source_filter: SourceFilter::All,
        text: "report".to_string(),
    });

    assert_eq!(item.title, "No matches for \"report\"");
    assert!(item.subtitle.contains("file indexer"));
    assert!(matches!(item.action, Action::Nothing));
}

#[test]
fn file_mode_requires_a_minimum_query_length_before_shelling_out() {
    let sources = Sources { file_search_backend: Some(FileSearchBackend::LocalSearch), ..empty_sources() };

    let query = QueryInput::parse("/ a", SearchMode::All);
    assert_eq!(sources.file_search_request(&query), None);
    let results = search(&sources, "/ a", SearchMode::All);
    assert_eq!(results.len(), 1);
    assert_eq!(results[0].source, "Files");
    assert_eq!(results[0].title, "Keep typing to search files");
    assert!(matches!(results[0].action, Action::Nothing));
}

#[test]
fn all_mode_password_matches_default_to_autotype_login() {
    let sources = Sources {
        pass_entries: vec![PassEntry { name: "github/work".to_string(), search_blob: "github/work".to_string() }],
        pass_available: true,
        ..empty_sources()
    };

    let results = search(&sources, "pass: github", SearchMode::All);
    assert!(matches!(
        results.first().map(|item| &item.action),
        Some(Action::Password {
            entry,
            operation: PasswordOperation::AutotypeLogin,
        }) if entry == "github/work"
    ));
}

#[test]
fn pass_mode_surfaces_action_rows_for_matching_entries() {
    let sources = Sources {
        pass_entries: vec![PassEntry { name: "github/work".to_string(), search_blob: "github/work".to_string() }],
        pass_available: true,
        ..empty_sources()
    };

    let results = search(&sources, "pass: github", SearchMode::All);
    let operations = results
        .iter()
        .filter_map(|item| match &item.action {
            Action::Password { operation, .. } => Some(operation),
            _ => None,
        })
        .collect::<Vec<_>>();

    assert!(operations.contains(&&PasswordOperation::AutotypeLogin));
    assert!(operations.contains(&&PasswordOperation::CopyPassword));
    assert!(operations.contains(&&PasswordOperation::CopyUsername));
    assert!(operations.contains(&&PasswordOperation::TypePassword));
    assert!(operations.contains(&&PasswordOperation::TypeUsername));
    assert!(operations.contains(&&PasswordOperation::Inspect));
}

fn browser_app(id: &str, name: &str, exe: &str, blob: &str) -> AppEntry {
    AppEntry {
        desktop_id: id.to_string(),
        name: name.to_string(),
        description: "Web browser".to_string(),
        executable: exe.to_string(),
        icon_name: exe.to_string(),
        search_blob: blob.to_string(),
    }
}

#[test]
fn learned_matches_are_boosted_in_search_results() {
    let sources = Sources {
        apps: vec![
            browser_app("alpha.desktop", "Alpha Browser", "alpha", "alpha browser web browser"),
            browser_app("beta.desktop", "Beta Browser", "beta", "beta browser web browser"),
        ],
        predictions: prediction_store_with(
            StoredPrediction {
                key: "app:beta.desktop".to_string(),
                title: "Beta Browser".to_string(),
                subtitle: "Web browser".to_string(),
                source: "Applications".to_string(),
                icon_name: "beta".to_string(),
                action: Action::LaunchApp { desktop_id: "beta.desktop".to_string() },
            },
            NOW - 60,
        ),
        ..empty_sources()
    };

    let results = search(&sources, "browser", SearchMode::Apps);

    assert_eq!(results[0].title, "Beta Browser");
}

#[test]
fn empty_all_mode_starts_with_learned_predictions() {
    let sources = Sources {
        apps: vec![AppEntry {
            desktop_id: "alpha.desktop".to_string(),
            name: "Alpha".to_string(),
            description: "First app".to_string(),
            executable: "alpha".to_string(),
            icon_name: "alpha".to_string(),
            search_blob: "alpha first app".to_string(),
        }],
        predictions: prediction_store_with(
            StoredPrediction {
                key: "cmd:git status".to_string(),
                title: "Run \"git status\"".to_string(),
                subtitle: "Execute in the background with sh -lc".to_string(),
                source: "Commands".to_string(),
                icon_name: "utilities-terminal-symbolic".to_string(),
                action: Action::RunCommand { command: "git status".to_string() },
            },
            NOW - 60,
        ),
        ..empty_sources()
    };

    let results = search(&sources, "", SearchMode::All);

    assert_eq!(results[0].source, "Commands");
    assert_eq!(results[0].title, "Run \"git status\"");
}

#[test]
fn all_mode_surfaces_command_runner_when_input_starts_with_known_command() {
    let sources = Sources { commands: vec!["systemctl".to_string()], ..empty_sources() };

    let results = search(&sources, "systemctl suspend", SearchMode::All);

    assert_eq!(results[0].title, "Run \"systemctl suspend\"");
    assert!(matches!(
        &results[0].action,
        Action::RunCommand { command } if command == "systemctl suspend"
    ));
}

#[test]
fn all_mode_surfaces_curated_power_actions() {
    let sources = empty_sources();

    let results = search(&sources, "reboot", SearchMode::All);

    assert_eq!(results[0].source, "Power");
    assert_eq!(results[0].title, "Reboot");
    assert!(matches!(
        &results[0].action,
        Action::Power { operation: PowerOperation::Reboot, confirmed: false }
    ));
}

#[test]
fn power_actions_match_common_synonyms() {
    let sources = empty_sources();

    let results = search(&sources, "sleep", SearchMode::All);

    assert_eq!(results[0].source, "Power");
    assert_eq!(results[0].title, "Suspend");
    assert!(matches!(
        &results[0].action,
        Action::Power { operation: PowerOperation::Suspend, confirmed: false }
    ));
}

#[test]
fn all_mode_searches_bookmarks_and_recent_files() {
    let sources = Sources {
        bookmarks: vec![BookmarkEntry {
            title: "Rust Documentation".to_string(),
            url: "https://doc.rust-lang.org/".to_string(),
            search_blob: "rust documentation https://doc.rust-lang.org/".to_string(),
        }],
        recent_files: vec![RecentFileEntry {
            title: "Project Plan".to_string(),
            path: "/home/robin/Documents/Project Plan.pdf".to_string(),
            modified: 20260505101112,
            search_blob: "project plan /home/robin/documents/project plan.pdf".to_string(),
        }],
        ..empty_sources()
    };

    let bookmark_results = search(&sources, "rust doc", SearchMode::All);
    assert!(matches!(
        bookmark_results.first().map(|item| &item.action),
        Some(Action::OpenUrl { url }) if url == "https://doc.rust-lang.org/"
    ));
    assert_eq!(bookmark_results[0].prediction_key.as_deref(), Some("bookmark:https://doc.rust-lang.org/"));

    let recent_results = search(&sources, "project plan", SearchMode::All);
    assert!(matches!(
        recent_results.first().map(|item| &item.action),
        Some(Action::OpenFile { path }) if path == "/home/robin/Documents/Project Plan.pdf"
    ));
    assert_eq!(
        recent_results[0].prediction_key.as_deref(),
        Some("recent:/home/robin/Documents/Project Plan.pdf")
    );
}

#[test]
fn explicit_local_prefixes_search_only_the_selected_source() {
    let sources = Sources {
        bookmarks: vec![BookmarkEntry {
            title: "Project Board".to_string(),
            url: "https://example.com/project".to_string(),
            search_blob: "project board https://example.com/project".to_string(),
        }],
        recent_files: vec![RecentFileEntry {
            title: "Project Notes".to_string(),
            path: "/home/robin/project.txt".to_string(),
            modified: 20260505101112,
            search_blob: "project notes /home/robin/project.txt".to_string(),
        }],
        ..empty_sources()
    };

    let bookmark_results = search(&sources, "bookmark: project", SearchMode::All);
    assert_eq!(bookmark_results.len(), 1);
    assert_eq!(bookmark_results[0].source, "Bookmarks");

    let recent_results = search(&sources, "recent: project", SearchMode::All);
    assert_eq!(recent_results.len(), 1);
    assert_eq!(recent_results[0].source, "Recent Files");
}

#[test]
fn empty_explicit_local_prefixes_show_instruction_rows() {
    let sources = empty_sources();

    let bookmark_results = search(&sources, "bookmark:", SearchMode::All);
    assert_eq!(bookmark_results[0].title, "Bookmark search");

    let recent_results = search(&sources, "recent:", SearchMode::All);
    assert_eq!(recent_results[0].title, "Recent file search");
}

// ---------------------------------------------------------------------------
// Further cases
// ---------------------------------------------------------------------------

fn window(title: &str, app: &str, workspace: &str, order: i64, address: &str) -> WindowEntry {
    WindowEntry {
        title: title.to_string(),
        app_name: app.to_string(),
        workspace: workspace.to_string(),
        search_blob: format!("{title} {app} workspace {workspace}").to_ascii_lowercase(),
        focus_order: order,
        focus_target: WindowFocusTarget::Hyprland { address: address.to_string(), xwayland: false },
    }
}

#[test]
fn window_mode_lists_reported_windows_by_focus_when_nothing_is_typed() {
    let sources = empty_sources();
    let outside = OutsideResults {
        windows: vec![window("editor", "kitty", "2", 0, "0xa"), window("docs", "firefox", "1", 3, "0xb")],
        file_lines: None,
        calc_output: None,
    };
    let results = sources.search("", SearchMode::Windows, NOW, &outside);
    assert_eq!(results.len(), 2);
    assert_eq!(results[0].title, "editor");
    assert_eq!(results[0].subtitle, "kitty on workspace 2");
    assert_eq!(results[0].score, 760);
    assert_eq!(results[1].score, 757);
    assert_eq!(results[0].prediction_key.as_deref(), Some("window:kitty:editor:2"));
}

#[test]
fn window_mode_without_windows_explains_itself() {
    let sources = empty_sources();
    let results = search(&sources, "", SearchMode::Windows);
    assert_eq!(results.len(), 1);
    assert_eq!(results[0].title, "No active windows found");
}

#[test]
fn typed_window_queries_score_matches_above_the_base() {
    let sources = empty_sources();
    let outside = OutsideResults {
        windows: vec![window("editor", "kitty", "2", 0, "0xa"), window("docs", "firefox", "1", 3, "0xb")],
        file_lines: None,
        calc_output: None,
    };
    let results = sources.search("~ firefox", SearchMode::All, NOW, &outside);
    assert_eq!(results.len(), 1);
    assert_eq!(results[0].title, "docs");
    assert!(matches!(&results[0].action, Action::FocusWindow { target: WindowFocusTarget::Hyprland { address, .. } } if address == "0xb"));
}

#[test]
fn file_lines_become_file_rows_named_after_the_file() {
    let sources = Sources { file_search_backend: Some(FileSearchBackend::Tracker3), ..empty_sources() };
    let query = QueryInput::parse("/ report", SearchMode::All);
    assert_eq!(sources.file_search_request(&query), Some(FileSearchBackend::Tracker3));
    let outside = OutsideResults {
        windows: Vec::new(),
        file_lines: Some(vec![
            "  ".to_string(),
            "urn:x file:///home/robin/report%202026.pdf".to_string(),
            "/home/robin/notes/report.txt".to_string(),
        ]),
        calc_output: None,
    };
    let results = sources.search("/ report", SearchMode::All, NOW, &outside);
    assert_eq!(results.len(), 2);
    assert_eq!(results[0].title, "report 2026.pdf");
    assert_eq!(results[0].subtitle, "/home/robin/report 2026.pdf");
    assert_eq!(results[0].score, 760);
    assert_eq!(results[1].title, "report.txt");
}

#[test]
fn file_mode_without_an_index_says_so() {
    let sources = empty_sources();
    let results = search(&sources, "/ report", SearchMode::All);
    assert_eq!(results.len(), 1);
    assert_eq!(results[0].title, "Indexed file search unavailable");
    assert_eq!(results[0].score, 500);
}

#[test]
fn calculator_output_becomes_a_copyable_result() {
    let sources = Sources { qalc_available: true, ..empty_sources() };
    let query = QueryInput::parse("2+2", SearchMode::All);
    assert!(sources.calc_request(&query));
    let outside = OutsideResults { windows: Vec::new(), file_lines: None, calc_output: Some(" 4\n".to_string()) };
    let results = sources.search("2+2", SearchMode::All, NOW, &outside);
    assert_eq!(results[0].title, "4");
    assert_eq!(results[0].subtitle, "Result for 2+2");
    assert_eq!(results[0].score, 1100);
    assert!(matches!(&results[0].action, Action::CopyText { text } if text == "4"));
}

#[test]
fn calculator_errors_and_plain_words_give_no_result() {
    let sources = Sources { qalc_available: true, ..empty_sources() };
    assert!(!sources.calc_request(&QueryInput::parse("hello", SearchMode::All)));
    assert!(sources.calc_request(&QueryInput::parse("= hello", SearchMode::All)));
    let outside = OutsideResults { windows: Vec::new(), file_lines: None, calc_output: Some("ERROR".to_string()) };
    let results = sources.search("= hello", SearchMode::All, NOW, &outside);
    assert_eq!(results.len(), 1);
    assert_eq!(results[0].source, "Status");
}

#[test]
fn command_mode_offers_the_typed_command_beside_matching_executables() {
    let sources = Sources { commands: vec!["git".to_string(), "gitk".to_string()], ..empty_sources() };
    let results = search(&sources, "> git", SearchMode::All);
    assert_eq!(results.len(), 3);
    assert_eq!(results[0].title, "git");
    assert_eq!(results[0].score, 1700);
    assert_eq!(results[0].subtitle, "Executable from $PATH");
    assert_eq!(results[1].title, "gitk");
    assert_eq!(results[1].score, 850 - 1 + 700);
    assert_eq!(results[2].title, "Run “git”");
    assert_eq!(results[2].score, 930);
}

#[test]
fn web_mode_ends_with_a_web_search() {
    let sources = empty_sources();
    let results = search(&sources, "? rust verus", SearchMode::All);
    assert_eq!(results.len(), 1);
    assert_eq!(results[0].title, "Search the web for “rust verus”");
    assert_eq!(results[0].score, 120);
    assert_eq!(results[0].prediction_key.as_deref(), Some("web:rust verus"));
}

#[test]
fn ssh_hosts_match_with_their_base_score() {
    let sources = Sources { ssh_hosts: vec!["prometheus".to_string(), "hermes".to_string()], ..empty_sources() };
    let results = search(&sources, "@ prom", SearchMode::All);
    assert_eq!(results.len(), 1);
    assert_eq!(results[0].title, "prometheus");
    assert_eq!(results[0].score, 850 - 6 + 720);
}

#[test]
fn missing_pass_is_reported_in_password_mode_only() {
    let sources = empty_sources();
    let results = search(&sources, "! github", SearchMode::All);
    assert_eq!(results[0].title, "pass is not installed");
    assert_eq!(results[0].score, 500);
    let all = search(&sources, "github", SearchMode::All);
    assert_eq!(all[0].source, "Status");
}

#[test]
fn recording_a_row_teaches_its_key() {
    let mut sources = empty_sources();
    let item = ResultItem {
        title: "prometheus".to_string(),
        subtitle: "Open an SSH session".to_string(),
        source: "SSH",
        icon_name: "network-server-symbolic".to_string(),
        score: 770,
        action: Action::Ssh { host: "prometheus".to_string() },
        prediction_key: Some("ssh:prometheus".to_string()),
    };
    sources.record_activation(&item, NOW);
    assert_eq!(sources.predictions.len(), 1);
    let status = ResultItem { prediction_key: Some("x".to_string()), action: Action::Nothing, ..item.clone() };
    sources.record_activation(&status, NOW);
    assert_eq!(sources.predictions.len(), 1);
}

#[test]
fn default_rows_list_apps_and_hosts() {
    let sources = Sources {
        apps: vec![browser_app("alpha.desktop", "Alpha", "alpha", "alpha")],
        ssh_hosts: vec!["prometheus".to_string()],
        ..empty_sources()
    };
    let results = search(&sources, "", SearchMode::All);
    assert_eq!(results.len(), 2);
    assert_eq!(results[0].title, "Alpha");
    assert_eq!(results[0].score, 80);
    assert_eq!(results[1].title, "prometheus");
    assert_eq!(results[1].score, 70);
}

#[test]
fn searches_show_at_most_twenty_four_rows_best_first() {
    let hosts = (0..30).map(|i| format!("host{i:02}")).collect::<Vec<_>>();
    let sources = Sources { ssh_hosts: hosts, ..empty_sources() };
    let results = search(&sources, "host", SearchMode::All);
    assert!(results.len() <= 24);
    assert_eq!(results.len(), 6);
    for pair in results.windows(2) {
        assert!(pair[0].score > pair[1].score || (pair[0].score == pair[1].score && pair[0].title <= pair[1].title));
    }
    let commands = (0..30).map(|i| format!("tool{i:02}")).collect::<Vec<_>>();
    let sources = Sources { commands, ..empty_sources() };
    let results = search(&sources, "> tool", SearchMode::All);
    assert_eq!(results.len(), 9);
    assert_eq!(results[0].title, "tool00");
}

#[test]
fn a_recorded_choice_is_boosted_by_at_least_275() {
    let mut sources = empty_sources();
    let item = ResultItem {
        title: "hermes".to_string(),
        subtitle: "Open an SSH session".to_string(),
        source: "SSH",
        icon_name: "network-server-symbolic".to_string(),
        score: 900,
        action: Action::Ssh { host: "hermes".to_string() },
        prediction_key: Some("ssh:hermes".to_string()),
    };
    sources.record_activation(&item, NOW);
    assert_eq!(sources.predictions.boost_for_key("ssh:hermes", NOW), 275);
    sources.record_activation(&item, NOW);
    assert_eq!(sources.predictions.boost_for_key("ssh:hermes", NOW), 300);
}

#[test]
fn a_focus_order_below_the_32_bit_range_is_truncated_before_scoring() {
    let far = window("editor", "kitty", "2", -4_294_967_296, "0xa");
    assert_eq!(window_result_item(&far).score, 760);
    let near = window("editor", "kitty", "2", 7, "0xa");
    assert_eq!(window_result_item(&near).score, 753);
    let late = window("editor", "kitty", "2", 5_000, "0xa");
    assert_eq!(window_result_item(&late).score, 560);
}

use dotfiles_tools::catalog::{
    parse_chromium_bookmarks_json, parse_hypr_windows_json, parse_niri_windows_json, hypr_active_target_json, niri_focused_id_json,
    app_entries, merge_bookmarks, AppInfoFields, bookmark_entry, file_uri_to_path, hypr_window_entries, niri_window_entries, parse_chromium_bookmarks,
    parse_firefox_bookmark_rows, parse_recent_files_xbel, recent_files_from_xbel, xbel_events, XmlItem, parse_xbel_timestamp, pass_entry_name, pass_entry_from_relative, file_uri_encoded_path, path_if_nonempty, ChromiumNode,
    HyprWindowFields, NiriWindowFields, XbelEvent, hypr_focus_target, x11_focus_target,
};
use dotfiles_tools::model::WindowFocusTarget;

fn s(text: &str) -> Option<String> {
    Some(text.to_string())
}

fn hypr(
    address: &str,
    class: &str,
    title: &str,
    workspace: &str,
    mapped: bool,
    hidden: bool,
    xwayland: Option<bool>,
    focus: i64,
) -> HyprWindowFields {
    HyprWindowFields {
        address: s(address),
        title: s(title),
        initial_title: None,
        class: s(class),
        initial_class: None,
        workspace_name: s(workspace),
        workspace_id: None,
        focus_history_id: Some(focus),
        mapped: Some(mapped),
        hidden: Some(hidden),
        xwayland,
    }
}

#[test]
fn hyprland_fields_make_window_entries() {
    let windows = hypr_window_entries(&vec![
        hypr("0xabc", "kitty", "editor", "2", true, false, Some(true), 3),
        hypr("0xdef", "launcher", "hidden", "special", false, true, None, 9),
    ]);

    assert_eq!(windows.len(), 1);
    assert_eq!(windows[0].title, "editor");
    assert_eq!(windows[0].app_name, "kitty");
    assert_eq!(windows[0].workspace, "2");
    assert_eq!(
        windows[0].focus_target,
        WindowFocusTarget::Hyprland { address: "0xabc".to_string(), xwayland: true }
    );
}

#[test]
fn niri_fields_make_window_entries() {
    let windows = niri_window_entries(&vec![NiriWindowFields {
        id: Some(42),
        title: s("Docs"),
        app_id: s("firefox"),
        app_id_or_class: None,
        workspace_name: None,
        workspace_id: Some(7),
        focus_order: None,
        last_focus_time: None,
    }]);

    assert_eq!(windows.len(), 1);
    assert_eq!(windows[0].title, "Docs");
    assert_eq!(windows[0].app_name, "firefox");
    assert_eq!(windows[0].workspace, "7");
    assert_eq!(windows[0].focus_target, WindowFocusTarget::Niri { id: 42 });
}

#[test]
fn hyprland_windows_fall_back_to_defaults_and_sort_by_focus() {
    let mut blank = hypr("0x1", " ", "  ", "3", true, false, None, 5);
    blank.initial_class = s("org.kde.dolphin");
    blank.focus_history_id = None;
    blank.workspace_name = None;
    blank.workspace_id = Some(-1);
    let windows = hypr_window_entries(&vec![
        blank,
        hypr("0x2", "kitty", "b-term", "1", true, false, None, 1),
        hypr("0x3", "kitty", "a-term", "1", true, false, None, 1),
    ]);
    assert_eq!(windows.len(), 3);
    assert_eq!(windows[0].title, "a-term");
    assert_eq!(windows[1].title, "b-term");
    assert_eq!(windows[2].title, "Untitled window");
    assert_eq!(windows[2].app_name, "org.kde.dolphin");
    assert_eq!(windows[2].workspace, "-1");
    assert_eq!(windows[2].focus_order, i64::MAX);
    assert_eq!(windows[2].search_blob, "untitled window org.kde.dolphin workspace -1");
}

#[test]
fn niri_windows_without_focus_keep_their_place() {
    let plain = |id: u64, title: &str| NiriWindowFields {
        id: Some(id),
        title: s(title),
        app_id: None,
        app_id_or_class: s("Term"),
        workspace_name: s("main"),
        workspace_id: Some(1),
        focus_order: None,
        last_focus_time: None,
    };
    let mut no_id = plain(0, "ghost");
    no_id.id = None;
    let windows = niri_window_entries(&vec![plain(1, "zeta"), no_id, plain(2, "alpha")]);
    assert_eq!(windows.len(), 2);
    assert_eq!(windows[0].title, "zeta");
    assert_eq!(windows[0].focus_order, 0);
    assert_eq!(windows[1].focus_order, 2);
    assert_eq!(windows[1].app_name, "Term");
    assert_eq!(windows[1].workspace, "main");
}

fn node(kind: &str, name: Option<&str>, url: Option<&str>) -> ChromiumNode {
    ChromiumNode { kind: s(kind), name: name.map(str::to_string), url: url.map(str::to_string) }
}

#[test]
fn chromium_nodes_make_bookmarks() {
    let bookmarks = parse_chromium_bookmarks(&vec![
        node("folder", None, None),
        node("url", Some("Rust"), Some("https://www.rust-lang.org/")),
        node("folder", None, None),
        node("url", Some(""), Some("https://example.com/docs")),
    ]);

    assert_eq!(bookmarks.len(), 2);
    assert_eq!(bookmarks[0].title, "Rust");
    assert_eq!(bookmarks[0].url, "https://www.rust-lang.org/");
    assert_eq!(bookmarks[1].title, "https://example.com/docs");
}

#[test]
fn parses_firefox_sqlite_rows_as_bookmarks() {
    let bookmarks = parse_firefox_bookmark_rows("Rust Docs\thttps://doc.rust-lang.org/\n\tplace:sort=8\n");

    assert_eq!(bookmarks.len(), 1);
    assert_eq!(bookmarks[0].title, "Rust Docs");
    assert_eq!(bookmarks[0].url, "https://doc.rust-lang.org/");
}

#[test]
fn bookmark_entries_trim_and_lowercase_their_text() {
    let b = bookmark_entry("  Rust Docs ", " https://Doc.rust-lang.org/ ").expect("bookmark");
    assert_eq!(b.title, "Rust Docs");
    assert_eq!(b.url, "https://Doc.rust-lang.org/");
    assert_eq!(b.search_blob, "rust docs https://doc.rust-lang.org/");
    assert!(bookmark_entry("x", "   ").is_none());
    assert!(bookmark_entry("x", "place:sort=8").is_none());
}

fn start(name: &str, attributes: &[(&str, &str)]) -> XbelEvent {
    XbelEvent::Start {
        name: name.to_string(),
        attributes: attributes.iter().map(|(k, v)| (k.to_string(), v.to_string())).collect(),
    }
}

fn end(name: &str) -> XbelEvent {
    XbelEvent::End { name: name.to_string() }
}

#[test]
fn xbel_events_make_recent_files() {
    let recents = parse_recent_files_xbel(&vec![
        start("xbel", &[]),
        start(
            "bookmark",
            &[
                ("href", "file:///home/robin/Documents/Project%20Plan.pdf"),
                ("modified", "2026-05-05T10:11:12Z"),
            ],
        ),
        start("title", &[]),
        XbelEvent::Text("Project Plan".to_string()),
        end("title"),
        end("bookmark"),
        start("bookmark", &[("href", "https://example.com"), ("modified", "2026-05-06T10:11:12Z")]),
        start("title", &[]),
        XbelEvent::Text("Remote".to_string()),
        end("title"),
        end("bookmark"),
        start(
            "bookmark",
            &[("href", "file:///home/robin/Downloads/raw.txt"), ("modified", "2026-05-04T10:11:12Z")],
        ),
        end("bookmark"),
        end("xbel"),
    ]);

    assert_eq!(recents.len(), 2);
    assert_eq!(recents[0].title, "Project Plan");
    assert_eq!(recents[0].path, "/home/robin/Documents/Project Plan.pdf");
    assert_eq!(recents[1].title, "raw.txt");
}

#[test]
fn recent_files_keep_the_newest_entry_of_each_path() {
    let recents = parse_recent_files_xbel(&vec![
        start("bookmark", &[("href", "file:///a.txt"), ("visited", "20240101")]),
        end("bookmark"),
        start("bookmark", &[("href", "file://localhost/a.txt"), ("modified", "20250101")]),
        end("bookmark"),
        start("bookmark", &[("href", "file:///b.txt"), ("modified", "garbage"), ("visited", "20260101")]),
        end("bookmark"),
    ]);
    assert_eq!(recents.len(), 2);
    assert_eq!(recents[0].path, "/a.txt");
    assert_eq!(recents[0].modified, 20250101);
    assert_eq!(recents[1].path, "/b.txt");
    assert_eq!(recents[1].modified, 0);
}

#[test]
fn xbel_timestamps_read_up_to_fourteen_digits() {
    assert_eq!(parse_xbel_timestamp("2026-05-05T10:11:12Z"), Some(20260505101112));
    assert_eq!(parse_xbel_timestamp("2026-05-05T10:11:12.123456Z"), Some(20260505101112));
    assert_eq!(parse_xbel_timestamp("2026-05"), None);
    assert_eq!(parse_xbel_timestamp("20260505"), Some(20260505));
}

#[test]
fn file_uris_map_to_absolute_local_paths() {
    assert_eq!(file_uri_to_path("file:///tmp/a%20b").as_deref(), Some("/tmp/a b"));
    assert_eq!(file_uri_to_path("file://localhost/etc/hosts").as_deref(), Some("/etc/hosts"));
    assert_eq!(file_uri_to_path("file://server/share"), None);
    assert_eq!(file_uri_to_path("https://example.com"), None);
}

#[test]
fn pass_entry_names_are_derived_from_store_paths() {
    assert_eq!(
        pass_entry_name("/tmp/store", "/tmp/store/personal/github.gpg").as_deref(),
        Some("personal/github")
    );
    assert_eq!(pass_entry_name("/tmp/store", "/tmp/store/.gpg-id"), None);
    assert_eq!(pass_entry_name("/tmp/store", "/elsewhere/a.gpg"), None);
}

#[test]
fn ssh_hosts_gather_aliases_and_known_hosts_once_each_in_order() {
    let config = "# comment\nHost work *.corp !bad build-?\n  host prometheus hermes\nHostName ignored\n";
    let known = "[gitlab.example]:2222,10.0.0.5 ssh-ed25519 AAAA\n|1|hashed ssh-rsa AAAA\n# skip\nhermes ssh-rsa AAAA\n";
    let hosts = dotfiles_tools::catalog::ssh_hosts(Some(config), Some(known), None);
    assert_eq!(hosts, vec!["10.0.0.5", "gitlab.example]", "hermes", "prometheus", "work"]);
}

#[test]
fn hosts_in_files_keep_line_order() {
    let aliases = dotfiles_tools::catalog::hosts_in_file("Host b a\nHost c\n", false);
    assert_eq!(aliases, vec!["b", "a", "c"]);
}

#[test]
fn pass_entries_are_sorted_and_matched_in_lowercase() {
    let entries = dotfiles_tools::catalog::pass_entries(&vec!["Work/GitHub".to_string(), "mail".to_string()]);
    assert_eq!(entries.len(), 2);
    assert_eq!(entries[0].name, "Work/GitHub");
    assert_eq!(entries[0].search_blob, "work/github");
    assert_eq!(entries[1].name, "mail");
}

#[test]
fn app_entries_fill_defaults_and_sort_by_name() {
    let apps = app_entries(&vec![
        AppInfoFields {
            desktop_id: "z.desktop".to_string(),
            name: "Zed".to_string(),
            description: None,
            executable: "zed".to_string(),
            icon_name: None,
        },
        AppInfoFields {
            desktop_id: "a.desktop".to_string(),
            name: "Alacritty".to_string(),
            description: Some("Terminal".to_string()),
            executable: "alacritty".to_string(),
            icon_name: Some("Alacritty".to_string()),
        },
    ]);
    assert_eq!(apps[0].name, "Alacritty");
    assert_eq!(apps[0].search_blob, "alacritty terminal alacritty");
    assert_eq!(apps[1].icon_name, "application-x-executable-symbolic");
    assert_eq!(apps[1].description, "");
    assert_eq!(apps[1].search_blob, "zed  zed");
}

#[test]
fn merged_bookmarks_keep_the_first_of_each_url_sorted_by_title() {
    let b = |t: &str, u: &str| bookmark_entry(t, u).expect("bookmark");
    let merged = merge_bookmarks(&vec![
        b("rust", "https://rust-lang.org/"),
        b("Docs", "https://docs.rs/"),
        b("Rust again", "https://rust-lang.org/"),
        b("alpha", "https://a.example/"),
    ]);
    let titles = merged.iter().map(|m| m.title.as_str()).collect::<Vec<_>>();
    assert_eq!(titles, vec!["alpha", "Docs", "rust"]);
}

#[test]
fn active_hyprland_window_needs_a_real_address() {
    assert_eq!(
        hypr_focus_target(Some("0x55d1"), Some(true)),
        Some(WindowFocusTarget::Hyprland { address: "0x55d1".to_string(), xwayland: true })
    );
    assert_eq!(
        hypr_focus_target(Some("0x55d1"), None),
        Some(WindowFocusTarget::Hyprland { address: "0x55d1".to_string(), xwayland: false })
    );
    assert_eq!(hypr_focus_target(Some("0x0"), Some(false)), None);
    assert_eq!(hypr_focus_target(Some(""), Some(false)), None);
    assert_eq!(hypr_focus_target(None, Some(false)), None);
}

#[test]
fn active_x11_window_is_the_trimmed_output() {
    assert_eq!(
        x11_focus_target("  62914566\n"),
        Some(WindowFocusTarget::X11 { window_id: "62914566".to_string() })
    );
    assert_eq!(x11_focus_target(" \n"), None);
}

#[test]
fn a_store_relative_path_names_its_entry_without_the_suffix() {
    assert_eq!(pass_entry_from_relative("personal/github.gpg"), s("personal/github"));
    assert_eq!(pass_entry_from_relative(".gpg"), None);
    assert_eq!(pass_entry_from_relative("a.txt"), None);
}

#[test]
fn a_file_uri_gives_its_encoded_path() {
    assert_eq!(file_uri_encoded_path("file://localhost/a%20b"), s("/a%20b"));
    assert_eq!(file_uri_encoded_path("file:///tmp/x"), s("/tmp/x"));
    assert_eq!(file_uri_encoded_path("file://server/x"), None);
    assert_eq!(file_uri_encoded_path("https://example.com/"), None);
}

#[test]
fn an_empty_decoded_path_names_nothing() {
    assert_eq!(path_if_nonempty(s("")), None);
    assert_eq!(path_if_nonempty(s("/a b")), s("/a b"));
    assert_eq!(path_if_nonempty(None), None);
}

#[test]
fn an_xbel_document_is_read_into_recent_files() {
    let raw = r#"<?xml version="1.0" encoding="UTF-8"?>
<xbel version="1.0">
  <bookmark href="file:///home/robin/Documents/Project%20Plan.pdf" modified="2026-05-05T10:11:12Z">
    <title>Project Plan</title>
  </bookmark>
  <bookmark href="https://example.com" modified="2026-05-06T10:11:12Z"><title>Remote</title></bookmark>
  <bookmark href="file:///home/robin/Downloads/raw.txt" modified="2026-05-04T10:11:12Z"/>
</xbel>"#;
    let recents = recent_files_from_xbel(raw);
    assert_eq!(recents.len(), 2);
    assert_eq!(recents[0].title, "Project Plan");
    assert_eq!(recents[0].path, "/home/robin/Documents/Project Plan.pdf");
    assert_eq!(recents[1].title, "raw.txt");
}

#[test]
fn a_broken_xbel_document_keeps_what_came_before_the_error() {
    let raw = r#"<xbel><bookmark href="file:///a.txt" modified="20250101"></bookmark><bookmark href="file:///b.txt"></xbel>"#;
    let recents = recent_files_from_xbel(raw);
    assert_eq!(recents.len(), 1);
    assert_eq!(recents[0].path, "/a.txt");
}

#[test]
fn reader_events_stop_at_the_first_error() {
    let events = xbel_events(vec![
        XmlItem::Other,
        XmlItem::Event(end("title")),
        XmlItem::Failed,
        XmlItem::Event(end("bookmark")),
    ]);
    assert_eq!(events.len(), 1);
    assert!(matches!(&events[0], XbelEvent::End { name } if name == "title"));
}

#[test]
fn a_file_uri_decodes_only_complete_percent_escapes() {
    assert_eq!(file_uri_to_path("file:///a%41%zz%4").as_deref(), Some("/aA%zz%4"));
    assert_eq!(file_uri_to_path("file:///caf%C3%A9").as_deref(), Some("/café"));
    assert_eq!(file_uri_to_path("file:///bad%FF"), None);
}

#[test]
fn parses_hyprland_windows_for_switching() {
    let windows = parse_hypr_windows_json(
        r#"[
          {
            "address": "0xabc",
            "class": "kitty",
            "title": "editor",
            "workspace": {"name": "2"},
            "mapped": true,
            "hidden": false,
            "xwayland": true,
            "focusHistoryID": 3
          },
          {
            "address": "0xdef",
            "class": "launcher",
            "title": "hidden",
            "workspace": {"name": "special"},
            "mapped": false,
            "hidden": true,
            "focusHistoryID": 9
          }
        ]"#,
    )
    .expect("parse hypr window json");

    assert_eq!(windows.len(), 1);
    assert_eq!(windows[0].title, "editor");
    assert_eq!(windows[0].app_name, "kitty");
    assert_eq!(windows[0].workspace, "2");
    assert_eq!(
        windows[0].focus_target,
        WindowFocusTarget::Hyprland { address: "0xabc".to_string(), xwayland: true }
    );
}

#[test]
fn parses_niri_windows_for_switching() {
    let windows = parse_niri_windows_json(
        r#"[
          {
            "id": 42,
            "app_id": "firefox",
            "title": "Docs",
            "workspace_id": 7
          }
        ]"#,
    )
    .expect("parse niri window json");

    assert_eq!(windows.len(), 1);
    assert_eq!(windows[0].title, "Docs");
    assert_eq!(windows[0].app_name, "firefox");
    assert_eq!(windows[0].workspace, "7");
    assert_eq!(windows[0].focus_target, WindowFocusTarget::Niri { id: 42 });
}

#[test]
fn parses_chromium_bookmark_json_urls() {
    let bookmarks = parse_chromium_bookmarks_json(
        r#"{
          "roots": {
            "bookmark_bar": {
              "type": "folder",
              "children": [
                {"type": "url", "name": "Rust", "url": "https://www.rust-lang.org/"},
                {"type": "folder", "children": [
                  {"type": "url", "name": "", "url": "https://example.com/docs"}
                ]}
              ]
            }
          }
        }"#,
    );

    assert_eq!(bookmarks.len(), 2);
    assert_eq!(bookmarks[0].title, "Rust");
    assert_eq!(bookmarks[0].url, "https://www.rust-lang.org/");
    assert_eq!(bookmarks[1].title, "https://example.com/docs");
}

#[test]
fn parses_recent_files_xbel_and_skips_non_file_uris() {
    let recents = recent_files_from_xbel(
        r#"<?xml version="1.0"?>
        <xbel>
          <bookmark href="file:///home/robin/Documents/Project%20Plan.pdf" modified="2026-05-05T10:11:12Z">
            <title>Project Plan</title>
          </bookmark>
          <bookmark href="https://example.com" modified="2026-05-06T10:11:12Z">
            <title>Remote</title>
          </bookmark>
          <bookmark href="file:///home/robin/Downloads/raw.txt" modified="2026-05-04T10:11:12Z"/>
        </xbel>"#,
    );

    assert_eq!(recents.len(), 2);
    assert_eq!(recents[0].title, "Project Plan");
    assert_eq!(recents[0].path, "/home/robin/Documents/Project Plan.pdf");
    assert_eq!(recents[1].title, "raw.txt");
}

#[test]
fn json_window_text_is_trimmed_and_bad_json_is_refused() {
    let windows = parse_hypr_windows_json(
        r#"[{"address": " 0x1 ", "title": "  editor  ", "class": " ", "initialClass": "kitty",
             "workspace": {"id": 4}, "focusHistoryID": 1.5}]"#,
    )
    .expect("json");
    assert_eq!(windows.len(), 1);
    assert_eq!(windows[0].title, "editor");
    assert_eq!(windows[0].app_name, "kitty");
    assert_eq!(windows[0].workspace, "4");
    assert_eq!(windows[0].focus_order, i64::MAX);
    assert_eq!(
        windows[0].focus_target,
        WindowFocusTarget::Hyprland { address: "0x1".to_string(), xwayland: false }
    );
    assert!(parse_hypr_windows_json("{\"not\": \"a list\"}").expect("json").is_empty());
    assert!(parse_hypr_windows_json("[").is_none());
    assert!(parse_niri_windows_json("not json").is_none());
    assert!(parse_chromium_bookmarks_json("{").is_empty());
}

#[test]
fn niri_windows_without_an_id_are_skipped_and_order_falls_back_to_position() {
    let windows = parse_niri_windows_json(
        r#"[{"id": 5, "title": "b", "app_id_or_class": "Term", "workspace_name": "main"},
            {"title": "no id"},
            {"id": 6, "title": "a", "last_focus_time": 0}]"#,
    )
    .expect("json");
    assert_eq!(windows.len(), 2);
    assert_eq!(windows[0].title, "a");
    assert_eq!(windows[0].focus_order, 0);
    assert_eq!(windows[1].title, "b");
    assert_eq!(windows[1].focus_order, 0);
    assert_eq!(windows[1].app_name, "Term");
    assert_eq!(windows[1].workspace, "main");
}

#[test]
fn the_active_window_is_read_from_compositor_json() {
    assert_eq!(
        hypr_active_target_json(r#"{"address": " 0xabc ", "xwayland": true}"#),
        Some(Some(WindowFocusTarget::Hyprland { address: "0xabc".to_string(), xwayland: true }))
    );
    assert_eq!(hypr_active_target_json(r#"{"address": "0x0"}"#), Some(None));
    assert_eq!(hypr_active_target_json("{}"), Some(None));
    assert_eq!(hypr_active_target_json("nope"), None);
    assert_eq!(niri_focused_id_json(r#"{"id": 7}"#), Some(Some(7)));
    assert_eq!(niri_focused_id_json(r#"{"id": -1}"#), Some(None));
    assert_eq!(niri_focused_id_json(""), None);
}

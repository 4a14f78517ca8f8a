use dotfiles_tools::theme::{compose_css_text, join_path, resolve_theme_root, select_theme_file, ThemeError};

#[test]
fn theme_paths_prefer_xdg_config_home() {
    let root = resolve_theme_root(Some("/tmp/xdg"), Some("/tmp/home")).expect("xdg theme root");

    assert_eq!(root, "/tmp/xdg/cockpit-bar");
}

#[test]
fn theme_paths_fall_back_to_home_config_directory() {
    let root = resolve_theme_root(None, Some("/tmp/home")).expect("home theme root");

    assert_eq!(root, "/tmp/home/.config/cockpit-bar");
}

#[test]
fn theme_root_is_an_error_without_any_directory() {
    let err = resolve_theme_root(None, None).unwrap_err();
    assert_eq!(err, ThemeError::Unresolved);
    assert_eq!(err.message(), "failed to resolve cockpit-bar theme directory");
}

#[test]
fn joining_adds_one_separator() {
    assert_eq!(join_path("/tmp/", "a"), "/tmp/a");
    assert_eq!(join_path("/tmp", "a"), "/tmp/a");
    assert_eq!(join_path("", "a"), "a");
}

#[test]
fn theme_files_prefer_an_existing_local_file_then_the_default_root() {
    assert_eq!(select_theme_file(Some("/cfg"), Some("/xdg/cockpit-bar"), "style.css", true), "/cfg/style.css");
    assert_eq!(
        select_theme_file(Some("/cfg"), Some("/xdg/cockpit-bar"), "style.css", false),
        "/xdg/cockpit-bar/style.css"
    );
    assert_eq!(select_theme_file(Some("/cfg"), None, "colors.css", false), "/cfg/colors.css");
    assert_eq!(select_theme_file(None, None, "colors.css", false), "colors.css");
}

#[test]
fn theme_css_concatenates_stable_style_before_generated_colors() {
    let css = compose_css_text("window { min-height: 44px; }\n", "@define-color primary #123456;\n");
    assert!(css.starts_with("window { min-height: 44px; }"));
    let style = css.find("window { min-height: 44px; }").unwrap();
    let colors = css.find("@define-color primary #123456;").unwrap();
    assert!(style < colors);
}

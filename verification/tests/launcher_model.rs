use dotfiles_tools::model::{browser_target, score_text, QueryInput, SearchMode, SourceFilter};

#[test]
fn symbol_prefixes_override_the_default_mode() {
    let query = QueryInput::parse("> git status", SearchMode::Apps);
    assert_eq!(query.mode, SearchMode::Commands);
    assert_eq!(query.text, "git status");
}

#[test]
fn textual_prefixes_are_case_insensitive() {
    let query = QueryInput::parse("SSH: prod-box", SearchMode::All);
    assert_eq!(query.mode, SearchMode::Ssh);
    assert_eq!(query.text, "prod-box");
}

#[test]
fn local_source_prefixes_filter_all_mode_search() {
    let bookmark = QueryInput::parse("bookmark: rust docs", SearchMode::All);
    assert_eq!(bookmark.mode, SearchMode::All);
    assert_eq!(bookmark.source_filter, SourceFilter::Bookmarks);
    assert_eq!(bookmark.text, "rust docs");

    let recent = QueryInput::parse("RECENTS: report", SearchMode::Apps);
    assert_eq!(recent.mode, SearchMode::All);
    assert_eq!(recent.source_filter, SourceFilter::Recents);
    assert_eq!(recent.text, "report");
}

#[test]
fn pass_prefixes_override_the_default_mode() {
    let symbol_prefixed = QueryInput::parse("! github/work", SearchMode::All);
    assert_eq!(symbol_prefixed.mode, SearchMode::Pass);
    assert_eq!(symbol_prefixed.text, "github/work");

    let text_prefixed = QueryInput::parse("PASS: github/work", SearchMode::Apps);
    assert_eq!(text_prefixed.mode, SearchMode::Pass);
    assert_eq!(text_prefixed.text, "github/work");
}

#[test]
fn window_prefixes_override_the_default_mode() {
    let symbol_prefixed = QueryInput::parse("~ terminal", SearchMode::All);
    assert_eq!(symbol_prefixed.mode, SearchMode::Windows);
    assert_eq!(symbol_prefixed.text, "terminal");

    let text_prefixed = QueryInput::parse("windows: firefox", SearchMode::Apps);
    assert_eq!(text_prefixed.mode, SearchMode::Windows);
    assert_eq!(text_prefixed.text, "firefox");
}

#[test]
fn empty_symbol_prefix_keeps_the_target_mode() {
    let query = QueryInput::parse("=", SearchMode::All);
    assert_eq!(query.mode, SearchMode::Calc);
    assert!(query.text.is_empty());
}

#[test]
fn slash_without_whitespace_stays_a_plain_query() {
    let query = QueryInput::parse("/etc", SearchMode::All);
    assert_eq!(query.mode, SearchMode::All);
    assert_eq!(query.text, "/etc");
}

#[test]
fn browser_target_recognizes_full_urls() {
    assert_eq!(
        browser_target("https://example.com/docs?q=1").as_deref(),
        Some("https://example.com/docs?q=1")
    );
}

#[test]
fn browser_target_adds_https_for_bare_domains() {
    assert_eq!(
        browser_target("example.com/notes").as_deref(),
        Some("https://example.com/notes")
    );
}

#[test]
fn browser_target_rejects_plain_search_terms() {
    assert_eq!(browser_target("firefox"), None);
    assert_eq!(browser_target("two words"), None);
}

#[test]
fn slash_followed_by_space_selects_file_mode() {
    let query = QueryInput::parse("/ notes", SearchMode::Apps);
    assert_eq!(query.mode, SearchMode::Files);
    assert_eq!(query.text, "notes");
}

#[test]
fn unprefixed_queries_keep_the_cli_mode_and_are_trimmed() {
    let query = QueryInput::parse("  firefox  ", SearchMode::Apps);
    assert_eq!(query.mode, SearchMode::Apps);
    assert_eq!(query.source_filter, SourceFilter::All);
    assert_eq!(query.text, "firefox");
}

#[test]
fn score_text_orders_exact_prefix_substring_and_subsequence_matches() {
    assert_eq!(score_text("Firefox", "firefox"), Some(1_000));
    assert_eq!(score_text("Firefox", "fire"), Some(847));
    assert_eq!(score_text("Mozilla Firefox", "fire"), Some(592));
    assert_eq!(score_text("Firefox", "ffx"), Some(396));
    assert_eq!(score_text("Firefox", "zzz"), None);
    assert_eq!(score_text("anything", ""), Some(0));
}

#[test]
fn score_text_counts_utf8_bytes_like_str_len() {
    // "é" is two bytes in UTF-8
    assert_eq!(score_text("caféx", "caf"), Some(850 - 3));
}

#[test]
fn browser_target_handles_hosts_ports_and_localhost() {
    assert_eq!(browser_target("localhost:8080").as_deref(), Some("https://localhost:8080"));
    assert_eq!(browser_target("192.168.1.1").as_deref(), Some("https://192.168.1.1"));
    assert_eq!(browser_target("user@example.org:22").as_deref(), Some("https://user@example.org:22"));
    assert_eq!(browser_target("www.rust-lang.org").as_deref(), Some("https://www.rust-lang.org"));
    assert_eq!(browser_target("-bad.example"), None);
    assert_eq!(browser_target("mailto://x").as_deref(), Some("mailto://x"));
    assert_eq!(browser_target("   "), None);
}

#[test]
fn search_mode_all_includes_every_mode() {
    assert!(SearchMode::All.includes(SearchMode::Calc));
    assert!(SearchMode::Apps.includes(SearchMode::Apps));
    assert!(!SearchMode::Apps.includes(SearchMode::Web));
}

#[test]
fn parsed_text_is_trimmed_and_filters_come_with_all_sources() {
    let query = QueryInput::parse("  BOOKMARK:   rust docs  ", SearchMode::Windows);
    assert_eq!(query.mode, SearchMode::All);
    assert_eq!(query.source_filter, SourceFilter::Bookmarks);
    assert_eq!(query.text, "rust docs");
    let plain = QueryInput::parse("\t plain words \n", SearchMode::Windows);
    assert_eq!(plain.mode, SearchMode::Windows);
    assert_eq!(plain.source_filter, SourceFilter::All);
    assert_eq!(plain.text, "plain words");
}

#[test]
fn a_browser_target_opens_as_itself() {
    let target = browser_target("  example.com/docs ").expect("host");
    assert_eq!(target, "https://example.com/docs");
    assert_eq!(browser_target(&target), Some(target.clone()));
    let uri = browser_target("mailto://robin@example.com").expect("uri");
    assert_eq!(browser_target(&uri), Some(uri.clone()));
}

#[test]
fn ascii_case_never_changes_a_score() {
    assert_eq!(score_text("Firefox Web Browser", "fire"), score_text("FIREFOX WEB BROWSER", "FIRE"));
    assert_eq!(score_text("firefox", "FireFox"), Some(1000));
    assert!(score_text("firefox nightly", "firefox").expect("prefix") < 1000);
}

#[test]
fn a_query_scores_exactly_when_it_is_a_subsequence() {
    assert!(score_text("Firefox", "ffx").is_some());
    assert!(score_text("Firefox", "FOX").is_some());
    assert!(score_text("Firefox", "xf").is_none());
    assert_eq!(score_text("anything", ""), Some(0));
}

use dotfiles_tools::launcher::{
    password_plan, plan_action, ActionPlan, PasswordPlan, PasswordPlanError,
    action_failure_result, custom_autotype_steps, default_ssh_terminal, inspected_password_results,
    placeholder_for_mode, row_tooltip_text, ssh_wrapper_path, web_search_url, AutotypeError, next_selection,
};
use dotfiles_tools::model::{Action, PasswordOperation, ResultItem, SearchMode};
use dotfiles_tools::password::{parse_credential, TypeStep};

#[test]
fn falls_back_to_kitty_without_wrapper() {
    assert_eq!(default_ssh_terminal(None, false), "kitty");
}

#[test]
fn prefers_the_wrapper_only_when_it_is_executable() {
    assert_eq!(default_ssh_terminal(Some("/home/robin"), true), "/home/robin/.dotfiles/scripts/launch_kitty.sh");
    assert_eq!(default_ssh_terminal(Some("/home/robin"), false), "kitty");
    assert_eq!(ssh_wrapper_path("/home/robin/"), "/home/robin/.dotfiles/scripts/launch_kitty.sh");
}

#[test]
fn action_failures_render_as_status_results() {
    let item = action_failure_result("permission denied");

    assert_eq!(item.title, "Action failed: permission denied");
    assert!(matches!(item.action, Action::Nothing));
    assert_eq!(item.source, "Status");
    assert!(item.subtitle.is_empty());
}

#[test]
fn row_tooltip_preserves_hidden_result_details() {
    let item = ResultItem {
        prediction_key: None,
        title: "Firefox".to_string(),
        subtitle: "Web Browser".to_string(),
        source: "Applications",
        icon_name: "firefox".to_string(),
        score: 100,
        action: Action::Nothing,
    };

    assert_eq!(row_tooltip_text(&item).as_deref(), Some("Web Browser\nApplications"));
    let blank = ResultItem { subtitle: "  ".to_string(), source: "", ..item.clone() };
    assert_eq!(row_tooltip_text(&blank), None);
    let only_source = ResultItem { subtitle: String::new(), ..item };
    assert_eq!(row_tooltip_text(&only_source).as_deref(), Some("Applications"));
}

#[test]
fn inspected_password_results_include_metadata_specific_actions() {
    let credential = parse_credential(
        "github/work",
        "secret\nuser: robin\nurl: https://github.com\notpauth://totp/GitHub:robin?secret=ABC\nautotype: user :tab pass\n",
    )
    .expect("credential");

    let operations = inspected_password_results(&credential)
        .into_iter()
        .filter_map(|item| match item.action {
            Action::Password { operation, .. } => Some(operation),
            _ => None,
        })
        .collect::<Vec<_>>();

    assert!(operations.contains(&PasswordOperation::OpenUrl));
    assert!(operations.contains(&PasswordOperation::CopyUrl));
    assert!(operations.contains(&PasswordOperation::CopyOtp));
    assert!(operations.contains(&PasswordOperation::TypeOtp));
    assert!(operations.contains(&PasswordOperation::CustomAutotype));
}

#[test]
fn plain_entries_offer_only_the_basic_actions() {
    let credential = parse_credential("mail", "secret\n").expect("credential");
    let rows = inspected_password_results(&credential);
    assert_eq!(rows.len(), 5);
    assert_eq!(rows[0].title, "Autotype login: mail");
    assert_eq!(rows[0].score, 1000);
    assert_eq!(rows[4].score, 920);
}

#[test]
fn custom_autotype_templates_expand_to_typing_steps() {
    let credential = parse_credential(
        "github/work",
        "secret\nuser: robin\npin: 1234\nautotype: user :tab pass :space PIN :enter :delay basename\n",
    )
    .expect("credential");
    let steps = match custom_autotype_steps("github/work", &credential, None) {
        Ok(steps) => steps,
        Err(_) => panic!("steps"),
    };
    assert_eq!(
        steps,
        vec![
            TypeStep::Text("robin".to_string()),
            TypeStep::Key("Tab"),
            TypeStep::Text("secret".to_string()),
            TypeStep::Text(" ".to_string()),
            TypeStep::Text("1234".to_string()),
            TypeStep::Key("Return"),
            TypeStep::Delay(1000),
            TypeStep::Text("work".to_string()),
        ]
    );
}

#[test]
fn custom_autotype_asks_for_the_otp_and_rejects_unknown_tokens() {
    let credential = parse_credential("site", "secret\nautotype: :otp pass :enter\n").expect("credential");
    assert!(matches!(custom_autotype_steps("site", &credential, None), Err(AutotypeError::NeedsOtp)));
    let steps = match custom_autotype_steps("site", &credential, Some("123456")) {
        Ok(steps) => steps,
        Err(_) => panic!("steps"),
    };
    assert_eq!(steps, vec![TypeStep::Text("123456".to_string()), TypeStep::Key("Return")]);

    let odd = parse_credential("site", "secret\nautotype: user bogus\n").expect("credential");
    assert!(matches!(custom_autotype_steps("site", &odd, None), Err(AutotypeError::UnknownToken(t)) if t == "bogus"));
    let none = parse_credential("site", "secret\n").expect("credential");
    assert!(matches!(custom_autotype_steps("site", &none, None), Err(AutotypeError::NoTemplate)));
}

#[test]
fn every_mode_has_a_prompt() {
    assert_eq!(placeholder_for_mode(SearchMode::Pass), "Search password-store entries");
    assert_eq!(placeholder_for_mode(SearchMode::Calc), "Evaluate a libqalculate expression");
}

#[test]
fn web_searches_percent_encode_the_query() {
    assert_eq!(web_search_url("https://duckduckgo.com/?q=", "rust verus"), "https://duckduckgo.com/?q=rust%20verus");
    assert_eq!(web_search_url("https://x/?q=", "a-b_c.d~e"), "https://x/?q=a-b_c.d~e");
    assert_eq!(web_search_url("https://x/?q=", "ü"), "https://x/?q=%C3%BC");
}

#[test]
fn actions_become_desktop_plans() {
    match plan_action(&Action::Ssh { host: "prometheus".to_string() }, "kitty", "https://duckduckgo.com/?q=") {
        ActionPlan::Spawn { program, args } => {
            assert_eq!(program, "kitty");
            assert_eq!(args, vec!["-e", "ssh", "prometheus"]);
        }
        _ => panic!("ssh spawns a terminal"),
    }
    match plan_action(&Action::RunCommand { command: "ls -la".to_string() }, "kitty", "") {
        ActionPlan::Spawn { program, args } => {
            assert_eq!(program, "sh");
            assert_eq!(args, vec!["-lc", "ls -la"]);
        }
        _ => panic!("commands run through sh"),
    }
    match plan_action(&Action::WebSearch { query: "a b".to_string() }, "kitty", "https://duckduckgo.com/?q=") {
        ActionPlan::OpenUrl { url } => assert_eq!(url, "https://duckduckgo.com/?q=a%20b"),
        _ => panic!("web searches open a URL"),
    }
    assert!(matches!(plan_action(&Action::Nothing, "kitty", ""), ActionPlan::Nothing));
}

#[test]
fn password_operations_plan_typing_and_copying() {
    let with_url = parse_credential("github/work", "secret\nuser: robin\nurl: https://github.com\n").expect("credential");
    match password_plan("github/work", &with_url, PasswordOperation::AutotypeLogin) {
        Ok(PasswordPlan::Type(steps)) => assert_eq!(
            steps,
            vec![TypeStep::Text("robin".to_string()), TypeStep::Key("Tab"), TypeStep::Text("secret".to_string())]
        ),
        _ => panic!("login is typed"),
    }
    assert!(matches!(password_plan("github/work", &with_url, PasswordOperation::CopyUrl), Ok(PasswordPlan::CopySecret(u)) if u == "https://github.com"));
    let plain = parse_credential("mail", "secret\n").expect("credential");
    assert!(matches!(password_plan("mail", &plain, PasswordOperation::OpenUrl), Err(PasswordPlanError::NoUrl)));
    let otp = parse_credential("site", "secret\nautotype: :otp :enter\n").expect("credential");
    assert!(matches!(password_plan("site", &otp, PasswordOperation::CustomAutotype), Ok(PasswordPlan::CustomAutotypeWithOtp)));
}

#[test]
fn selection_moves_within_the_rows() {
    assert_eq!(next_selection(None, 1, 5), Some(1));
    assert_eq!(next_selection(Some(4), 1, 5), Some(4));
    assert_eq!(next_selection(Some(0), -1, 5), Some(0));
    assert_eq!(next_selection(Some(2), -1, 5), Some(1));
    assert_eq!(next_selection(None, 1, 0), None);
    assert_eq!(next_selection(Some(i32::MAX), 1, 3), Some(2));
}

#[test]
fn web_search_escapes_every_unsafe_byte_in_uppercase_hex() {
    assert_eq!(web_search_url("q=", "a+b/c?"), "q=a%2Bb%2Fc%3F");
    assert_eq!(web_search_url("q=", "€"), "q=%E2%82%AC");
}

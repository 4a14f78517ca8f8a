use dotfiles_tools::password::{
    default_login_steps, fallback_username, parse_credential, wl_copy_command,
    wtype_commands_for_steps, xclip_command, xdotool_commands_for_steps, CredentialError,
    TypeStep,
};

#[test]
fn parses_standard_pass_entry_with_username_url_and_otp() {
    let credential = parse_credential(
        "github/work",
        "secret\nusername: robin\nurl: https://github.com\notpauth://totp/GitHub:robin?secret=ABC\n",
    )
    .expect("credential");

    assert_eq!(credential.password, "secret");
    assert_eq!(credential.username, "robin");
    assert_eq!(credential.url.as_deref(), Some("https://github.com"));
    assert!(credential.otp_uri.as_deref().unwrap().starts_with("otpauth://"));
}

#[test]
fn username_falls_back_to_entry_basename() {
    let credential =
        parse_credential("servers/prometheus", "secret\n").expect("credential with fallback username");

    assert_eq!(credential.username, "prometheus");
}

#[test]
fn default_login_autotype_never_submits() {
    let credential =
        parse_credential("github/work", "secret\nemail: robin@example.com\n").expect("credential");

    assert_eq!(
        default_login_steps(&credential),
        vec![
            TypeStep::Text("robin@example.com".to_string()),
            TypeStep::Key("Tab"),
            TypeStep::Text("secret".to_string()),
        ]
    );
}

#[test]
fn wtype_commands_keep_secret_text_out_of_argv() {
    let commands = wtype_commands_for_steps(&[
        TypeStep::Text("robin".to_string()),
        TypeStep::Key("Tab"),
        TypeStep::Text("secret".to_string()),
    ]);

    assert_eq!(commands.len(), 3);
    assert!(commands
        .iter()
        .flat_map(|command| command.args.iter())
        .all(|arg| !arg.contains("secret")));
    assert_eq!(commands[0].stdin.as_deref(), Some("robin"));
    assert_eq!(commands[2].stdin.as_deref(), Some("secret"));
}

#[test]
fn clipboard_command_keeps_secret_text_out_of_argv() {
    let command = wl_copy_command("secret", 15);

    assert_eq!(command.program, "wl-copy");
    assert!(!command.args.iter().any(|arg| arg.contains("secret")));
    assert_eq!(command.stdin.as_deref(), Some("secret"));
}

#[test]
fn xclip_command_keeps_secret_text_out_of_argv() {
    let command = xclip_command("secret");

    assert_eq!(command.program, "xclip");
    assert!(!command.args.iter().any(|arg| arg.contains("secret")));
    assert_eq!(command.stdin.as_deref(), Some("secret"));
}

#[test]
fn missing_password_line_is_rejected() {
    assert_eq!(parse_credential("a", "").unwrap_err(), CredentialError::MissingPassword);
    assert_eq!(parse_credential("a", "\nuser: x\n").unwrap_err(), CredentialError::MissingPassword);
}

#[test]
fn first_field_wins_and_keys_are_lowercased() {
    let credential =
        parse_credential("e", "pw\r\nUser: first\nuser: second\nWebsite: w.example\n").unwrap();
    assert_eq!(credential.password, "pw");
    assert_eq!(credential.username, "first");
    assert_eq!(credential.url.as_deref(), Some("w.example"));
    assert_eq!(
        credential.fields,
        vec![
            ("user".to_string(), "first".to_string()),
            ("website".to_string(), "w.example".to_string())
        ]
    );
}

#[test]
fn empty_user_field_falls_back_to_basename() {
    let credential = parse_credential("web/site", "pw\nuser:\nusername: other\n").unwrap();
    assert_eq!(credential.username, "site");
}

#[test]
fn fallback_username_keeps_names_ending_in_a_slash() {
    assert_eq!(fallback_username("servers/"), "servers/");
    assert_eq!(fallback_username("plain"), "plain");
}

#[test]
fn xdotool_delays_use_seconds_and_keys_use_key_command() {
    let commands = xdotool_commands_for_steps(&[
        TypeStep::Delay(1_500),
        TypeStep::Delay(1_000),
        TypeStep::Delay(250),
        TypeStep::Key("Return"),
        TypeStep::Text("pw".to_string()),
    ]);
    assert_eq!(commands[0].program, "sleep");
    assert_eq!(commands[0].args, vec!["1.5".to_string()]);
    assert_eq!(commands[1].args, vec!["1".to_string()]);
    assert_eq!(commands[2].args, vec!["0.25".to_string()]);
    assert_eq!(commands[3].args, vec!["key".to_string(), "Return".to_string()]);
    assert_eq!(commands[4].stdin.as_deref(), Some("pw"));
}

#[test]
fn wl_copy_defaults_to_fifteen_second_expiry() {
    let command = wl_copy_command("x", 0);
    assert_eq!(command.args.last().map(String::as_str), Some("15"));
    let wtype = wtype_commands_for_steps(&[TypeStep::Delay(40)]);
    assert_eq!(wtype[0].args, vec!["-s".to_string(), "40".to_string()]);
}

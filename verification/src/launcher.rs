//! The launcher window's own rules: the prompt for each mode, row tooltips,
//! failure rows, the actions of an inspected password entry, custom
//! autotype templates and the terminal that opens SSH sessions.
use vstd::prelude::*;

use crate::model::{Action, PasswordOperation, ResultItem, SearchMode};
use crate::password::{fallback_username_spec, fields_view, lookup, Credential, TypeStep};
use crate::search::{item_view, items_view, ActionView, ItemView};
use crate::text::{chars_of, lower_seq, owned, push_str, string_of, trim, trim_vec};

verus! {

pub open spec fn placeholder(mode: SearchMode) -> Seq<char> {
    match mode {
        SearchMode::All => "Search apps, files, passwords, SSH, commands, web, and calculations"@,
        SearchMode::Apps => "Launch an application"@,
        SearchMode::Windows => "Switch to an active window"@,
        SearchMode::Files => "Search files with LocalSearch"@,
        SearchMode::Ssh => "Search SSH hosts"@,
        SearchMode::Pass => "Search password-store entries"@,
        SearchMode::Commands => "Run a command"@,
        SearchMode::Web => "Search the web or open a URL"@,
        SearchMode::Calc => "Evaluate a libqalculate expression"@,
    }
}

/// The prompt shown in the search field for a mode.
pub fn placeholder_for_mode(mode: SearchMode) -> (r: &'static str)
    ensures
        r@ == placeholder(mode),
{
    match mode {
        SearchMode::All => "Search apps, files, passwords, SSH, commands, web, and calculations",
        SearchMode::Apps => "Launch an application",
        SearchMode::Windows => "Switch to an active window",
        SearchMode::Files => "Search files with LocalSearch",
        SearchMode::Ssh => "Search SSH hosts",
        SearchMode::Pass => "Search password-store entries",
        SearchMode::Commands => "Run a command",
        SearchMode::Web => "Search the web or open a URL",
        SearchMode::Calc => "Evaluate a libqalculate expression",
    }
}

/// Moving the selection by `delta` rows from `current` (the first row when
/// none is selected), held within the `count` rows; with no rows, nothing is
/// selected.
pub fn next_selection(current: Option<i32>, delta: i32, count: i32) -> (r: Option<i32>)
    ensures
        count <= 0 ==> r is None,
        count > 0 ==> r == Some(({
            let target = (match current {
                Some(c) => c as int,
                None => 0int,
            }) + delta;
            if target < 0 {
                0int
            } else if target > count - 1 {
                count - 1
            } else {
                target
            }
        }) as i32),
{
    if count <= 0 {
        return None;
    }
    let from: i64 = match current {
        Some(c) => c as i64,
        None => 0,
    };
    let target: i64 = from + delta as i64;
    let last: i64 = count as i64 - 1;
    let chosen: i64 = if target < 0 {
        0
    } else if target > last {
        last
    } else {
        target
    };
    Some(chosen as i32)
}

/// A row's tooltip: its subtitle and source, trimmed, each on a line of
/// its own, leaving out a blank one; nothing when both are blank.
pub open spec fn tooltip(subtitle: Seq<char>, source: Seq<char>) -> Option<Seq<char>> {
    let s = trim(subtitle);
    let o = trim(source);
    if s.len() == 0 && o.len() == 0 {
        None
    } else if o.len() == 0 {
        Some(s)
    } else if s.len() == 0 {
        Some(o)
    } else {
        Some(s + "\n"@ + o)
    }
}

pub fn row_tooltip_text(item: &ResultItem) -> (r: Option<String>)
    ensures
        crate::text::opt_view(r) == tooltip(item.subtitle@, item.source@),
{
    let s = trim_vec(&chars_of(item.subtitle.as_str()));
    let o = trim_vec(&chars_of(item.source));
    if s.len() == 0 && o.len() == 0 {
        None
    } else if o.len() == 0 {
        Some(string_of(&s))
    } else if s.len() == 0 {
        Some(string_of(&o))
    } else {
        let mut t = string_of(&s);
        push_str(&mut t, "\n");
        crate::text::push_all(&mut t, &o);
        Some(t)
    }
}

/// The status row shown when an action fails.
pub fn action_failure_result(message: &str) -> (r: ResultItem)
    ensures
        item_view(r) == (
            "Action failed: "@ + message@,
            Seq::<char>::empty(),
            "Status"@,
            "dialog-error-symbolic"@,
            0int,
            ActionView::Nothing,
            None::<Seq<char>>,
        ),
{
    let mut title = owned("Action failed: ");
    push_str(&mut title, message);
    ResultItem {
        prediction_key: None,
        title,
        subtitle: String::new(),
        source: "Status",
        icon_name: owned("dialog-error-symbolic"),
        score: 0,
        action: Action::Nothing,
    }
}

/// One action row of an inspected entry.
pub open spec fn inspect_row(entry: Seq<char>, title: Seq<char>, subtitle: Seq<char>, op: PasswordOperation, score: int) -> ItemView {
    (
        title + ": "@ + entry,
        subtitle,
        "Passwords"@,
        "dialog-password-symbolic"@,
        score,
        ActionView::Password { entry, operation: op },
        None,
    )
}

/// The actions of a decrypted entry: the five basic ones, then opening and
/// copying its URL, copying and typing its one-time password, and its
/// custom autotype, each only where the entry has what it needs.
pub open spec fn inspected_rows(entry: Seq<char>, has_url: bool, has_otp: bool, has_autotype: bool) -> Seq<ItemView> {
    seq![
        inspect_row(entry, "Autotype login"@, "Type username, Tab, and password without submitting"@, PasswordOperation::AutotypeLogin, 1000),
        inspect_row(entry, "Copy password"@, "Copy password and clear it after the password-store timeout"@, PasswordOperation::CopyPassword, 950),
        inspect_row(entry, "Copy username"@, "Copy username metadata or the entry basename"@, PasswordOperation::CopyUsername, 940),
        inspect_row(entry, "Type password"@, "Type only the password into the focused window"@, PasswordOperation::TypePassword, 930),
        inspect_row(entry, "Type username"@, "Type only the username into the focused window"@, PasswordOperation::TypeUsername, 920),
    ] + (if has_url {
        seq![
            inspect_row(entry, "Open URL"@, "Open this entry's URL in the default browser"@, PasswordOperation::OpenUrl, 910),
            inspect_row(entry, "Copy URL"@, "Copy this entry's URL"@, PasswordOperation::CopyUrl, 900),
        ]
    } else {
        Seq::empty()
    }) + (if has_otp {
        seq![
            inspect_row(entry, "Copy OTP"@, "Generate and copy a one-time password with pass-otp"@, PasswordOperation::CopyOtp, 890),
            inspect_row(entry, "Type OTP"@, "Generate and type a one-time password with pass-otp"@, PasswordOperation::TypeOtp, 880),
        ]
    } else {
        Seq::empty()
    }) + (if has_autotype {
        seq![inspect_row(entry, "Custom autotype"@, "Run this entry's autotype template"@, PasswordOperation::CustomAutotype, 870)]
    } else {
        Seq::empty()
    })
}

fn push_inspect_row(rows: &mut Vec<ResultItem>, entry: &str, title: &str, subtitle: &str, op: PasswordOperation, score: i32)
    ensures
        items_view(final(rows)@) == items_view(old(rows)@) + seq![inspect_row(entry@, title@, subtitle@, op, score as int)],
{
    let mut t = owned(title);
    push_str(&mut t, ": ");
    push_str(&mut t, entry);
    let item = ResultItem {
        prediction_key: None,
        title: t,
        subtitle: owned(subtitle),
        source: "Passwords",
        icon_name: owned("dialog-password-symbolic"),
        score,
        action: Action::Password { entry: owned(entry), operation: op },
    };
    let ghost before = rows@;
    rows.push(item);
    assert(items_view(rows@) =~= items_view(before) + seq![item_view(item)]);
}

/// The action rows of a decrypted entry (see `inspected_rows`).
pub fn inspected_password_results(credential: &Credential) -> (r: Vec<ResultItem>)
    ensures
        items_view(r@) == inspected_rows(
            credential.entry@,
            credential.url is Some,
            credential.otp_uri is Some,
            credential.autotype is Some,
        ),
{
    let e = credential.entry.as_str();
    let mut rows: Vec<ResultItem> = Vec::new();
    push_inspect_row(&mut rows, e, "Autotype login", "Type username, Tab, and password without submitting", PasswordOperation::AutotypeLogin, 1000);
    push_inspect_row(&mut rows, e, "Copy password", "Copy password and clear it after the password-store timeout", PasswordOperation::CopyPassword, 950);
    push_inspect_row(&mut rows, e, "Copy username", "Copy username metadata or the entry basename", PasswordOperation::CopyUsername, 940);
    push_inspect_row(&mut rows, e, "Type password", "Type only the password into the focused window", PasswordOperation::TypePassword, 930);
    push_inspect_row(&mut rows, e, "Type username", "Type only the username into the focused window", PasswordOperation::TypeUsername, 920);
    let ghost base = items_view(rows@);
    if credential.url.is_some() {
        push_inspect_row(&mut rows, e, "Open URL", "Open this entry's URL in the default browser", PasswordOperation::OpenUrl, 910);
        push_inspect_row(&mut rows, e, "Copy URL", "Copy this entry's URL", PasswordOperation::CopyUrl, 900);
    }
    let ghost with_url = items_view(rows@);
    if credential.otp_uri.is_some() {
        push_inspect_row(&mut rows, e, "Copy OTP", "Generate and copy a one-time password with pass-otp", PasswordOperation::CopyOtp, 890);
        push_inspect_row(&mut rows, e, "Type OTP", "Generate and type a one-time password with pass-otp", PasswordOperation::TypeOtp, 880);
    }
    let ghost with_otp = items_view(rows@);
    if credential.autotype.is_some() {
        push_inspect_row(&mut rows, e, "Custom autotype", "Run this entry's autotype template", PasswordOperation::CustomAutotype, 870);
    }
    assert(items_view(rows@) =~= inspected_rows(
        credential.entry@,
        credential.url is Some,
        credential.otp_uri is Some,
        credential.autotype is Some,
    ));
    rows
}

/// A typing step as plain values.
pub enum StepView {
    Text(Seq<char>),
    Key(Seq<char>),
    Delay(u64),
}

pub open spec fn step_view(t: TypeStep) -> StepView {
    match t {
        TypeStep::Text(s) => StepView::Text(s@),
        TypeStep::Key(k) => StepView::Key(k@),
        TypeStep::Delay(d) => StepView::Delay(d),
    }
}

/// Why a custom autotype template could not be turned into steps.
pub enum AutotypeError {
    /// The entry has no `autotype` field.
    NoTemplate,
    /// A token names no field of the entry.
    UnknownToken(String),
    /// The template types a one-time password and none was given.
    NeedsOtp,
}

pub enum AutotypeErrorView {
    NoTemplate,
    UnknownToken(Seq<char>),
    NeedsOtp,
}

pub open spec fn autotype_error_view(e: AutotypeError) -> AutotypeErrorView {
    match e {
        AutotypeError::NoTemplate => AutotypeErrorView::NoTemplate,
        AutotypeError::UnknownToken(t) => AutotypeErrorView::UnknownToken(t@),
        AutotypeError::NeedsOtp => AutotypeErrorView::NeedsOtp,
    }
}

/// The steps of template tokens from the `i`-th on: `:tab`, `:space`,
/// `:enter` and `:delay` type keys, a space or wait a second; `pass` and
/// `password`, `user` and `username`, `path`, `basename` and `filename`
/// type the credential; `:otp` types the one-time password (an `otp pass`
/// or `otp gopass` pair counts once); any other token types the field of
/// that name (in any ASCII case), and is an error where there is none.
pub open spec fn autotype_from(
    tokens: Seq<Seq<char>>,
    i: int,
    entry: Seq<char>,
    c: Credential,
    otp: Option<Seq<char>>,
) -> Result<Seq<StepView>, AutotypeErrorView>
    decreases tokens.len() - i,
{
    if i < 0 || i >= tokens.len() {
        Ok(Seq::empty())
    } else {
        let t = tokens[i];
        let skip_next = t == ":otp"@ && i + 1 < tokens.len() && (tokens[i + 1] == "pass"@ || tokens[i + 1] == "gopass"@);
        let next = if skip_next { i + 2 } else { i + 1 };
        let step: Result<StepView, AutotypeErrorView> = if t == ":tab"@ {
            Ok(StepView::Key("Tab"@))
        } else if t == ":space"@ {
            Ok(StepView::Text(" "@))
        } else if t == ":enter"@ {
            Ok(StepView::Key("Return"@))
        } else if t == ":delay"@ {
            Ok(StepView::Delay(1000))
        } else if t == "pass"@ || t == "password"@ {
            Ok(StepView::Text(c.password@))
        } else if t == "user"@ || t == "username"@ {
            Ok(StepView::Text(c.username@))
        } else if t == "path"@ {
            Ok(StepView::Text(entry))
        } else if t == "basename"@ || t == "filename"@ {
            Ok(StepView::Text(fallback_username_spec(entry)))
        } else if t == ":otp"@ {
            match otp {
                Some(o) => Ok(StepView::Text(o)),
                None => Err(AutotypeErrorView::NeedsOtp),
            }
        } else {
            match lookup(fields_view(c.fields@), lower_seq(t)) {
                Some(v) => Ok(StepView::Text(v)),
                None => Err(AutotypeErrorView::UnknownToken(t)),
            }
        };
        match step {
            Err(e) => Err(e),
            Ok(st) => match autotype_from(tokens, next, entry, c, otp) {
                Ok(rest) => Ok(seq![st] + rest),
                Err(e) => Err(e),
            },
        }
    }
}

/// The steps of an entry's custom autotype template (see `autotype_from`).
pub open spec fn autotype_spec(entry: Seq<char>, c: Credential, otp: Option<Seq<char>>) -> Result<Seq<StepView>, AutotypeErrorView> {
    match c.autotype {
        None => Err(AutotypeErrorView::NoTemplate),
        Some(t) => autotype_from(crate::monitor::words(t@), 0, entry, c, otp),
    }
}

/// Template tokens that type the same thing: `password` for `pass`,
/// `username` for `user`, `filename` for `basename`.
pub open spec fn autotype_synonyms(a: Seq<char>, b: Seq<char>) -> bool {
    ||| (a == "pass"@ && b == "password"@)
    ||| (a == "user"@ && b == "username"@)
    ||| (a == "basename"@ && b == "filename"@)
}

proof fn lemma_template_words_differ()
    ensures
        "pass"@ != ":otp"@, "password"@ != ":otp"@, "user"@ != ":otp"@, "username"@ != ":otp"@,
        "basename"@ != ":otp"@, "filename"@ != ":otp"@,
        "pass"@ != ":tab"@, "pass"@ != ":space"@, "pass"@ != ":enter"@, "pass"@ != ":delay"@,
        "password"@ != ":tab"@, "password"@ != ":space"@, "password"@ != ":enter"@, "password"@ != ":delay"@,
        "user"@ != ":tab"@, "user"@ != ":space"@, "user"@ != ":enter"@, "user"@ != ":delay"@,
        "username"@ != ":tab"@, "username"@ != ":space"@, "username"@ != ":enter"@, "username"@ != ":delay"@,
        "basename"@ != ":tab"@, "basename"@ != ":space"@, "basename"@ != ":enter"@, "basename"@ != ":delay"@,
        "filename"@ != ":tab"@, "filename"@ != ":space"@, "filename"@ != ":enter"@, "filename"@ != ":delay"@,
        "user"@ != "pass"@, "user"@ != "password"@, "username"@ != "pass"@, "username"@ != "password"@,
        "basename"@ != "pass"@, "basename"@ != "password"@, "filename"@ != "pass"@, "filename"@ != "password"@,
        "basename"@ != "user"@, "basename"@ != "username"@, "filename"@ != "user"@, "filename"@ != "username"@,
        "basename"@ != "path"@, "filename"@ != "path"@,
{
    reveal_strlit("pass");
    reveal_strlit("password");
    reveal_strlit("user");
    reveal_strlit("username");
    reveal_strlit("basename");
    reveal_strlit("filename");
    reveal_strlit("path");
    reveal_strlit(":otp");
    reveal_strlit(":tab");
    reveal_strlit(":space");
    reveal_strlit(":enter");
    reveal_strlit(":delay");
    assert("pass"@[0] != ":otp"@[0]);
    assert("password"@[0] != ":otp"@[0]);
    assert("user"@[0] != ":otp"@[0]);
    assert("username"@[0] != ":otp"@[0]);
    assert("basename"@[0] != ":otp"@[0]);
    assert("filename"@[0] != ":otp"@[0]);
    assert("pass"@[0] != ":tab"@[0]);
    assert("password"@[0] != ":tab"@[0]);
    assert("user"@[0] != ":tab"@[0]);
    assert("username"@[0] != ":tab"@[0]);
    assert("basename"@[0] != ":tab"@[0]);
    assert("filename"@[0] != ":tab"@[0]);
    assert("user"@[0] != "pass"@[0]);
    assert("username"@[0] != "pass"@[0]);
    assert("basename"@[0] != "pass"@[0]);
    assert("filename"@[0] != "pass"@[0]);
    assert("basename"@[0] != "user"@[0]);
    assert("filename"@[0] != "user"@[0]);
    assert("basename"@[0] != "path"@[0]);
    assert("filename"@[0] != "path"@[0]);
}

proof fn lemma_synonyms_from(
    tokens: Seq<Seq<char>>,
    k: int,
    a: Seq<char>,
    b: Seq<char>,
    i: int,
    entry: Seq<char>,
    c: Credential,
    otp: Option<Seq<char>>,
)
    requires
        0 <= k < tokens.len(),
        autotype_synonyms(a, b),
        k == 0 || tokens[k - 1] != ":otp"@,
        0 <= i,
    ensures
        autotype_from(tokens.update(k, a), i, entry, c, otp) == autotype_from(tokens.update(k, b), i, entry, c, otp),
    decreases tokens.len() - i,
{
    lemma_template_words_differ();
    let t1 = tokens.update(k, a);
    let t2 = tokens.update(k, b);
    if i < tokens.len() {
        if i + 1 <= tokens.len() {
            lemma_synonyms_from(tokens, k, a, b, i + 1, entry, c, otp);
        }
        if i + 2 <= tokens.len() {
            lemma_synonyms_from(tokens, k, a, b, i + 2, entry, c, otp);
        }
        if i == k {
            assert(t1[i] == a && t2[i] == b);
        } else {
            assert(t1[i] == t2[i]);
            if i + 1 < tokens.len() && i + 1 != k {
                assert(t1[i + 1] == t2[i + 1]);
            }
        }
    }
}

/// Synonymous template tokens type the same: writing `password` for
/// `pass`, `username` for `user` or `filename` for `basename` anywhere in a
/// template leaves its steps, or its error, unchanged (except directly
/// after `:otp`, where `pass` only names where the one-time password comes
/// from).
pub proof fn autotype_synonyms_type_the_same(
    tokens: Seq<Seq<char>>,
    k: int,
    a: Seq<char>,
    b: Seq<char>,
    entry: Seq<char>,
    c: Credential,
    otp: Option<Seq<char>>,
)
    requires
        0 <= k < tokens.len(),
        autotype_synonyms(a, b),
        k == 0 || tokens[k - 1] != ":otp"@,
    ensures
        autotype_from(tokens.update(k, a), 0, entry, c, otp) == autotype_from(tokens.update(k, b), 0, entry, c, otp),
{
    lemma_synonyms_from(tokens, k, a, b, 0, entry, c, otp);
}

proof fn lemma_autotype_shift(t: Seq<char>, rest: Seq<Seq<char>>, i: int, entry: Seq<char>, c: Credential, otp: Option<Seq<char>>)
    requires
        0 <= i,
    ensures
        autotype_from(seq![t] + rest, i + 1, entry, c, otp) == autotype_from(rest, i, entry, c, otp),
    decreases rest.len() - i,
{
    let all = seq![t] + rest;
    if i < rest.len() {
        assert(all[i + 1] == rest[i]);
        if i + 1 < rest.len() {
            assert(all[i + 2] == rest[i + 1]);
        }
        lemma_autotype_shift(t, rest, i + 1, entry, c, otp);
        if i + 2 <= rest.len() {
            lemma_autotype_shift(t, rest, i + 2, entry, c, otp);
        }
    }
}

/// The tokens `pass` and `password` type the credential's password: a
/// template starting with either types the password, then what the rest of
/// the template types (or fails as the rest does).
pub proof fn password_tokens_type_the_password(
    t: Seq<char>,
    rest: Seq<Seq<char>>,
    entry: Seq<char>,
    c: Credential,
    otp: Option<Seq<char>>,
)
    requires
        t == "pass"@ || t == "password"@,
    ensures
        autotype_from(seq![t] + rest, 0, entry, c, otp) == match autotype_from(rest, 0, entry, c, otp) {
            Ok(s) => Ok(seq![StepView::Text(c.password@)] + s),
            Err(e) => Err(e),
        },
{
    lemma_template_words_differ();
    lemma_autotype_shift(t, rest, 0, entry, c, otp);
    assert((seq![t] + rest)[0] == t);
}

/// The value of the first field of `fields` named `key`.
fn field_value(fields: &Vec<(String, String)>, key: &Vec<char>) -> (r: Option<String>)
    ensures
        crate::text::opt_view(r) == lookup(fields_view(fields@), key@),
{
    let ghost fv = fields_view(fields@);
    let mut i: usize = 0;
    while i < fields.len()
        invariant
            i <= fields@.len(),
            fv == fields_view(fields@),
            forall|j: int| 0 <= j < i ==> fv[j].0 != key@,
        decreases fields@.len() - i,
    {
        if crate::text::vec_eq(&chars_of(fields[i].0.as_str()), key) {
            proof {
                crate::password::lemma_lookup(fv, key@, i as int);
            }
            return Some(fields[i].1.clone());
        }
        i = i + 1;
    }
    proof {
        crate::password::lemma_lookup(fv, key@, i as int);
    }
    None
}

/// The typing steps of an entry's custom autotype template, given the
/// one-time password where the caller has fetched it (see `autotype_spec`).
pub fn custom_autotype_steps(entry: &str, credential: &Credential, otp: Option<&str>) -> (r: Result<Vec<TypeStep>, AutotypeError>)
    ensures
        match (r, autotype_spec(entry@, *credential, match otp { Some(o) => Some(o@), None => None })) {
            (Ok(steps), Ok(want)) => steps@.map_values(|t: TypeStep| step_view(t)) == want,
            (Err(e), Err(want)) => autotype_error_view(e) == want,
            _ => false,
        },
{
    let ghost ov: Option<Seq<char>> = match otp { Some(o) => Some(o@), None => None };
    let template = match &credential.autotype {
        None => return Err(AutotypeError::NoTemplate),
        Some(t) => t,
    };
    let tokens = crate::monitor::split_words(template.as_str());
    let ghost tv = tokens@.map_values(|w: String| w@);
    let mut steps: Vec<TypeStep> = Vec::new();
    let mut i: usize = 0;
    while i < tokens.len()
        invariant
            i <= tokens@.len() + 1,
            tv == tokens@.map_values(|w: String| w@),
            tv == crate::monitor::words(template@),
            credential.autotype == Some(*template),
            ov == match otp { Some(o) => Some(o@), None => None::<Seq<char>> },
            autotype_spec(entry@, *credential, ov) == match autotype_from(tv, i as int, entry@, *credential, ov) {
                Ok(rest) => Ok(steps@.map_values(|t: TypeStep| step_view(t)) + rest),
                Err(e) => Err(e),
            },
        decreases tokens@.len() + 1 - i,
    {
        let ghost before = steps@;
        let t = tokens[i].as_str();
        assert(tv[i as int] == t@);
        if i + 1 < tokens.len() {
            assert(tv[i + 1] == tokens@[i + 1]@);
        }
        proof {
            reveal_strlit(":tab");
            reveal_strlit(":space");
            reveal_strlit(":enter");
            reveal_strlit(":delay");
            reveal_strlit("pass");
            reveal_strlit("password");
            reveal_strlit("user");
            reveal_strlit("username");
            reveal_strlit("path");
            reveal_strlit("basename");
            reveal_strlit("filename");
            reveal_strlit(":otp");
            reveal_strlit("gopass");
            assert(":tab"@[1] == 't' && ":otp"@[1] == 'o' && "pass"@[0] == 'p' && "pass"@[2] == 's');
            assert("path"@[0] == 'p' && "path"@[2] == 't' && "user"@[0] == 'u');
            assert(":space"@[1] == 's' && ":enter"@[1] == 'e' && ":delay"@[1] == 'd' && "gopass"@[0] == 'g');
            assert("password"@[0] == 'p' && "username"@[0] == 'u' && "basename"@[0] == 'b' && "filename"@[0] == 'f');
            assert(":tab"@[0] == ':' && ":otp"@[0] == ':');
        }
        let mut next = i + 1;
        let step: TypeStep = if crate::text::str_eq(t, ":tab") {
            TypeStep::Key("Tab")
        } else if crate::text::str_eq(t, ":space") {
            TypeStep::Text(owned(" "))
        } else if crate::text::str_eq(t, ":enter") {
            TypeStep::Key("Return")
        } else if crate::text::str_eq(t, ":delay") {
            TypeStep::Delay(1000)
        } else if crate::text::str_eq(t, "pass") || crate::text::str_eq(t, "password") {
            TypeStep::Text(credential.password.clone())
        } else if crate::text::str_eq(t, "user") || crate::text::str_eq(t, "username") {
            TypeStep::Text(credential.username.clone())
        } else if crate::text::str_eq(t, "path") {
            TypeStep::Text(owned(entry))
        } else if crate::text::str_eq(t, "basename") || crate::text::str_eq(t, "filename") {
            TypeStep::Text(crate::password::fallback_username(entry))
        } else if crate::text::str_eq(t, ":otp") {
            if i + 1 < tokens.len() && (crate::text::str_eq(tokens[i + 1].as_str(), "pass") || crate::text::str_eq(
                tokens[i + 1].as_str(),
                "gopass",
            )) {
                assert(tv[i + 1] == tokens@[i + 1]@);
                next = i + 2;
            }
            match otp {
                Some(o) => TypeStep::Text(owned(o)),
                None => return Err(AutotypeError::NeedsOtp),
            }
        } else {
            let key = crate::text::lower_vec(&chars_of(t));
            match field_value(&credential.fields, &key) {
                Some(v) => TypeStep::Text(v),
                None => return Err(AutotypeError::UnknownToken(owned(t))),
            }
        };
        proof {
            if t@ == ":otp"@ && i + 1 < tv.len() && (tv[i + 1] == "pass"@ || tv[i + 1] == "gopass"@) {
                assert(next == i + 2);
            } else {
                assert(next == i + 1);
            }
        }
        steps.push(step);
        assert(steps@.map_values(|t: TypeStep| step_view(t)) =~= before.map_values(|t: TypeStep| step_view(t)).push(step_view(step)));
        proof {
            match autotype_from(tv, next as int, entry@, *credential, ov) {
                Ok(rest) => {
                    assert(before.map_values(|t: TypeStep| step_view(t)) + (seq![step_view(step)] + rest)
                        =~= steps@.map_values(|t: TypeStep| step_view(t)) + rest);
                },
                Err(e) => {},
            }
        }
        i = next;
    }
    proof {
        assert(steps@.map_values(|t: TypeStep| step_view(t)) + Seq::<StepView>::empty() =~= steps@.map_values(|t: TypeStep| step_view(t)));
    }
    Ok(steps)
}

/// Where the wrapper that opens kitty lives below a home directory
/// (`Path::join` with a relative path).
pub open spec fn wrapper_path(home: Seq<char>) -> Seq<char> {
    if home.len() == 0 || home.last() == '/' {
        home + ".dotfiles/scripts/launch_kitty.sh"@
    } else {
        home + "/"@ + ".dotfiles/scripts/launch_kitty.sh"@
    }
}

pub fn ssh_wrapper_path(home: &str) -> (r: String)
    ensures
        r@ == wrapper_path(home@),
{
    let v = chars_of(home);
    let mut p = owned(home);
    if !(v.len() == 0 || v[v.len() - 1] == '/') {
        push_str(&mut p, "/");
    }
    push_str(&mut p, ".dotfiles/scripts/launch_kitty.sh");
    p
}

/// The terminal for SSH sessions: the kitty wrapper below the home
/// directory where it is an executable file, else `kitty`.
pub fn default_ssh_terminal(home: Option<&str>, wrapper_is_executable: bool) -> (r: String)
    ensures
        r@ == (match home {
            Some(h) => if wrapper_is_executable { wrapper_path(h@) } else { "kitty"@ },
            None => "kitty"@,
        }),
{
    match home {
        Some(h) => {
            if wrapper_is_executable {
                return ssh_wrapper_path(h);
            }
            owned("kitty")
        },
        None => owned("kitty"),
    }
}

/// A byte that percent-encoding leaves as it is: an ASCII letter or digit,
/// `-`, `.`, `_` or `~`.
pub open spec fn url_safe_byte(b: u8) -> bool {
    (48 <= b <= 57) || (65 <= b <= 90) || (97 <= b <= 122) || b == 45 || b == 46 || b == 95 || b == 126
}

/// The uppercase hexadecimal digit for `d` (below 16).
pub open spec fn hex_digit_upper(d: int) -> char {
    if d < 10 {
        (48 + d) as char
    } else {
        (55 + d) as char
    }
}

/// Each byte as itself when it is safe, else as `%` and two uppercase hex
/// digits.
pub open spec fn percent_encode_bytes(bytes: Seq<u8>) -> Seq<char>
    decreases bytes.len(),
{
    if bytes.len() == 0 {
        Seq::empty()
    } else {
        let b = bytes[0];
        let head: Seq<char> = if url_safe_byte(b) {
            seq![b as char]
        } else {
            seq!['%', hex_digit_upper(b as int / 16), hex_digit_upper(b as int % 16)]
        };
        head + percent_encode_bytes(bytes.drop_first())
    }
}

/// `data` percent-encoded: its UTF-8 bytes, each safe one as itself and
/// every other as `%` and two uppercase hex digits.
pub open spec fn percent_encoded(data: Seq<char>) -> Seq<char> {
    percent_encode_bytes(vstd::utf8::encode_utf8(data))
}

/// `urlencoding::encode`: the UTF-8 bytes of `data`, each ASCII letter,
/// digit, `-`, `.`, `_` and `~` as itself and every other byte as `%` and
/// two uppercase hex digits (`percent_encoded`).
#[verifier::external_body]
fn url_encode(data: &str) -> (r: String)
    ensures
        r@ == percent_encoded(data@),
{
    urlencoding::encode(data).into_owned()
}

/// The URL that searches the web for `query`: the search base followed by
/// the percent-encoded query.
pub fn web_search_url(base: &str, query: &str) -> (r: String)
    ensures
        r@ == base@ + percent_encoded(query@),
{
    let mut url = owned(base);
    let encoded = url_encode(query);
    push_str(&mut url, encoded.as_str());
    url
}

// ---------------------------------------------------------------------------
// Carrying out a chosen row
// ---------------------------------------------------------------------------

/// What activating a row asks of the desktop.
pub enum ActionPlan {
    /// Launch the application with this desktop id.
    LaunchApp { desktop_id: String },
    /// Run this program to focus a window; failing is an error.
    FocusWindow { program: &'static str, args: Vec<String> },
    /// Open a local file with its default application.
    OpenFile { path: String },
    /// Open a URL with the default browser.
    OpenUrl { url: String },
    /// Start a program and leave it running.
    Spawn { program: String, args: Vec<String> },
    /// Decrypt the entry's password and copy it.
    CopyPassword { entry: String },
    /// Carry out a password operation on the entry.
    Password { entry: String, operation: PasswordOperation },
    /// Put this text on the clipboard.
    CopyText { text: String },
    /// Nothing to do.
    Nothing,
}

/// What activating an action does: focus, open, launch, run, copy. SSH
/// opens `terminal -e ssh HOST`, commands run as `sh -lc COMMAND`, and a web
/// search opens `search_base` followed by the encoded query.
pub fn plan_action(action: &Action, terminal: &str, search_base: &str) -> (r: ActionPlan)
    ensures
        match (*action, r) {
            (Action::LaunchApp { desktop_id }, ActionPlan::LaunchApp { desktop_id: d }) => d@ == desktop_id@,
            (Action::FocusWindow { target }, ActionPlan::FocusWindow { program, args }) => match target {
                crate::model::WindowFocusTarget::Hyprland { address, .. } => program@ == "hyprctl"@ && args@.map_values(
                    |s: String| s@,
                ) == seq!["dispatch"@, "focuswindow"@, "address:"@ + address@],
                crate::model::WindowFocusTarget::Niri { id } => program@ == "niri"@ && args@.map_values(|s: String| s@)
                    == seq!["msg"@, "action"@, "focus-window"@, "--id"@, crate::text::dec(id as nat)],
                crate::model::WindowFocusTarget::X11 { window_id } => program@ == "xdotool"@ && args@.map_values(
                    |s: String| s@,
                ) == seq!["windowactivate"@, "--sync"@, window_id@],
            },
            (Action::OpenFile { path }, ActionPlan::OpenFile { path: p }) => p@ == path@,
            (Action::Ssh { host }, ActionPlan::Spawn { program, args }) => program@ == terminal@ && args@.map_values(
                |s: String| s@,
            ) == seq!["-e"@, "ssh"@, host@],
            (Action::CopyPass { entry }, ActionPlan::CopyPassword { entry: e }) => e@ == entry@,
            (Action::Password { entry, operation }, ActionPlan::Password { entry: e, operation: o }) => e@ == entry@
                && o == operation,
            (Action::RunCommand { command }, ActionPlan::Spawn { program, args }) => program@ == "sh"@ && args@.map_values(
                |s: String| s@,
            ) == seq!["-lc"@, command@],
            (Action::WebSearch { query }, ActionPlan::OpenUrl { url }) => url@ == search_base@ + percent_encoded(query@),
            (Action::OpenUrl { url }, ActionPlan::OpenUrl { url: u }) => u@ == url@,
            (Action::CopyText { text }, ActionPlan::CopyText { text: t }) => t@ == text@,
            (Action::Power { .. }, ActionPlan::Nothing) => true,
            (Action::Nothing, ActionPlan::Nothing) => true,
            _ => false,
        },
{
    match action {
        Action::LaunchApp { desktop_id } => ActionPlan::LaunchApp { desktop_id: desktop_id.clone() },
        Action::FocusWindow { target } => {
            let (program, args) = crate::search::window_focus_command(target);
            ActionPlan::FocusWindow { program, args }
        },
        Action::OpenFile { path } => ActionPlan::OpenFile { path: path.clone() },
        Action::Ssh { host } => {
            let mut args: Vec<String> = Vec::new();
            args.push(owned("-e"));
            args.push(owned("ssh"));
            args.push(host.clone());
            assert(args@.map_values(|s: String| s@) =~= seq!["-e"@, "ssh"@, host@]);
            ActionPlan::Spawn { program: owned(terminal), args }
        },
        Action::CopyPass { entry } => ActionPlan::CopyPassword { entry: entry.clone() },
        Action::Password { entry, operation } => ActionPlan::Password { entry: entry.clone(), operation: *operation },
        Action::RunCommand { command } => {
            let mut args: Vec<String> = Vec::new();
            args.push(owned("-lc"));
            args.push(command.clone());
            assert(args@.map_values(|s: String| s@) =~= seq!["-lc"@, command@]);
            ActionPlan::Spawn { program: owned("sh"), args }
        },
        Action::WebSearch { query } => ActionPlan::OpenUrl { url: web_search_url(search_base, query.as_str()) },
        Action::OpenUrl { url } => ActionPlan::OpenUrl { url: url.clone() },
        Action::CopyText { text } => ActionPlan::CopyText { text: text.clone() },
        Action::Power { .. } => ActionPlan::Nothing,
        Action::Nothing => ActionPlan::Nothing,
    }
}

/// What a password operation does with the decrypted entry.
pub enum PasswordPlan {
    /// Refocus the previous window and type these steps.
    Type(Vec<TypeStep>),
    /// Copy this secret and clear it later.
    CopySecret(String),
    /// Open this URL.
    OpenUrl(String),
    /// Generate the one-time password, then copy it.
    CopyOtp,
    /// Generate the one-time password, then type it.
    TypeOtp,
    /// Generate the one-time password, then type the custom template.
    CustomAutotypeWithOtp,
}

/// Why a password operation cannot be carried out.
pub enum PasswordPlanError {
    /// The entry has no URL.
    NoUrl,
    /// The custom template cannot be typed.
    Autotype(AutotypeError),
}

pub open spec fn texts_view(steps: Seq<TypeStep>) -> Seq<StepView> {
    steps.map_values(|t: TypeStep| step_view(t))
}

/// The plan for a password operation on a decrypted entry (inspecting is
/// answered before any operation runs). A custom template asks for the
/// one-time password first when it types one.
pub fn password_plan(entry: &str, credential: &Credential, operation: PasswordOperation) -> (r: Result<PasswordPlan, PasswordPlanError>)
    requires
        operation != PasswordOperation::Inspect,
    ensures
        match operation {
            PasswordOperation::AutotypeLogin => r matches Ok(PasswordPlan::Type(steps)) && texts_view(steps@) == seq![
                StepView::Text(credential.username@),
                StepView::Key("Tab"@),
                StepView::Text(credential.password@),
            ],
            PasswordOperation::CopyPassword => r matches Ok(PasswordPlan::CopySecret(s)) && s@ == credential.password@,
            PasswordOperation::CopyUsername => r matches Ok(PasswordPlan::CopySecret(s)) && s@ == credential.username@,
            PasswordOperation::TypePassword => r matches Ok(PasswordPlan::Type(steps)) && texts_view(steps@) == seq![
                StepView::Text(credential.password@),
            ],
            PasswordOperation::TypeUsername => r matches Ok(PasswordPlan::Type(steps)) && texts_view(steps@) == seq![
                StepView::Text(credential.username@),
            ],
            PasswordOperation::OpenUrl => match credential.url {
                Some(u) => r matches Ok(PasswordPlan::OpenUrl(s)) && s@ == u@,
                None => r matches Err(PasswordPlanError::NoUrl),
            },
            PasswordOperation::CopyUrl => match credential.url {
                Some(u) => r matches Ok(PasswordPlan::CopySecret(s)) && s@ == u@,
                None => r matches Err(PasswordPlanError::NoUrl),
            },
            PasswordOperation::CopyOtp => r matches Ok(PasswordPlan::CopyOtp),
            PasswordOperation::TypeOtp => r matches Ok(PasswordPlan::TypeOtp),
            PasswordOperation::CustomAutotype => match autotype_spec(entry@, *credential, None) {
                Ok(want) => r matches Ok(PasswordPlan::Type(steps)) && texts_view(steps@) == want,
                Err(AutotypeErrorView::NeedsOtp) => r matches Ok(PasswordPlan::CustomAutotypeWithOtp),
                Err(e) => r matches Err(PasswordPlanError::Autotype(got)) && autotype_error_view(got) == e,
            },
            PasswordOperation::Inspect => false,
        },
{
    match operation {
        PasswordOperation::AutotypeLogin => {
            let steps = crate::password::default_login_steps(credential);
            assert(texts_view(steps@) =~= seq![
                StepView::Text(credential.username@),
                StepView::Key("Tab"@),
                StepView::Text(credential.password@),
            ]);
            Ok(PasswordPlan::Type(steps))
        },
        PasswordOperation::CopyPassword => Ok(PasswordPlan::CopySecret(credential.password.clone())),
        PasswordOperation::CopyUsername => Ok(PasswordPlan::CopySecret(credential.username.clone())),
        PasswordOperation::TypePassword => {
            let mut steps: Vec<TypeStep> = Vec::new();
            steps.push(TypeStep::Text(credential.password.clone()));
            assert(texts_view(steps@) =~= seq![StepView::Text(credential.password@)]);
            Ok(PasswordPlan::Type(steps))
        },
        PasswordOperation::TypeUsername => {
            let mut steps: Vec<TypeStep> = Vec::new();
            steps.push(TypeStep::Text(credential.username.clone()));
            assert(texts_view(steps@) =~= seq![StepView::Text(credential.username@)]);
            Ok(PasswordPlan::Type(steps))
        },
        PasswordOperation::OpenUrl => match &credential.url {
            Some(u) => Ok(PasswordPlan::OpenUrl(u.clone())),
            None => Err(PasswordPlanError::NoUrl),
        },
        PasswordOperation::CopyUrl => match &credential.url {
            Some(u) => Ok(PasswordPlan::CopySecret(u.clone())),
            None => Err(PasswordPlanError::NoUrl),
        },
        PasswordOperation::CopyOtp => Ok(PasswordPlan::CopyOtp),
        PasswordOperation::TypeOtp => Ok(PasswordPlan::TypeOtp),
        PasswordOperation::CustomAutotype => match custom_autotype_steps(entry, credential, None) {
            Ok(steps) => Ok(PasswordPlan::Type(steps)),
            Err(AutotypeError::NeedsOtp) => Ok(PasswordPlan::CustomAutotypeWithOtp),
            Err(e) => Err(PasswordPlanError::Autotype(e)),
        },
        PasswordOperation::Inspect => Err(PasswordPlanError::NoUrl),
    }
}

} // verus!

//! The launcher's sources: what each of them offers for a query, scored,
//! boosted by what was learned, and cut to its share of the list.
use vstd::prelude::*;

use crate::model::{
    lemma_score_bounds, score_spec, score_text, Action, PowerOperation, QueryInput, ResultItem,
    SearchMode, SourceFilter,
};
use crate::prediction::{best_predictions, learned_boost, NamedEntry, PredictionStore, StoredPrediction};
use crate::search::{
    instruction_result, instruction_view, item_view, items_view, keyed, password_action_results,
    password_rows, sort_results, append_items, power_id, power_operation_id, window_key,
    rest_score_fits, window_result_item, window_result_item_with_score, window_rest_score, window_row, WindowEntry,
    top, ActionView, AppEntry, BookmarkEntry, ItemView, PassEntry,
    RecentFileEntry,
};
use crate::text::{byte_len, owned, push_str};

verus! {

/// The programs that can search the file index.
#[derive(Clone, Copy, Debug, PartialEq, Eq, Structural)]
pub enum FileSearchBackend {
    LocalSearch,
    Tracker3,
}

/// Everything the launcher searches, loaded once.
pub struct Sources {
    pub apps: Vec<AppEntry>,
    pub ssh_hosts: Vec<String>,
    pub pass_entries: Vec<PassEntry>,
    pub commands: Vec<String>,
    pub bookmarks: Vec<BookmarkEntry>,
    pub recent_files: Vec<RecentFileEntry>,
    pub file_search_backend: Option<FileSearchBackend>,
    pub pass_available: bool,
    pub qalc_available: bool,
    pub predictions: PredictionStore,
}

pub const MAX_APPS: usize = 8;
pub const MAX_WINDOWS: usize = 8;
pub const MAX_FILES: usize = 8;
pub const MAX_SSH: usize = 6;
pub const MAX_PASS: usize = 8;
pub const MAX_COMMANDS: usize = 8;
pub const MAX_POWER_ACTIONS: usize = 5;
pub const MAX_BOOKMARKS: usize = 8;
pub const MAX_RECENTS: usize = 8;
pub const MIN_FILE_QUERY_CHARS: usize = 2;

/// Text short enough that a score against it fits the score type.
pub open spec fn fits(s: Seq<char>) -> bool {
    byte_len(s) < 0x8000_0000
}

/// The rows `o` stands for: none or one.
pub open spec fn opt_rows(o: Option<ItemView>) -> Seq<ItemView> {
    match o {
        Some(v) => seq![v],
        None => Seq::empty(),
    }
}

/// A match's final score: its fuzzy score, the source's base, and what was
/// learned under its key.
pub open spec fn final_score(score: int, base: int, preds: Seq<NamedEntry>, key: Seq<char>, now: u64) -> int {
    score + base + learned_boost(preds, key, now)
}

// ---------------------------------------------------------------------------
// Applications
// ---------------------------------------------------------------------------

pub open spec fn app_key(a: AppEntry) -> Seq<char> {
    "app:"@ + a.desktop_id@
}

/// An app's description, or its executable when it has none.
pub open spec fn app_subtitle(a: AppEntry) -> Seq<char> {
    if a.description@.len() == 0 {
        a.executable@
    } else {
        a.description@
    }
}

pub open spec fn app_row(a: AppEntry, score: int) -> ItemView {
    (
        a.name@,
        app_subtitle(a),
        "Applications"@,
        a.icon_name@,
        score,
        ActionView::LaunchApp { desktop_id: a.desktop_id@ },
        Some(app_key(a)),
    )
}

/// The apps whose text matches `q`, in the order they are listed.
pub open spec fn app_matches(apps: Seq<AppEntry>, q: Seq<char>, preds: Seq<NamedEntry>, now: u64) -> Seq<ItemView>
    decreases apps.len(),
{
    if apps.len() == 0 {
        Seq::empty()
    } else {
        let a = apps.last();
        app_matches(apps.drop_last(), q, preds, now) + opt_rows(
            match score_spec(a.search_blob@, q) {
                Some(s) => Some(app_row(a, final_score(s, 900, preds, app_key(a), now))),
                None => None,
            },
        )
    }
}

// ---------------------------------------------------------------------------
// SSH hosts
// ---------------------------------------------------------------------------

pub open spec fn ssh_key(host: Seq<char>) -> Seq<char> {
    "ssh:"@ + host
}

pub open spec fn ssh_row(host: Seq<char>, score: int) -> ItemView {
    (
        host,
        "Open an SSH session"@,
        "SSH"@,
        "network-server-symbolic"@,
        score,
        ActionView::Ssh { host },
        Some(ssh_key(host)),
    )
}

pub open spec fn ssh_matches(hosts: Seq<String>, q: Seq<char>, preds: Seq<NamedEntry>, now: u64) -> Seq<ItemView>
    decreases hosts.len(),
{
    if hosts.len() == 0 {
        Seq::empty()
    } else {
        let h = hosts.last()@;
        ssh_matches(hosts.drop_last(), q, preds, now) + opt_rows(
            match score_spec(h, q) {
                Some(s) => Some(ssh_row(h, final_score(s, 720, preds, ssh_key(h), now))),
                None => None,
            },
        )
    }
}

// ---------------------------------------------------------------------------
// Password-store entries
// ---------------------------------------------------------------------------

pub open spec fn pass_key(name: Seq<char>) -> Seq<char> {
    "pass:"@ + name
}

/// The password rows of every matching entry, entry by entry.
pub open spec fn pass_matches(entries: Seq<PassEntry>, q: Seq<char>, preds: Seq<NamedEntry>, now: u64, secondary: bool) -> Seq<ItemView>
    decreases entries.len(),
{
    if entries.len() == 0 {
        Seq::empty()
    } else {
        let e = entries.last();
        pass_matches(entries.drop_last(), q, preds, now, secondary) + match score_spec(e.search_blob@, q) {
            Some(s) => password_rows(e.name@, final_score(s, 880, preds, pass_key(e.name@), now), secondary),
            None => Seq::empty(),
        }
    }
}

/// The row shown in password mode when `pass` is missing.
pub open spec fn pass_missing_row() -> ItemView {
    instruction_view(
        "pass is not installed"@,
        "Install pass to search password-store entries"@,
        "Passwords"@,
        "dialog-password-symbolic"@,
        500,
    )
}

// ---------------------------------------------------------------------------
// Commands
// ---------------------------------------------------------------------------

pub open spec fn command_key(command: Seq<char>) -> Seq<char> {
    "cmd:"@ + command
}

/// The row that runs the typed text as a shell command.
pub open spec fn run_row(text: Seq<char>, title: Seq<char>, score: int) -> ItemView {
    (
        title,
        "Execute in the background with sh -lc"@,
        "Commands"@,
        "utilities-terminal-symbolic"@,
        score,
        ActionView::RunCommand { command: text },
        Some(command_key(text)),
    )
}

pub open spec fn command_row(command: Seq<char>, score: int) -> ItemView {
    (
        command,
        "Executable from $PATH"@,
        "Commands"@,
        "utilities-terminal-symbolic"@,
        score,
        ActionView::RunCommand { command },
        Some(command_key(command)),
    )
}

pub open spec fn command_matches(commands: Seq<String>, q: Seq<char>, preds: Seq<NamedEntry>, now: u64) -> Seq<ItemView>
    decreases commands.len(),
{
    if commands.len() == 0 {
        Seq::empty()
    } else {
        let c = commands.last()@;
        command_matches(commands.drop_last(), q, preds, now) + opt_rows(
            match score_spec(c, q) {
                Some(s) => Some(command_row(c, final_score(s, 700, preds, command_key(c), now))),
                None => None,
            },
        )
    }
}

/// Command mode: the typed command first, then the best eight matching
/// executables.
pub open spec fn command_mode_rows(commands: Seq<String>, q: Seq<char>, preds: Seq<NamedEntry>, now: u64) -> Seq<ItemView> {
    seq![run_row(q, "Run “"@ + q + "”"@, 930 + learned_boost(preds, command_key(q), now))]
        + top(command_matches(commands, q, preds, now), 8)
}

// ---------------------------------------------------------------------------
// Bookmarks and recent files
// ---------------------------------------------------------------------------

pub open spec fn bookmark_key(url: Seq<char>) -> Seq<char> {
    "bookmark:"@ + url
}

pub open spec fn bookmark_row(b: BookmarkEntry, score: int) -> ItemView {
    (
        b.title@,
        b.url@,
        "Bookmarks"@,
        "user-bookmarks-symbolic"@,
        score,
        ActionView::OpenUrl { url: b.url@ },
        Some(bookmark_key(b.url@)),
    )
}

pub open spec fn bookmark_matches(bookmarks: Seq<BookmarkEntry>, q: Seq<char>, preds: Seq<NamedEntry>, now: u64) -> Seq<ItemView>
    decreases bookmarks.len(),
{
    if bookmarks.len() == 0 {
        Seq::empty()
    } else {
        let b = bookmarks.last();
        bookmark_matches(bookmarks.drop_last(), q, preds, now) + opt_rows(
            match score_spec(b.search_blob@, q) {
                Some(s) => Some(bookmark_row(b, final_score(s, 830, preds, bookmark_key(b.url@), now))),
                None => None,
            },
        )
    }
}

pub open spec fn recent_key(path: Seq<char>) -> Seq<char> {
    "recent:"@ + path
}

/// The bonus of the `index`-th most recent file: 40 for the first, 5 less
/// for each after it, nothing from the eighth on.
pub open spec fn recency_bonus(index: int) -> int {
    if index < 8 {
        (8 - index) * 5
    } else {
        0
    }
}

pub open spec fn recent_row(f: RecentFileEntry, score: int) -> ItemView {
    (
        f.title@,
        f.path@,
        "Recent Files"@,
        "document-open-recent-symbolic"@,
        score,
        ActionView::OpenFile { path: f.path@ },
        Some(recent_key(f.path@)),
    )
}

pub open spec fn recent_matches(files: Seq<RecentFileEntry>, q: Seq<char>, preds: Seq<NamedEntry>, now: u64) -> Seq<ItemView>
    decreases files.len(),
{
    if files.len() == 0 {
        Seq::empty()
    } else {
        let f = files.last();
        let index = files.len() - 1;
        recent_matches(files.drop_last(), q, preds, now) + opt_rows(
            match score_spec(f.search_blob@, q) {
                Some(s) => Some(recent_row(f, final_score(s + recency_bonus(index), 790, preds, recent_key(f.path@), now))),
                None => None,
            },
        )
    }
}

// ---------------------------------------------------------------------------
// Power actions
// ---------------------------------------------------------------------------

/// The power actions, in the order they are offered.
pub open spec fn power_ops() -> Seq<PowerOperation> {
    seq![
        PowerOperation::Lock,
        PowerOperation::Suspend,
        PowerOperation::Logout,
        PowerOperation::Reboot,
        PowerOperation::Shutdown,
    ]
}

pub open spec fn power_title(op: PowerOperation) -> Seq<char> {
    match op {
        PowerOperation::Lock => "Lock"@,
        PowerOperation::Suspend => "Suspend"@,
        PowerOperation::Logout => "Logout"@,
        PowerOperation::Reboot => "Reboot"@,
        PowerOperation::Shutdown => "Shutdown"@,
    }
}

pub open spec fn power_subtitle(op: PowerOperation) -> Seq<char> {
    match op {
        PowerOperation::Lock => "Blank the screen and keep the session running"@,
        PowerOperation::Suspend => "Lock first, then suspend the machine"@,
        PowerOperation::Logout => "Close the current desktop session after confirmation"@,
        PowerOperation::Reboot => "Restart the system after confirmation"@,
        PowerOperation::Shutdown => "Power off the system after confirmation"@,
    }
}

pub open spec fn power_icon(op: PowerOperation) -> Seq<char> {
    match op {
        PowerOperation::Lock => "system-lock-screen-symbolic"@,
        PowerOperation::Suspend => "media-playback-pause-symbolic"@,
        PowerOperation::Logout => "system-log-out-symbolic"@,
        PowerOperation::Reboot => "system-reboot-symbolic"@,
        PowerOperation::Shutdown => "system-shutdown-symbolic"@,
    }
}

/// The words each power action answers to.
pub open spec fn power_terms(op: PowerOperation) -> Seq<Seq<char>> {
    match op {
        PowerOperation::Lock => seq!["lock"@, "screen lock"@, "secure"@, "power"@, "session"@],
        PowerOperation::Suspend => seq!["suspend"@, "sleep"@, "standby"@, "power"@, "session"@],
        PowerOperation::Logout => seq!["logout"@, "log out"@, "sign out"@, "exit session"@, "power"@, "session"@],
        PowerOperation::Reboot => seq!["reboot"@, "restart"@, "power"@, "session"@],
        PowerOperation::Shutdown => seq!["shutdown"@, "shut down"@, "poweroff"@, "power off"@, "power"@, "session"@],
    }
}

/// The best score of `q` against any of `terms`, if any matches.
pub open spec fn best_score(terms: Seq<Seq<char>>, q: Seq<char>) -> Option<int>
    decreases terms.len(),
{
    if terms.len() == 0 {
        None
    } else {
        match (best_score(terms.drop_last(), q), score_spec(terms.last(), q)) {
            (Some(a), Some(b)) => Some(if a < b { b } else { a }),
            (Some(a), None) => Some(a),
            (None, b) => b,
        }
    }
}

pub open spec fn power_key(op: PowerOperation) -> Seq<char> {
    "power:"@ + power_id(op)
}

pub open spec fn power_row(op: PowerOperation, score: int) -> ItemView {
    (
        power_title(op),
        power_subtitle(op),
        "Power"@,
        power_icon(op),
        score,
        ActionView::Power { operation: op, confirmed: false },
        Some(power_key(op)),
    )
}

pub open spec fn power_matches(ops: Seq<PowerOperation>, q: Seq<char>, preds: Seq<NamedEntry>, now: u64) -> Seq<ItemView>
    decreases ops.len(),
{
    if ops.len() == 0 {
        Seq::empty()
    } else {
        let op = ops.last();
        power_matches(ops.drop_last(), q, preds, now) + opt_rows(
            match best_score(power_terms(op), q) {
                Some(s) => Some(power_row(op, final_score(s, 950, preds, power_key(op), now))),
                None => None,
            },
        )
    }
}

// ---------------------------------------------------------------------------
// Windows
// ---------------------------------------------------------------------------

pub open spec fn window_matches(windows: Seq<WindowEntry>, q: Seq<char>, preds: Seq<NamedEntry>, now: u64) -> Seq<ItemView>
    decreases windows.len(),
{
    if windows.len() == 0 {
        Seq::empty()
    } else {
        let w = windows.last();
        window_matches(windows.drop_last(), q, preds, now) + opt_rows(
            match score_spec(w.search_blob@, q) {
                Some(s) => Some(window_row(w, final_score(s, 860, preds, window_key(w), now))),
                None => None,
            },
        )
    }
}

pub open spec fn windows_fit(windows: Seq<WindowEntry>) -> bool {
    forall|i: int| 0 <= i < windows.len() ==> fits(#[trigger] windows[i].search_blob@)
}

// ---------------------------------------------------------------------------
// Indexed files
// ---------------------------------------------------------------------------

/// The value of a hexadecimal digit byte, either case.
pub open spec fn hex_value(b: u8) -> Option<int> {
    if 48 <= b <= 57 {
        Some(b - 48)
    } else if 65 <= b <= 70 {
        Some(b - 55)
    } else if 97 <= b <= 102 {
        Some(b - 87)
    } else {
        None
    }
}

/// The bytes with each `%` and two hex digits replaced by the byte they
/// spell; every other byte, a `%` without two hex digits after it among
/// them, is kept.
pub open spec fn percent_decode_bytes(bytes: Seq<u8>) -> Seq<u8>
    decreases bytes.len(),
{
    if bytes.len() == 0 {
        Seq::empty()
    } else if bytes[0] == 37 && bytes.len() >= 3 && hex_value(bytes[1]) is Some && hex_value(bytes[2]) is Some {
        seq![(hex_value(bytes[1])->0 * 16 + hex_value(bytes[2])->0) as u8] + percent_decode_bytes(bytes.skip(3))
    } else {
        seq![bytes[0]] + percent_decode_bytes(bytes.skip(1))
    }
}

/// `data` percent-decoded: its UTF-8 bytes decoded as above, read back as
/// UTF-8; nothing where they are not UTF-8.
pub open spec fn percent_decoded(data: Seq<char>) -> Option<Seq<char>> {
    let bytes = percent_decode_bytes(vstd::utf8::encode_utf8(data));
    if vstd::utf8::valid_utf8(bytes) {
        Some(vstd::utf8::decode_utf8(bytes))
    } else {
        None
    }
}

/// What `Path::file_name` gives for `path`: its last component, if any.
pub uninterp spec fn path_file_name(path: Seq<char>) -> Option<Seq<char>>;

/// The position of the first space in `t`, if any.
pub open spec fn first_space(t: Seq<char>) -> Option<int> {
    if exists|i: int| 0 <= i < t.len() && t[i] == ' ' {
        Some(choose|i: int| 0 <= i < t.len() && t[i] == ' ' && forall|j: int| 0 <= j < i ==> t[j] != ' ')
    } else {
        None
    }
}

/// The path a line of the file index names: the line trimmed, past its
/// first space if it has one (trimmed again), and percent-decoded where it
/// is a `file://` URI. An empty line names nothing.
pub open spec fn file_line_path(line: Seq<char>) -> Option<Seq<char>> {
    let t = crate::text::trim(line);
    if t.len() == 0 {
        None
    } else {
        let cand = match first_space(t) {
            Some(i) => crate::text::trim(t.skip(i + 1)),
            None => t,
        };
        if crate::text::is_prefix("file://"@, cand) {
            percent_decoded(cand.skip(7))
        } else {
            Some(cand)
        }
    }
}

/// The paths the lines name, in order.
pub open spec fn file_paths(lines: Seq<Seq<char>>) -> Seq<Seq<char>>
    decreases lines.len(),
{
    if lines.len() == 0 {
        Seq::empty()
    } else {
        file_paths(lines.drop_last()) + match file_line_path(lines.last()) {
            Some(p) => seq![p],
            None => Seq::empty(),
        }
    }
}

pub open spec fn file_key(path: Seq<char>) -> Seq<char> {
    "file:"@ + path
}

/// A file's name, or the whole path where it has none.
pub open spec fn file_title(path: Seq<char>) -> Seq<char> {
    match path_file_name(path) {
        Some(n) => n,
        None => path,
    }
}

pub open spec fn file_row(path: Seq<char>, preds: Seq<NamedEntry>, now: u64) -> ItemView {
    (
        file_title(path),
        path,
        "Files"@,
        "folder-documents-symbolic"@,
        760 + learned_boost(preds, file_key(path), now),
        ActionView::OpenFile { path },
        Some(file_key(path)),
    )
}

pub open spec fn keep_typing_row() -> ItemView {
    instruction_view(
        "Keep typing to search files"@,
        "Type at least 2 characters before querying the file index"@,
        "Files"@,
        "system-search-symbolic"@,
        520,
    )
}

pub open spec fn index_unavailable_row(score: int) -> ItemView {
    instruction_view(
        "Indexed file search unavailable"@,
        "Install LocalSearch to enable indexed file search"@,
        "Files"@,
        "system-search-symbolic"@,
        score,
    )
}

/// The file rows for a query: a hint while it is shorter than two
/// characters or no index can be searched (in file mode only), else the
/// first eight paths the index answered with, none if it failed.
pub open spec fn file_results(
    backend: Option<FileSearchBackend>,
    mode: SearchMode,
    q: Seq<char>,
    lines: Option<Seq<Seq<char>>>,
    preds: Seq<NamedEntry>,
    now: u64,
) -> Seq<ItemView> {
    if q.len() < 2 {
        if mode == SearchMode::Files { seq![keep_typing_row()] } else { Seq::empty() }
    } else if backend is None {
        if mode == SearchMode::Files { seq![index_unavailable_row(500)] } else { Seq::empty() }
    } else {
        match lines {
            None => Seq::empty(),
            Some(l) => {
                let paths = file_paths(l);
                let firsts = paths.take(if paths.len() < 8 { paths.len() as int } else { 8 });
                firsts.map_values(|p: Seq<char>| file_row(p, preds, now))
            },
        }
    }
}

// ---------------------------------------------------------------------------
// Calculator, URLs, the web and typed commands
// ---------------------------------------------------------------------------

pub open spec fn calc_key(q: Seq<char>) -> Seq<char> {
    "calc:"@ + q
}

/// The calculator row for what `qalc` printed: the output trimmed, unless
/// it is empty or reads `error` in any ASCII case.
pub open spec fn calc_row(q: Seq<char>, output: Seq<char>, preds: Seq<NamedEntry>, now: u64) -> Option<ItemView> {
    let r = crate::text::trim(output);
    if r.len() == 0 || crate::text::lower_seq(r) == "error"@ {
        None
    } else {
        Some((
            r,
            "Result for "@ + q,
            "Calculator"@,
            "accessories-calculator-symbolic"@,
            1100 + learned_boost(preds, calc_key(q), now),
            ActionView::CopyText { text: r },
            Some(calc_key(q)),
        ))
    }
}

pub open spec fn url_key(url: Seq<char>) -> Seq<char> {
    "url:"@ + url
}

/// The row that opens the text as a URL, in the all and web modes.
pub open spec fn url_row(mode: SearchMode, q: Seq<char>, preds: Seq<NamedEntry>, now: u64) -> Option<ItemView> {
    if !(mode == SearchMode::All || mode == SearchMode::Web) {
        None
    } else {
        match crate::model::browser_target_spec(q) {
            None => None,
            Some(url) => Some((
                "Open "@ + url,
                "Open URL in the default browser"@,
                "Web"@,
                "web-browser-symbolic"@,
                1200 + learned_boost(preds, url_key(url), now),
                ActionView::OpenUrl { url },
                Some(url_key(url)),
            )),
        }
    }
}

pub open spec fn web_key(q: Seq<char>) -> Seq<char> {
    "web:"@ + q
}

pub open spec fn web_row(q: Seq<char>, preds: Seq<NamedEntry>, now: u64) -> ItemView {
    (
        "Search the web for “"@ + q + "”"@,
        "Open the default browser"@,
        "Web"@,
        "web-browser-symbolic"@,
        120 + learned_boost(preds, web_key(q), now),
        ActionView::WebSearch { query: q },
        Some(web_key(q)),
    )
}

/// `commands` lists `program`.
pub open spec fn lists_command(commands: Seq<String>, program: Seq<char>) -> bool {
    exists|i: int| 0 <= i < commands.len() && commands[i]@ == program
}

/// In all mode, text of two words or more whose first word is a known
/// command is offered as a command to run.
pub open spec fn typed_command_row(commands: Seq<String>, q: Seq<char>, preds: Seq<NamedEntry>, now: u64) -> Option<ItemView> {
    let w = crate::monitor::words(q);
    if w.len() >= 2 && lists_command(commands, w[0]) {
        Some(run_row(q, "Run \""@ + q + "\""@, 930 + learned_boost(preds, command_key(q), now)))
    } else {
        None
    }
}

// ---------------------------------------------------------------------------
// Before anything is typed
// ---------------------------------------------------------------------------

/// The first `n` of `s`, or all of it when shorter.
pub open spec fn first_n<T>(s: Seq<T>, n: int) -> Seq<T> {
    s.take(if s.len() < n { s.len() as int } else { n })
}

/// Windows as the compositor reports them: short enough to score, and with
/// a focus order from which a resting score can be taken.
pub open spec fn windows_ok(windows: Seq<WindowEntry>) -> bool {
    &&& windows_fit(windows)
    &&& forall|i: int| 0 <= i < windows.len() ==> rest_score_fits((#[trigger] windows[i]).focus_order)
}

pub open spec fn hint(title: Seq<char>, subtitle: Seq<char>, source: Seq<char>, icon: Seq<char>) -> ItemView {
    instruction_view(title, subtitle, source, icon, 65)
}

/// The rows offered for empty text, after the learned predictions: the
/// first apps, the open windows (window mode), the first SSH hosts, and a
/// hint on what the mode does.
pub open spec fn default_rows(s: Sources, mode: SearchMode, windows: Seq<WindowEntry>) -> Seq<ItemView> {
    let all = mode == SearchMode::All;
    (if all || mode == SearchMode::Apps {
        first_n(s.apps@, 8).map_values(|a: AppEntry| app_row(a, 80))
    } else {
        Seq::empty()
    }) + (if mode == SearchMode::Windows {
        if windows.len() == 0 {
            seq![hint("No active windows found"@, "Hyprland or Niri did not report switchable windows"@, "Windows"@, "view-grid-symbolic"@)]
        } else {
            first_n(windows, 8).map_values(|w: WindowEntry| window_row(w, window_rest_score(w.focus_order)))
        }
    } else {
        Seq::empty()
    }) + (if all || mode == SearchMode::Ssh {
        first_n(s.ssh_hosts@, 4).map_values(|h: String| ssh_row(h@, 70))
    } else {
        Seq::empty()
    }) + (if mode == SearchMode::Pass {
        if !s.pass_available {
            seq![hint("pass is not installed"@, "Install pass to search password-store entries"@, "Passwords"@, "dialog-password-symbolic"@)]
        } else if s.pass_entries@.len() == 0 {
            seq![hint("Password store is empty"@, "Add entries to ~/.password-store or set PASSWORD_STORE_DIR"@, "Passwords"@, "dialog-password-symbolic"@)]
        } else {
            seq![hint("Password mode"@, "Type an entry name and press Enter to autotype its login"@, "Passwords"@, "dialog-password-symbolic"@)]
        }
    } else {
        Seq::empty()
    }) + (if mode == SearchMode::Files {
        if s.file_search_backend is Some {
            seq![hint("File mode"@, "Type a name or path fragment to search indexed files"@, "Files"@, "system-search-symbolic"@)]
        } else {
            seq![index_unavailable_row(65)]
        }
    } else {
        Seq::empty()
    }) + (if mode == SearchMode::Commands {
        seq![hint("Command mode"@, "Type a shell command and press Enter to run it"@, "Commands"@, "utilities-terminal-symbolic"@)]
    } else {
        Seq::empty()
    }) + (if mode == SearchMode::Web {
        seq![hint("Web mode"@, "Type a query and press Enter to search the web"@, "Web"@, "web-browser-symbolic"@)]
    } else {
        Seq::empty()
    }) + (if mode == SearchMode::Calc {
        if s.qalc_available {
            seq![hint("Calculator mode"@, "Type an expression like 2+2 and press Enter to copy the result"@, "Calculator"@, "accessories-calculator-symbolic"@)]
        } else {
            seq![hint("qalc is not installed"@, "Install libqalculate to enable calculator results"@, "Calculator"@, "accessories-calculator-symbolic"@)]
        }
    } else {
        Seq::empty()
    })
}

pub open spec fn bookmark_hint() -> ItemView {
    hint("Bookmark search"@, "Type a bookmark title or URL fragment"@, "Bookmarks"@, "user-bookmarks-symbolic"@)
}

pub open spec fn recent_hint() -> ItemView {
    hint("Recent file search"@, "Type a recently used file name or path fragment"@, "Recent Files"@, "document-open-recent-symbolic"@)
}

/// How many learned predictions lead the rows for empty text: up to eight,
/// in all mode only.
pub open spec fn prediction_count(mode: SearchMode, preds: Seq<NamedEntry>) -> int {
    if mode == SearchMode::All {
        if preds.len() < 8 { preds.len() as int } else { 8 }
    } else {
        0
    }
}

/// The rows for empty text: a hint for a bookmark or recent-file prefix;
/// otherwise the best predictions (all mode) followed by `default_rows`.
pub open spec fn defaults_shown(s: Sources, q: QueryInput, now: u64, windows: Seq<WindowEntry>, r: Seq<ResultItem>) -> bool {
    match q.source_filter {
        SourceFilter::Bookmarks => items_view(r) == seq![bookmark_hint()],
        SourceFilter::Recents => items_view(r) == seq![recent_hint()],
        SourceFilter::All => {
            let k = prediction_count(q.mode, s.predictions@);
            &&& k <= r.len()
            &&& q.mode == SearchMode::All ==> best_predictions(s.predictions@, 8, now, r.take(k))
            &&& items_view(r.skip(k)) == default_rows(s, q.mode, windows)
        },
    }
}

// ---------------------------------------------------------------------------
// A whole search
// ---------------------------------------------------------------------------

/// What the launcher fetched from outside for one query: the windows the
/// compositor reports, the lines the file index printed, and what `qalc`
/// printed (`None` where the program was not run or failed).
pub struct OutsideResults {
    pub windows: Vec<WindowEntry>,
    pub file_lines: Option<Vec<String>>,
    pub calc_output: Option<String>,
}

pub open spec fn lines_view(lines: Option<Vec<String>>) -> Option<Seq<Seq<char>>> {
    match lines {
        Some(l) => Some(l@.map_values(|s: String| s@)),
        None => None,
    }
}

/// The password rows for a query (see `search_pass`).
pub open spec fn pass_results(s: Sources, mode: SearchMode, q: Seq<char>, now: u64) -> Seq<ItemView> {
    if !s.pass_available {
        if mode == SearchMode::Pass { seq![pass_missing_row()] } else { Seq::empty() }
    } else {
        top(pass_matches(s.pass_entries@, q, s.predictions@, now, mode == SearchMode::Pass), 8)
    }
}

/// The calculator row for a query, given what `qalc` printed.
pub open spec fn calc_results(s: Sources, q: QueryInput, output: Option<String>, now: u64) -> Seq<ItemView> {
    if s.qalc_available && !(!crate::search::looks_like_math_spec(q.text@) && q.mode == SearchMode::All) {
        match output {
            Some(o) => opt_rows(calc_row(q.text@, o@, s.predictions@, now)),
            None => Seq::empty(),
        }
    } else {
        Seq::empty()
    }
}

#[verifier::opaque]
pub open spec fn apps_part(s: Sources, q: QueryInput, now: u64) -> Seq<ItemView> {
    if q.mode == SearchMode::All || q.mode == SearchMode::Apps {
        top(app_matches(s.apps@, q.text@, s.predictions@, now), 8)
    } else {
        Seq::empty()
    }
}

#[verifier::opaque]
pub open spec fn windows_part(s: Sources, q: QueryInput, now: u64, o: OutsideResults) -> Seq<ItemView> {
    if q.mode == SearchMode::All || q.mode == SearchMode::Windows {
        top(window_matches(o.windows@, q.text@, s.predictions@, now), 8)
    } else {
        Seq::empty()
    }
}

#[verifier::opaque]
pub open spec fn files_part(s: Sources, q: QueryInput, now: u64, o: OutsideResults) -> Seq<ItemView> {
    if q.mode == SearchMode::All || q.mode == SearchMode::Files {
        file_results(s.file_search_backend, q.mode, q.text@, lines_view(o.file_lines), s.predictions@, now)
    } else {
        Seq::empty()
    }
}

#[verifier::opaque]
pub open spec fn ssh_part(s: Sources, q: QueryInput, now: u64) -> Seq<ItemView> {
    if q.mode == SearchMode::All || q.mode == SearchMode::Ssh {
        top(ssh_matches(s.ssh_hosts@, q.text@, s.predictions@, now), 6)
    } else {
        Seq::empty()
    }
}

#[verifier::opaque]
pub open spec fn pass_part(s: Sources, q: QueryInput, now: u64) -> Seq<ItemView> {
    if q.mode == SearchMode::All || q.mode == SearchMode::Pass {
        pass_results(s, q.mode, q.text@, now)
    } else {
        Seq::empty()
    }
}

#[verifier::opaque]
pub open spec fn power_part(s: Sources, q: QueryInput, now: u64) -> Seq<ItemView> {
    if q.mode == SearchMode::All || q.mode == SearchMode::Commands {
        top(power_matches(power_ops(), q.text@, s.predictions@, now), 5)
    } else {
        Seq::empty()
    }
}

#[verifier::opaque]
pub open spec fn library_part(s: Sources, q: QueryInput, now: u64) -> Seq<ItemView> {
    if q.mode == SearchMode::All {
        top(bookmark_matches(s.bookmarks@, q.text@, s.predictions@, now), 8) + top(
            recent_matches(s.recent_files@, q.text@, s.predictions@, now),
            8,
        )
    } else {
        Seq::empty()
    }
}

#[verifier::opaque]
pub open spec fn command_part(s: Sources, q: QueryInput, now: u64) -> Seq<ItemView> {
    if q.mode == SearchMode::Commands {
        command_mode_rows(s.commands@, q.text@, s.predictions@, now)
    } else if q.mode == SearchMode::All {
        opt_rows(typed_command_row(s.commands@, q.text@, s.predictions@, now))
    } else {
        Seq::empty()
    }
}

#[verifier::opaque]
pub open spec fn calc_part(s: Sources, q: QueryInput, now: u64, o: OutsideResults) -> Seq<ItemView> {
    if q.mode == SearchMode::All || q.mode == SearchMode::Calc {
        calc_results(s, q, o.calc_output, now)
    } else {
        Seq::empty()
    }
}

#[verifier::opaque]
pub open spec fn web_part(s: Sources, q: QueryInput, now: u64) -> Seq<ItemView> {
    opt_rows(url_row(q.mode, q.text@, s.predictions@, now)) + if q.mode == SearchMode::Web {
        seq![web_row(q.text@, s.predictions@, now)]
    } else {
        Seq::empty()
    }
}

/// Every source's rows for typed text, in the order the sources are asked:
/// apps, windows, files, SSH, passwords, power, bookmarks and recent files,
/// commands, the calculator, then a URL and a web search.
pub open spec fn candidates(s: Sources, q: QueryInput, now: u64, o: OutsideResults) -> Seq<ItemView> {
    apps_part(s, q, now) + windows_part(s, q, now, o) + files_part(s, q, now, o) + ssh_part(s, q, now) + pass_part(
        s,
        q,
        now,
    ) + power_part(s, q, now) + library_part(s, q, now) + command_part(s, q, now) + calc_part(s, q, now, o)
        + web_part(s, q, now)
}

/// The rows for typed text: a bookmark or recent-file prefix searches only
/// that source; otherwise every source is asked. Either way the best 24
/// are kept, or a row saying nothing matched.
pub open spec fn search_rows(s: Sources, q: QueryInput, now: u64, o: OutsideResults) -> Seq<ItemView> {
    match q.source_filter {
        SourceFilter::Bookmarks => crate::search::finished(top(bookmark_matches(s.bookmarks@, q.text@, s.predictions@, now), 8), q),
        SourceFilter::Recents => crate::search::finished(top(recent_matches(s.recent_files@, q.text@, s.predictions@, now), 8), q),
        SourceFilter::All => crate::search::finished(candidates(s, q, now, o), q),
    }
}

/// Whether a query needs the compositor's windows.
pub open spec fn wants_windows(q: QueryInput) -> bool {
    q.source_filter == SourceFilter::All && if q.text@.len() == 0 {
        q.mode == SearchMode::Windows
    } else {
        q.mode == SearchMode::All || q.mode == SearchMode::Windows
    }
}

/// Whatever is typed, a search shows between one and 24 rows, and where
/// it shows more than one, none ranks before a row above it.
pub proof fn typed_searches_show_few_rows_best_first(s: Sources, q: QueryInput, now: u64, o: OutsideResults)
    ensures
        1 <= search_rows(s, q, now, o).len() <= 24,
        search_rows(s, q, now, o).len() == 1 || crate::search::in_rank_order(search_rows(s, q, now, o)),
{
    match q.source_filter {
        SourceFilter::Bookmarks => crate::search::finished_rows_are_few_and_ordered(
            top(bookmark_matches(s.bookmarks@, q.text@, s.predictions@, now), 8),
            q,
        ),
        SourceFilter::Recents => crate::search::finished_rows_are_few_and_ordered(
            top(recent_matches(s.recent_files@, q.text@, s.predictions@, now), 8),
            q,
        ),
        SourceFilter::All => crate::search::finished_rows_are_few_and_ordered(candidates(s, q, now, o), q),
    }
}

/// A choice recorded at `now` is boosted at `now` by at least one use and
/// the freshest recency (275 points), while the history has room for it.
pub proof fn recorded_choice_is_boosted(before: Seq<NamedEntry>, p: StoredPrediction, now: u64, after: Seq<NamedEntry>)
    requires
        crate::prediction::names_distinct(before),
        before.len() < crate::prediction::MAX_HISTORY_ENTRIES,
        crate::prediction::pruned(crate::prediction::upsert(before, p, now), after),
    ensures
        learned_boost(after, p.key@, now) >= 275,
{
    let u = crate::prediction::upsert(before, p, now);
    assert(after == u);
    if crate::prediction::has_name(before, p.key@) {
        let i = choose|i: int| 0 <= i < before.len() && (#[trigger] before[i]).0 == p.key@;
        assert(u[i].0 == p.key@);
        assert(crate::prediction::has_name(u, p.key@));
        let c = choose|c: int| 0 <= c < u.len() && (#[trigger] u[c]).0 == p.key@;
        if c != i {
            assert(u[c] == before[c]);
            assert(before[c].0 == before[i].0);
        }
        assert(u[c].1.count >= 1 && u[c].1.last_used == now);
    } else {
        let n = before.len() as int;
        assert(u[n].0 == p.key@);
        assert(crate::prediction::has_name(u, p.key@));
        let c = choose|c: int| 0 <= c < u.len() && (#[trigger] u[c]).0 == p.key@;
        if c != n {
            assert(u[c] == before[c]);
            assert(crate::prediction::has_name(before, p.key@));
        }
        assert(u[c].1.count == 1 && u[c].1.last_used == now);
    }
}

impl Sources {
    /// The learned history is keyed uniquely and every text a query is
    /// scored against fits the score type.
    pub open spec fn wf(&self) -> bool {
        &&& self.predictions.wf()
        &&& forall|i: int| 0 <= i < self.apps@.len() ==> fits(#[trigger] self.apps@[i].search_blob@)
        &&& forall|i: int| 0 <= i < self.ssh_hosts@.len() ==> fits(#[trigger] self.ssh_hosts@[i]@)
        &&& forall|i: int| 0 <= i < self.pass_entries@.len() ==> fits(#[trigger] self.pass_entries@[i].search_blob@)
        &&& forall|i: int| 0 <= i < self.commands@.len() ==> fits(#[trigger] self.commands@[i]@)
        &&& forall|i: int| 0 <= i < self.bookmarks@.len() ==> fits(#[trigger] self.bookmarks@[i].search_blob@)
        &&& forall|i: int| 0 <= i < self.recent_files@.len() ==> fits(#[trigger] self.recent_files@[i].search_blob@)
    }

    /// `score + base` and the boost learned under `key`.
    fn boosted(&self, score: i32, base: i32, key: &str, now: u64) -> (r: i32)
        requires
            self.predictions.wf(),
            score <= 1000,
            0 <= base <= 1200,
        ensures
            r == final_score(score as int, base as int, self.predictions@, key@, now),
    {
        let b = self.predictions.boost_for_key(key, now);
        score + base + b
    }

    /// A fixed score and the boost learned under `key`.
    fn fixed_boosted(&self, base: i32, key: &str, now: u64) -> (r: i32)
        requires
            self.predictions.wf(),
            0 <= base <= 1200,
        ensures
            r == base + learned_boost(self.predictions@, key@, now),
    {
        let b = self.predictions.boost_for_key(key, now);
        base + b
    }

    /// The best eight apps for the query.
    pub fn search_apps(&self, query: &QueryInput, now: u64) -> (r: Vec<ResultItem>)
        requires
            self.wf(),
            fits(query.text@),
        ensures
            items_view(r@) == top(app_matches(self.apps@, query.text@, self.predictions@, now), MAX_APPS as nat),
    {
        let ghost q = query.text@;
        let ghost preds = self.predictions@;
        let mut out: Vec<ResultItem> = Vec::new();
        let mut i: usize = 0;
        while i < self.apps.len()
            invariant
                i <= self.apps@.len(),
                self.wf(),
                fits(q),
                q == query.text@,
                preds == self.predictions@,
                items_view(out@) == app_matches(self.apps@.take(i as int), q, preds, now),
            decreases self.apps@.len() - i,
        {
            let a = &self.apps[i];
            proof {
                lemma_score_bounds(a.search_blob@, q);
                assert(self.apps@.take(i + 1).drop_last() =~= self.apps@.take(i as int));
            }
            match score_text(a.search_blob.as_str(), query.text.as_str()) {
                Some(s) => {
                    let key = keyed("app:", a.desktop_id.as_str());
                    let score = self.boosted(s, 900, key.as_str(), now);
                    let subtitle = if a.description.as_str().unicode_len() == 0 {
                        a.executable.clone()
                    } else {
                        a.description.clone()
                    };
                    let item = ResultItem {
                        prediction_key: Some(key),
                        title: a.name.clone(),
                        subtitle,
                        source: "Applications",
                        icon_name: a.icon_name.clone(),
                        score,
                        action: Action::LaunchApp { desktop_id: a.desktop_id.clone() },
                    };
                    let ghost before = out@;
                    out.push(item);
                    assert(items_view(out@) =~= items_view(before) + seq![item_view(item)]);
                },
                None => {},
            }
            i = i + 1;
        }
        assert(self.apps@.take(self.apps@.len() as int) =~= self.apps@);
        sort_results(&out, MAX_APPS)
    }

    /// The best six SSH hosts for the query.
    pub fn search_ssh(&self, query: &QueryInput, now: u64) -> (r: Vec<ResultItem>)
        requires
            self.wf(),
            fits(query.text@),
        ensures
            items_view(r@) == top(ssh_matches(self.ssh_hosts@, query.text@, self.predictions@, now), MAX_SSH as nat),
    {
        let ghost q = query.text@;
        let ghost preds = self.predictions@;
        let mut out: Vec<ResultItem> = Vec::new();
        let mut i: usize = 0;
        while i < self.ssh_hosts.len()
            invariant
                i <= self.ssh_hosts@.len(),
                self.wf(),
                fits(q),
                q == query.text@,
                preds == self.predictions@,
                items_view(out@) == ssh_matches(self.ssh_hosts@.take(i as int), q, preds, now),
            decreases self.ssh_hosts@.len() - i,
        {
            let h = &self.ssh_hosts[i];
            proof {
                lemma_score_bounds(h@, q);
                assert(self.ssh_hosts@.take(i + 1).drop_last() =~= self.ssh_hosts@.take(i as int));
            }
            match score_text(h.as_str(), query.text.as_str()) {
                Some(s) => {
                    let key = keyed("ssh:", h.as_str());
                    let score = self.boosted(s, 720, key.as_str(), now);
                    let item = ResultItem {
                        prediction_key: Some(key),
                        title: h.clone(),
                        subtitle: owned("Open an SSH session"),
                        source: "SSH",
                        icon_name: owned("network-server-symbolic"),
                        score,
                        action: Action::Ssh { host: h.clone() },
                    };
                    let ghost before = out@;
                    out.push(item);
                    assert(items_view(out@) =~= items_view(before) + seq![item_view(item)]);
                },
                None => {},
            }
            i = i + 1;
        }
        assert(self.ssh_hosts@.take(self.ssh_hosts@.len() as int) =~= self.ssh_hosts@);
        sort_results(&out, MAX_SSH)
    }

    /// Password rows for the query: the best eight, or, where `pass` is
    /// missing, a note in password mode and nothing elsewhere.
    #[verifier::rlimit(40)]
    pub fn search_pass(&self, query: &QueryInput, now: u64) -> (r: Vec<ResultItem>)
        requires
            self.wf(),
            fits(query.text@),
        ensures
            !self.pass_available ==> items_view(r@) == (if query.mode == SearchMode::Pass {
                seq![pass_missing_row()]
            } else {
                Seq::<ItemView>::empty()
            }),
            self.pass_available ==> items_view(r@) == top(
                pass_matches(self.pass_entries@, query.text@, self.predictions@, now, query.mode == SearchMode::Pass),
                MAX_PASS as nat,
            ),
    {
        if !self.pass_available {
            let mut v: Vec<ResultItem> = Vec::new();
            if query.mode == SearchMode::Pass {
                v.push(instruction_result(
                    "pass is not installed",
                    "Install pass to search password-store entries",
                    "Passwords",
                    "dialog-password-symbolic",
                    500,
                ));
                assert(items_view(v@) =~= seq![pass_missing_row()]);
            } else {
                assert(items_view(v@) =~= Seq::<ItemView>::empty());
            }
            return v;
        }
        let ghost q = query.text@;
        let ghost preds = self.predictions@;
        let secondary = query.mode == SearchMode::Pass;
        let mut out: Vec<ResultItem> = Vec::new();
        let mut i: usize = 0;
        while i < self.pass_entries.len()
            invariant
                i <= self.pass_entries@.len(),
                self.wf(),
                fits(q),
                q == query.text@,
                preds == self.predictions@,
                secondary == (query.mode == SearchMode::Pass),
                items_view(out@) == pass_matches(self.pass_entries@.take(i as int), q, preds, now, secondary),
            decreases self.pass_entries@.len() - i,
        {
            let e = &self.pass_entries[i];
            proof {
                lemma_score_bounds(e.search_blob@, q);
                assert(self.pass_entries@.take(i + 1).drop_last() =~= self.pass_entries@.take(i as int));
            }
            match score_text(e.search_blob.as_str(), query.text.as_str()) {
                Some(s) => {
                    let key = keyed("pass:", e.name.as_str());
                    let score = self.boosted(s, 880, key.as_str(), now);
                    let rows = password_action_results(e.name.as_str(), score, secondary);
                    append_items(&mut out, &rows);
                },
                None => {},
            }
            i = i + 1;
        }
        assert(self.pass_entries@.take(self.pass_entries@.len() as int) =~= self.pass_entries@);
        sort_results(&out, MAX_PASS)
    }

    /// Command mode: a row that runs the text, then the best eight matching
    /// executables.
    pub fn search_commands(&self, query: &QueryInput, now: u64) -> (r: Vec<ResultItem>)
        requires
            self.wf(),
            fits(query.text@),
        ensures
            items_view(r@) == command_mode_rows(self.commands@, query.text@, self.predictions@, now),
    {
        let ghost q = query.text@;
        let ghost preds = self.predictions@;
        let run_key = keyed("cmd:", query.text.as_str());
        let run_score = self.fixed_boosted(930, run_key.as_str(), now);
        let mut title = owned("Run “");
        push_str(&mut title, query.text.as_str());
        push_str(&mut title, "”");
        let mut items: Vec<ResultItem> = Vec::new();
        items.push(ResultItem {
            prediction_key: Some(run_key),
            title,
            subtitle: owned("Execute in the background with sh -lc"),
            source: "Commands",
            icon_name: owned("utilities-terminal-symbolic"),
            score: run_score,
            action: Action::RunCommand { command: query.text.clone() },
        });
        let mut out: Vec<ResultItem> = Vec::new();
        let mut i: usize = 0;
        while i < self.commands.len()
            invariant
                i <= self.commands@.len(),
                self.wf(),
                fits(q),
                q == query.text@,
                preds == self.predictions@,
                items_view(out@) == command_matches(self.commands@.take(i as int), q, preds, now),
            decreases self.commands@.len() - i,
        {
            let c = &self.commands[i];
            proof {
                lemma_score_bounds(c@, q);
                assert(self.commands@.take(i + 1).drop_last() =~= self.commands@.take(i as int));
            }
            match score_text(c.as_str(), query.text.as_str()) {
                Some(s) => {
                    let key = keyed("cmd:", c.as_str());
                    let score = self.boosted(s, 700, key.as_str(), now);
                    let item = ResultItem {
                        prediction_key: Some(key),
                        title: c.clone(),
                        subtitle: owned("Executable from $PATH"),
                        source: "Commands",
                        icon_name: owned("utilities-terminal-symbolic"),
                        score,
                        action: Action::RunCommand { command: c.clone() },
                    };
                    let ghost before = out@;
                    out.push(item);
                    assert(items_view(out@) =~= items_view(before) + seq![item_view(item)]);
                },
                None => {},
            }
            i = i + 1;
        }
        assert(self.commands@.take(self.commands@.len() as int) =~= self.commands@);
        let best = sort_results(&out, MAX_COMMANDS);
        append_items(&mut items, &best);
        items
    }

    /// The best eight bookmarks for the query.
    pub fn search_bookmarks(&self, query: &QueryInput, now: u64) -> (r: Vec<ResultItem>)
        requires
            self.wf(),
            fits(query.text@),
        ensures
            items_view(r@) == top(bookmark_matches(self.bookmarks@, query.text@, self.predictions@, now), MAX_BOOKMARKS as nat),
    {
        let ghost q = query.text@;
        let ghost preds = self.predictions@;
        let mut out: Vec<ResultItem> = Vec::new();
        let mut i: usize = 0;
        while i < self.bookmarks.len()
            invariant
                i <= self.bookmarks@.len(),
                self.wf(),
                fits(q),
                q == query.text@,
                preds == self.predictions@,
                items_view(out@) == bookmark_matches(self.bookmarks@.take(i as int), q, preds, now),
            decreases self.bookmarks@.len() - i,
        {
            let b = &self.bookmarks[i];
            proof {
                lemma_score_bounds(b.search_blob@, q);
                assert(self.bookmarks@.take(i + 1).drop_last() =~= self.bookmarks@.take(i as int));
            }
            match score_text(b.search_blob.as_str(), query.text.as_str()) {
                Some(s) => {
                    let key = keyed("bookmark:", b.url.as_str());
                    let score = self.boosted(s, 830, key.as_str(), now);
                    let item = ResultItem {
                        prediction_key: Some(key),
                        title: b.title.clone(),
                        subtitle: b.url.clone(),
                        source: "Bookmarks",
                        icon_name: owned("user-bookmarks-symbolic"),
                        score,
                        action: Action::OpenUrl { url: b.url.clone() },
                    };
                    let ghost before = out@;
                    out.push(item);
                    assert(items_view(out@) =~= items_view(before) + seq![item_view(item)]);
                },
                None => {},
            }
            i = i + 1;
        }
        assert(self.bookmarks@.take(self.bookmarks@.len() as int) =~= self.bookmarks@);
        sort_results(&out, MAX_BOOKMARKS)
    }

    /// The best eight recent files for the query, the most recent first
    /// among equals.
    pub fn search_recent_files(&self, query: &QueryInput, now: u64) -> (r: Vec<ResultItem>)
        requires
            self.wf(),
            fits(query.text@),
        ensures
            items_view(r@) == top(recent_matches(self.recent_files@, query.text@, self.predictions@, now), MAX_RECENTS as nat),
    {
        let ghost q = query.text@;
        let ghost preds = self.predictions@;
        let mut out: Vec<ResultItem> = Vec::new();
        let mut i: usize = 0;
        while i < self.recent_files.len()
            invariant
                i <= self.recent_files@.len(),
                self.wf(),
                fits(q),
                q == query.text@,
                preds == self.predictions@,
                items_view(out@) == recent_matches(self.recent_files@.take(i as int), q, preds, now),
            decreases self.recent_files@.len() - i,
        {
            let f = &self.recent_files[i];
            proof {
                lemma_score_bounds(f.search_blob@, q);
                assert(self.recent_files@.take(i + 1).drop_last() =~= self.recent_files@.take(i as int));
            }
            match score_text(f.search_blob.as_str(), query.text.as_str()) {
                Some(s) => {
                    let bonus: i32 = if i < MAX_RECENTS {
                        ((MAX_RECENTS - i) * 5) as i32
                    } else {
                        0
                    };
                    let key = keyed("recent:", f.path.as_str());
                    let score = self.boosted(s, 790, key.as_str(), now);
                    let item = ResultItem {
                        prediction_key: Some(key),
                        title: f.title.clone(),
                        subtitle: f.path.clone(),
                        source: "Recent Files",
                        icon_name: owned("document-open-recent-symbolic"),
                        score: score + bonus,
                        action: Action::OpenFile { path: f.path.clone() },
                    };
                    let ghost before = out@;
                    out.push(item);
                    assert(items_view(out@) =~= items_view(before) + seq![item_view(item)]);
                },
                None => {},
            }
            i = i + 1;
        }
        assert(self.recent_files@.take(self.recent_files@.len() as int) =~= self.recent_files@);
        sort_results(&out, MAX_RECENTS)
    }

    /// The best five power actions for the query.
    pub fn search_power(&self, query: &QueryInput, now: u64) -> (r: Vec<ResultItem>)
        requires
            self.wf(),
            fits(query.text@),
        ensures
            items_view(r@) == top(power_matches(power_ops(), query.text@, self.predictions@, now), MAX_POWER_ACTIONS as nat),
    {
        let ghost q = query.text@;
        let ghost preds = self.predictions@;
        let ops = vec![
            PowerOperation::Lock,
            PowerOperation::Suspend,
            PowerOperation::Logout,
            PowerOperation::Reboot,
            PowerOperation::Shutdown,
        ];
        assert(ops@ =~= power_ops());
        let mut out: Vec<ResultItem> = Vec::new();
        let mut i: usize = 0;
        while i < ops.len()
            invariant
                i <= ops@.len(),
                ops@ == power_ops(),
                self.wf(),
                fits(q),
                q == query.text@,
                preds == self.predictions@,
                items_view(out@) == power_matches(ops@.take(i as int), q, preds, now),
            decreases ops@.len() - i,
        {
            let op = ops[i];
            proof {
                assert(ops@.take(i + 1).drop_last() =~= ops@.take(i as int));
            }
            match power_action_score(op, query.text.as_str()) {
                Some(s) => {
                    let mut key = owned("power:");
                    push_str(&mut key, power_operation_id(op));
                    let score = self.boosted(s, 950, key.as_str(), now);
                    let item = ResultItem {
                        prediction_key: Some(key),
                        title: owned(power_title_str(op)),
                        subtitle: owned(power_subtitle_str(op)),
                        source: "Power",
                        icon_name: owned(power_icon_str(op)),
                        score,
                        action: Action::Power { operation: op, confirmed: false },
                    };
                    let ghost before = out@;
                    out.push(item);
                    assert(items_view(out@) =~= items_view(before) + seq![item_view(item)]);
                },
                None => {},
            }
            i = i + 1;
        }
        assert(ops@.take(ops@.len() as int) =~= ops@);
        sort_results(&out, MAX_POWER_ACTIONS)
    }

    /// The best eight of the listed windows for the query.
    pub fn search_windows(&self, query: &QueryInput, now: u64, windows: &Vec<WindowEntry>) -> (r: Vec<ResultItem>)
        requires
            self.wf(),
            fits(query.text@),
            windows_fit(windows@),
        ensures
            items_view(r@) == top(window_matches(windows@, query.text@, self.predictions@, now), MAX_WINDOWS as nat),
    {
        let ghost q = query.text@;
        let ghost preds = self.predictions@;
        let mut out: Vec<ResultItem> = Vec::new();
        let mut i: usize = 0;
        while i < windows.len()
            invariant
                i <= windows@.len(),
                self.wf(),
                fits(q),
                windows_fit(windows@),
                q == query.text@,
                preds == self.predictions@,
                items_view(out@) == window_matches(windows@.take(i as int), q, preds, now),
            decreases windows@.len() - i,
        {
            let w = &windows[i];
            proof {
                lemma_score_bounds(w.search_blob@, q);
                assert(windows@.take(i + 1).drop_last() =~= windows@.take(i as int));
            }
            match score_text(w.search_blob.as_str(), query.text.as_str()) {
                Some(s) => {
                    let key = crate::search::window_prediction_key(w);
                    let score = self.boosted(s, 860, key.as_str(), now);
                    let item = window_result_item_with_score(w, score);
                    let ghost before = out@;
                    out.push(item);
                    assert(items_view(out@) =~= items_view(before) + seq![item_view(item)]);
                },
                None => {},
            }
            i = i + 1;
        }
        assert(windows@.take(windows@.len() as int) =~= windows@);
        sort_results(&out, MAX_WINDOWS)
    }

    /// The file rows for the query, given the lines the index printed
    /// (`None` where it could not be run or failed).
    pub fn search_files(&self, query: &QueryInput, now: u64, lines: Option<&Vec<String>>) -> (r: Vec<ResultItem>)
        requires
            self.wf(),
        ensures
            items_view(r@) == file_results(
                self.file_search_backend,
                query.mode,
                query.text@,
                match lines { Some(l) => Some(l@.map_values(|s: String| s@)), None => None },
                self.predictions@,
                now,
            ),
    {
        let mut out: Vec<ResultItem> = Vec::new();
        if query.text.as_str().unicode_len() < MIN_FILE_QUERY_CHARS {
            if query.mode == SearchMode::Files {
                out.push(instruction_result(
                    "Keep typing to search files",
                    "Type at least 2 characters before querying the file index",
                    "Files",
                    "system-search-symbolic",
                    520,
                ));
                assert(items_view(out@) =~= seq![keep_typing_row()]);
            } else {
                assert(items_view(out@) =~= Seq::<ItemView>::empty());
            }
            return out;
        }
        if self.file_search_backend.is_none() {
            if query.mode == SearchMode::Files {
                out.push(instruction_result(
                    "Indexed file search unavailable",
                    "Install LocalSearch to enable indexed file search",
                    "Files",
                    "system-search-symbolic",
                    500,
                ));
                assert(items_view(out@) =~= seq![index_unavailable_row(500)]);
            } else {
                assert(items_view(out@) =~= Seq::<ItemView>::empty());
            }
            return out;
        }
        let lines = match lines {
            None => {
                assert(items_view(out@) =~= Seq::<ItemView>::empty());
                return out;
            },
            Some(l) => l,
        };
        let ghost lv = lines@.map_values(|s: String| s@);
        let ghost preds = self.predictions@;
        let mut paths: Vec<String> = Vec::new();
        let mut i: usize = 0;
        while i < lines.len()
            invariant
                i <= lines@.len(),
                lv == lines@.map_values(|s: String| s@),
                paths@.map_values(|s: String| s@) == file_paths(lv.take(i as int)),
            decreases lines@.len() - i,
        {
            proof {
                assert(lv.take(i + 1).drop_last() =~= lv.take(i as int));
                assert(lv.take(i + 1).last() == lines@[i as int]@);
            }
            let ghost before = paths@;
            match parse_file_search_line(lines[i].as_str()) {
                Some(p) => {
                    paths.push(p);
                    assert(paths@.map_values(|s: String| s@) =~= before.map_values(|s: String| s@) + seq![p@]);
                },
                None => {
                    assert(paths@.map_values(|s: String| s@) =~= before.map_values(|s: String| s@) + Seq::<Seq<char>>::empty());
                },
            }
            i = i + 1;
        }
        assert(lv.take(lines@.len() as int) =~= lv);
        let ghost pv = paths@.map_values(|s: String| s@);
        let n: usize = if paths.len() < MAX_FILES { paths.len() } else { MAX_FILES };
        let mut k: usize = 0;
        while k < n
            invariant
                k <= n <= paths@.len(),
                pv == paths@.map_values(|s: String| s@),
                preds == self.predictions@,
                self.wf(),
                items_view(out@) == pv.take(k as int).map_values(|p: Seq<char>| file_row(p, preds, now)),
            decreases n - k,
        {
            let path = &paths[k];
            let key = keyed("file:", path.as_str());
            let score = self.fixed_boosted(760, key.as_str(), now);
            let title = match file_name_of(path.as_str()) {
                Some(name) => name,
                None => path.clone(),
            };
            let item = ResultItem {
                prediction_key: Some(key),
                title,
                subtitle: path.clone(),
                source: "Files",
                icon_name: owned("folder-documents-symbolic"),
                score,
                action: Action::OpenFile { path: path.clone() },
            };
            let ghost before = out@;
            out.push(item);
            assert(items_view(out@) =~= items_view(before) + seq![item_view(item)]);
            assert(pv.take(k + 1).map_values(|p: Seq<char>| file_row(p, preds, now)) =~= pv.take(k as int).map_values(
                |p: Seq<char>| file_row(p, preds, now),
            ) + seq![file_row(pv[k as int], preds, now)]);
            k = k + 1;
        }
        out
    }

    /// Whether the query asks `qalc` for a result: only when it is
    /// installed, and in all mode only for text that reads as arithmetic.
    pub fn wants_calc(&self, query: &QueryInput) -> (r: bool)
        ensures
            r == (self.qalc_available && !(!crate::search::looks_like_math_spec(query.text@) && query.mode == SearchMode::All)),
    {
        self.qalc_available && !(!crate::search::looks_like_math(query.text.as_str()) && query.mode == SearchMode::All)
    }

    /// The calculator row, given what `qalc` printed (`None` where it could
    /// not be run or failed).
    pub fn search_calc(&self, query: &QueryInput, now: u64, output: Option<&str>) -> (r: Option<ResultItem>)
        requires
            self.wf(),
        ensures
            match r {
                Some(item) => self.wants_calc_spec(*query) && output is Some && calc_row(query.text@, output.unwrap()@, self.predictions@, now) == Some(item_view(item)),
                None => !self.wants_calc_spec(*query) || output is None || calc_row(query.text@, output.unwrap()@, self.predictions@, now) is None,
            },
    {
        if !self.wants_calc(query) {
            return None;
        }
        let output = match output {
            None => return None,
            Some(o) => o,
        };
        let t = crate::text::trim_vec(&crate::text::chars_of(output));
        if t.len() == 0 {
            return None;
        }
        let lowered = crate::text::lower_vec(&t);
        if crate::text::vec_eq(&lowered, &crate::text::chars_of("error")) {
            return None;
        }
        let result = crate::text::string_of(&t);
        let key = keyed("calc:", query.text.as_str());
        let score = self.fixed_boosted(1100, key.as_str(), now);
        Some(ResultItem {
            prediction_key: Some(key),
            title: result.clone(),
            subtitle: keyed("Result for ", query.text.as_str()),
            source: "Calculator",
            icon_name: owned("accessories-calculator-symbolic"),
            score,
            action: Action::CopyText { text: result },
        })
    }

    pub open spec fn wants_calc_spec(&self, query: QueryInput) -> bool {
        self.qalc_available && !(!crate::search::looks_like_math_spec(query.text@) && query.mode == SearchMode::All)
    }

    /// The row that opens the text as a URL, in the all and web modes.
    pub fn search_url(&self, query: &QueryInput, now: u64) -> (r: Option<ResultItem>)
        requires
            self.wf(),
        ensures
            match r {
                Some(item) => url_row(query.mode, query.text@, self.predictions@, now) == Some(item_view(item)),
                None => url_row(query.mode, query.text@, self.predictions@, now) is None,
            },
    {
        if !(query.mode == SearchMode::All || query.mode == SearchMode::Web) {
            return None;
        }
        let url = match crate::model::browser_target(query.text.as_str()) {
            None => return None,
            Some(u) => u,
        };
        let key = keyed("url:", url.as_str());
        let score = self.fixed_boosted(1200, key.as_str(), now);
        Some(ResultItem {
            prediction_key: Some(key),
            title: keyed("Open ", url.as_str()),
            subtitle: owned("Open URL in the default browser"),
            source: "Web",
            icon_name: owned("web-browser-symbolic"),
            score,
            action: Action::OpenUrl { url },
        })
    }

    /// The row that searches the web for the text.
    pub fn search_web(&self, query: &QueryInput, now: u64) -> (r: ResultItem)
        requires
            self.wf(),
        ensures
            item_view(r) == web_row(query.text@, self.predictions@, now),
    {
        let key = keyed("web:", query.text.as_str());
        let score = self.fixed_boosted(120, key.as_str(), now);
        let mut title = owned("Search the web for “");
        push_str(&mut title, query.text.as_str());
        push_str(&mut title, "”");
        ResultItem {
            prediction_key: Some(key),
            title,
            subtitle: owned("Open the default browser"),
            source: "Web",
            icon_name: owned("web-browser-symbolic"),
            score,
            action: Action::WebSearch { query: query.text.clone() },
        }
    }

    /// In all mode, text whose first word is a known command, followed by
    /// arguments, is offered as a command to run.
    pub fn search_all_mode_command(&self, query: &QueryInput, now: u64) -> (r: Option<ResultItem>)
        requires
            self.wf(),
        ensures
            match r {
                Some(item) => typed_command_row(self.commands@, query.text@, self.predictions@, now) == Some(item_view(item)),
                None => typed_command_row(self.commands@, query.text@, self.predictions@, now) is None,
            },
    {
        let words = crate::monitor::split_words(query.text.as_str());
        let ghost wv = words@.map_values(|w: String| w@);
        if words.len() < 2 {
            return None;
        }
        assert(wv[0] == words@[0]@);
        let mut found = false;
        let mut i: usize = 0;
        while i < self.commands.len()
            invariant
                i <= self.commands@.len(),
                words@.len() >= 2,
                found == exists|j: int| 0 <= j < i && self.commands@[j]@ == words@[0]@,
            decreases self.commands@.len() - i,
        {
            if crate::text::str_eq(self.commands[i].as_str(), words[0].as_str()) {
                found = true;
            }
            i = i + 1;
        }
        if !found {
            return None;
        }
        let key = keyed("cmd:", query.text.as_str());
        let score = self.fixed_boosted(930, key.as_str(), now);
        let mut title = owned("Run \"");
        push_str(&mut title, query.text.as_str());
        push_str(&mut title, "\"");
        Some(ResultItem {
            prediction_key: Some(key),
            title,
            subtitle: owned("Execute in the background with sh -lc"),
            source: "Commands",
            icon_name: owned("utilities-terminal-symbolic"),
            score,
            action: Action::RunCommand { command: query.text.clone() },
        })
    }

    /// Appends a hint row.
    fn push_hint(out: &mut Vec<ResultItem>, title: &str, subtitle: &str, source: &'static str, icon: &str)
        ensures
            items_view(final(out)@) == items_view(old(out)@) + seq![hint(title@, subtitle@, source@, icon@)],
    {
        let ghost before = out@;
        let item = instruction_result(title, subtitle, source, icon, 65);
        out.push(item);
        assert(items_view(out@) =~= items_view(before) + seq![item_view(item)]);
    }

    /// The rows after the predictions when nothing is typed.
    fn default_rest(&self, mode: SearchMode, windows: &Vec<WindowEntry>) -> (r: Vec<ResultItem>)
        requires
            windows_ok(windows@),
        ensures
            items_view(r@) == default_rows(*self, mode, windows@),
    {
        let all = mode == SearchMode::All;
        let mut out: Vec<ResultItem> = Vec::new();
        let ghost s0 = items_view(out@);
        if all || mode == SearchMode::Apps {
            let n: usize = if self.apps.len() < 8 { self.apps.len() } else { 8 };
            let mut i: usize = 0;
            while i < n
                invariant
                    i <= n <= self.apps@.len(),
                    n == if self.apps@.len() < 8 { self.apps@.len() as int } else { 8 },
                    items_view(out@) == self.apps@.take(i as int).map_values(|a: AppEntry| app_row(a, 80)),
                decreases n - i,
            {
                let a = &self.apps[i];
                let subtitle = if a.description.as_str().unicode_len() == 0 {
                    a.executable.clone()
                } else {
                    a.description.clone()
                };
                let item = ResultItem {
                    prediction_key: Some(keyed("app:", a.desktop_id.as_str())),
                    title: a.name.clone(),
                    subtitle,
                    source: "Applications",
                    icon_name: a.icon_name.clone(),
                    score: 80,
                    action: Action::LaunchApp { desktop_id: a.desktop_id.clone() },
                };
                let ghost before = out@;
                out.push(item);
                assert(items_view(out@) =~= items_view(before) + seq![item_view(item)]);
                assert(self.apps@.take(i + 1).map_values(|a: AppEntry| app_row(a, 80)) =~= self.apps@.take(
                    i as int,
                ).map_values(|a: AppEntry| app_row(a, 80)) + seq![app_row(self.apps@[i as int], 80)]);
                i = i + 1;
            }
        }
        let ghost s1 = items_view(out@);
        if mode == SearchMode::Windows {
            if windows.len() == 0 {
                Self::push_hint(&mut out, "No active windows found", "Hyprland or Niri did not report switchable windows", "Windows", "view-grid-symbolic");
            } else {
                let n: usize = if windows.len() < 8 { windows.len() } else { 8 };
                let mut i: usize = 0;
                while i < n
                    invariant
                        i <= n <= windows@.len(),
                        windows_ok(windows@),
                        items_view(out@) == s1 + windows@.take(i as int).map_values(
                            |w: WindowEntry| window_row(w, window_rest_score(w.focus_order)),
                        ),
                    decreases n - i,
                {
                    let item = window_result_item(&windows[i]);
                    let ghost before = out@;
                    out.push(item);
                    assert(items_view(out@) =~= items_view(before) + seq![item_view(item)]);
                    assert(windows@.take(i + 1).map_values(|w: WindowEntry| window_row(w, window_rest_score(w.focus_order)))
                        =~= windows@.take(i as int).map_values(|w: WindowEntry| window_row(w, window_rest_score(w.focus_order)))
                        + seq![window_row(windows@[i as int], window_rest_score(windows@[i as int].focus_order))]);
                    i = i + 1;
                }
            }
        }
        let ghost s2 = items_view(out@);
        if all || mode == SearchMode::Ssh {
            let n: usize = if self.ssh_hosts.len() < 4 { self.ssh_hosts.len() } else { 4 };
            let mut i: usize = 0;
            while i < n
                invariant
                    i <= n <= self.ssh_hosts@.len(),
                    items_view(out@) == s2 + self.ssh_hosts@.take(i as int).map_values(|h: String| ssh_row(h@, 70)),
                decreases n - i,
            {
                let h = &self.ssh_hosts[i];
                let item = ResultItem {
                    prediction_key: Some(keyed("ssh:", h.as_str())),
                    title: h.clone(),
                    subtitle: owned("Open an SSH session"),
                    source: "SSH",
                    icon_name: owned("network-server-symbolic"),
                    score: 70,
                    action: Action::Ssh { host: h.clone() },
                };
                let ghost before = out@;
                out.push(item);
                assert(items_view(out@) =~= items_view(before) + seq![item_view(item)]);
                assert(self.ssh_hosts@.take(i + 1).map_values(|h: String| ssh_row(h@, 70)) =~= self.ssh_hosts@.take(
                    i as int,
                ).map_values(|h: String| ssh_row(h@, 70)) + seq![ssh_row(self.ssh_hosts@[i as int]@, 70)]);
                i = i + 1;
            }
        }
        if mode == SearchMode::Pass {
            if !self.pass_available {
                Self::push_hint(&mut out, "pass is not installed", "Install pass to search password-store entries", "Passwords", "dialog-password-symbolic");
            } else if self.pass_entries.len() == 0 {
                Self::push_hint(&mut out, "Password store is empty", "Add entries to ~/.password-store or set PASSWORD_STORE_DIR", "Passwords", "dialog-password-symbolic");
            } else {
                Self::push_hint(&mut out, "Password mode", "Type an entry name and press Enter to autotype its login", "Passwords", "dialog-password-symbolic");
            }
        }
        if mode == SearchMode::Files {
            if self.file_search_backend.is_some() {
                Self::push_hint(&mut out, "File mode", "Type a name or path fragment to search indexed files", "Files", "system-search-symbolic");
            } else {
                Self::push_hint(&mut out, "Indexed file search unavailable", "Install LocalSearch to enable indexed file search", "Files", "system-search-symbolic");
            }
        }
        if mode == SearchMode::Commands {
            Self::push_hint(&mut out, "Command mode", "Type a shell command and press Enter to run it", "Commands", "utilities-terminal-symbolic");
        }
        if mode == SearchMode::Web {
            Self::push_hint(&mut out, "Web mode", "Type a query and press Enter to search the web", "Web", "web-browser-symbolic");
        }
        if mode == SearchMode::Calc {
            if self.qalc_available {
                Self::push_hint(&mut out, "Calculator mode", "Type an expression like 2+2 and press Enter to copy the result", "Calculator", "accessories-calculator-symbolic");
            } else {
                Self::push_hint(&mut out, "qalc is not installed", "Install libqalculate to enable calculator results", "Calculator", "accessories-calculator-symbolic");
            }
        }
        out
    }

    /// The rows shown before anything is typed (see `defaults_shown`),
    /// given the windows the compositor reports.
    pub fn default_results(&self, query: &QueryInput, now: u64, windows: &Vec<WindowEntry>) -> (r: Vec<ResultItem>)
        requires
            self.wf(),
            windows_ok(windows@),
        ensures
            defaults_shown(*self, *query, now, windows@, r@),
    {
        let mut out: Vec<ResultItem> = Vec::new();
        match query.source_filter {
            SourceFilter::Bookmarks => {
                Self::push_hint(&mut out, "Bookmark search", "Type a bookmark title or URL fragment", "Bookmarks", "user-bookmarks-symbolic");
                assert(items_view(out@) =~= seq![bookmark_hint()]);
                return out;
            },
            SourceFilter::Recents => {
                Self::push_hint(&mut out, "Recent file search", "Type a recently used file name or path fragment", "Recent Files", "document-open-recent-symbolic");
                assert(items_view(out@) =~= seq![recent_hint()]);
                return out;
            },
            SourceFilter::All => {},
        }
        if query.mode == SearchMode::All {
            out = self.predictions.top_results(8, now);
        }
        let ghost first = out@;
        let rest = self.default_rest(query.mode, windows);
        append_items(&mut out, &rest);
        proof {
            let k = prediction_count(query.mode, self.predictions@);
            assert(first.len() == k);
            assert(out@.take(k) =~= first);
            assert(items_view(out@.skip(k)) =~= items_view(out@).skip(k));
            assert(items_view(out@).skip(k) =~= items_view(rest@));
        }
        out
    }

    /// Learns that `item` was chosen at `now`. Rows without a prediction key,
    /// and rows that do nothing, teach nothing.
    pub fn record_activation(&mut self, item: &ResultItem, now: u64)
        requires
            old(self).wf(),
        ensures
            final(self).wf(),
            final(self).apps@ == old(self).apps@,
            final(self).ssh_hosts@ == old(self).ssh_hosts@,
            final(self).pass_entries@ == old(self).pass_entries@,
            final(self).commands@ == old(self).commands@,
            final(self).bookmarks@ == old(self).bookmarks@,
            final(self).recent_files@ == old(self).recent_files@,
            final(self).file_search_backend == old(self).file_search_backend,
            final(self).pass_available == old(self).pass_available,
            final(self).qalc_available == old(self).qalc_available,
            final(self).predictions.path_spec() == old(self).predictions.path_spec(),
            (item.prediction_key is None || item.action is Nothing) ==> final(self).predictions@ == old(self).predictions@,
            (item.prediction_key is Some && !(item.action is Nothing)) ==> exists|p: StoredPrediction| {
                &&& p.key@ == item.prediction_key.unwrap()@
                &&& p.title@ == item.title@
                &&& p.subtitle@ == item.subtitle@
                &&& p.source@ == item.source@
                &&& p.icon_name@ == item.icon_name@
                &&& p.action == item.action
                &&& crate::prediction::pruned(crate::prediction::upsert(old(self).predictions@, p, now), final(self).predictions@)
            },
    {
        let key = match &item.prediction_key {
            None => return,
            Some(k) => k.clone(),
        };
        if let Action::Nothing = item.action {
            return;
        }
        let prediction = StoredPrediction {
            key,
            title: item.title.clone(),
            subtitle: item.subtitle.clone(),
            source: owned(item.source),
            icon_name: item.icon_name.clone(),
            action: crate::prediction::copy_action(&item.action),
        };
        let ghost p = prediction;
        self.predictions.record(prediction, now);
    }

    /// Whether the query needs the windows the compositor reports.
    pub fn windows_request(query: &QueryInput) -> (r: bool)
        ensures
            r == wants_windows(*query),
    {
        query.source_filter == SourceFilter::All && if query.text.as_str().unicode_len() == 0 {
            query.mode == SearchMode::Windows
        } else {
            query.mode == SearchMode::All || query.mode == SearchMode::Windows
        }
    }

    /// The file index to run for the query, if it asks one.
    pub fn file_search_request(&self, query: &QueryInput) -> (r: Option<FileSearchBackend>)
        ensures
            r == (if query.source_filter == SourceFilter::All && query.text@.len() >= 2 && (query.mode
                == SearchMode::All || query.mode == SearchMode::Files) {
                self.file_search_backend
            } else {
                None
            }),
    {
        if query.source_filter == SourceFilter::All && query.text.as_str().unicode_len() >= MIN_FILE_QUERY_CHARS
            && query.mode.includes(SearchMode::Files) {
            self.file_search_backend
        } else {
            None
        }
    }

    /// Whether the query asks `qalc` for a result.
    pub fn calc_request(&self, query: &QueryInput) -> (r: bool)
        ensures
            r == (query.source_filter == SourceFilter::All && query.text@.len() > 0 && (query.mode == SearchMode::All
                || query.mode == SearchMode::Calc) && self.wants_calc_spec(*query)),
    {
        query.source_filter == SourceFilter::All && query.text.as_str().unicode_len() > 0
            && query.mode.includes(SearchMode::Calc) && self.wants_calc(query)
    }

    /// The rows for a parsed query: the defaults for empty text, else
    /// `search_rows`.
    pub fn search_query(&self, query: &QueryInput, now: u64, outside: &OutsideResults) -> (r: Vec<ResultItem>)
        requires
            self.wf(),
            fits(query.text@),
            windows_ok(outside.windows@),
        ensures
            query.text@.len() == 0 ==> defaults_shown(*self, *query, now, outside.windows@, r@),
            query.text@.len() > 0 ==> items_view(r@) == search_rows(*self, *query, now, *outside),
    {
        if query.text.as_str().unicode_len() == 0 {
            return self.default_results(query, now, &outside.windows);
        }
        match query.source_filter {
            SourceFilter::Bookmarks => {
                let found = self.search_bookmarks(query, now);
                return crate::search::finish_search_results(&found, query);
            },
            SourceFilter::Recents => {
                let found = self.search_recent_files(query, now);
                return crate::search::finish_search_results(&found, query);
            },
            SourceFilter::All => {},
        }
        let mut results: Vec<ResultItem> = Vec::new();
        self.add_sources_first(&mut results, query, now, outside);
        let ghost r1 = items_view(results@);
        self.add_sources_second(&mut results, query, now);
        let ghost r2 = items_view(results@);
        self.add_sources_third(&mut results, query, now, outside);
        proof {
            assert(items_view(results@) =~= candidates(*self, *query, now, *outside));
        }
        crate::search::finish_search_results(&results, query)
    }

    /// The launcher's search: the raw text is parsed (a prefix picks the
    /// mode), then answered as `search_query` says.
    pub fn search(&self, raw_query: &str, cli_mode: SearchMode, now: u64, outside: &OutsideResults) -> (r: Vec<ResultItem>)
        requires
            self.wf(),
            fits(raw_query@),
            windows_ok(outside.windows@),
        ensures
            ({
                let (mode, source_filter, text) = crate::model::parsed_query(raw_query@, cli_mode);
                &&& text.len() == 0 ==> exists|q: QueryInput| q.mode == mode && q.source_filter == source_filter && q.text@
                    == text && defaults_shown(*self, q, now, outside.windows@, r@)
                &&& text.len() > 0 ==> exists|q: QueryInput| q.mode == mode && q.source_filter == source_filter && q.text@
                    == text && items_view(r@) == search_rows(*self, q, now, *outside)
            }),
    {
        let query = QueryInput::parse(raw_query, cli_mode);
        proof {
            crate::model::lemma_parsed_text_bytes(raw_query@, cli_mode);
        }
        self.search_query(&query, now, outside)
    }

    /// Apps, windows, files and SSH hosts.
    fn add_sources_first(&self, results: &mut Vec<ResultItem>, query: &QueryInput, now: u64, outside: &OutsideResults)
        requires
            self.wf(),
            fits(query.text@),
            windows_ok(outside.windows@),
        ensures
            items_view(final(results)@) == items_view(old(results)@) + apps_part(*self, *query, now) + windows_part(
                *self,
                *query,
                now,
                *outside,
            ) + files_part(*self, *query, now, *outside) + ssh_part(*self, *query, now),
    {
        reveal(apps_part);
        reveal(windows_part);
        reveal(files_part);
        reveal(ssh_part);
        let ghost r0 = items_view(results@);
        let mode = query.mode;
        if mode.includes(SearchMode::Apps) {
            let v = self.search_apps(query, now);
            append_items(results, &v);
        }
        assert(items_view(results@) =~= r0 + apps_part(*self, *query, now));
        let ghost r1 = items_view(results@);
        if mode.includes(SearchMode::Windows) {
            let v = self.search_windows(query, now, &outside.windows);
            append_items(results, &v);
        }
        assert(items_view(results@) =~= r1 + windows_part(*self, *query, now, *outside));
        let ghost r2 = items_view(results@);
        if mode.includes(SearchMode::Files) {
            let lines = match &outside.file_lines {
                Some(l) => Some(l),
                None => None,
            };
            let v = self.search_files(query, now, lines);
            append_items(results, &v);
        }
        assert(items_view(results@) =~= r2 + files_part(*self, *query, now, *outside));
        let ghost r3 = items_view(results@);
        if mode.includes(SearchMode::Ssh) {
            let v = self.search_ssh(query, now);
            append_items(results, &v);
        }
        assert(items_view(results@) =~= r3 + ssh_part(*self, *query, now));
    }

    /// Passwords, power actions, bookmarks and recent files.
    fn add_sources_second(&self, results: &mut Vec<ResultItem>, query: &QueryInput, now: u64)
        requires
            self.wf(),
            fits(query.text@),
        ensures
            items_view(final(results)@) == items_view(old(results)@) + pass_part(*self, *query, now) + power_part(
                *self,
                *query,
                now,
            ) + library_part(*self, *query, now),
    {
        reveal(pass_part);
        reveal(power_part);
        reveal(library_part);
        let ghost r0 = items_view(results@);
        let mode = query.mode;
        let all = mode == SearchMode::All;
        if mode.includes(SearchMode::Pass) {
            let v = self.search_pass(query, now);
            append_items(results, &v);
        }
        assert(items_view(results@) =~= r0 + pass_part(*self, *query, now));
        let ghost r1 = items_view(results@);
        if all || mode == SearchMode::Commands {
            let v = self.search_power(query, now);
            append_items(results, &v);
        }
        assert(items_view(results@) =~= r1 + power_part(*self, *query, now));
        let ghost r2 = items_view(results@);
        if all {
            let v = self.search_bookmarks(query, now);
            append_items(results, &v);
            let w = self.search_recent_files(query, now);
            append_items(results, &w);
        }
        assert(items_view(results@) =~= r2 + library_part(*self, *query, now));
    }

    /// Commands, the calculator, a URL and a web search.
    fn add_sources_third(&self, results: &mut Vec<ResultItem>, query: &QueryInput, now: u64, outside: &OutsideResults)
        requires
            self.wf(),
            fits(query.text@),
        ensures
            items_view(final(results)@) == items_view(old(results)@) + command_part(*self, *query, now) + calc_part(
                *self,
                *query,
                now,
                *outside,
            ) + web_part(*self, *query, now),
    {
        reveal(command_part);
        reveal(calc_part);
        reveal(web_part);
        let ghost r0 = items_view(results@);
        let mode = query.mode;
        let all = mode == SearchMode::All;
        if mode == SearchMode::Commands {
            let v = self.search_commands(query, now);
            append_items(results, &v);
        } else if all {
            match self.search_all_mode_command(query, now) {
                Some(item) => {
                    let ghost before = results@;
                    results.push(item);
                    assert(items_view(results@) =~= items_view(before) + seq![item_view(item)]);
                },
                None => {},
            }
        }
        assert(items_view(results@) =~= r0 + command_part(*self, *query, now));
        let ghost r1 = items_view(results@);
        if mode.includes(SearchMode::Calc) {
            let output = match &outside.calc_output {
                Some(o) => Some(o.as_str()),
                None => None,
            };
            match self.search_calc(query, now, output) {
                Some(item) => {
                    let ghost before = results@;
                    results.push(item);
                    assert(items_view(results@) =~= items_view(before) + seq![item_view(item)]);
                },
                None => {},
            }
        }
        assert(items_view(results@) =~= r1 + calc_part(*self, *query, now, *outside));
        let ghost r2 = items_view(results@);
        match self.search_url(query, now) {
            Some(item) => {
                let ghost before = results@;
                results.push(item);
                assert(items_view(results@) =~= items_view(before) + seq![item_view(item)]);
            },
            None => {},
        }
        if mode == SearchMode::Web {
            let item = self.search_web(query, now);
            let ghost before = results@;
            results.push(item);
            assert(items_view(results@) =~= items_view(before) + seq![item_view(item)]);
        }
        assert(items_view(results@) =~= r2 + web_part(*self, *query, now));
    }
}


fn power_title_str(op: PowerOperation) -> (r: &'static str)
    ensures
        r@ == power_title(op),
{
    match op {
        PowerOperation::Lock => "Lock",
        PowerOperation::Suspend => "Suspend",
        PowerOperation::Logout => "Logout",
        PowerOperation::Reboot => "Reboot",
        PowerOperation::Shutdown => "Shutdown",
    }
}

fn power_subtitle_str(op: PowerOperation) -> (r: &'static str)
    ensures
        r@ == power_subtitle(op),
{
    match op {
        PowerOperation::Lock => "Blank the screen and keep the session running",
        PowerOperation::Suspend => "Lock first, then suspend the machine",
        PowerOperation::Logout => "Close the current desktop session after confirmation",
        PowerOperation::Reboot => "Restart the system after confirmation",
        PowerOperation::Shutdown => "Power off the system after confirmation",
    }
}

fn power_icon_str(op: PowerOperation) -> (r: &'static str)
    ensures
        r@ == power_icon(op),
{
    match op {
        PowerOperation::Lock => "system-lock-screen-symbolic",
        PowerOperation::Suspend => "media-playback-pause-symbolic",
        PowerOperation::Logout => "system-log-out-symbolic",
        PowerOperation::Reboot => "system-reboot-symbolic",
        PowerOperation::Shutdown => "system-shutdown-symbolic",
    }
}

/// The words a power action answers to; each is short.
fn power_terms_of(op: PowerOperation) -> (r: Vec<&'static str>)
    ensures
        r@.map_values(|t: &str| t@) == power_terms(op),
        forall|i: int| 0 <= i < r@.len() ==> fits(#[trigger] r@[i]@),
{
    let r = match op {
        PowerOperation::Lock => vec!["lock", "screen lock", "secure", "power", "session"],
        PowerOperation::Suspend => vec!["suspend", "sleep", "standby", "power", "session"],
        PowerOperation::Logout => vec!["logout", "log out", "sign out", "exit session", "power", "session"],
        PowerOperation::Reboot => vec!["reboot", "restart", "power", "session"],
        PowerOperation::Shutdown => vec!["shutdown", "shut down", "poweroff", "power off", "power", "session"],
    };
    proof {
        reveal_strlit("lock");
        reveal_strlit("screen lock");
        reveal_strlit("secure");
        reveal_strlit("power");
        reveal_strlit("session");
        reveal_strlit("suspend");
        reveal_strlit("sleep");
        reveal_strlit("standby");
        reveal_strlit("logout");
        reveal_strlit("log out");
        reveal_strlit("sign out");
        reveal_strlit("exit session");
        reveal_strlit("reboot");
        reveal_strlit("restart");
        reveal_strlit("shutdown");
        reveal_strlit("shut down");
        reveal_strlit("poweroff");
        reveal_strlit("power off");
        assert(r@.map_values(|t: &str| t@) =~= power_terms(op));
        assert forall|i: int| 0 <= i < r@.len() implies fits(#[trigger] r@[i]@) by {
            crate::model::lemma_byte_len_bounds(r@[i]@);
        }
    }
    r
}

/// The best score of `query` against the words of a power action.
fn power_action_score(op: PowerOperation, query: &str) -> (r: Option<i32>)
    requires
        fits(query@),
    ensures
        match (r, best_score(power_terms(op), query@)) {
            (Some(got), Some(want)) => got as int == want && got <= 1000,
            (None, None) => true,
            _ => false,
        },
{
    let terms = power_terms_of(op);
    let ghost tv = terms@.map_values(|t: &str| t@);
    let mut best: Option<i32> = None;
    let mut i: usize = 0;
    while i < terms.len()
        invariant
            i <= terms@.len(),
            tv == terms@.map_values(|t: &str| t@),
            tv == power_terms(op),
            forall|k: int| 0 <= k < terms@.len() ==> fits(#[trigger] terms@[k]@),
            fits(query@),
            match (best, best_score(tv.take(i as int), query@)) {
                (Some(got), Some(want)) => got as int == want && got <= 1000,
                (None, None) => true,
                _ => false,
            },
        decreases terms@.len() - i,
    {
        proof {
            assert(tv.take(i + 1).drop_last() =~= tv.take(i as int));
            assert(tv.take(i + 1).last() == terms@[i as int]@);
            lemma_score_bounds(terms@[i as int]@, query@);
        }
        let s = score_text(terms[i], query);
        best = match (best, s) {
            (Some(a), Some(b)) => Some(if a < b { b } else { a }),
            (Some(a), None) => Some(a),
            (None, b) => b,
        };
        i = i + 1;
    }
    assert(tv.take(terms@.len() as int) =~= tv);
    best
}

/// The path a line of the file index names (see `file_line_path`).
pub fn parse_file_search_line(line: &str) -> (r: Option<String>)
    ensures
        match (r, file_line_path(line@)) {
            (Some(got), Some(want)) => got@ == want,
            (None, None) => true,
            _ => false,
        },
{
    let t = crate::text::trim_vec(&crate::text::chars_of(line));
    if t.len() == 0 {
        return None;
    }
    let cand = match crate::text::index_of_in(&t, 0, t.len(), ' ') {
        Some(i) => {
            proof {
                let k = choose|k: int| 0 <= k < t@.len() && t@[k] == ' ' && forall|j: int| 0 <= j < k ==> t@[j] != ' ';
                assert(0 <= i < t@.len() && t@[i as int] == ' ');
                if k < i {
                } else if i < k {
                }
                assert(first_space(t@) == Some(i as int));
            }
            let rest = crate::text::slice_vec(&t, i + 1, t.len());
            assert(rest@ =~= t@.skip(i + 1));
            crate::text::trim_vec(&rest)
        },
        None => {
            assert(first_space(t@) is None);
            t
        },
    };
    let prefix = crate::text::chars_of("file://");
    if crate::text::starts_with(&cand, &prefix) {
        proof {
            reveal_strlit("file://");
        }
        let rest = crate::text::string_of_range(&cand, 7, cand.len());
        assert(rest@ =~= cand@.skip(7));
        return url_decode(rest.as_str());
    }
    Some(crate::text::string_of(&cand))
}

/// `urlencoding::decode`: each `%` and two hex digits in the UTF-8 bytes of
/// `data` replaced by the byte they spell, every other byte kept, and the
/// bytes read back as UTF-8; `None` where they are not UTF-8
/// (`percent_decoded`).
#[verifier::external_body]
pub(crate) fn url_decode(data: &str) -> (r: Option<String>)
    ensures
        match r {
            Some(s) => percent_decoded(data@) == Some(s@),
            None => percent_decoded(data@) is None,
        },
{
    match urlencoding::decode(data) {
        Ok(s) => Some(s.into_owned()),
        Err(_) => None,
    }
}

/// `Path::file_name`: the last component of `path`, if it has one.
#[verifier::external_body]
pub(crate) fn file_name_of(path: &str) -> (r: Option<String>)
    ensures
        match r {
            Some(s) => path_file_name(path@) == Some(s@),
            None => path_file_name(path@) is None,
        },
{
    let name = std::path::Path::new(path).file_name()?;
    Some(name.to_string_lossy().into_owned())
}

} // verus!

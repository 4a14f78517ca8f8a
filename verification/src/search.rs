//! The launcher's search: candidates from each source, scored, boosted by
//! learned predictions, ranked and cut to size.
use vstd::prelude::*;

use crate::model::{
    Action, PasswordOperation, PowerOperation, QueryInput, ResultItem, SearchMode, SourceFilter,
    WindowFocusTarget,
};
use crate::prediction::{copy_action, copy_focus_target};
use crate::text::{
    chars_of, compare_vec, dec, lemma_seq_lt_asym, lemma_seq_lt_trans, owned, push_dec, push_str, seq_lt,
};

verus! {

// ---------------------------------------------------------------------------
// Plain views of results
// ---------------------------------------------------------------------------

/// A window target as plain values.
pub enum TargetView {
    Hyprland { address: Seq<char>, xwayland: bool },
    Niri { id: u64 },
    X11 { window_id: Seq<char> },
}

/// An action as plain values.
pub enum ActionView {
    LaunchApp { desktop_id: Seq<char> },
    FocusWindow { target: TargetView },
    OpenFile { path: Seq<char> },
    Ssh { host: Seq<char> },
    CopyPass { entry: Seq<char> },
    Password { entry: Seq<char>, operation: PasswordOperation },
    RunCommand { command: Seq<char> },
    OpenUrl { url: Seq<char> },
    WebSearch { query: Seq<char> },
    CopyText { text: Seq<char> },
    Power { operation: PowerOperation, confirmed: bool },
    Nothing,
}

pub open spec fn target_view(t: WindowFocusTarget) -> TargetView {
    match t {
        WindowFocusTarget::Hyprland { address, xwayland } => TargetView::Hyprland { address: address@, xwayland },
        WindowFocusTarget::Niri { id } => TargetView::Niri { id },
        WindowFocusTarget::X11 { window_id } => TargetView::X11 { window_id: window_id@ },
    }
}

pub open spec fn action_view(a: Action) -> ActionView {
    match a {
        Action::LaunchApp { desktop_id } => ActionView::LaunchApp { desktop_id: desktop_id@ },
        Action::FocusWindow { target } => ActionView::FocusWindow { target: target_view(target) },
        Action::OpenFile { path } => ActionView::OpenFile { path: path@ },
        Action::Ssh { host } => ActionView::Ssh { host: host@ },
        Action::CopyPass { entry } => ActionView::CopyPass { entry: entry@ },
        Action::Password { entry, operation } => ActionView::Password { entry: entry@, operation },
        Action::RunCommand { command } => ActionView::RunCommand { command: command@ },
        Action::OpenUrl { url } => ActionView::OpenUrl { url: url@ },
        Action::WebSearch { query } => ActionView::WebSearch { query: query@ },
        Action::CopyText { text } => ActionView::CopyText { text: text@ },
        Action::Power { operation, confirmed } => ActionView::Power { operation, confirmed },
        Action::Nothing => ActionView::Nothing,
    }
}

/// A result as plain values: title, subtitle, source, icon, score, action,
/// prediction key.
pub type ItemView = (Seq<char>, Seq<char>, Seq<char>, Seq<char>, int, ActionView, Option<Seq<char>>);

pub open spec fn item_view(r: ResultItem) -> ItemView {
    (
        r.title@,
        r.subtitle@,
        r.source@,
        r.icon_name@,
        r.score as int,
        action_view(r.action),
        match r.prediction_key {
            Some(k) => Some(k@),
            None => None,
        },
    )
}

pub open spec fn items_view(v: Seq<ResultItem>) -> Seq<ItemView> {
    v.map_values(|r: ResultItem| item_view(r))
}

// ---------------------------------------------------------------------------
// Ranking
// ---------------------------------------------------------------------------

/// Higher scores first; among equal scores, titles in order.
pub open spec fn ranks_before(a: ItemView, b: ItemView) -> bool {
    a.4 > b.4 || (a.4 == b.4 && seq_lt(a.0, b.0))
}

/// `x` placed into the ranked `s` after every result it does not rank
/// before.
pub open spec fn insert_ranked(x: ItemView, s: Seq<ItemView>) -> Seq<ItemView>
    decreases s.len(),
{
    if s.len() == 0 || ranks_before(x, s[0]) {
        seq![x] + s
    } else {
        seq![s[0]] + insert_ranked(x, s.drop_first())
    }
}

/// `s` in rank order, results that rank alike in their listed order (a
/// stable sort).
pub open spec fn ranked(s: Seq<ItemView>) -> Seq<ItemView>
    decreases s.len(),
{
    if s.len() == 0 {
        Seq::empty()
    } else {
        insert_ranked(s.last(), ranked(s.drop_last()))
    }
}

/// The best `limit` of `s`, in rank order.
pub open spec fn top(s: Seq<ItemView>, limit: nat) -> Seq<ItemView> {
    let r = ranked(s);
    r.take(if limit < r.len() { limit as int } else { r.len() as int })
}

proof fn lemma_insert_ranked_len(x: ItemView, s: Seq<ItemView>)
    ensures
        insert_ranked(x, s).len() == s.len() + 1,
    decreases s.len(),
{
    if s.len() > 0 && !ranks_before(x, s[0]) {
        lemma_insert_ranked_len(x, s.drop_first());
    }
}

proof fn lemma_ranked_len(s: Seq<ItemView>)
    ensures
        ranked(s).len() == s.len(),
    decreases s.len(),
{
    if s.len() > 0 {
        lemma_ranked_len(s.drop_last());
        lemma_insert_ranked_len(s.last(), ranked(s.drop_last()));
    }
}

/// No result ranks before one listed above it.
pub open spec fn in_rank_order(s: Seq<ItemView>) -> bool {
    forall|i: int, j: int| 0 <= i < j < s.len() ==> !ranks_before(#[trigger] s[j], #[trigger] s[i])
}

proof fn lemma_ranks_before_trans(a: ItemView, b: ItemView, c: ItemView)
    requires
        ranks_before(a, b),
        ranks_before(b, c),
    ensures
        ranks_before(a, c),
{
    if a.4 == b.4 && b.4 == c.4 {
        lemma_seq_lt_trans(a.0, b.0, c.0);
    }
}

proof fn lemma_ranks_before_asym(a: ItemView, b: ItemView)
    ensures
        !(ranks_before(a, b) && ranks_before(b, a)),
{
    lemma_seq_lt_asym(a.0, b.0);
}

proof fn lemma_insert_ranked_order(x: ItemView, s: Seq<ItemView>)
    requires
        in_rank_order(s),
    ensures
        in_rank_order(insert_ranked(x, s)),
        insert_ranked(x, s).to_multiset() == s.to_multiset().insert(x),
    decreases s.len(),
{
    broadcast use {vstd::seq_lib::group_seq_properties, vstd::multiset::group_multiset_axioms};

    let r = insert_ranked(x, s);
    if s.len() == 0 {
        assert(r =~= seq![x]);
        assert(seq![x] =~= Seq::<ItemView>::empty().push(x));
    } else if ranks_before(x, s[0]) {
        assert(r =~= seq![x] + s);
        assert forall|i: int, j: int| 0 <= i < j < r.len() implies !ranks_before(#[trigger] r[j], #[trigger] r[i]) by {
            if i == 0 {
                lemma_ranks_before_asym(x, s[0]);
                if j > 1 {
                    if ranks_before(r[j], x) {
                        lemma_ranks_before_trans(r[j], x, s[0]);
                        assert(r[j] == s[j - 1]);
                    }
                }
            } else {
                assert(r[i] == s[i - 1] && r[j] == s[j - 1]);
            }
        }
        assert(r =~= seq![x] + s);
        vstd::seq_lib::lemma_multiset_commutative(seq![x], s);
    } else {
        let t = s.drop_first();
        assert(in_rank_order(t)) by {
            assert forall|i: int, j: int| 0 <= i < j < t.len() implies !ranks_before(#[trigger] t[j], #[trigger] t[i]) by {
                assert(t[i] == s[i + 1] && t[j] == s[j + 1]);
            }
        }
        lemma_insert_ranked_order(x, t);
        let rt = insert_ranked(x, t);
        assert(r =~= seq![s[0]] + rt);
        assert forall|i: int, j: int| 0 <= i < j < r.len() implies !ranks_before(#[trigger] r[j], #[trigger] r[i]) by {
            if i == 0 {
                // r[j] is x or an element of t, none of which ranks before s[0]
                assert(r[j] == rt[j - 1]);
                assert(rt.contains(rt[j - 1]));
                assert(rt.to_multiset().count(rt[j - 1]) > 0);
                assert(t.to_multiset().insert(x).count(rt[j - 1]) > 0);
                if rt[j - 1] != x {
                    assert(t.to_multiset().count(rt[j - 1]) > 0);
                    assert(t.contains(rt[j - 1]));
                    let k = choose|k: int| 0 <= k < t.len() && t[k] == rt[j - 1];
                    assert(s[k + 1] == t[k]);
                }
            } else {
                assert(r[i] == rt[i - 1] && r[j] == rt[j - 1]);
            }
        }
        assert(s =~= seq![s[0]] + t);
        vstd::seq_lib::lemma_multiset_commutative(seq![s[0]], rt);
        vstd::seq_lib::lemma_multiset_commutative(seq![s[0]], t);
    }
}

/// Ranking orders results without losing or adding any: no result ranks
/// before one listed above it, and the results are those given.
pub proof fn ranking_orders_every_result(s: Seq<ItemView>)
    ensures
        in_rank_order(ranked(s)),
        ranked(s).to_multiset() == s.to_multiset(),
    decreases s.len(),
{
    broadcast use {vstd::seq_lib::group_seq_properties, vstd::multiset::group_multiset_axioms};

    if s.len() == 0 {
        assert(ranked(s) =~= s);
    } else {
        ranking_orders_every_result(s.drop_last());
        lemma_insert_ranked_order(s.last(), ranked(s.drop_last()));
        assert(s =~= s.drop_last().push(s.last()));
    }
}

/// A finished search shows between one and 24 rows, best first.
pub proof fn finished_rows_are_few_and_ordered(items: Seq<ItemView>, q: QueryInput)
    ensures
        1 <= finished(items, q).len() <= 24,
        finished(items, q).len() == 1 || in_rank_order(finished(items, q)),
{
    lemma_ranked_len(items);
    ranking_orders_every_result(items);
    let t = top(items, 24);
    assert forall|i: int, j: int| 0 <= i < j < t.len() implies !ranks_before(#[trigger] t[j], #[trigger] t[i]) by {
        assert(t[i] == ranked(items)[i] && t[j] == ranked(items)[j]);
    }
}

proof fn lemma_insert_ranked_at(x: ItemView, s: Seq<ItemView>, k: int)
    requires
        0 <= k <= s.len(),
        forall|j: int| 0 <= j < k ==> !ranks_before(x, #[trigger] s[j]),
        k == s.len() || ranks_before(x, s[k]),
    ensures
        insert_ranked(x, s) == s.take(k) + seq![x] + s.skip(k),
    decreases s.len(),
{
    if k == 0 {
        assert(s.take(0) + seq![x] + s.skip(0) =~= seq![x] + s);
    } else {
        let t = s.drop_first();
        assert forall|j: int| 0 <= j < k - 1 implies !ranks_before(x, #[trigger] t[j]) by {
            assert(t[j] == s[j + 1]);
        }
        if k < s.len() {
            assert(t[k - 1] == s[k]);
        }
        lemma_insert_ranked_at(x, t, k - 1);
        assert(s.take(k) + seq![x] + s.skip(k) =~= seq![s[0]] + (t.take(k - 1) + seq![x] + t.skip(k - 1)));
    }
}

pub fn copy_item(r: &ResultItem) -> (c: ResultItem)
    ensures
        item_view(c) == item_view(*r),
{
    ResultItem {
        title: r.title.clone(),
        subtitle: r.subtitle.clone(),
        source: r.source,
        icon_name: r.icon_name.clone(),
        score: r.score,
        action: copy_action(&r.action),
        prediction_key: match &r.prediction_key {
            Some(k) => Some(k.clone()),
            None => None,
        },
    }
}

/// `rows` copied onto the end of `out`.
pub fn append_items(out: &mut Vec<ResultItem>, rows: &Vec<ResultItem>)
    ensures
        items_view(final(out)@) == items_view(old(out)@) + items_view(rows@),
        final(out)@.len() == old(out)@.len() + rows@.len(),
        final(out)@.subrange(0, old(out)@.len() as int) == old(out)@,
{
    let ghost first = out@;
    let mut k: usize = 0;
    while k < rows.len()
        invariant
            k <= rows@.len(),
            items_view(out@) == items_view(first) + items_view(rows@.take(k as int)),
            out@.len() == first.len() + k,
            out@.subrange(0, first.len() as int) == first,
        decreases rows@.len() - k,
    {
        let ghost before = out@;
        let x = copy_item(&rows[k]);
        out.push(x);
        assert(out@.subrange(0, first.len() as int) =~= before.subrange(0, first.len() as int));
        assert(items_view(out@) =~= items_view(before) + seq![item_view(x)]);
        assert(items_view(rows@.take(k + 1)) =~= items_view(rows@.take(k as int)) + seq![item_view(rows@[k as int])]);
        k = k + 1;
    }
    assert(rows@.take(rows@.len() as int) =~= rows@);
}

fn ranks_before_exec(a: &ResultItem, b: &ResultItem) -> (r: bool)
    ensures
        r == ranks_before(item_view(*a), item_view(*b)),
{
    if a.score != b.score {
        return a.score > b.score;
    }
    compare_vec(&chars_of(a.title.as_str()), &chars_of(b.title.as_str())) < 0
}

/// The best `limit` results, highest score first, ties by title, stable.
pub fn sort_results(items: &Vec<ResultItem>, limit: usize) -> (r: Vec<ResultItem>)
    ensures
        items_view(r@) == top(items_view(items@), limit as nat),
{
    let ghost iv = items_view(items@);
    let mut sorted: Vec<ResultItem> = Vec::new();
    let mut i: usize = 0;
    while i < items.len()
        invariant
            i <= items@.len(),
            iv == items_view(items@),
            items_view(sorted@) == ranked(iv.take(i as int)),
        decreases items@.len() - i,
    {
        let ghost s = items_view(sorted@);
        let x = copy_item(&items[i]);
        let mut k: usize = 0;
        while k < sorted.len() && !ranks_before_exec(&x, &sorted[k])
            invariant
                k <= sorted@.len(),
                s == items_view(sorted@),
                forall|j: int| 0 <= j < k ==> !ranks_before(item_view(x), #[trigger] s[j]),
            decreases sorted@.len() - k,
        {
            k = k + 1;
        }
        proof {
            lemma_insert_ranked_at(item_view(x), s, k as int);
            assert(iv.take(i + 1).drop_last() =~= iv.take(i as int));
            assert(iv.take(i + 1).last() == item_view(x));
        }
        sorted.insert(k, x);
        assert(items_view(sorted@) =~= s.take(k as int) + seq![item_view(x)] + s.skip(k as int));
        i = i + 1;
    }
    assert(iv.take(items@.len() as int) =~= iv);
    proof {
        lemma_ranked_len(iv);
    }
    if limit < sorted.len() {
        sorted.truncate(limit);
    }
    assert(items_view(sorted@) =~= top(iv, limit as nat));
    sorted
}

// ---------------------------------------------------------------------------
// Entries, keys and single results
// ---------------------------------------------------------------------------

#[derive(Clone, Debug)]
pub struct AppEntry {
    pub desktop_id: String,
    pub name: String,
    pub description: String,
    pub executable: String,
    pub icon_name: String,
    /// Lowercased text the query is matched against.
    pub search_blob: String,
}

#[derive(Clone, Debug)]
pub struct PassEntry {
    pub name: String,
    pub search_blob: String,
}

#[derive(Clone, Debug)]
pub struct WindowEntry {
    pub title: String,
    pub app_name: String,
    pub workspace: String,
    pub search_blob: String,
    /// Lower is more recently focused.
    pub focus_order: i64,
    pub focus_target: WindowFocusTarget,
}

#[derive(Clone, Debug)]
pub struct BookmarkEntry {
    pub title: String,
    pub url: String,
    pub search_blob: String,
}

#[derive(Clone, Debug)]
pub struct RecentFileEntry {
    pub title: String,
    pub path: String,
    pub modified: i64,
    pub search_blob: String,
}

/// `prefix` followed by `text`.
pub fn keyed(prefix: &str, text: &str) -> (k: String)
    ensures
        k@ == prefix@ + text@,
{
    let mut k = owned(prefix);
    push_str(&mut k, text);
    k
}

/// The prediction key of a window: its app, title and workspace.
pub open spec fn window_key(w: WindowEntry) -> Seq<char> {
    "window:"@ + w.app_name@ + ":"@ + w.title@ + ":"@ + w.workspace@
}

pub fn window_prediction_key(window: &WindowEntry) -> (k: String)
    ensures
        k@ == window_key(*window),
{
    let mut k = owned("window:");
    push_str(&mut k, window.app_name.as_str());
    push_str(&mut k, ":");
    push_str(&mut k, window.title.as_str());
    push_str(&mut k, ":");
    push_str(&mut k, window.workspace.as_str());
    k
}

pub open spec fn power_id(op: PowerOperation) -> Seq<char> {
    match op {
        PowerOperation::Lock => "lock"@,
        PowerOperation::Suspend => "suspend"@,
        PowerOperation::Logout => "logout"@,
        PowerOperation::Reboot => "reboot"@,
        PowerOperation::Shutdown => "shutdown"@,
    }
}

pub fn power_operation_id(operation: PowerOperation) -> (r: &'static str)
    ensures
        r@ == power_id(operation),
{
    match operation {
        PowerOperation::Lock => "lock",
        PowerOperation::Suspend => "suspend",
        PowerOperation::Logout => "logout",
        PowerOperation::Reboot => "reboot",
        PowerOperation::Shutdown => "shutdown",
    }
}

/// A row that explains instead of acting.
pub open spec fn instruction_view(title: Seq<char>, subtitle: Seq<char>, source: Seq<char>, icon: Seq<char>, score: int) -> ItemView {
    (title, subtitle, source, icon, score, ActionView::Nothing, None)
}

pub fn instruction_result(title: &str, subtitle: &str, source: &'static str, icon_name: &str, score: i32) -> (r: ResultItem)
    ensures
        item_view(r) == instruction_view(title@, subtitle@, source@, icon_name@, score as int),
{
    ResultItem {
        prediction_key: None,
        title: owned(title),
        subtitle: owned(subtitle),
        source,
        icon_name: owned(icon_name),
        score,
        action: Action::Nothing,
    }
}

/// What the row says when nothing matched, by source filter and mode.
pub open spec fn no_results_subtitle(q: QueryInput) -> Seq<char> {
    match q.source_filter {
        SourceFilter::Bookmarks => "Try a different bookmark title or URL fragment."@,
        SourceFilter::Recents => "Try a different recently used file name."@,
        SourceFilter::All => match q.mode {
            SearchMode::All => "Try a broader term or switch to a dedicated mode."@,
            SearchMode::Apps => "Try a different app name or executable."@,
            SearchMode::Windows => "Try a window title, app id, or workspace name."@,
            SearchMode::Files => "Try a different file name or ensure the file indexer has indexed it."@,
            SearchMode::Ssh => "Check ~/.ssh/config and known_hosts for the expected host."@,
            SearchMode::Pass => "Try a different password-store entry name."@,
            SearchMode::Commands => "Try a different executable name or a full shell command."@,
            SearchMode::Web => "Press Enter to open a browser search result instead."@,
            SearchMode::Calc => "Try a valid libqalculate expression such as 42/7."@,
        },
    }
}

pub open spec fn no_results_view(q: QueryInput) -> ItemView {
    (
        "No matches for \""@ + q.text@ + "\""@,
        no_results_subtitle(q),
        "Status"@,
        "system-search-symbolic"@,
        0,
        ActionView::Nothing,
        None,
    )
}

pub fn no_results_item(query: &QueryInput) -> (r: ResultItem)
    ensures
        item_view(r) == no_results_view(*query),
{
    let subtitle = match query.source_filter {
        SourceFilter::Bookmarks => "Try a different bookmark title or URL fragment.",
        SourceFilter::Recents => "Try a different recently used file name.",
        SourceFilter::All => match query.mode {
            SearchMode::All => "Try a broader term or switch to a dedicated mode.",
            SearchMode::Apps => "Try a different app name or executable.",
            SearchMode::Windows => "Try a window title, app id, or workspace name.",
            SearchMode::Files => "Try a different file name or ensure the file indexer has indexed it.",
            SearchMode::Ssh => "Check ~/.ssh/config and known_hosts for the expected host.",
            SearchMode::Pass => "Try a different password-store entry name.",
            SearchMode::Commands => "Try a different executable name or a full shell command.",
            SearchMode::Web => "Press Enter to open a browser search result instead.",
            SearchMode::Calc => "Try a valid libqalculate expression such as 42/7.",
        },
    };
    let mut title = owned("No matches for \"");
    push_str(&mut title, query.text.as_str());
    push_str(&mut title, "\"");
    ResultItem {
        prediction_key: None,
        title,
        subtitle: owned(subtitle),
        source: "Status",
        icon_name: owned("system-search-symbolic"),
        score: 0,
        action: Action::Nothing,
    }
}

pub const MAX_RESULTS: usize = 24;

/// The best 24 results, or the row saying nothing matched.
pub open spec fn finished(items: Seq<ItemView>, q: QueryInput) -> Seq<ItemView> {
    let t = top(items, 24);
    if t.len() == 0 {
        seq![no_results_view(q)]
    } else {
        t
    }
}

pub fn finish_search_results(results: &Vec<ResultItem>, query: &QueryInput) -> (r: Vec<ResultItem>)
    ensures
        items_view(r@) == finished(items_view(results@), *query),
{
    let mut r = sort_results(results, MAX_RESULTS);
    if r.len() == 0 {
        r.push(no_results_item(query));
        assert(items_view(r@) =~= seq![no_results_view(*query)]);
    }
    r
}

/// The password rows of an entry: autotype login (learned under the
/// entry's key), and with `include_secondary` the copy, type and inspect
/// rows, each slightly below the one before.
pub open spec fn password_rows(entry: Seq<char>, score: int, include_secondary: bool) -> Seq<ItemView> {
    let row = |title: Seq<char>, subtitle: Seq<char>, op: PasswordOperation, s: int, key: Option<Seq<char>>| (
        title + ": "@ + entry,
        subtitle,
        "Passwords"@,
        "dialog-password-symbolic"@,
        s,
        ActionView::Password { entry, operation: op },
        key,
    );
    let first = seq![row(
        "Autotype login"@,
        "Type username, Tab, and password without submitting"@,
        PasswordOperation::AutotypeLogin,
        score + 80,
        Some("pass:"@ + entry),
    )];
    if include_secondary {
        first + seq![
            row("Copy password"@, "Copy password and clear it after the password-store timeout"@, PasswordOperation::CopyPassword, score + 50, None),
            row("Copy username"@, "Copy username metadata or the entry basename"@, PasswordOperation::CopyUsername, score + 45, None),
            row("Type password"@, "Type only the password into the focused window"@, PasswordOperation::TypePassword, score + 40, None),
            row("Type username"@, "Type only the username into the focused window"@, PasswordOperation::TypeUsername, score + 35, None),
            row("Inspect actions"@, "Decrypt this entry to show URL, OTP, and custom actions"@, PasswordOperation::Inspect, score + 30, None),
        ]
    } else {
        first
    }
}

fn password_action_result(entry: &str, title: &str, subtitle: &str, operation: PasswordOperation, score: i32, prediction_key: Option<String>) -> (r: ResultItem)
    ensures
        item_view(r) == (
            title@ + ": "@ + entry@,
            subtitle@,
            "Passwords"@,
            "dialog-password-symbolic"@,
            score as int,
            ActionView::Password { entry: entry@, operation },
            match prediction_key { Some(k) => Some(k@), None => None::<Seq<char>> },
        ),
{
    let mut t = owned(title);
    push_str(&mut t, ": ");
    push_str(&mut t, entry);
    ResultItem {
        prediction_key,
        title: t,
        subtitle: owned(subtitle),
        source: "Passwords",
        icon_name: owned("dialog-password-symbolic"),
        score,
        action: Action::Password { entry: owned(entry), operation },
    }
}

pub fn password_action_results(entry: &str, score: i32, include_secondary: bool) -> (r: Vec<ResultItem>)
    requires
        score + 80 <= i32::MAX,
    ensures
        items_view(r@) == password_rows(entry@, score as int, include_secondary),
{
    let mut rows: Vec<ResultItem> = Vec::new();
    rows.push(password_action_result(
        entry,
        "Autotype login",
        "Type username, Tab, and password without submitting",
        PasswordOperation::AutotypeLogin,
        score + 80,
        Some(keyed("pass:", entry)),
    ));
    if include_secondary {
        rows.push(password_action_result(entry, "Copy password", "Copy password and clear it after the password-store timeout", PasswordOperation::CopyPassword, score + 50, None));
        rows.push(password_action_result(entry, "Copy username", "Copy username metadata or the entry basename", PasswordOperation::CopyUsername, score + 45, None));
        rows.push(password_action_result(entry, "Type password", "Type only the password into the focused window", PasswordOperation::TypePassword, score + 40, None));
        rows.push(password_action_result(entry, "Type username", "Type only the username into the focused window", PasswordOperation::TypeUsername, score + 35, None));
        rows.push(password_action_result(entry, "Inspect actions", "Decrypt this entry to show URL, OTP, and custom actions", PasswordOperation::Inspect, score + 30, None));
    }
    assert(items_view(rows@) =~= password_rows(entry@, score as int, include_secondary));
    rows
}

/// The program and arguments that focus a window.
pub fn window_focus_command(target: &WindowFocusTarget) -> (r: (&'static str, Vec<String>))
    ensures
        match *target {
            WindowFocusTarget::Hyprland { address, .. } => r.0@ == "hyprctl"@ && r.1@.map_values(|s: String| s@)
                == seq!["dispatch"@, "focuswindow"@, "address:"@ + address@],
            WindowFocusTarget::Niri { id } => r.0@ == "niri"@ && r.1@.map_values(|s: String| s@)
                == seq!["msg"@, "action"@, "focus-window"@, "--id"@, dec(id as nat)],
            WindowFocusTarget::X11 { window_id } => r.0@ == "xdotool"@ && r.1@.map_values(|s: String| s@)
                == seq!["windowactivate"@, "--sync"@, window_id@],
        },
{
    match target {
        WindowFocusTarget::Hyprland { address, .. } => {
            let mut v: Vec<String> = Vec::new();
            v.push(owned("dispatch"));
            v.push(owned("focuswindow"));
            v.push(keyed("address:", address.as_str()));
            assert(v@.map_values(|s: String| s@) =~= seq!["dispatch"@, "focuswindow"@, "address:"@ + address@]);
            ("hyprctl", v)
        },
        WindowFocusTarget::Niri { id } => {
            let mut n = String::new();
            push_dec(&mut n, *id);
            let mut v: Vec<String> = Vec::new();
            v.push(owned("msg"));
            v.push(owned("action"));
            v.push(owned("focus-window"));
            v.push(owned("--id"));
            v.push(n);
            assert(v@.map_values(|s: String| s@) =~= seq!["msg"@, "action"@, "focus-window"@, "--id"@, dec(*id as nat)]);
            ("niri", v)
        },
        WindowFocusTarget::X11 { window_id } => {
            let mut v: Vec<String> = Vec::new();
            v.push(owned("windowactivate"));
            v.push(owned("--sync"));
            v.push(window_id.clone());
            assert(v@.map_values(|s: String| s@) =~= seq!["windowactivate"@, "--sync"@, window_id@]);
            ("xdotool", v)
        },
    }
}

/// A window's row: its title, its app and workspace, and the given score.
pub open spec fn window_row(w: WindowEntry, score: int) -> ItemView {
    (
        w.title@,
        w.app_name@ + " on workspace "@ + w.workspace@,
        "Windows"@,
        "view-grid-symbolic"@,
        score,
        ActionView::FocusWindow { target: target_view(w.focus_target) },
        Some(window_key(w)),
    )
}

pub fn window_result_item_with_score(window: &WindowEntry, score: i32) -> (r: ResultItem)
    ensures
        item_view(r) == window_row(*window, score as int),
{
    let mut subtitle = window.app_name.clone();
    push_str(&mut subtitle, " on workspace ");
    push_str(&mut subtitle, window.workspace.as_str());
    ResultItem {
        prediction_key: Some(window_prediction_key(window)),
        title: window.title.clone(),
        subtitle,
        source: "Windows",
        icon_name: owned("view-grid-symbolic"),
        score,
        action: Action::FocusWindow { target: copy_focus_target(&window.focus_target) },
    }
}

/// A window's focus order counted up to 200, as a 32-bit number (the low 32
/// bits of an order below the 32-bit range).
pub open spec fn capped_focus(focus_order: i64) -> i32 {
    (if focus_order < 200 { focus_order } else { 200i64 }) as i32
}

/// The resting score of a window row: 760 less its focus order, counted up
/// to 200 (a more recently focused window ranks higher).
pub open spec fn window_rest_score(focus_order: i64) -> int {
    760 - capped_focus(focus_order)
}

/// The resting score can be computed: it fits in 32 bits.
pub open spec fn rest_score_fits(focus_order: i64) -> bool {
    capped_focus(focus_order) >= i32::MIN + 761
}

pub fn window_result_item(window: &WindowEntry) -> (r: ResultItem)
    requires
        rest_score_fits(window.focus_order),
    ensures
        item_view(r) == window_row(*window, window_rest_score(window.focus_order)),
{
    let m: i64 = if window.focus_order < 200 { window.focus_order } else { 200 };
    let capped: i32 = m as i32;
    let score: i32 = 760 - capped;
    window_result_item_with_score(window, score)
}

/// Whether a query reads as arithmetic or a unit conversion: a digit, one of
/// `+-*/^=()`, or ` to `.
pub open spec fn looks_like_math_spec(q: Seq<char>) -> bool {
    (exists|i: int| 0 <= i < q.len() && {
        let c = #[trigger] q[i];
        ('0' <= c && c <= '9') || c == '+' || c == '-' || c == '*' || c == '/' || c == '^' || c == '='
            || c == '(' || c == ')'
    }) || crate::text::contains_seq(q, " to "@)
}

pub fn looks_like_math(query: &str) -> (r: bool)
    ensures
        r == looks_like_math_spec(query@),
{
    let v = chars_of(query);
    let mut i: usize = 0;
    while i < v.len()
        invariant
            i <= v@.len(),
            v@ == query@,
            forall|j: int| 0 <= j < i ==> {
                let c = #[trigger] v@[j];
                !(('0' <= c && c <= '9') || c == '+' || c == '-' || c == '*' || c == '/' || c == '^' || c
                    == '=' || c == '(' || c == ')')
            },
        decreases v@.len() - i,
    {
        let c = v[i];
        if ('0' <= c && c <= '9') || c == '+' || c == '-' || c == '*' || c == '/' || c == '^' || c == '='
            || c == '(' || c == ')' {
            return true;
        }
        i = i + 1;
    }
    crate::text::find_seq(&v, &chars_of(" to ")).is_some()
}

} // verus!

//! Learned launcher predictions: activation history, ranking boosts and
//! pruning of old entries.
use vstd::prelude::*;

use crate::model::{Action, ResultItem, WindowFocusTarget};
use crate::sort::{is_permutation, is_sorted_by, sort_indices, KeySpec, SortKey};
use crate::text::{chars_of, str_eq};

verus! {

pub const MAX_HISTORY_ENTRIES: usize = 500;

#[derive(Clone, Debug)]
pub struct StoredPrediction {
    pub key: String,
    pub title: String,
    pub subtitle: String,
    pub source: String,
    pub icon_name: String,
    pub action: Action,
}

#[derive(Clone, Debug)]
pub struct PredictionEntry {
    pub prediction: StoredPrediction,
    pub count: u32,
    pub last_used: u64,
}

/// What reading the saved history gave.
#[derive(Debug)]
pub enum HistoryRead {
    /// The file held a history: each entry under the name it is saved by.
    Parsed(Vec<(String, PredictionEntry)>),
    /// The file held something that is not a history.
    Invalid,
    /// There is no file yet.
    Missing,
    /// The file could not be read; the message says why.
    Failed(String),
}

/// The learned history: entries stored under names, no name twice.
/// Recording stores a prediction under its own key.
#[derive(Debug)]
pub struct PredictionStore {
    path: Option<String>,
    entries: Vec<(String, PredictionEntry)>,
}

// ---------------------------------------------------------------------------
// Copies with exact contracts
// ---------------------------------------------------------------------------

pub fn copy_focus_target(t: &WindowFocusTarget) -> (r: WindowFocusTarget)
    ensures
        r == *t,
{
    match t {
        WindowFocusTarget::Hyprland { address, xwayland } => WindowFocusTarget::Hyprland {
            address: address.clone(),
            xwayland: *xwayland,
        },
        WindowFocusTarget::Niri { id } => WindowFocusTarget::Niri { id: *id },
        WindowFocusTarget::X11 { window_id } => WindowFocusTarget::X11 { window_id: window_id.clone() },
    }
}

pub fn copy_action(a: &Action) -> (r: Action)
    ensures
        r == *a,
{
    match a {
        Action::LaunchApp { desktop_id } => Action::LaunchApp { desktop_id: desktop_id.clone() },
        Action::FocusWindow { target } => Action::FocusWindow { target: copy_focus_target(target) },
        Action::OpenFile { path } => Action::OpenFile { path: path.clone() },
        Action::Ssh { host } => Action::Ssh { host: host.clone() },
        Action::CopyPass { entry } => Action::CopyPass { entry: entry.clone() },
        Action::Password { entry, operation } => Action::Password { entry: entry.clone(), operation: *operation },
        Action::RunCommand { command } => Action::RunCommand { command: command.clone() },
        Action::OpenUrl { url } => Action::OpenUrl { url: url.clone() },
        Action::WebSearch { query } => Action::WebSearch { query: query.clone() },
        Action::CopyText { text } => Action::CopyText { text: text.clone() },
        Action::Power { operation, confirmed } => Action::Power { operation: *operation, confirmed: *confirmed },
        Action::Nothing => Action::Nothing,
    }
}

pub fn copy_prediction(p: &StoredPrediction) -> (r: StoredPrediction)
    ensures
        r == *p,
{
    StoredPrediction {
        key: p.key.clone(),
        title: p.title.clone(),
        subtitle: p.subtitle.clone(),
        source: p.source.clone(),
        icon_name: p.icon_name.clone(),
        action: copy_action(&p.action),
    }
}

pub fn copy_entry(e: &PredictionEntry) -> (r: PredictionEntry)
    ensures
        r == *e,
{
    PredictionEntry { prediction: copy_prediction(&e.prediction), count: e.count, last_used: e.last_used }
}


// ---------------------------------------------------------------------------
// Specification
// ---------------------------------------------------------------------------

/// An entry of the history with the name it is stored under.
pub type NamedEntry = (Seq<char>, PredictionEntry);

pub open spec fn key_of(e: PredictionEntry) -> Seq<char> {
    e.prediction.key@
}

/// Stored pairs as names and entries.
pub open spec fn named(v: Seq<(String, PredictionEntry)>) -> Seq<NamedEntry> {
    v.map_values(|p: (String, PredictionEntry)| (p.0@, p.1))
}

/// No two entries share a name.
pub open spec fn names_distinct(s: Seq<NamedEntry>) -> bool {
    forall|a: int, b: int| 0 <= a < b < s.len() ==> s[a].0 != s[b].0
}

/// Some entry is stored under `name`.
pub open spec fn has_name(s: Seq<NamedEntry>, name: Seq<char>) -> bool {
    exists|i: int| 0 <= i < s.len() && (#[trigger] s[i]).0 == name
}

/// Every entry is stored under its own prediction key, as recording stores it.
pub open spec fn names_match_keys(s: Seq<NamedEntry>) -> bool {
    forall|i: int| 0 <= i < s.len() ==> (#[trigger] s[i]).0 == key_of(s[i].1)
}

/// Points for how recently an entry was used, by its age in seconds.
pub open spec fn recency_points(age: int) -> int {
    if age <= 60 * 60 {
        250
    } else if age <= 24 * 60 * 60 {
        180
    } else if age <= 7 * 24 * 60 * 60 {
        100
    } else if age <= 30 * 24 * 60 * 60 {
        40
    } else {
        0
    }
}

/// Frequency (25 points per use, at most 10 uses) plus recency.
pub open spec fn boost(e: PredictionEntry, now: u64) -> int {
    let uses: int = if e.count < 10 { e.count as int } else { 10 };
    let age: int = if now >= e.last_used { now - e.last_used } else { 0 };
    uses * 25 + recency_points(age)
}

/// The boost a history gives name `key` at `now`: that of the entry stored
/// under it, 0 when there is none.
pub open spec fn learned_boost(s: Seq<NamedEntry>, key: Seq<char>, now: u64) -> int {
    if has_name(s, key) {
        boost(s[choose|i: int| 0 <= i < s.len() && (#[trigger] s[i]).0 == key].1, now)
    } else {
        0
    }
}

/// Ranking key of a stored entry within history `s`: higher boost (looked
/// up under its prediction key) first, then more recent, then more used,
/// then title, then the name it is stored under.
pub open spec fn rank_key(x: NamedEntry, s: Seq<NamedEntry>, now: u64) -> KeySpec {
    (
        seq![-learned_boost(s, key_of(x.1), now), -(x.1.last_used as int), -(x.1.count as int)],
        seq![x.1.prediction.title@, x.0],
    )
}

/// Pruning key: least recently used first, then least used, then key.
pub open spec fn prune_key(e: PredictionEntry) -> KeySpec {
    (seq![e.last_used as int, e.count as int], seq![e.prediction.key@])
}

/// The history after recording one use of `p` at `now`, before pruning:
/// the entry stored under `p`'s key takes `p`, one more use (saturating)
/// and `now`; without one, `p` is stored under its key with one use.
pub open spec fn upsert(s: Seq<NamedEntry>, p: StoredPrediction, now: u64) -> Seq<NamedEntry> {
    if has_name(s, p.key@) {
        let i = choose|i: int| 0 <= i < s.len() && (#[trigger] s[i]).0 == p.key@;
        let count = if s[i].1.count == u32::MAX { u32::MAX } else { (s[i].1.count + 1) as u32 };
        s.update(i, (p.key@, PredictionEntry { prediction: p, count, last_used: now }))
    } else {
        s.push((p.key@, PredictionEntry { prediction: p, count: 1, last_used: now }))
    }
}

/// The prediction keys of the first `m` entries of `s` in `order`.
pub open spec fn victim_keys(s: Seq<NamedEntry>, order: Seq<int>, m: int) -> Seq<Seq<char>> {
    Seq::new(m as nat, |t: int| key_of(s[order[t]].1))
}

/// `s` without the entries stored under a name in `names`, in order.
pub open spec fn without_names(s: Seq<NamedEntry>, names: Seq<Seq<char>>) -> Seq<NamedEntry>
    decreases s.len(),
{
    if s.len() == 0 {
        s
    } else {
        let rest = without_names(s.drop_last(), names);
        if names.contains(s.last().0) {
            rest
        } else {
            rest.push(s.last())
        }
    }
}

/// `kept` is `s` after pruning: unchanged when it has at most
/// `MAX_HISTORY_ENTRIES` entries; otherwise, with the entries in `prune_key`
/// order, the prediction keys of as many first entries as `s` is over the
/// limit are removed as names from `s`.
pub open spec fn pruned(s: Seq<NamedEntry>, kept: Seq<NamedEntry>) -> bool {
    if s.len() <= MAX_HISTORY_ENTRIES {
        kept == s
    } else {
        exists|order: Seq<int>|
            #![trigger is_permutation(order, s.len() as int)]
            is_permutation(order, s.len() as int)
            && is_sorted_by(s.map_values(|x: NamedEntry| prune_key(x.1)), order)
            && kept == without_names(s, victim_keys(s, order, s.len() - MAX_HISTORY_ENTRIES))
    }
}

/// What removing names keeps: entries of `s` only, each name at most once.
proof fn lemma_without_names(s: Seq<NamedEntry>, names: Seq<Seq<char>>)
    requires
        names_distinct(s),
    ensures
        names_distinct(without_names(s, names)),
        forall|k: int| 0 <= k < without_names(s, names).len() ==> s.contains(#[trigger] without_names(s, names)[k]),
    decreases s.len(),
{
    if s.len() > 0 {
        let d = s.drop_last();
        lemma_without_names(d, names);
        let w = without_names(d, names);
        assert forall|k: int| 0 <= k < w.len() implies s.contains(#[trigger] w[k]) by {
            let i = choose|i: int| 0 <= i < d.len() && d[i] == w[k];
            assert(s[i] == w[k]);
        }
        if !names.contains(s.last().0) {
            let r = w.push(s.last());
            assert forall|a: int, b: int| 0 <= a < b < r.len() implies r[a].0 != r[b].0 by {
                if b == w.len() {
                    let i = choose|i: int| 0 <= i < d.len() && d[i] == w[a];
                    assert(s[i] == d[i]);
                    assert(s[s.len() - 1] == s.last());
                } else {
                    assert(r[a] == w[a] && r[b] == w[b]);
                }
            }
            assert forall|k: int| 0 <= k < r.len() implies s.contains(#[trigger] r[k]) by {
                if k == w.len() {
                    assert(s[s.len() - 1] == r[k]);
                } else {
                    assert(r[k] == w[k]);
                }
            }
        }
    }
}

/// Removing a name that no entry has keeps everything.
proof fn lemma_without_absent(s: Seq<NamedEntry>, name: Seq<char>)
    requires
        !has_name(s, name),
    ensures
        without_names(s, seq![name]) == s,
    decreases s.len(),
{
    if s.len() > 0 {
        let d = s.drop_last();
        assert(!has_name(d, name)) by {
            if has_name(d, name) {
                let i = choose|i: int| 0 <= i < d.len() && (#[trigger] d[i]).0 == name;
                assert(s[i] == d[i]);
            }
        }
        lemma_without_absent(d, name);
        assert(s[s.len() - 1] == s.last());
        assert(!seq![name].contains(s.last().0)) by {
            if seq![name].contains(s.last().0) {
                let t = choose|t: int| 0 <= t < 1 && seq![name][t] == s.last().0;
                assert(seq![name][t] == name);
            }
        }
        assert(d.push(s.last()) =~= s);
    }
}

/// Removing the name of exactly one entry drops exactly that entry.
proof fn lemma_without_one(s: Seq<NamedEntry>, j: int)
    requires
        names_distinct(s),
        0 <= j < s.len(),
    ensures
        without_names(s, seq![s[j].0]).len() == s.len() - 1,
    decreases s.len(),
{
    let d = s.drop_last();
    let name = s[j].0;
    let n = s.len() - 1;
    assert(s[n] == s.last());
    assert(seq![name][0] == name);
    if j == n {
        assert(!has_name(d, name)) by {
            if has_name(d, name) {
                let i = choose|i: int| 0 <= i < d.len() && (#[trigger] d[i]).0 == name;
                assert(s[i] == d[i]);
            }
        }
        lemma_without_absent(d, name);
        assert(seq![name].contains(s.last().0));
    } else {
        assert(d[j] == s[j]);
        lemma_without_one(d, j);
        assert(!seq![name].contains(s.last().0)) by {
            if seq![name].contains(s.last().0) {
                let t = choose|t: int| 0 <= t < 1 && seq![name][t] == s.last().0;
                assert(seq![name][t] == name);
            }
        }
    }
}

/// Recording a choice in a history whose entries are stored under their own
/// keys never lets it grow past its limit.
pub proof fn history_stays_within_its_limit(before: Seq<NamedEntry>, p: StoredPrediction, now: u64, after: Seq<NamedEntry>)
    requires
        names_distinct(before),
        names_match_keys(before),
        before.len() <= MAX_HISTORY_ENTRIES,
        pruned(upsert(before, p, now), after),
    ensures
        after.len() <= MAX_HISTORY_ENTRIES,
{
    let u = upsert(before, p, now);
    if u.len() > MAX_HISTORY_ENTRIES {
        assert(!has_name(before, p.key@));
        assert(u.len() == before.len() + 1);
        let n = before.len() as int;
        assert(names_distinct(u)) by {
            assert forall|a: int, b: int| 0 <= a < b < u.len() implies u[a].0 != u[b].0 by {
                if b == n {
                    assert(u[a] == before[a]);
                } else {
                    assert(u[a] == before[a] && u[b] == before[b]);
                }
            }
        }
        let order = choose|order: Seq<int>|
            #![trigger is_permutation(order, u.len() as int)]
            is_permutation(order, u.len() as int)
            && is_sorted_by(u.map_values(|x: NamedEntry| prune_key(x.1)), order)
            && after == without_names(u, victim_keys(u, order, u.len() - MAX_HISTORY_ENTRIES));
        let j = order[0];
        assert(0 <= j < u.len());
        assert(u[j].0 == key_of(u[j].1)) by {
            if j < n {
                assert(u[j] == before[j]);
            }
        }
        assert(victim_keys(u, order, 1) =~= seq![u[j].0]);
        lemma_without_one(u, j);
    }
}

/// The label of a known source, `Predictions` for anything else.
pub open spec fn source_label_spec(source: Seq<char>) -> Seq<char> {
    if source == "Applications"@ {
        "Applications"@
    } else if source == "Windows"@ {
        "Windows"@
    } else if source == "Files"@ {
        "Files"@
    } else if source == "SSH"@ {
        "SSH"@
    } else if source == "Passwords"@ {
        "Passwords"@
    } else if source == "Commands"@ {
        "Commands"@
    } else if source == "Web"@ {
        "Web"@
    } else if source == "Calculator"@ {
        "Calculator"@
    } else {
        "Predictions"@
    }
}

/// The result item that a stored entry of history `s` is shown as; its
/// score is 2000 plus the boost `s` gives its prediction key.
pub open spec fn item_from(item: ResultItem, x: NamedEntry, s: Seq<NamedEntry>, now: u64) -> bool {
    &&& item.title@ == x.1.prediction.title@
    &&& item.subtitle@ == x.1.prediction.subtitle@
    &&& item.source@ == source_label_spec(x.1.prediction.source@)
    &&& item.icon_name@ == x.1.prediction.icon_name@
    &&& item.score as int == 2000 + learned_boost(s, key_of(x.1), now)
    &&& item.action == x.1.prediction.action
    &&& item.prediction_key matches Some(k) && k@ == key_of(x.1)
}

/// Storing `x` under its name: it replaces the entry with that name, or is
/// added after the others.
pub open spec fn insert_named(s: Seq<NamedEntry>, x: NamedEntry) -> Seq<NamedEntry> {
    if has_name(s, x.0) {
        s.update(choose|i: int| 0 <= i < s.len() && (#[trigger] s[i]).0 == x.0, x)
    } else {
        s.push(x)
    }
}

/// The history that storing each of `s` in turn makes: a later entry
/// replaces an earlier one with the same name.
pub open spec fn from_named(s: Seq<NamedEntry>) -> Seq<NamedEntry>
    decreases s.len(),
{
    if s.len() == 0 {
        s
    } else {
        insert_named(from_named(s.drop_last()), s.last())
    }
}

/// `items` are the `limit` best-ranked entries of `entries` at `now` as
/// result items, best first.
pub open spec fn best_predictions(entries: Seq<NamedEntry>, limit: nat, now: u64, items: Seq<ResultItem>) -> bool {
    &&& items.len() == if limit < entries.len() { limit as int } else { entries.len() as int }
    &&& exists|order: Seq<int>|
        #![trigger is_permutation(order, entries.len() as int)]
        is_permutation(order, entries.len() as int)
        && is_sorted_by(entries.map_values(|x: NamedEntry| rank_key(x, entries, now)), order)
        && forall|j: int| 0 <= j < items.len() ==> item_from(#[trigger] items[j], entries[order[j]], entries, now)
}

pub proof fn lemma_boost_bounds(e: PredictionEntry, now: u64)
    ensures
        0 <= boost(e, now) <= 500,
{
}

// ---------------------------------------------------------------------------
// Operations
// ---------------------------------------------------------------------------

/// The label of a known source, `Predictions` for anything else.
pub fn source_label(source: &str) -> (r: &'static str)
    ensures
        r@ == source_label_spec(source@),
{
    if str_eq(source, "Applications") {
        "Applications"
    } else if str_eq(source, "Windows") {
        "Windows"
    } else if str_eq(source, "Files") {
        "Files"
    } else if str_eq(source, "SSH") {
        "SSH"
    } else if str_eq(source, "Passwords") {
        "Passwords"
    } else if str_eq(source, "Commands") {
        "Commands"
    } else if str_eq(source, "Web") {
        "Web"
    } else if str_eq(source, "Calculator") {
        "Calculator"
    } else {
        "Predictions"
    }
}

fn boost_of(e: &PredictionEntry, now: u64) -> (b: i32)
    ensures
        b as int == boost(*e, now),
{
    let uses: i32 = if e.count < 10 { e.count as i32 } else { 10 };
    let age: u64 = if now >= e.last_used { now - e.last_used } else { 0 };
    let recency: i32 = if age <= 60 * 60 {
        250
    } else if age <= 24 * 60 * 60 {
        180
    } else if age <= 7 * 24 * 60 * 60 {
        100
    } else if age <= 30 * 24 * 60 * 60 {
        40
    } else {
        0
    };
    uses * 25 + recency
}

/// The index of the pair stored under `name`, if any.
fn index_of_name(entries: &Vec<(String, PredictionEntry)>, name: &str) -> (r: Option<usize>)
    ensures
        match r {
            Some(i) => i < entries@.len() && named(entries@)[i as int].0 == name@,
            None => !has_name(named(entries@), name@),
        },
{
    let mut i: usize = 0;
    while i < entries.len()
        invariant
            i <= entries.len(),
            forall|j: int| 0 <= j < i ==> (#[trigger] named(entries@)[j]).0 != name@,
        decreases entries.len() - i,
    {
        assert(named(entries@)[i as int] == (entries@[i as int].0@, entries@[i as int].1));
        if str_eq(entries[i].0.as_str(), name) {
            return Some(i);
        }
        i = i + 1;
    }
    None
}

/// Whether `name` is one of `names`.
fn name_listed(names: &Vec<String>, name: &str) -> (r: bool)
    ensures
        r == names@.map_values(|x: String| x@).contains(name@),
{
    let ghost v = names@.map_values(|x: String| x@);
    let mut i: usize = 0;
    while i < names.len()
        invariant
            i <= names.len(),
            v == names@.map_values(|x: String| x@),
            forall|j: int| 0 <= j < i ==> v[j] != name@,
        decreases names.len() - i,
    {
        if str_eq(names[i].as_str(), name) {
            assert(v[i as int] == name@);
            return true;
        }
        i = i + 1;
    }
    false
}

impl PredictionStore {
    /// The entries of the history with the names they are stored under.
    pub closed spec fn view(&self) -> Seq<NamedEntry> {
        named(self.entries@)
    }

    /// Where the history is saved, if anywhere.
    pub closed spec fn path_spec(&self) -> Option<Seq<char>> {
        match self.path {
            Some(p) => Some(p@),
            None => None,
        }
    }

    pub closed spec fn wf(&self) -> bool {
        names_distinct(named(self.entries@))
    }

    /// A history that is never saved and starts empty.
    pub fn disabled() -> (s: Self)
        ensures
            s.wf(),
            s@.len() == 0,
            s.path_spec() is None,
    {
        PredictionStore { path: None, entries: Vec::new() }
    }

    /// A history saved at `path`, holding `entries` each under its name (a
    /// later entry replaces an earlier one with the same name).
    pub fn with_entries(path: Option<String>, entries: Vec<(String, PredictionEntry)>) -> (s: Self)
        ensures
            s.wf(),
            s.path_spec() == (match path { Some(p) => Some(p@), None => None::<Seq<char>> }),
            s@ == from_named(named(entries@)),
    {
        let ghost src = named(entries@);
        let mut kept: Vec<(String, PredictionEntry)> = Vec::new();
        let mut i: usize = 0;
        while i < entries.len()
            invariant
                i <= entries.len(),
                src == named(entries@),
                names_distinct(named(kept@)),
                named(kept@) == from_named(src.take(i as int)),
            decreases entries.len() - i,
        {
            let ghost t0 = src.take(i as int);
            let ghost t1 = src.take(i + 1);
            let ghost prev = named(kept@);
            let ghost y = src[i as int];
            proof {
                assert(t1.drop_last() =~= t0);
                assert(t1.last() == y);
                assert(y == (entries@[i as int].0@, entries@[i as int].1));
            }
            let x = (entries[i].0.clone(), copy_entry(&entries[i].1));
            match index_of_name(&kept, entries[i].0.as_str()) {
                Some(j) => {
                    proof {
                        let c = choose|c: int| 0 <= c < prev.len() && (#[trigger] prev[c]).0 == y.0;
                        assert(c == j) by {
                            if c != j {
                                assert(prev[c].0 == prev[j as int].0);
                            }
                        }
                    }
                    kept.set(j, x);
                    proof {
                        assert(named(kept@) =~= prev.update(j as int, y));
                        assert forall|a: int, b: int| 0 <= a < b < named(kept@).len() implies named(kept@)[a].0 != named(kept@)[b].0 by {
                            assert(named(kept@)[a].0 == prev[a].0);
                            assert(named(kept@)[b].0 == prev[b].0);
                        }
                    }
                },
                None => {
                    kept.push(x);
                    proof {
                        assert(named(kept@) =~= prev.push(y));
                        assert forall|a: int, b: int| 0 <= a < b < named(kept@).len() implies named(kept@)[a].0 != named(kept@)[b].0 by {
                            if b == prev.len() {
                                assert(named(kept@)[a] == prev[a]);
                                if prev[a].0 == y.0 {
                                    assert(has_name(prev, y.0));
                                }
                            } else {
                                assert(named(kept@)[a] == prev[a] && named(kept@)[b] == prev[b]);
                            }
                        }
                    }
                },
            }
            i = i + 1;
        }
        assert(src.take(src.len() as int) =~= src);
        PredictionStore { path, entries: kept }
    }

    /// The history saved at `path`, from what reading it gave: a missing or
    /// unreadable-as-history file gives an empty history; a failed read is
    /// an error.
    pub fn load_from_path(path: String, read: HistoryRead) -> (r: Result<Self, String>)
        ensures
            match r {
                Ok(s) => {
                    &&& s.wf()
                    &&& s.path_spec() == Some(path@)
                    &&& match read {
                        HistoryRead::Parsed(entries) => s@ == from_named(named(entries@)),
                        HistoryRead::Failed(_) => false,
                        _ => s@.len() == 0,
                    }
                },
                Err(e) => read matches HistoryRead::Failed(m) && e@ == m@,
            },
    {
        match read {
            HistoryRead::Parsed(entries) => Ok(Self::with_entries(Some(path), entries)),
            HistoryRead::Invalid => Ok(PredictionStore { path: Some(path), entries: Vec::new() }),
            HistoryRead::Missing => Ok(PredictionStore { path: Some(path), entries: Vec::new() }),
            HistoryRead::Failed(m) => Err(m),
        }
    }

    /// The history at `path` when there is a place for it and it could be
    /// read, else a disabled history.
    pub fn load(path: Option<String>, read: HistoryRead) -> (s: Self)
        ensures
            s.wf(),
            (path is None || read is Failed) ==> s.path_spec() is None && s@.len() == 0,
            (path is Some && !(read is Failed)) ==> s.path_spec() == Some(path->0@),
            (path is Some && (read is Invalid || read is Missing)) ==> s@.len() == 0,
            (path is Some && read is Parsed) ==> s@ == from_named(named(read->Parsed_0@)),
    {
        match path {
            Some(p) => match Self::load_from_path(p, read) {
                Ok(s) => s,
                Err(_) => Self::disabled(),
            },
            None => Self::disabled(),
        }
    }

    /// The number of entries.
    pub fn len(&self) -> (n: usize)
        ensures
            n == self@.len(),
    {
        self.entries.len()
    }

    /// All entries with their names, in storage order.
    pub fn entries(&self) -> (e: &Vec<(String, PredictionEntry)>)
        ensures
            named(e@) == self@,
    {
        &self.entries
    }

    /// Where the history is saved, if anywhere.
    pub fn path(&self) -> (p: Option<&String>)
        ensures
            match p {
                Some(s) => self.path_spec() == Some(s@),
                None => self.path_spec() is None,
            },
    {
        match &self.path {
            Some(p) => Some(p),
            None => None,
        }
    }

    /// The entry stored under `key`, if any.
    pub fn entry(&self, key: &str) -> (r: Option<&PredictionEntry>)
        requires
            self.wf(),
        ensures
            match r {
                Some(e) => exists|i: int| 0 <= i < self@.len() && (#[trigger] self@[i]).0 == key@ && self@[i].1 == *e,
                None => !has_name(self@, key@),
            },
    {
        match index_of_name(&self.entries, key) {
            Some(i) => {
                assert(self@[i as int] == (self.entries@[i as int].0@, self.entries@[i as int].1));
                Some(&self.entries[i].1)
            },
            None => None,
        }
    }

    /// The ranking boost of the entry stored under `key` at time `now`: 0
    /// when there is none, else 25 points per use (at most 10 uses) plus
    /// 250, 180, 100, 40 or 0 points for an age within an hour, day, week,
    /// 30 days, or more.
    pub fn boost_for_key(&self, key: &str, now: u64) -> (b: i32)
        requires
            self.wf(),
        ensures
            has_name(self@, key@) ==> exists|i: int| 0 <= i < self@.len() && (#[trigger] self@[i]).0 == key@
                && b as int == boost(self@[i].1, now),
            !has_name(self@, key@) ==> b == 0,
            b == learned_boost(self@, key@, now),
            0 <= b <= 500,
    {
        match index_of_name(&self.entries, key) {
            Some(i) => {
                let b = boost_of(&self.entries[i].1, now);
                proof {
                    assert(self@[i as int] == (self.entries@[i as int].0@, self.entries@[i as int].1));
                    let c = choose|c: int| 0 <= c < self@.len() && (#[trigger] self@[c]).0 == key@;
                    if c != i {
                        assert(self@[c].0 == self@[i as int].0);
                    }
                    lemma_boost_bounds(self@[i as int].1, now);
                }
                b
            },
            None => 0,
        }
    }

    /// Records one use of `prediction` at `now`, then prunes the history to
    /// `MAX_HISTORY_ENTRIES` entries (saving is the caller's part).
    pub fn record(&mut self, prediction: StoredPrediction, now: u64)
        requires
            old(self).wf(),
        ensures
            final(self).wf(),
            final(self).path_spec() == old(self).path_spec(),
            pruned(upsert(old(self)@, prediction, now), final(self)@),
    {
        let ghost s0 = named(self.entries@);
        let ghost p = prediction;
        match index_of_name(&self.entries, prediction.key.as_str()) {
            Some(i) => {
                let count = self.entries[i].1.count;
                let new_count = if count == u32::MAX { u32::MAX } else { count + 1 };
                proof {
                    assert(s0[i as int] == (self.entries@[i as int].0@, self.entries@[i as int].1));
                    let c = choose|c: int| 0 <= c < s0.len() && (#[trigger] s0[c]).0 == p.key@;
                    assert(c == i) by {
                        if c != i {
                            assert(s0[c].0 == s0[i as int].0);
                        }
                    }
                }
                let name = prediction.key.clone();
                self.entries.set(i, (name, PredictionEntry { prediction, count: new_count, last_used: now }));
                proof {
                    assert(named(self.entries@) =~= upsert(s0, p, now));
                    assert forall|a: int, b: int| 0 <= a < b < named(self.entries@).len() implies named(self.entries@)[a].0 != named(self.entries@)[b].0 by {
                        assert(named(self.entries@)[a].0 == s0[a].0);
                        assert(named(self.entries@)[b].0 == s0[b].0);
                    }
                }
            },
            None => {
                let name = prediction.key.clone();
                self.entries.push((name, PredictionEntry { prediction, count: 1, last_used: now }));
                proof {
                    assert(named(self.entries@) =~= upsert(s0, p, now));
                    assert forall|a: int, b: int| 0 <= a < b < named(self.entries@).len() implies named(self.entries@)[a].0 != named(self.entries@)[b].0 by {
                        if b == s0.len() {
                            assert(named(self.entries@)[a] == s0[a]);
                            if s0[a].0 == p.key@ {
                                assert(has_name(s0, p.key@));
                            }
                        } else {
                            assert(named(self.entries@)[a] == s0[a] && named(self.entries@)[b] == s0[b]);
                        }
                    }
                }
            },
        }
        self.prune();
    }

    /// Prunes to `MAX_HISTORY_ENTRIES` entries: with the entries ordered by
    /// last use, then uses, then prediction key, the prediction keys of as
    /// many first entries as the history is over the limit are removed as
    /// names.
    fn prune(&mut self)
        requires
            old(self).wf(),
        ensures
            final(self).wf(),
            final(self).path == old(self).path,
            pruned(old(self)@, final(self)@),
    {
        let n = self.entries.len();
        if n <= MAX_HISTORY_ENTRIES {
            return;
        }
        let ghost s = named(self.entries@);
        let mut keys: Vec<SortKey> = Vec::new();
        let mut i: usize = 0;
        while i < n
            invariant
                n == self.entries.len(),
                s == named(self.entries@),
                i <= n,
                keys@.len() == i,
                forall|j: int| 0 <= j < i ==> (#[trigger] keys@[j]).view() == prune_key(s[j].1),
            decreases n - i,
        {
            let e = &self.entries[i].1;
            assert(s[i as int] == (self.entries@[i as int].0@, self.entries@[i as int].1));
            let mut nums: Vec<i128> = Vec::new();
            nums.push(e.last_used as i128);
            nums.push(e.count as i128);
            let mut strs: Vec<Vec<char>> = Vec::new();
            strs.push(chars_of(e.prediction.key.as_str()));
            let k = SortKey { nums, strs };
            assert(k.view().0 =~= prune_key(*e).0);
            assert(k.view().1 =~= prune_key(*e).1);
            keys.push(k);
            i = i + 1;
        }
        let order = sort_indices(&keys);
        let ghost ks = keys@.map_values(|k: SortKey| k.view());
        let ghost ov = order@.map_values(|x: usize| x as int);
        assert(ks =~= s.map_values(|x: NamedEntry| prune_key(x.1)));
        let remove = n - MAX_HISTORY_ENTRIES;
        let mut victims: Vec<String> = Vec::new();
        let mut t: usize = 0;
        while t < remove
            invariant
                remove < n,
                n == self.entries.len(),
                s == named(self.entries@),
                t <= remove,
                ov == order@.map_values(|x: usize| x as int),
                is_permutation(ov, n as int),
                victims@.len() == t,
                forall|q: int| 0 <= q < t ==> (#[trigger] victims@[q])@ == key_of(s[ov[q]].1),
            decreases remove - t,
        {
            assert(ov[t as int] == order@[t as int] as int);
            let idx = order[t];
            assert(s[idx as int] == (self.entries@[idx as int].0@, self.entries@[idx as int].1));
            victims.push(self.entries[idx].1.prediction.key.clone());
            t = t + 1;
        }
        let ghost v = victim_keys(s, ov, remove as int);
        assert(victims@.map_values(|x: String| x@) =~= v);
        let mut kept: Vec<(String, PredictionEntry)> = Vec::new();
        let mut i: usize = 0;
        while i < n
            invariant
                n == self.entries.len(),
                s == named(self.entries@),
                i <= n,
                v == victims@.map_values(|x: String| x@),
                named(kept@) == without_names(s.take(i as int), v),
            decreases n - i,
        {
            let ghost t0 = s.take(i as int);
            let ghost t1 = s.take(i + 1);
            proof {
                assert(t1.drop_last() =~= t0);
                assert(t1.last() == s[i as int]);
                assert(s[i as int] == (self.entries@[i as int].0@, self.entries@[i as int].1));
            }
            if !name_listed(&victims, self.entries[i].0.as_str()) {
                let ghost prev = named(kept@);
                kept.push((self.entries[i].0.clone(), copy_entry(&self.entries[i].1)));
                assert(named(kept@) =~= prev.push(s[i as int]));
            }
            i = i + 1;
        }
        proof {
            assert(s.take(n as int) =~= s);
            lemma_without_names(s, v);
            assert(is_permutation(ov, s.len() as int));
        }
        self.entries = kept;
    }

    /// The `limit` best-ranked entries at `now` as result items, best first:
    /// highest boost under the entry's prediction key, then most recent,
    /// most used, title, name. The score of each item is 2000 plus that
    /// boost.
    pub fn top_results(&self, limit: usize, now: u64) -> (items: Vec<ResultItem>)
        requires
            self.wf(),
        ensures
            best_predictions(self@, limit as nat, now, items@),
    {
        let n = self.entries.len();
        let mut keys: Vec<SortKey> = Vec::new();
        let mut i: usize = 0;
        while i < n
            invariant
                self.wf(),
                n == self.entries.len(),
                i <= n,
                keys@.len() == i,
                forall|j: int| 0 <= j < i ==> (#[trigger] keys@[j]).view() == rank_key(self@[j], self@, now),
            decreases n - i,
        {
            let pair = &self.entries[i];
            assert(self@[i as int] == (pair.0@, pair.1));
            let b = self.boost_for_key(pair.1.prediction.key.as_str(), now);
            let mut nums: Vec<i128> = Vec::new();
            nums.push(-(b as i128));
            nums.push(-(pair.1.last_used as i128));
            nums.push(-(pair.1.count as i128));
            let mut strs: Vec<Vec<char>> = Vec::new();
            strs.push(chars_of(pair.1.prediction.title.as_str()));
            strs.push(chars_of(pair.0.as_str()));
            let k = SortKey { nums, strs };
            assert(k.view().0 =~= rank_key(self@[i as int], self@, now).0);
            assert(k.view().1 =~= rank_key(self@[i as int], self@, now).1);
            keys.push(k);
            i = i + 1;
        }
        let order = sort_indices(&keys);
        let ghost ov = order@.map_values(|x: usize| x as int);
        let ghost ks = keys@.map_values(|k: SortKey| k.view());
        assert(ks =~= self@.map_values(|x: NamedEntry| rank_key(x, self@, now)));
        let take = if limit < n { limit } else { n };
        let mut items: Vec<ResultItem> = Vec::new();
        let mut j: usize = 0;
        while j < take
            invariant
                self.wf(),
                take <= n,
                n == self.entries.len(),
                j <= take,
                ov == order@.map_values(|x: usize| x as int),
                is_permutation(ov, n as int),
                items@.len() == j,
                forall|q: int| 0 <= q < j ==> item_from(#[trigger] items@[q], self@[ov[q]], self@, now),
            decreases take - j,
        {
            assert(ov[j as int] == order@[j as int] as int);
            let idx = order[j];
            let e = &self.entries[idx].1;
            assert(self@[idx as int] == (self.entries@[idx as int].0@, *e));
            let b = self.boost_for_key(e.prediction.key.as_str(), now);
            let item = ResultItem {
                title: e.prediction.title.clone(),
                subtitle: e.prediction.subtitle.clone(),
                source: source_label(e.prediction.source.as_str()),
                icon_name: e.prediction.icon_name.clone(),
                score: 2000 + b,
                action: copy_action(&e.prediction.action),
                prediction_key: Some(e.prediction.key.clone()),
            };
            items.push(item);
            j = j + 1;
        }
        assert(is_permutation(ov, self@.len() as int));
        items
    }
}

} // verus!

//! The launcher's query model: search modes, query prefixes, fuzzy scoring
//! and recognition of browser targets.
use vstd::prelude::*;

use crate::text::{
    byte_len, chars_of, contains_seq, find_seq, first_index, first_index_of, index_of_in,
    is_ascii_alnum, is_ascii_alnum_char, is_ascii_digit, is_ascii_digit_char, is_prefix, is_ws,
    is_ws_char, has_ws, last_index, last_index_of, lemma_first_index_of, lemma_first_index_of_range, lower_seq, lower_vec,
    occurs_at, owned, push_all, slice_vec, starts_with, string_of, trim, trim_end, trim_start,
    trim_start_index, trim_vec, utf8_width, vec_eq, lower, upper, upper_seq, is_ascii_upper,
};

verus! {

#[derive(Clone, Copy, Debug, PartialEq, Eq, Structural)]
pub enum SearchMode {
    All,
    Apps,
    Windows,
    Files,
    Ssh,
    Pass,
    Commands,
    Web,
    Calc,
}

impl SearchMode {
    /// `All` includes every mode; any other mode includes only itself.
    pub fn includes(self, other: SearchMode) -> (r: bool)
        ensures
            r == (self == SearchMode::All || self == other),
    {
        match self {
            SearchMode::All => true,
            _ => self == other,
        }
    }
}

#[derive(Clone, Copy, Debug, PartialEq, Eq, Structural)]
pub enum SourceFilter {
    All,
    Bookmarks,
    Recents,
}

#[derive(Clone, Debug, PartialEq, Eq)]
pub enum WindowFocusTarget {
    Hyprland { address: String, xwayland: bool },
    Niri { id: u64 },
    X11 { window_id: String },
}

#[derive(Clone, Copy, Debug, PartialEq, Eq, Structural)]
pub enum PowerOperation {
    Lock,
    Suspend,
    Logout,
    Reboot,
    Shutdown,
}

#[derive(Clone, Copy, Debug, PartialEq, Eq, Structural)]
pub enum PasswordOperation {
    AutotypeLogin,
    CopyPassword,
    CopyUsername,
    TypePassword,
    TypeUsername,
    Inspect,
    OpenUrl,
    CopyUrl,
    CopyOtp,
    TypeOtp,
    CustomAutotype,
}

#[derive(Clone, Debug)]
pub enum Action {
    LaunchApp { desktop_id: String },
    FocusWindow { target: WindowFocusTarget },
    OpenFile { path: String },
    Ssh { host: String },
    CopyPass { entry: String },
    Password { entry: String, operation: PasswordOperation },
    RunCommand { command: String },
    OpenUrl { url: String },
    WebSearch { query: String },
    CopyText { text: String },
    Power { operation: PowerOperation, confirmed: bool },
    Nothing,
}

#[derive(Clone, Debug)]
pub struct ResultItem {
    pub title: String,
    pub subtitle: String,
    pub source: &'static str,
    pub icon_name: String,
    pub score: i32,
    pub action: Action,
    pub prediction_key: Option<String>,
}

#[derive(Clone, Debug)]
pub struct QueryInput {
    pub mode: SearchMode,
    pub source_filter: SourceFilter,
    pub text: String,
}

// ---------------------------------------------------------------------------
// Query prefixes
// ---------------------------------------------------------------------------

/// The mode that a leading symbol selects (`>`, `~`, `@`, `!`, `?`, `=`).
pub open spec fn symbol_mode(c: char) -> Option<SearchMode> {
    if c == '>' {
        Some(SearchMode::Commands)
    } else if c == '~' {
        Some(SearchMode::Windows)
    } else if c == '@' {
        Some(SearchMode::Ssh)
    } else if c == '!' {
        Some(SearchMode::Pass)
    } else if c == '?' {
        Some(SearchMode::Web)
    } else if c == '=' {
        Some(SearchMode::Calc)
    } else {
        None
    }
}

pub const PREFIX_COUNT: usize = 18;

/// The textual prefixes, in the order in which they are tried.
pub open spec fn prefix_text(k: int) -> Seq<char> {
    if k == 0 { "apps:"@ }
    else if k == 1 { "app:"@ }
    else if k == 2 { "windows:"@ }
    else if k == 3 { "window:"@ }
    else if k == 4 { "win:"@ }
    else if k == 5 { "files:"@ }
    else if k == 6 { "file:"@ }
    else if k == 7 { "ssh:"@ }
    else if k == 8 { "pass:"@ }
    else if k == 9 { "password:"@ }
    else if k == 10 { "cmd:"@ }
    else if k == 11 { "command:"@ }
    else if k == 12 { "web:"@ }
    else if k == 13 { "calc:"@ }
    else if k == 14 { "bookmarks:"@ }
    else if k == 15 { "bookmark:"@ }
    else if k == 16 { "recents:"@ }
    else { "recent:"@ }
}

/// The mode and source filter that the `k`-th textual prefix selects.
pub open spec fn prefix_target(k: int) -> (SearchMode, SourceFilter) {
    if k <= 1 { (SearchMode::Apps, SourceFilter::All) }
    else if k <= 4 { (SearchMode::Windows, SourceFilter::All) }
    else if k <= 6 { (SearchMode::Files, SourceFilter::All) }
    else if k == 7 { (SearchMode::Ssh, SourceFilter::All) }
    else if k <= 9 { (SearchMode::Pass, SourceFilter::All) }
    else if k <= 11 { (SearchMode::Commands, SourceFilter::All) }
    else if k == 12 { (SearchMode::Web, SourceFilter::All) }
    else if k == 13 { (SearchMode::Calc, SourceFilter::All) }
    else if k <= 15 { (SearchMode::All, SourceFilter::Bookmarks) }
    else { (SearchMode::All, SourceFilter::Recents) }
}

/// The first textual prefix, from the `k`-th on, that `lowered` starts with.
pub open spec fn first_prefix_from(lowered: Seq<char>, k: int) -> Option<int>
    decreases PREFIX_COUNT - k,
{
    if k < 0 || k >= PREFIX_COUNT {
        None
    } else if is_prefix(prefix_text(k), lowered) {
        Some(k)
    } else {
        first_prefix_from(lowered, k + 1)
    }
}

/// What a query prefix selects: mode, source filter and the remaining text.
/// `raw` is the already trimmed input.
pub open spec fn prefixed_query(raw: Seq<char>) -> Option<(SearchMode, SourceFilter, Seq<char>)> {
    if raw.len() == 0 {
        None
    } else if symbol_mode(raw[0]) is Some {
        Some((symbol_mode(raw[0])->0, SourceFilter::All, trim_start(raw.drop_first())))
    } else if raw[0] == '/' && (raw.len() == 1 || is_ws(raw[1])) {
        Some((SearchMode::Files, SourceFilter::All, trim_start(raw.drop_first())))
    } else {
        match first_prefix_from(lower_seq(raw), 0) {
            Some(k) => Some(
                (
                    prefix_target(k).0,
                    prefix_target(k).1,
                    trim_start(raw.skip(prefix_text(k).len() as int)),
                ),
            ),
            None => None,
        }
    }
}

/// The parsed form of a raw query under the mode given on the command line.
pub open spec fn parsed_query(raw: Seq<char>, cli_mode: SearchMode) -> (SearchMode, SourceFilter, Seq<char>) {
    match prefixed_query(trim(raw)) {
        Some(p) => p,
        None => (cli_mode, SourceFilter::All, trim(raw)),
    }
}

fn symbol_mode_of(c: char) -> (r: Option<SearchMode>)
    ensures
        r == symbol_mode(c),
{
    if c == '>' {
        Some(SearchMode::Commands)
    } else if c == '~' {
        Some(SearchMode::Windows)
    } else if c == '@' {
        Some(SearchMode::Ssh)
    } else if c == '!' {
        Some(SearchMode::Pass)
    } else if c == '?' {
        Some(SearchMode::Web)
    } else if c == '=' {
        Some(SearchMode::Calc)
    } else {
        None
    }
}

fn prefix_chars(k: usize) -> (r: Vec<char>)
    requires
        k < PREFIX_COUNT,
    ensures
        r@ == prefix_text(k as int),
{
    let s: &str = if k == 0 { "apps:" }
    else if k == 1 { "app:" }
    else if k == 2 { "windows:" }
    else if k == 3 { "window:" }
    else if k == 4 { "win:" }
    else if k == 5 { "files:" }
    else if k == 6 { "file:" }
    else if k == 7 { "ssh:" }
    else if k == 8 { "pass:" }
    else if k == 9 { "password:" }
    else if k == 10 { "cmd:" }
    else if k == 11 { "command:" }
    else if k == 12 { "web:" }
    else if k == 13 { "calc:" }
    else if k == 14 { "bookmarks:" }
    else if k == 15 { "bookmark:" }
    else if k == 16 { "recents:" }
    else { "recent:" };
    chars_of(s)
}

fn prefix_target_of(k: usize) -> (r: (SearchMode, SourceFilter))
    ensures
        r == prefix_target(k as int),
{
    if k <= 1 { (SearchMode::Apps, SourceFilter::All) }
    else if k <= 4 { (SearchMode::Windows, SourceFilter::All) }
    else if k <= 6 { (SearchMode::Files, SourceFilter::All) }
    else if k == 7 { (SearchMode::Ssh, SourceFilter::All) }
    else if k <= 9 { (SearchMode::Pass, SourceFilter::All) }
    else if k <= 11 { (SearchMode::Commands, SourceFilter::All) }
    else if k == 12 { (SearchMode::Web, SourceFilter::All) }
    else if k == 13 { (SearchMode::Calc, SourceFilter::All) }
    else if k <= 15 { (SearchMode::All, SourceFilter::Bookmarks) }
    else { (SearchMode::All, SourceFilter::Recents) }
}

/// Recognises a mode prefix at the start of the (trimmed) query.
pub fn parse_prefixed_query(raw: &Vec<char>) -> (r: Option<(SearchMode, SourceFilter, Vec<char>)>)
    ensures
        match (r, prefixed_query(raw@)) {
            (Some(got), Some(want)) => got.0 == want.0 && got.1 == want.1 && got.2@ == want.2,
            (None, None) => true,
            _ => false,
        },
{
    if raw.len() == 0 {
        return None;
    }
    let first = raw[0];
    assert(raw@.drop_first() =~= raw@.subrange(1, raw@.len() as int));
    match symbol_mode_of(first) {
        Some(mode) => {
            let start = trim_start_index(raw, 1, raw.len());
            return Some((mode, SourceFilter::All, slice_vec(raw, start, raw.len())));
        },
        None => {},
    }
    if first == '/' && (raw.len() == 1 || is_ws_char(raw[1])) {
        let start = trim_start_index(raw, 1, raw.len());
        return Some((SearchMode::Files, SourceFilter::All, slice_vec(raw, start, raw.len())));
    }
    let lowered = lower_vec(raw);
    let mut k: usize = 0;
    while k < PREFIX_COUNT
        invariant
            raw@.len() > 0,
            symbol_mode(raw@[0]) is None,
            !(raw@[0] == '/' && (raw@.len() == 1 || is_ws(raw@[1]))),
            lowered@ == lower_seq(raw@),
            k <= PREFIX_COUNT,
            first_prefix_from(lowered@, 0) == first_prefix_from(lowered@, k as int),
        decreases PREFIX_COUNT - k,
    {
        let prefix = prefix_chars(k);
        if starts_with(&lowered, &prefix) {
            assert(first_prefix_from(lowered@, k as int) == Some(k as int));
            let (mode, filter) = prefix_target_of(k);
            assert(prefix@.len() <= lowered@.len());
            let start = trim_start_index(raw, prefix.len(), raw.len());
            assert(raw@.skip(prefix@.len() as int) =~= raw@.subrange(prefix@.len() as int, raw@.len() as int));
            return Some((mode, filter, slice_vec(raw, start, raw.len())));
        }
        k = k + 1;
    }
    None
}

impl QueryInput {
    /// Parses a raw query: a recognised prefix overrides `cli_mode`; the text
    /// is what follows the prefix with leading white space removed.
    pub fn parse(raw: &str, cli_mode: SearchMode) -> (q: QueryInput)
        ensures
            (q.mode, q.source_filter, q.text@) == parsed_query(raw@, cli_mode),
    {
        let chars = chars_of(raw);
        let trimmed = trim_vec(&chars);
        match parse_prefixed_query(&trimmed) {
            Some((mode, source_filter, text)) => QueryInput { mode, source_filter, text: string_of(&text) },
            None => QueryInput { mode: cli_mode, source_filter: SourceFilter::All, text: string_of(&trimmed) },
        }
    }
}

/// No white space at either end.
pub open spec fn is_trimmed(s: Seq<char>) -> bool {
    s.len() == 0 || (!is_ws(s[0]) && !is_ws(s.last()))
}

proof fn lemma_trim_start_shape(s: Seq<char>)
    ensures
        exists|j: int| 0 <= j <= s.len() && trim_start(s) == s.skip(j),
        trim_start(s).len() == 0 || !is_ws(trim_start(s)[0]),
    decreases s.len(),
{
    if s.len() > 0 && is_ws(s[0]) {
        lemma_trim_start_shape(s.drop_first());
        let j = choose|j: int| 0 <= j <= s.drop_first().len() && trim_start(s.drop_first()) == s.drop_first().skip(j);
        assert(s.drop_first().skip(j) =~= s.skip(j + 1));
    } else {
        assert(s.skip(0) =~= s);
    }
}

proof fn lemma_trim_end_shape(s: Seq<char>)
    ensures
        exists|j: int| 0 <= j <= s.len() && trim_end(s) == s.take(j),
        trim_end(s).len() == 0 || !is_ws(trim_end(s).last()),
    decreases s.len(),
{
    if s.len() > 0 && is_ws(s.last()) {
        lemma_trim_end_shape(s.drop_last());
        let j = choose|j: int| 0 <= j <= s.drop_last().len() && trim_end(s.drop_last()) == s.drop_last().take(j);
        assert(s.drop_last().take(j) =~= s.take(j));
    } else {
        assert(s.take(s.len() as int) =~= s);
    }
}

proof fn lemma_trim_is_trimmed(s: Seq<char>)
    ensures
        is_trimmed(trim(s)),
{
    lemma_trim_start_shape(s);
    let t = trim_start(s);
    lemma_trim_end_shape(t);
    let j = choose|j: int| 0 <= j <= t.len() && trim_end(t) == t.take(j);
    if trim_end(t).len() > 0 {
        assert(trim_end(t)[0] == t[0]);
    }
}

proof fn lemma_trimmed_is_fixed(s: Seq<char>)
    requires
        is_trimmed(s),
    ensures
        trim(s) == s,
{
    assert(trim_start(s) == s);
    assert(trim_end(s) == s);
}

/// What is left after a leading part of a trimmed text, with its leading
/// white space removed, is trimmed.
proof fn lemma_trimmed_tail(t: Seq<char>, m: int)
    requires
        is_trimmed(t),
        0 <= m <= t.len(),
    ensures
        is_trimmed(trim_start(t.skip(m))),
{
    let r = t.skip(m);
    lemma_trim_start_shape(r);
    let j = choose|j: int| 0 <= j <= r.len() && trim_start(r) == r.skip(j);
    let x = trim_start(r);
    if x.len() > 0 {
        assert(x.last() == t.last());
    }
}

proof fn lemma_first_prefix_range(lowered: Seq<char>, k: int)
    ensures
        first_prefix_from(lowered, k) matches Some(i) ==> k <= i < PREFIX_COUNT && is_prefix(prefix_text(i), lowered),
    decreases PREFIX_COUNT - k,
{
    if 0 <= k < PREFIX_COUNT && !is_prefix(prefix_text(k), lowered) {
        lemma_first_prefix_range(lowered, k + 1);
    }
}

/// A parsed query's text has no white space at either end; a source filter
/// only comes with the all-sources mode; and a query without a prefix keeps
/// the mode given on the command line, with all sources and its trimmed text.
pub proof fn parsed_queries_are_trimmed(raw: Seq<char>, cli_mode: SearchMode)
    ensures
        trim(parsed_query(raw, cli_mode).2) == parsed_query(raw, cli_mode).2,
        parsed_query(raw, cli_mode).1 != SourceFilter::All ==> parsed_query(raw, cli_mode).0 == SearchMode::All,
        prefixed_query(trim(raw)) is None ==> parsed_query(raw, cli_mode) == (cli_mode, SourceFilter::All, trim(raw)),
{
    let t = trim(raw);
    lemma_trim_is_trimmed(raw);
    if t.len() == 0 {
        lemma_trimmed_is_fixed(t);
    } else if symbol_mode(t[0]) is Some {
        assert(t.drop_first() =~= t.skip(1));
        lemma_trimmed_tail(t, 1);
        lemma_trimmed_is_fixed(trim_start(t.skip(1)));
    } else if t[0] == '/' && (t.len() == 1 || is_ws(t[1])) {
        assert(t.drop_first() =~= t.skip(1));
        lemma_trimmed_tail(t, 1);
        lemma_trimmed_is_fixed(trim_start(t.skip(1)));
    } else {
        lemma_first_prefix_range(lower_seq(t), 0);
        match first_prefix_from(lower_seq(t), 0) {
            Some(k) => {
                let m = prefix_text(k).len() as int;
                assert(m <= t.len());
                lemma_trimmed_tail(t, m);
                lemma_trimmed_is_fixed(trim_start(t.skip(m)));
            },
            None => {
                lemma_trimmed_is_fixed(t);
            },
        }
    }
}

// ---------------------------------------------------------------------------
// Fuzzy scoring
// ---------------------------------------------------------------------------

/// `needle` is a (not necessarily contiguous) subsequence of `s`, matched greedily.
pub open spec fn is_subseq(s: Seq<char>, needle: Seq<char>) -> bool
    decreases s.len(),
{
    if needle.len() == 0 {
        true
    } else if s.len() == 0 {
        false
    } else if s[0] == needle[0] {
        is_subseq(s.drop_first(), needle.drop_first())
    } else {
        is_subseq(s.drop_first(), needle)
    }
}

/// The least position at which `needle` occurs in `s` (meaningful when it occurs).
pub open spec fn first_occurrence(s: Seq<char>, needle: Seq<char>) -> int {
    choose|i: int| occurs_at(s, needle, i) && forall|j: int| 0 <= j < i ==> !occurs_at(s, needle, j)
}

proof fn lemma_ascii_case_char(c: char)
    ensures
        lower(upper(c)) == lower(c),
        lower(lower(c)) == lower(c),
{
    if 'a' <= c && c <= 'z' {
        assert(upper(c) as u32 == c as u32 - 32);
        assert('A' <= upper(c) && upper(c) <= 'Z');
        assert(lower(upper(c)) as u32 == c as u32);
    }
    if is_ascii_upper(c) {
        assert(lower(c) as u32 == c as u32 + 32);
        assert(!is_ascii_upper(lower(c)));
    }
}

/// ASCII case never changes a score, of the haystack or of the query.
pub proof fn scores_ignore_ascii_case(h: Seq<char>, q: Seq<char>)
    ensures
        score_spec(upper_seq(h), q) == score_spec(h, q),
        score_spec(lower_seq(h), q) == score_spec(h, q),
        score_spec(h, upper_seq(q)) == score_spec(h, q),
        score_spec(h, lower_seq(q)) == score_spec(h, q),
{
    assert forall|i: int| 0 <= i < h.len() implies lower(upper(h[i])) == lower(h[i]) && lower(lower(h[i])) == lower(h[i]) by {
        lemma_ascii_case_char(h[i]);
    }
    assert forall|i: int| 0 <= i < q.len() implies lower(upper(q[i])) == lower(q[i]) && lower(lower(q[i])) == lower(q[i]) by {
        lemma_ascii_case_char(q[i]);
    }
    assert(lower_seq(upper_seq(h)) =~= lower_seq(h));
    assert(lower_seq(lower_seq(h)) =~= lower_seq(h));
    assert(lower_seq(upper_seq(q)) =~= lower_seq(q));
    assert(lower_seq(lower_seq(q)) =~= lower_seq(q));
}

/// The score of `query` against `haystack`, ignoring ASCII case: 1000 for an
/// exact match, 850 minus the bytes left over for a prefix, 600 minus the byte
/// offset for a substring, 400 minus the byte difference for a subsequence.
pub open spec fn score_spec(haystack: Seq<char>, query: Seq<char>) -> Option<int> {
    let h = lower_seq(haystack);
    let q = lower_seq(query);
    if q.len() == 0 {
        Some(0)
    } else if h == q {
        Some(1000)
    } else if is_prefix(q, h) {
        Some(850 - byte_len(h.skip(q.len() as int)))
    } else if contains_seq(h, q) {
        Some(600 - byte_len(h.take(first_occurrence(h, q))))
    } else if is_subseq(h, q) {
        Some(400 - (byte_len(h) - byte_len(q)))
    } else {
        None
    }
}

pub proof fn lemma_byte_len_concat(a: Seq<char>, b: Seq<char>)
    ensures
        byte_len(a + b) == byte_len(a) + byte_len(b),
    decreases b.len(),
{
    if b.len() > 0 {
        lemma_byte_len_concat(a, b.drop_last());
        assert((a + b).drop_last() =~= a + b.drop_last());
    } else {
        assert(a + b =~= a);
    }
}

pub proof fn lemma_byte_len_lower(s: Seq<char>)
    ensures
        byte_len(lower_seq(s)) == byte_len(s),
    decreases s.len(),
{
    if s.len() > 0 {
        lemma_byte_len_lower(s.drop_last());
        assert(lower_seq(s).drop_last() =~= lower_seq(s.drop_last()));
    }
}

pub proof fn lemma_byte_len_bounds(s: Seq<char>)
    ensures
        s.len() <= byte_len(s) <= 4 * s.len(),
    decreases s.len(),
{
    if s.len() > 0 {
        lemma_byte_len_bounds(s.drop_last());
    }
}

pub proof fn lemma_split_bytes(h: Seq<char>, k: int)
    requires
        0 <= k <= h.len(),
    ensures
        byte_len(h.take(k)) <= byte_len(h),
        byte_len(h.skip(k)) <= byte_len(h),
{
    assert(h =~= h.take(k) + h.skip(k));
    lemma_byte_len_concat(h.take(k), h.skip(k));
}

pub proof fn lemma_trim_start_bytes(s: Seq<char>)
    ensures
        byte_len(trim_start(s)) <= byte_len(s),
    decreases s.len(),
{
    if s.len() > 0 && is_ws(s[0]) {
        lemma_trim_start_bytes(s.drop_first());
        lemma_split_bytes(s, 1);
        assert(s.skip(1) =~= s.drop_first());
    }
}

pub proof fn lemma_trim_end_bytes(s: Seq<char>)
    ensures
        byte_len(trim_end(s)) <= byte_len(s),
    decreases s.len(),
{
    if s.len() > 0 && is_ws(s.last()) {
        lemma_trim_end_bytes(s.drop_last());
    }
}

proof fn lemma_first_prefix_fits(lowered: Seq<char>, k: int)
    ensures
        first_prefix_from(lowered, k) matches Some(j) ==> prefix_text(j).len() <= lowered.len(),
    decreases PREFIX_COUNT - k,
{
    if 0 <= k < PREFIX_COUNT && !is_prefix(prefix_text(k), lowered) {
        lemma_first_prefix_fits(lowered, k + 1);
    }
}

/// The text of a parsed query is no longer, in bytes, than the raw query.
pub proof fn lemma_parsed_text_bytes(raw: Seq<char>, cli_mode: SearchMode)
    ensures
        byte_len(parsed_query(raw, cli_mode).2) <= byte_len(raw),
{
    let t = trim(raw);
    lemma_trim_start_bytes(raw);
    lemma_trim_end_bytes(trim_start(raw));
    if t.len() > 0 {
        lemma_trim_start_bytes(t.drop_first());
        lemma_split_bytes(t, 1);
        assert(t.skip(1) =~= t.drop_first());
        lemma_first_prefix_fits(lower_seq(t), 0);
        match first_prefix_from(lower_seq(t), 0) {
            Some(k) => {
                lemma_split_bytes(t, prefix_text(k).len() as int);
                lemma_trim_start_bytes(t.skip(prefix_text(k).len() as int));
            },
            None => {},
        }
    }
}

/// Where `needle` occurs at all, its first occurrence is well defined.
pub proof fn lemma_first_occurrence_exists(s: Seq<char>, needle: Seq<char>, w: int)
    requires
        crate::text::occurs_at(s, needle, w),
    ensures
        crate::text::occurs_at(s, needle, first_occurrence(s, needle)),
        forall|j: int| 0 <= j < first_occurrence(s, needle) ==> !crate::text::occurs_at(s, needle, j),
    decreases w,
{
    if exists|j: int| 0 <= j < w && crate::text::occurs_at(s, needle, j) {
        let j = choose|j: int| 0 <= j < w && crate::text::occurs_at(s, needle, j);
        lemma_first_occurrence_exists(s, needle, j);
    } else {
        assert(crate::text::occurs_at(s, needle, w) && forall|j: int|
            0 <= j < w ==> !crate::text::occurs_at(s, needle, j));
    }
}

/// Every score is at most 1000; an empty query scores 0 and any other score is
/// at least 400 less the haystack's byte length.
pub proof fn lemma_score_bounds(haystack: Seq<char>, query: Seq<char>)
    ensures
        score_spec(haystack, query) matches Some(sc) ==> sc <= 1000 && (sc == 0 || 400
            - byte_len(haystack) <= sc),
{
    let h = lower_seq(haystack);
    let q = lower_seq(query);
    lemma_byte_len_lower(haystack);
    lemma_byte_len_lower(query);
    lemma_byte_len_bounds(h);
    lemma_byte_len_bounds(q);
    if q.len() == 0 || h == q {
    } else if is_prefix(q, h) {
        lemma_split_bytes(h, q.len() as int);
        lemma_byte_len_bounds(h.skip(q.len() as int));
    } else if crate::text::contains_seq(h, q) {
        let k = first_occurrence(h, q);
        assert(crate::text::occurs_at(h, q, k)) by {
            let w = choose|i: int| crate::text::occurs_at(h, q, i);
            lemma_first_occurrence_exists(h, q, w);
        }
        lemma_split_bytes(h, k);
        lemma_byte_len_bounds(h.take(k));
    } else if is_subseq(h, q) {
        lemma_subseq_bytes(h, q);
    }
}

/// Only a case-insensitive exact match of a non-empty query scores 1000;
/// every other match scores less.
pub proof fn exact_matches_score_highest(haystack: Seq<char>, query: Seq<char>)
    ensures
        score_spec(haystack, query) == Some(1000int) <==> (query.len() > 0 && lower_seq(haystack) == lower_seq(query)),
        score_spec(haystack, query) matches Some(sc) ==> sc <= 1000,
{
    let h = lower_seq(haystack);
    let q = lower_seq(query);
    lemma_score_bounds(haystack, query);
    if q.len() == 0 || h == q {
    } else if is_prefix(q, h) {
    } else if crate::text::contains_seq(h, q) {
    } else if is_subseq(h, q) {
        lemma_subseq_bytes(h, q);
    }
}

/// A text followed by anything holds the text as a subsequence.
proof fn lemma_subseq_of_extension(n: Seq<char>, p: Seq<char>)
    ensures
        is_subseq(n + p, n),
    decreases n.len(),
{
    if n.len() > 0 {
        assert((n + p)[0] == n[0]);
        assert((n + p).drop_first() =~= n.drop_first() + p);
        lemma_subseq_of_extension(n.drop_first(), p);
    }
}

/// A subsequence stays one when a character is put in front.
proof fn lemma_subseq_prepend(t: Seq<char>, n: Seq<char>, c: char)
    requires
        is_subseq(t, n),
    ensures
        is_subseq(seq![c] + t, n),
    decreases t.len(), 1int,
{
    let s = seq![c] + t;
    assert(s.drop_first() =~= t);
    if n.len() > 0 && c == n[0] {
        lemma_subseq_drop(t, n);
    }
}

/// Dropping the first character of a subsequence leaves a subsequence.
proof fn lemma_subseq_drop(t: Seq<char>, n: Seq<char>)
    requires
        is_subseq(t, n),
        n.len() > 0,
    ensures
        is_subseq(t, n.drop_first()),
    decreases t.len(), 0int,
{
    let n1 = n.drop_first();
    if t.len() > 0 && n1.len() > 0 {
        let t1 = t.drop_first();
        assert(seq![t[0]] + t1 =~= t);
        if t[0] == n[0] {
            lemma_subseq_prepend(t1, n1, t[0]);
        } else {
            lemma_subseq_drop(t1, n);
            lemma_subseq_prepend(t1, n1, t[0]);
        }
    }
}

/// A subsequence stays one when text is put in front.
proof fn lemma_subseq_prepend_all(pre: Seq<char>, t: Seq<char>, n: Seq<char>)
    requires
        is_subseq(t, n),
    ensures
        is_subseq(pre + t, n),
    decreases pre.len(),
{
    if pre.len() > 0 {
        let rest = pre.drop_first();
        lemma_subseq_prepend_all(rest, t, n);
        lemma_subseq_prepend(rest + t, n, pre[0]);
        assert(seq![pre[0]] + (rest + t) =~= pre + t);
    }
}

/// A query scores exactly when, ignoring ASCII case, it is a (not
/// necessarily contiguous) subsequence of the haystack.
pub proof fn queries_score_when_they_are_subsequences(haystack: Seq<char>, query: Seq<char>)
    ensures
        score_spec(haystack, query) is Some <==> is_subseq(lower_seq(haystack), lower_seq(query)),
{
    let h = lower_seq(haystack);
    let q = lower_seq(query);
    if q.len() == 0 {
    } else if h == q {
        lemma_subseq_of_extension(q, Seq::empty());
        assert(q + Seq::<char>::empty() =~= q);
    } else if is_prefix(q, h) {
        assert(h =~= q + h.skip(q.len() as int));
        lemma_subseq_of_extension(q, h.skip(q.len() as int));
    } else if crate::text::contains_seq(h, q) {
        let i = choose|i: int| crate::text::occurs_at(h, q, i);
        let post = h.skip(i + q.len());
        assert(h =~= h.take(i) + (q + post));
        lemma_subseq_of_extension(q, post);
        lemma_subseq_prepend_all(h.take(i), q + post, q);
    }
}

pub proof fn lemma_subseq_bytes(s: Seq<char>, needle: Seq<char>)
    requires
        is_subseq(s, needle),
    ensures
        byte_len(needle) <= byte_len(s),
    decreases s.len(),
{
    if needle.len() > 0 && s.len() > 0 {
        assert(s =~= seq![s[0]] + s.drop_first());
        assert(needle =~= seq![needle[0]] + needle.drop_first());
        lemma_byte_len_concat(seq![s[0]], s.drop_first());
        lemma_byte_len_concat(seq![needle[0]], needle.drop_first());
        assert(byte_len(Seq::<char>::empty()) == 0);
        assert(byte_len(seq![s[0]]) == utf8_width(s[0])) by {
            assert(seq![s[0]].drop_last() =~= Seq::<char>::empty());
        }
        assert(byte_len(seq![needle[0]]) == utf8_width(needle[0])) by {
            assert(seq![needle[0]].drop_last() =~= Seq::<char>::empty());
        }
        if s[0] == needle[0] {
            lemma_subseq_bytes(s.drop_first(), needle.drop_first());
        } else {
            lemma_subseq_bytes(s.drop_first(), needle);
        }
    } else if needle.len() == 0 {
        assert(byte_len(needle) == 0);
    }
}

/// The UTF-8 length of `v[lo..hi]`.
fn byte_len_range(v: &Vec<char>, lo: usize, hi: usize) -> (n: u64)
    requires
        lo <= hi <= v.len(),
        byte_len(v@) < 0x8000_0000,
    ensures
        n == byte_len(v@.subrange(lo as int, hi as int)),
        n <= byte_len(v@),
{
    proof {
        assert(v@ =~= v@.subrange(0, lo as int) + v@.subrange(lo as int, hi as int) + v@.subrange(hi as int, v@.len() as int));
        lemma_byte_len_concat(v@.subrange(0, lo as int) + v@.subrange(lo as int, hi as int), v@.subrange(hi as int, v@.len() as int));
        lemma_byte_len_concat(v@.subrange(0, lo as int), v@.subrange(lo as int, hi as int));
    }
    let ghost total = byte_len(v@.subrange(lo as int, hi as int));
    let mut n: u64 = 0;
    let mut i = lo;
    while i < hi
        invariant
            lo <= i <= hi <= v.len(),
            total == byte_len(v@.subrange(lo as int, hi as int)),
            total < 0x8000_0000,
            n == byte_len(v@.subrange(lo as int, i as int)),
            n <= total,
        decreases hi - i,
    {
        let c = v[i];
        let w: u64 = if (c as u32) < 0x80 {
            1
        } else if (c as u32) < 0x800 {
            2
        } else if (c as u32) < 0x10000 {
            3
        } else {
            4
        };
        proof {
            assert(v@.subrange(lo as int, i + 1).drop_last() =~= v@.subrange(lo as int, i as int));
            let rest = v@.subrange(i + 1, hi as int);
            assert(v@.subrange(lo as int, hi as int) =~= v@.subrange(lo as int, i + 1) + rest);
            lemma_byte_len_concat(v@.subrange(lo as int, i + 1), rest);
        }
        n = n + w;
        i = i + 1;
    }
    n
}

/// Whether `needle` is a subsequence of `s` (greedy left-to-right match).
pub fn is_subsequence(s: &Vec<char>, needle: &Vec<char>) -> (r: bool)
    ensures
        r == is_subseq(s@, needle@),
{
    let mut i: usize = 0;
    let mut j: usize = 0;
    assert(s@.skip(0) =~= s@);
    assert(needle@.skip(0) =~= needle@);
    while i < s.len() && j < needle.len()
        invariant
            i <= s.len(),
            j <= needle.len(),
            is_subseq(s@, needle@) == is_subseq(s@.skip(i as int), needle@.skip(j as int)),
        decreases s.len() - i,
    {
        proof {
            assert(s@.skip(i as int).drop_first() =~= s@.skip(i + 1));
            assert(needle@.skip(j as int).drop_first() =~= needle@.skip(j + 1));
        }
        if s[i] == needle[j] {
            j = j + 1;
        }
        i = i + 1;
    }
    proof {
        if j == needle.len() {
            assert(needle@.skip(j as int).len() == 0);
        } else {
            assert(s@.skip(i as int).len() == 0);
        }
    }
    j == needle.len()
}

/// Scores `query` against `haystack` (ASCII case-insensitively); `None` when
/// the query is not even a subsequence of the haystack.
pub fn score_text(haystack: &str, query: &str) -> (r: Option<i32>)
    requires
        byte_len(haystack@) < 0x8000_0000,
        byte_len(query@) < 0x8000_0000,
    ensures
        match (r, score_spec(haystack@, query@)) {
            (Some(got), Some(want)) => got as int == want,
            (None, None) => true,
            _ => false,
        },
{
    let h = lower_vec(&chars_of(haystack));
    let q = lower_vec(&chars_of(query));
    proof {
        lemma_byte_len_lower(haystack@);
        lemma_byte_len_lower(query@);
        assert(h@.subrange(0, h@.len() as int) =~= h@);
        assert(q@.subrange(0, q@.len() as int) =~= q@);
    }
    if q.len() == 0 {
        return Some(0);
    }
    if vec_eq(&h, &q) {
        return Some(1000);
    }
    if starts_with(&h, &q) {
        let rest = byte_len_range(&h, q.len(), h.len());
        assert(h@.skip(q@.len() as int) =~= h@.subrange(q@.len() as int, h@.len() as int));
        return Some(850 - rest as i32);
    }
    match find_seq(&h, &q) {
        Some(pos) => {
            let before = byte_len_range(&h, 0, pos);
            proof {
                assert(h@.take(pos as int) =~= h@.subrange(0, pos as int));
                let k = first_occurrence(h@, q@);
                assert(occurs_at(h@, q@, k) && forall|j: int| 0 <= j < k ==> !occurs_at(h@, q@, j));
                if k < pos {
                } else if pos < k {
                }
                assert(k == pos);
            }
            return Some(600 - before as i32);
        },
        None => {},
    }
    if is_subsequence(&h, &q) {
        let hl = byte_len_range(&h, 0, h.len());
        let ql = byte_len_range(&q, 0, q.len());
        proof {
            lemma_subseq_bytes(h@, q@);
        }
        return Some(400 - (hl as i32 - ql as i32));
    }
    None
}

// ---------------------------------------------------------------------------
// Browser targets
// ---------------------------------------------------------------------------

pub open spec fn is_scheme_char(c: char) -> bool {
    is_ascii_alnum(c) || c == '+' || c == '-' || c == '.'
}

/// `value` splits at its first `://` into a non-empty scheme of URI scheme
/// characters and a non-empty remainder.
pub open spec fn has_uri_scheme_spec(value: Seq<char>) -> bool {
    contains_seq(value, "://"@) && {
        let i = first_occurrence(value, "://"@);
        &&& i > 0
        &&& i + 3 < value.len()
        &&& forall|k: int| 0 <= k < i ==> is_scheme_char(#[trigger] value[k])
    }
}

/// A DNS label: non-empty, ASCII letters, digits and hyphens, no hyphen at either end.
pub open spec fn valid_label(label: Seq<char>) -> bool {
    &&& label.len() > 0
    &&& label[0] != '-'
    &&& label.last() != '-'
    &&& forall|k: int| 0 <= k < label.len() ==> (is_ascii_alnum(#[trigger] label[k]) || label[k] == '-')
}

/// Every `.`-separated segment of `host` is a valid label.
pub open spec fn labels_valid(host: Seq<char>) -> bool
    decreases host.len(),
{
    match first_index_of(host, '.') {
        None => valid_label(host),
        Some(k) => {
            proof {
                lemma_first_index_of_range(host, '.');
            }
            valid_label(host.take(k)) && labels_valid(host.skip(k + 1))
        },
    }
}

pub open spec fn is_authority_end(c: char) -> bool {
    c == '/' || c == '?' || c == '#'
}

/// The part of `value` before its first `/`, `?` or `#`.
pub open spec fn authority_part(value: Seq<char>) -> Seq<char> {
    if exists|i: int| 0 <= i < value.len() && is_authority_end(#[trigger] value[i]) {
        value.take(choose|i: int| 0 <= i < value.len() && is_authority_end(value[i])
            && forall|j: int| 0 <= j < i ==> !is_authority_end(#[trigger] value[j]))
    } else {
        value
    }
}

/// Trailing `.` characters removed.
pub open spec fn trim_dots(s: Seq<char>) -> Seq<char>
    decreases s.len(),
{
    if s.len() > 0 && s.last() == '.' {
        trim_dots(s.drop_last())
    } else {
        s
    }
}

/// A port number: one or more ASCII digits.
pub open spec fn is_port(s: Seq<char>) -> bool {
    s.len() > 0 && forall|k: int| 0 <= k < s.len() ==> is_ascii_digit(#[trigger] s[k])
}

/// The host of an authority: after the last `@`, and without a trailing
/// `:port` of one or more digits.
pub open spec fn host_of(authority: Seq<char>) -> Seq<char> {
    let after_user = match last_index_of(authority, '@') {
        Some(i) => authority.skip(i + 1),
        None => authority,
    };
    match last_index_of(after_user, ':') {
        Some(i) => {
            if is_port(after_user.skip(i + 1)) {
                after_user.take(i)
            } else {
                after_user
            }
        },
        None => after_user,
    }
}

/// `localhost` in any ASCII case.
pub open spec fn is_localhost(host: Seq<char>) -> bool {
    lower_seq(host) == "localhost"@
}

/// Whether `value` looks like a web host (optionally with a path): the host
/// is `localhost`, or contains a `.` and consists of valid DNS labels
/// (dotted IPv4 addresses are of that form too).
pub open spec fn looks_like_web_host_spec(value: Seq<char>) -> bool {
    let authority = trim_dots(authority_part(value));
    let host = host_of(authority);
    &&& authority.len() > 0
    &&& (is_localhost(host) || (first_index_of(host, '.') is Some && labels_valid(host)))
}

/// The URL that a raw launcher query opens, if it names one: a URI with a
/// scheme as typed, or a bare web host with `https://` put in front.
pub open spec fn browser_target_spec(raw: Seq<char>) -> Option<Seq<char>> {
    let t = trim(raw);
    if t.len() == 0 || has_ws(t) {
        None
    } else if has_uri_scheme_spec(t) {
        Some(t)
    } else if looks_like_web_host_spec(t) {
        Some("https://"@ + t)
    } else {
        None
    }
}

/// The first `://` of `u` is at `i` when it occurs there and nowhere before.
proof fn lemma_first_occurrence_at(u: Seq<char>, i: int)
    requires
        occurs_at(u, "://"@, i),
        forall|j: int| 0 <= j < i ==> !occurs_at(u, "://"@, j),
    ensures
        contains_seq(u, "://"@),
        first_occurrence(u, "://"@) == i,
{
    let c = first_occurrence(u, "://"@);
    assert(occurs_at(u, "://"@, c) && forall|j: int| 0 <= j < c ==> !occurs_at(u, "://"@, j));
    if c < i {
        assert(!occurs_at(u, "://"@, c));
    }
    if c > i {
        assert(!occurs_at(u, "://"@, i));
    }
}

/// Opening the target that a query names gives that same target again.
pub proof fn browser_targets_are_stable(raw: Seq<char>)
    ensures
        browser_target_spec(raw) matches Some(u) ==> browser_target_spec(u) == Some(u),
{
    let t = trim(raw);
    if t.len() > 0 && !has_ws(t) {
        assert(is_trimmed(t)) by {
            assert(!is_ws(t[0]));
            assert(!is_ws(t[t.len() - 1]));
        }
        lemma_trimmed_is_fixed(t);
        if !has_uri_scheme_spec(t) && looks_like_web_host_spec(t) {
            reveal_strlit("https://");
            reveal_strlit("://");
            let u = "https://"@ + t;
            assert(!has_ws(u)) by {
                if has_ws(u) {
                    let i = choose|i: int| 0 <= i < u.len() && is_ws(#[trigger] u[i]);
                    if i >= 8 {
                        assert(u[i] == t[i - 8]);
                    }
                }
            }
            assert(is_trimmed(u)) by {
                assert(!is_ws(u[0]));
                assert(!is_ws(u[u.len() - 1]));
            }
            lemma_trimmed_is_fixed(u);
            assert(u.subrange(5, 8) =~= "://"@);
            assert forall|j: int| 0 <= j < 5 implies !occurs_at(u, "://"@, j) by {
                if occurs_at(u, "://"@, j) {
                    assert(u.subrange(j, j + 3)[0] == u[j]);
                }
            }
            lemma_first_occurrence_at(u, 5);
            assert(forall|k: int| 0 <= k < 5 ==> is_scheme_char(#[trigger] u[k]));
        }
    }
}

fn has_uri_scheme(v: &Vec<char>) -> (r: bool)
    ensures
        r == has_uri_scheme_spec(v@),
{
    let sep = chars_of("://");
    proof {
        reveal_strlit("://");
    }
    assert(sep@.len() == 3);
    match find_seq(v, &sep) {
        None => false,
        Some(i) => {
            proof {
                let k = first_occurrence(v@, sep@);
                assert(occurs_at(v@, sep@, k) && forall|j: int| 0 <= j < k ==> !occurs_at(v@, sep@, j));
                if k < i {
                } else if i < k {
                }
                assert(k == i);
            }
            assert(i + 3 <= v@.len());
            if i == 0 || v.len() - i <= 3 {
                return false;
            }
            let mut k: usize = 0;
            while k < i
                invariant
                    k <= i < v.len(),
                    i > 0,
                    i + 3 < v@.len(),
                    sep@ == "://"@,
                    first_occurrence(v@, sep@) == i,
                    contains_seq(v@, sep@),
                    forall|j: int| 0 <= j < k ==> is_scheme_char(#[trigger] v@[j]),
                decreases i - k,
            {
                let c = v[k];
                if !(is_ascii_alnum_char(c) || c == '+' || c == '-' || c == '.') {
                    assert(!is_scheme_char(v@[k as int]));
                    assert(!(forall|j: int| 0 <= j < i ==> is_scheme_char(#[trigger] v@[j])));
                    return false;
                }
                k = k + 1;
            }
            true
        },
    }
}

fn valid_domain_label(v: &Vec<char>, lo: usize, hi: usize) -> (r: bool)
    requires
        lo <= hi <= v.len(),
    ensures
        r == valid_label(v@.subrange(lo as int, hi as int)),
{
    if lo == hi {
        return false;
    }
    if v[lo] == '-' || v[hi - 1] == '-' {
        return false;
    }
    let mut k = lo;
    while k < hi
        invariant
            lo <= k <= hi <= v.len(),
            forall|j: int| lo <= j < k ==> is_ascii_alnum(#[trigger] v@[j]) || v@[j] == '-',
        decreases hi - k,
    {
        if !(is_ascii_alnum_char(v[k]) || v[k] == '-') {
            assert(v@.subrange(lo as int, hi as int)[k - lo] == v@[k as int]);
            return false;
        }
        k = k + 1;
    }
    let ghost l = v@.subrange(lo as int, hi as int);
    assert forall|j: int| 0 <= j < l.len() implies (is_ascii_alnum(#[trigger] l[j]) || l[j] == '-') by {
        assert(l[j] == v@[lo + j]);
    }
    true
}

fn labels_valid_range(v: &Vec<char>, lo: usize, hi: usize) -> (r: bool)
    requires
        lo <= hi <= v.len(),
    ensures
        r == labels_valid(v@.subrange(lo as int, hi as int)),
    decreases hi - lo,
{
    let ghost s = v@.subrange(lo as int, hi as int);
    match index_of_in(v, lo, hi, '.') {
        None => {
            proof {
                lemma_first_index_of(s, '.', s.len() as int);
            }
            valid_domain_label(v, lo, hi)
        },
        Some(d) => {
            proof {
                lemma_first_index_of(s, '.', d - lo);
                assert(s.take(d - lo) =~= v@.subrange(lo as int, d as int));
                assert(s.skip(d - lo + 1) =~= v@.subrange(d + 1, hi as int));
            }
            valid_domain_label(v, lo, d) && labels_valid_range(v, d + 1, hi)
        },
    }
}

fn authority_end(v: &Vec<char>) -> (end: usize)
    ensures
        end <= v.len(),
        v@.subrange(0, end as int) == authority_part(v@),
{
    let mut end: usize = 0;
    while end < v.len() && !(v[end] == '/' || v[end] == '?' || v[end] == '#')
        invariant
            end <= v.len(),
            forall|j: int| 0 <= j < end ==> !is_authority_end(#[trigger] v@[j]),
        decreases v.len() - end,
    {
        end = end + 1;
    }
    proof {
        if end < v.len() {
            assert(is_authority_end(v@[end as int]));
            let c = choose|i: int| 0 <= i < v@.len() && is_authority_end(v@[i])
                && forall|j: int| 0 <= j < i ==> !is_authority_end(#[trigger] v@[j]);
            assert(0 <= c < v@.len() && is_authority_end(v@[c]));
            if c < end {
                assert(!is_authority_end(v@[c]));
            } else if end < c {
                assert(!is_authority_end(v@[end as int]));
            }
            assert(authority_part(v@) =~= v@.subrange(0, end as int));
        } else {
            assert(authority_part(v@) =~= v@.subrange(0, end as int));
        }
    }
    end
}

fn trim_dots_end(v: &Vec<char>, end: usize) -> (e: usize)
    requires
        end <= v.len(),
    ensures
        e <= end,
        v@.subrange(0, e as int) == trim_dots(v@.subrange(0, end as int)),
{
    let mut e = end;
    while e > 0 && v[e - 1] == '.'
        invariant
            e <= end <= v.len(),
            trim_dots(v@.subrange(0, end as int)) == trim_dots(v@.subrange(0, e as int)),
        decreases e,
    {
        assert(v@.subrange(0, e as int).drop_last() =~= v@.subrange(0, e - 1));
        e = e - 1;
    }
    e
}

fn all_digits_after(v: &Vec<char>, i: usize) -> (r: bool)
    requires
        i < v.len(),
    ensures
        r == is_port(v@.skip(i + 1)),
{
    let ghost port = v@.skip(i + 1);
    assert(port.len() == v@.len() - i - 1);
    if i + 1 == v.len() {
        return false;
    }
    let mut k = i + 1;
    while k < v.len()
        invariant
            i < v.len(),
            i + 1 <= k <= v.len(),
            port == v@.skip(i + 1),
            forall|j: int| i + 1 <= j < k ==> is_ascii_digit(#[trigger] v@[j]),
        decreases v.len() - k,
    {
        if !is_ascii_digit_char(v[k]) {
            assert(!is_ascii_digit(port[k - i - 1]));
            return false;
        }
        k = k + 1;
    }
    assert forall|j: int| 0 <= j < port.len() implies is_ascii_digit(#[trigger] port[j]) by {
        assert(port[j] == v@[i + 1 + j]);
    }
    true
}

fn host_of_vec(authority: &Vec<char>) -> (host: Vec<char>)
    ensures
        host@ == host_of(authority@),
{
    let user_start: usize = match last_index(authority, '@') {
        Some(i) => i + 1,
        None => 0,
    };
    assert(authority@.skip(0) =~= authority@);
    let after_user = slice_vec(authority, user_start, authority.len());
    assert(after_user@ =~= authority@.skip(user_start as int));
    let ghost au = match last_index_of(authority@, '@') {
        Some(i) => authority@.skip(i + 1),
        None => authority@,
    };
    assert(after_user@ == au);
    match last_index(&after_user, ':') {
        Some(i) => {
            let ghost port = after_user@.skip(i + 1);
            if all_digits_after(&after_user, i) {
                let host = slice_vec(&after_user, 0, i);
                assert(host@ =~= after_user@.take(i as int));
                assert(host_of(authority@) == after_user@.take(i as int));
                host
            } else {
                assert(host_of(authority@) == after_user@);
                after_user
            }
        },
        None => {
            assert(host_of(authority@) == after_user@);
            after_user
        },
    }
}

fn looks_like_web_host(v: &Vec<char>) -> (r: bool)
    ensures
        r == looks_like_web_host_spec(v@),
{
    let end = authority_end(v);
    let dot_end = trim_dots_end(v, end);
    if dot_end == 0 {
        return false;
    }
    let authority = slice_vec(v, 0, dot_end);
    let host = host_of_vec(&authority);
    let lowered = lower_vec(&host);
    let localhost = chars_of("localhost");
    if vec_eq(&lowered, &localhost) {
        return true;
    }
    match first_index(&host, '.') {
        None => false,
        Some(_) => {
            let r = labels_valid_range(&host, 0, host.len());
            assert(host@.subrange(0, host@.len() as int) =~= host@);
            r
        },
    }
}

/// The URL that a launcher query names, if any: a URI with a scheme is kept
/// as typed, a bare web host gets `https://` in front; anything containing
/// white space is a search term, not a URL.
pub fn browser_target(raw: &str) -> (r: Option<String>)
    ensures
        match (r, browser_target_spec(raw@)) {
            (Some(got), Some(want)) => got@ == want,
            (None, None) => true,
            _ => false,
        },
{
    let t = trim_vec(&chars_of(raw));
    if t.len() == 0 {
        return None;
    }
    let mut k: usize = 0;
    while k < t.len()
        invariant
            k <= t.len(),
            t@ == trim(raw@),
            forall|j: int| 0 <= j < k ==> !is_ws(#[trigger] t@[j]),
        decreases t.len() - k,
    {
        if is_ws_char(t[k]) {
            assert(is_ws(t@[k as int]));
            assert(has_ws(t@));
            return None;
        }
        k = k + 1;
    }
    if has_uri_scheme(&t) {
        return Some(string_of(&t));
    }
    if looks_like_web_host(&t) {
        let mut s = owned("https://");
        push_all(&mut s, &t);
        return Some(s);
    }
    None
}

} // verus!

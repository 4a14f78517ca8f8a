//! What the launcher reads into its sources: browser bookmarks, recently
//! used files, password-store entry names and the windows a compositor
//! reports, each turned into entries with the text a query is matched
//! against.
use vstd::prelude::*;
use xml::reader::{EventReader, XmlEvent};

use crate::json::{
    bool_field, bool_field_of, field, field_of, int_field, int_field_of, items_of, json_items, json_of_text, pair_value, parse_json,
    raw_text_field, raw_text_field_of, text_field, text_field_of, unsigned_field, unsigned_field_of, JsonValue,
};
use crate::search::{BookmarkEntry, RecentFileEntry};
use crate::sources::{file_title, percent_decoded};
use crate::text::{
    chars_of, is_prefix, is_suffix, lower_seq, lower_vec, opt_view, owned, push_str, slice_vec, starts_with,
    string_of, string_of_range, trim, trim_vec,
};

verus! {

// ---------------------------------------------------------------------------
// Bookmarks
// ---------------------------------------------------------------------------

/// The text a query is matched against: `title url`, ASCII-lowercased.
pub open spec fn blob(a: Seq<char>, b: Seq<char>) -> Seq<char> {
    lower_seq(a + " "@ + b)
}

/// A bookmark as plain values (title, URL, matched text), from a raw
/// title and URL: the URL trimmed, refused when empty or a `place:` query;
/// the title trimmed, the URL standing in when it is empty.
pub open spec fn bookmark_spec(title: Seq<char>, url: Seq<char>) -> Option<(Seq<char>, Seq<char>, Seq<char>)> {
    let u = trim(url);
    if u.len() == 0 || is_prefix("place:"@, u) {
        None
    } else {
        let t = if trim(title).len() == 0 { u } else { trim(title) };
        Some((t, u, blob(t, u)))
    }
}

pub open spec fn bookmark_view(b: BookmarkEntry) -> (Seq<char>, Seq<char>, Seq<char>) {
    (b.title@, b.url@, b.search_blob@)
}

/// `a`, a space and `b`, ASCII-lowercased.
fn lowered_pair(a: &Vec<char>, b: &Vec<char>) -> (r: String)
    ensures
        r@ == blob(a@, b@),
{
    let mut v: Vec<char> = Vec::new();
    let mut i: usize = 0;
    while i < a.len()
        invariant
            i <= a@.len(),
            v@ == a@.take(i as int),
        decreases a@.len() - i,
    {
        v.push(a[i]);
        assert(a@.take(i + 1) =~= a@.take(i as int).push(a@[i as int]));
        i = i + 1;
    }
    v.push(' ');
    proof {
        reveal_strlit(" ");
        assert(a@.take(a@.len() as int) =~= a@);
        assert(v@ =~= a@ + " "@ + b@.take(0));
    }
    let mut j: usize = 0;
    while j < b.len()
        invariant
            j <= b@.len(),
            v@ == a@ + " "@ + b@.take(j as int),
        decreases b@.len() - j,
    {
        v.push(b[j]);
        assert(a@ + " "@ + b@.take(j + 1) =~= (a@ + " "@ + b@.take(j as int)).push(b@[j as int]));
        j = j + 1;
    }
    assert(b@.take(b@.len() as int) =~= b@);
    string_of(&lower_vec(&v))
}

/// A bookmark from a raw title and URL (see `bookmark_spec`).
pub fn bookmark_entry(title: &str, url: &str) -> (r: Option<BookmarkEntry>)
    ensures
        match r {
            Some(b) => bookmark_spec(title@, url@) == Some(bookmark_view(b)),
            None => bookmark_spec(title@, url@) is None,
        },
{
    let u = trim_vec(&chars_of(url));
    if u.len() == 0 || starts_with(&u, &chars_of("place:")) {
        return None;
    }
    let tt = trim_vec(&chars_of(title));
    let t = if tt.len() == 0 {
        slice_vec(&u, 0, u.len())
    } else {
        tt
    };
    assert(u@.subrange(0, u@.len() as int) =~= u@);
    Some(BookmarkEntry { search_blob: lowered_pair(&t, &u), title: string_of(&t), url: string_of(&u) })
}

/// A node of a Chromium bookmark tree, as a depth-first walk meets it.
pub struct ChromiumNode {
    /// `url` for a bookmark, `folder` for a folder.
    pub kind: Option<String>,
    pub name: Option<String>,
    pub url: Option<String>,
}

/// The bookmark a node holds: a `url` node with a URL, titled by its name
/// or else by the URL.
pub open spec fn chromium_bookmark(n: ChromiumNode) -> Option<(Seq<char>, Seq<char>, Seq<char>)> {
    match (n.kind, n.url) {
        (Some(k), Some(u)) => if k@ == "url"@ {
            bookmark_spec(
                match n.name {
                    Some(t) => t@,
                    None => u@,
                },
                u@,
            )
        } else {
            None
        },
        _ => None,
    }
}

pub open spec fn chromium_bookmarks(nodes: Seq<ChromiumNode>) -> Seq<(Seq<char>, Seq<char>, Seq<char>)>
    decreases nodes.len(),
{
    if nodes.len() == 0 {
        Seq::empty()
    } else {
        chromium_bookmarks(nodes.drop_last()) + match chromium_bookmark(nodes.last()) {
            Some(b) => seq![b],
            None => Seq::empty(),
        }
    }
}

/// The bookmarks of a Chromium bookmark tree, in the order of a
/// depth-first walk.
pub fn parse_chromium_bookmarks(nodes: &Vec<ChromiumNode>) -> (r: Vec<BookmarkEntry>)
    ensures
        r@.map_values(|b: BookmarkEntry| bookmark_view(b)) == chromium_bookmarks(nodes@),
{
    let mut out: Vec<BookmarkEntry> = Vec::new();
    let mut i: usize = 0;
    while i < nodes.len()
        invariant
            i <= nodes@.len(),
            out@.map_values(|b: BookmarkEntry| bookmark_view(b)) == chromium_bookmarks(nodes@.take(i as int)),
        decreases nodes@.len() - i,
    {
        assert(nodes@.take(i + 1).drop_last() =~= nodes@.take(i as int));
        let n = &nodes[i];
        let ghost before = out@;
        let entry = match (&n.kind, &n.url) {
            (Some(k), Some(u)) => {
                if crate::text::str_eq(k.as_str(), "url") {
                    let title = match &n.name {
                        Some(t) => t.clone(),
                        None => u.clone(),
                    };
                    bookmark_entry(title.as_str(), u.as_str())
                } else {
                    None
                }
            },
            _ => None,
        };
        match entry {
            Some(b) => {
                out.push(b);
                assert(out@.map_values(|b: BookmarkEntry| bookmark_view(b)) =~= before.map_values(
                    |b: BookmarkEntry| bookmark_view(b),
                ) + seq![bookmark_view(b)]);
            },
            None => {
                assert(chromium_bookmarks(nodes@.take(i + 1)) =~= chromium_bookmarks(nodes@.take(i as int)));
            },
        }
        i = i + 1;
    }
    assert(nodes@.take(nodes@.len() as int) =~= nodes@);
    out
}

/// A Firefox bookmark row: title, a tab, URL.
pub open spec fn firefox_row(line: Seq<char>) -> Option<(Seq<char>, Seq<char>, Seq<char>)> {
    if exists|i: int| 0 <= i < line.len() && line[i] == '\t' {
        let i = choose|i: int| 0 <= i < line.len() && line[i] == '\t' && forall|j: int| 0 <= j < i ==> line[j] != '\t';
        bookmark_spec(trim(line.take(i)), trim(line.skip(i + 1)))
    } else {
        None
    }
}

pub open spec fn firefox_rows(lines: Seq<Seq<char>>) -> Seq<(Seq<char>, Seq<char>, Seq<char>)>
    decreases lines.len(),
{
    if lines.len() == 0 {
        Seq::empty()
    } else {
        firefox_rows(lines.drop_last()) + match firefox_row(lines.last()) {
            Some(b) => seq![b],
            None => Seq::empty(),
        }
    }
}

/// The bookmarks in rows of `title<TAB>url` lines, as Firefox's places
/// database prints them; rows without a tab or with an unusable URL are
/// skipped.
pub fn parse_firefox_bookmark_rows(raw: &str) -> (r: Vec<BookmarkEntry>)
    ensures
        r@.map_values(|b: BookmarkEntry| bookmark_view(b)) == firefox_rows(crate::password::lines_of(raw@)),
{
    let lines = crate::password::split_lines(&chars_of(raw));
    let ghost lv = crate::password::lines_of(raw@);
    let mut out: Vec<BookmarkEntry> = Vec::new();
    let mut k: usize = 0;
    while k < lines.len()
        invariant
            k <= lines@.len(),
            lines@.len() == lv.len(),
            forall|i: int| 0 <= i < lines@.len() ==> #[trigger] lines@[i]@ == lv[i],
            out@.map_values(|b: BookmarkEntry| bookmark_view(b)) == firefox_rows(lv.take(k as int)),
        decreases lines@.len() - k,
    {
        let line = &lines[k];
        proof {
            assert(lv.take(k + 1).drop_last() =~= lv.take(k as int));
            assert(lv.take(k + 1).last() == line@);
        }
        let ghost before = out@;
        match crate::text::index_of_in(line, 0, line.len(), '\t') {
            Some(i) => {
                proof {
                    let c = choose|c: int| 0 <= c < line@.len() && line@[c] == '\t' && forall|j: int| 0 <= j < c ==> line@[j] != '\t';
                    assert(0 <= i < line@.len() && line@[i as int] == '\t');
                    if c < i {
                    } else if i < c {
                    }
                }
                let title = string_of(&trim_vec(&slice_vec(line, 0, i)));
                let url = string_of(&trim_vec(&slice_vec(line, i + 1, line.len())));
                assert(line@.subrange(0, i as int) =~= line@.take(i as int));
                assert(line@.subrange(i + 1, line@.len() as int) =~= line@.skip(i + 1));
                match bookmark_entry(title.as_str(), url.as_str()) {
                    Some(b) => {
                        out.push(b);
                        assert(out@.map_values(|b: BookmarkEntry| bookmark_view(b)) =~= before.map_values(
                            |b: BookmarkEntry| bookmark_view(b),
                        ) + seq![bookmark_view(b)]);
                    },
                    None => {
                        assert(out@ == before);
                        assert(firefox_rows(lv.take(k + 1)) =~= firefox_rows(lv.take(k as int)));
                    },
                }
            },
            None => {
                assert(firefox_rows(lv.take(k + 1)) =~= firefox_rows(lv.take(k as int)));
            },
        }
        k = k + 1;
    }
    assert(lv.take(lines@.len() as int) =~= lv);
    out
}

// ---------------------------------------------------------------------------
// Recently used files
// ---------------------------------------------------------------------------

/// The still-encoded path of a `file://` URI: `localhost/` counts as the
/// root, and the path must be absolute.
pub open spec fn uri_encoded_path(uri: Seq<char>) -> Option<Seq<char>> {
    if !is_prefix("file://"@, uri) {
        None
    } else {
        let rest = uri.skip(7);
        let path = if is_prefix("localhost/"@, rest) { "/"@ + rest.skip(10) } else { rest };
        if path.len() == 0 || path[0] != '/' {
            None
        } else {
            Some(path)
        }
    }
}

/// A decoded path names a file only when it is not empty.
pub open spec fn nonempty_path(decoded: Option<Seq<char>>) -> Option<Seq<char>> {
    match decoded {
        Some(p) => if p.len() > 0 { Some(p) } else { None },
        None => None,
    }
}

/// The local path a `file://` URI names: its encoded path, percent-decoded;
/// an empty result names nothing.
pub open spec fn uri_path(uri: Seq<char>) -> Option<Seq<char>> {
    match uri_encoded_path(uri) {
        Some(path) => nonempty_path(percent_decoded(path)),
        None => None,
    }
}

/// The still-encoded path of a `file://` URI (see `uri_encoded_path`).
pub fn file_uri_encoded_path(uri: &str) -> (r: Option<String>)
    ensures
        opt_view(r) == uri_encoded_path(uri@),
{
    let v = chars_of(uri);
    if !starts_with(&v, &chars_of("file://")) {
        return None;
    }
    proof {
        reveal_strlit("file://");
        reveal_strlit("localhost/");
        reveal_strlit("/");
    }
    let rest = slice_vec(&v, 7, v.len());
    assert(rest@ =~= uri@.skip(7));
    let path: Vec<char> = if starts_with(&rest, &chars_of("localhost/")) {
        let mut p: Vec<char> = Vec::new();
        p.push('/');
        let tail = slice_vec(&rest, 10, rest.len());
        let mut i: usize = 0;
        while i < tail.len()
            invariant
                i <= tail@.len(),
                p@ == seq!['/'] + tail@.take(i as int),
            decreases tail@.len() - i,
        {
            p.push(tail[i]);
            assert(seq!['/'] + tail@.take(i + 1) =~= (seq!['/'] + tail@.take(i as int)).push(tail@[i as int]));
            i = i + 1;
        }
        assert(tail@.take(tail@.len() as int) =~= tail@);
        assert(p@ =~= "/"@ + rest@.skip(10));
        p
    } else {
        rest
    };
    if path.len() == 0 || path[0] != '/' {
        return None;
    }
    Some(string_of(&path))
}

/// The path a decoded URI path names (see `nonempty_path`).
pub fn path_if_nonempty(decoded: Option<String>) -> (r: Option<String>)
    ensures
        opt_view(r) == nonempty_path(opt_view(decoded)),
{
    match decoded {
        Some(d) => {
            if d.as_str().unicode_len() > 0 {
                Some(d)
            } else {
                None
            }
        },
        None => None,
    }
}

/// The local path a `file://` URI names (see `uri_path`).
pub fn file_uri_to_path(uri: &str) -> (r: Option<String>)
    ensures
        match r {
            Some(p) => uri_path(uri@) == Some(p@),
            None => uri_path(uri@) is None,
        },
{
    match file_uri_encoded_path(uri) {
        Some(path) => {
            let decoded = crate::sources::url_decode(path.as_str());
            proof {
                assert(opt_view(decoded) == percent_decoded(path@));
            }
            path_if_nonempty(decoded)
        },
        None => None,
    }
}

/// The ASCII digits of `s`, in order.
pub open spec fn ascii_digits(s: Seq<char>) -> Seq<char>
    decreases s.len(),
{
    if s.len() == 0 {
        Seq::empty()
    } else {
        ascii_digits(s.drop_last()) + if crate::monitor::is_digit(s.last()) { seq![s.last()] } else { Seq::empty() }
    }
}

/// A bookmark timestamp such as `2026-05-05T10:11:12Z` read as a number:
/// its first 14 digits, when there are at least 8.
pub open spec fn xbel_timestamp(raw: Seq<char>) -> Option<int> {
    let d = crate::sources::first_n(ascii_digits(raw), 14);
    if d.len() < 8 {
        None
    } else {
        Some(crate::monitor::digits_value(d) as int)
    }
}

pub open spec fn pow10(n: nat) -> nat
    decreases n,
{
    if n == 0 { 1 } else { 10 * pow10((n - 1) as nat) }
}

/// A bookmark timestamp as a number (see `xbel_timestamp`).
pub fn parse_xbel_timestamp(raw: &str) -> (r: Option<i64>)
    ensures
        match r {
            Some(n) => xbel_timestamp(raw@) == Some(n as int),
            None => xbel_timestamp(raw@) is None,
        },
{
    let v = chars_of(raw);
    let mut n: i64 = 0;
    let mut count: usize = 0;
    let mut i: usize = 0;
    proof {
        lemma_pow10_14();
        lemma_pow10_le(0, 14);
    }
    while i < v.len()
        invariant
            i <= v@.len(),
            v@ == raw@,
            count <= 14,
            count == crate::sources::first_n(ascii_digits(v@.take(i as int)), 14).len(),
            n as int == crate::monitor::digits_value(crate::sources::first_n(ascii_digits(v@.take(i as int)), 14)),
            0 <= n < pow10(count as nat),
            pow10(count as nat) <= 100_000_000_000_000,
        decreases v@.len() - i,
    {
        let c = v[i];
        let ghost d0 = ascii_digits(v@.take(i as int));
        proof {
            assert(v@.take(i + 1).drop_last() =~= v@.take(i as int));
        }
        if '0' <= c && c <= '9' && count < 14 {
            proof {
                let f0 = crate::sources::first_n(d0, 14);
                let d1 = ascii_digits(v@.take(i + 1));
                assert(d1 =~= d0.push(c));
                assert(f0 =~= d0);
                assert(crate::sources::first_n(d1, 14) =~= f0.push(c));
                assert(f0.push(c).drop_last() =~= f0);
            }
            n = n * 10 + (c as u32 - 48) as i64;
            count = count + 1;
            proof {
                assert(pow10(count as nat) == 10 * pow10((count - 1) as nat));
                lemma_pow10_le(count as nat, 14);
                lemma_pow10_14();
            }
        } else {
            proof {
                let d1 = ascii_digits(v@.take(i + 1));
                if '0' <= c && c <= '9' {
                    assert(d1 =~= d0.push(c));
                    assert(crate::sources::first_n(d1, 14) =~= crate::sources::first_n(d0, 14));
                } else {
                    assert(d1 =~= d0);
                }
            }
        }
        i = i + 1;
    }
    assert(v@.take(v@.len() as int) =~= v@);
    if count < 8 {
        None
    } else {
        Some(n)
    }
}

proof fn lemma_pow10_14()
    ensures
        pow10(14) == 100_000_000_000_000,
{
    reveal_with_fuel(pow10, 15);
}

proof fn lemma_pow10_le(a: nat, b: nat)
    requires
        a <= b,
    ensures
        pow10(a) <= pow10(b),
    decreases b,
{
    if a < b {
        lemma_pow10_le(a, (b - 1) as nat);
    }
}

/// A recently used file as plain values: title, path, modification time
/// and matched text.
pub type RecentView = (Seq<char>, Seq<char>, i64, Seq<char>);

pub open spec fn recent_view(f: RecentFileEntry) -> RecentView {
    (f.title@, f.path@, f.modified, f.search_blob@)
}

/// A recently used file from a bookmark: the local path of its URI, and
/// its title trimmed, the file's name standing in when it is empty.
pub open spec fn recent_spec(href: Seq<char>, title: Seq<char>, modified: i64) -> Option<RecentView> {
    match uri_path(href) {
        None => None,
        Some(p) => {
            let t = if trim(title).len() == 0 { file_title(p) } else { trim(title) };
            Some((t, p, modified, blob(t, p)))
        },
    }
}

/// A recently used file from a bookmark (see `recent_spec`).
pub fn recent_file_entry(href: &str, title: &str, modified: i64) -> (r: Option<RecentFileEntry>)
    ensures
        match r {
            Some(f) => recent_spec(href@, title@, modified) == Some(recent_view(f)),
            None => recent_spec(href@, title@, modified) is None,
        },
{
    let path = match file_uri_to_path(href) {
        None => return None,
        Some(p) => p,
    };
    let tt = trim_vec(&chars_of(title));
    let t: String = if tt.len() == 0 {
        match crate::sources::file_name_of(path.as_str()) {
            Some(n) => n,
            None => path.clone(),
        }
    } else {
        string_of(&tt)
    };
    let search_blob = lowered_pair(&chars_of(t.as_str()), &chars_of(path.as_str()));
    Some(RecentFileEntry { title: t, path, modified, search_blob })
}

/// An event of an XBEL document, as an XML reader reports it.
pub enum XbelEvent {
    /// An element opens, with its local name and attributes.
    Start { name: String, attributes: Vec<(String, String)> },
    /// An element closes.
    End { name: String },
    /// Character data.
    Text(String),
}

/// The value of the first attribute named `key`.
pub open spec fn attr(attrs: Seq<(String, String)>, key: Seq<char>) -> Option<Seq<char>>
    decreases attrs.len(),
{
    if attrs.len() == 0 {
        None
    } else if attrs[0].0@ == key {
        Some(attrs[0].1@)
    } else {
        attr(attrs.drop_first(), key)
    }
}

/// The state of a read: the open bookmark's URI and time, the title read
/// so far, whether a title is open, and the files found.
pub type XbelState = (Option<Seq<char>>, i64, Seq<char>, bool, Seq<RecentView>);

/// The time of a bookmark: its `modified` attribute, or where it has none
/// its `visited` one, read as a timestamp; 0 when that fails.
pub open spec fn bookmark_time(attrs: Seq<(String, String)>) -> i64 {
    let raw = match attr(attrs, "modified"@) {
        Some(m) => Some(m),
        None => attr(attrs, "visited"@),
    };
    match raw {
        Some(r) => match xbel_timestamp(r) {
            Some(t) => t as i64,
            None => 0,
        },
        None => 0,
    }
}

pub open spec fn xbel_step(st: XbelState, ev: XbelEvent) -> XbelState {
    let (href, modified, title, in_title, found) = st;
    match ev {
        XbelEvent::Start { name, attributes } => if name@ == "bookmark"@ {
            (attr(attributes@, "href"@), bookmark_time(attributes@), Seq::empty(), in_title, found)
        } else if name@ == "title"@ {
            (href, modified, Seq::empty(), true, found)
        } else {
            st
        },
        XbelEvent::Text(t) => if in_title { (href, modified, title + t@, in_title, found) } else { st },
        XbelEvent::End { name } => if name@ == "title"@ {
            (href, modified, title, false, found)
        } else if name@ == "bookmark"@ {
            let more = match href {
                Some(h) => match recent_spec(h, title, modified) {
                    Some(f) => seq![f],
                    None => Seq::empty(),
                },
                None => Seq::empty(),
            };
            (None, 0, Seq::empty(), false, found + more)
        } else {
            st
        },
    }
}

pub open spec fn xbel_run(events: Seq<XbelEvent>) -> XbelState
    decreases events.len(),
{
    if events.len() == 0 {
        (None, 0, Seq::empty(), false, Seq::empty())
    } else {
        xbel_step(xbel_run(events.drop_last()), events.last())
    }
}

/// The first attribute named `key`.
fn find_attr(attrs: &Vec<(String, String)>, key: &str) -> (r: Option<String>)
    ensures
        match r {
            Some(v) => attr(attrs@, key@) == Some(v@),
            None => attr(attrs@, key@) is None,
        },
{
    let mut i: usize = 0;
    assert(attrs@.skip(0) =~= attrs@);
    while i < attrs.len()
        invariant
            i <= attrs@.len(),
            attr(attrs@.skip(i as int), key@) == attr(attrs@, key@),
        decreases attrs@.len() - i,
    {
        assert(attrs@.skip(i as int).drop_first() =~= attrs@.skip(i + 1));
        if crate::text::str_eq(attrs[i].0.as_str(), key) {
            return Some(attrs[i].1.clone());
        }
        i = i + 1;
    }
    None
}

/// The files an XBEL document lists, in document order (before sorting).
fn xbel_found(events: &Vec<XbelEvent>) -> (r: Vec<RecentFileEntry>)
    ensures
        r@.map_values(|f: RecentFileEntry| recent_view(f)) == xbel_run(events@).4,
{
    let mut href: Option<String> = None;
    let mut modified: i64 = 0;
    let mut title = String::new();
    let mut in_title = false;
    let mut found: Vec<RecentFileEntry> = Vec::new();
    let mut k: usize = 0;
    while k < events.len()
        invariant
            k <= events@.len(),
            xbel_run(events@.take(k as int)) == (
                match href { Some(h) => Some(h@), None => None::<Seq<char>> },
                modified,
                title@,
                in_title,
                found@.map_values(|f: RecentFileEntry| recent_view(f)),
            ),
        decreases events@.len() - k,
    {
        proof {
            assert(events@.take(k + 1).drop_last() =~= events@.take(k as int));
        }
        match &events[k] {
            XbelEvent::Start { name, attributes } => {
                if crate::text::str_eq(name.as_str(), "bookmark") {
                    href = find_attr(attributes, "href");
                    let raw = match find_attr(attributes, "modified") {
                        Some(m) => Some(m),
                        None => find_attr(attributes, "visited"),
                    };
                    modified = match raw {
                        Some(r) => match parse_xbel_timestamp(r.as_str()) {
                            Some(t) => t,
                            None => 0,
                        },
                        None => 0,
                    };
                    title = String::new();
                } else if crate::text::str_eq(name.as_str(), "title") {
                    in_title = true;
                    title = String::new();
                }
            },
            XbelEvent::Text(t) => {
                if in_title {
                    push_str(&mut title, t.as_str());
                }
            },
            XbelEvent::End { name } => {
                if crate::text::str_eq(name.as_str(), "title") {
                    in_title = false;
                } else if crate::text::str_eq(name.as_str(), "bookmark") {
                    match &href {
                        Some(h) => match recent_file_entry(h.as_str(), title.as_str(), modified) {
                            Some(f) => {
                                let ghost before = found@;
                                found.push(f);
                                assert(found@.map_values(|f: RecentFileEntry| recent_view(f)) =~= before.map_values(
                                    |f: RecentFileEntry| recent_view(f),
                                ) + seq![recent_view(f)]);
                            },
                            None => {
                                assert(found@.map_values(|f: RecentFileEntry| recent_view(f)) =~= found@.map_values(
                                    |f: RecentFileEntry| recent_view(f),
                                ) + Seq::<RecentView>::empty());
                            },
                        },
                        None => {
                            assert(found@.map_values(|f: RecentFileEntry| recent_view(f)) =~= found@.map_values(
                                |f: RecentFileEntry| recent_view(f),
                            ) + Seq::<RecentView>::empty());
                        },
                    }
                    href = None;
                    title = String::new();
                    modified = 0;
                    in_title = false;
                }
            },
        }
        k = k + 1;
    }
    assert(events@.take(events@.len() as int) =~= events@);
    found
}

/// Newest first, then by title.
pub open spec fn recent_rank(f: RecentView) -> crate::sort::KeySpec {
    (seq![-(f.2 as int)], seq![f.0])
}

/// `s` with every file whose path occurred earlier removed.
pub open spec fn dedup_paths(s: Seq<RecentView>) -> Seq<RecentView>
    decreases s.len(),
{
    if s.len() == 0 {
        Seq::empty()
    } else {
        let d = dedup_paths(s.drop_last());
        if exists|j: int| 0 <= j < s.len() - 1 && s[j].1 == s.last().1 {
            d
        } else {
            d.push(s.last())
        }
    }
}

/// One of the first `n` files of `s` has path `p`.
pub open spec fn path_among(s: Seq<RecentView>, n: int, p: Seq<char>) -> bool {
    exists|j: int| 0 <= j < n && #[trigger] s[j].1 == p
}

/// One of `files` has path `p`.
pub open spec fn has_path(files: Seq<RecentFileEntry>, p: Seq<char>) -> bool {
    exists|t: int| 0 <= t < files.len() && #[trigger] files[t].path@ == p
}

/// The recently used files an XBEL document lists: local files only,
/// newest first (ties by title, then in document order), each path once.
pub fn parse_recent_files_xbel(events: &Vec<XbelEvent>) -> (r: Vec<RecentFileEntry>)
    ensures
        ({
            let found = xbel_run(events@).4;
            exists|order: Seq<int>|
                #![trigger crate::sort::is_permutation(order, found.len() as int)]
                crate::sort::is_permutation(order, found.len() as int)
                && crate::sort::is_sorted_by(found.map_values(|f: RecentView| recent_rank(f)), order)
                && crate::sort::is_stable(found.map_values(|f: RecentView| recent_rank(f)), order)
                && r@.map_values(|f: RecentFileEntry| recent_view(f)) == dedup_paths(
                    order.map_values(|i: int| found[i]),
                )
        }),
{
    let found = xbel_found(events);
    let ghost fv = found@.map_values(|f: RecentFileEntry| recent_view(f));
    let mut keys: Vec<crate::sort::SortKey> = Vec::new();
    let mut i: usize = 0;
    while i < found.len()
        invariant
            i <= found@.len(),
            keys@.len() == i,
            fv == found@.map_values(|f: RecentFileEntry| recent_view(f)),
            forall|j: int| 0 <= j < i ==> (#[trigger] keys@[j]).view() == recent_rank(fv[j]),
        decreases found@.len() - i,
    {
        let mut nums: Vec<i128> = Vec::new();
        nums.push(-(found[i].modified as i128));
        let mut strs: Vec<Vec<char>> = Vec::new();
        strs.push(chars_of(found[i].title.as_str()));
        let k = crate::sort::SortKey { nums, strs };
        assert(k.view().0 =~= recent_rank(fv[i as int]).0);
        assert(k.view().1 =~= recent_rank(fv[i as int]).1);
        keys.push(k);
        i = i + 1;
    }
    assert(keys@.map_values(|k: crate::sort::SortKey| k.view()) =~= fv.map_values(|f: RecentView| recent_rank(f)));
    let order = crate::sort::sort_indices(&keys);
    let ghost ov = order@.map_values(|x: usize| x as int);
    let ghost sorted = ov.map_values(|x: int| fv[x]);
    let mut out: Vec<RecentFileEntry> = Vec::new();
    let mut m: usize = 0;
    while m < order.len()
        invariant
            m <= order@.len(),
            ov == order@.map_values(|x: usize| x as int),
            crate::sort::is_permutation(ov, found@.len() as int),
            sorted == ov.map_values(|x: int| fv[x]),
            fv == found@.map_values(|f: RecentFileEntry| recent_view(f)),
            out@.map_values(|f: RecentFileEntry| recent_view(f)) == dedup_paths(sorted.take(m as int)),
            forall|p: Seq<char>| #[trigger] path_among(sorted, m as int, p) <==> has_path(out@, p),
        decreases order@.len() - m,
    {
        let idx = order[m];
        assert(ov[m as int] == idx as int);
        assert(0 <= ov[m as int] < found@.len());
        let f = &found[idx];
        assert(sorted[m as int] == recent_view(*f));
        let mut seen = false;
        let mut q: usize = 0;
        while q < out.len()
            invariant
                q <= out@.len(),
                seen == exists|t: int| 0 <= t < q && out@[t].path@ == f.path@,
            decreases out@.len() - q,
        {
            if crate::text::str_eq(out[q].path.as_str(), f.path.as_str()) {
                seen = true;
            }
            q = q + 1;
        }
        proof {
            assert(seen == has_path(out@, f.path@));
            assert(path_among(sorted, m as int, f.path@) == seen);
            assert(sorted.take(m + 1).drop_last() =~= sorted.take(m as int));
            assert(sorted.take(m + 1).last() == sorted[m as int]);
            assert((exists|j: int| 0 <= j < sorted.take(m + 1).len() - 1 && #[trigger] sorted.take(m + 1)[j].1
                == sorted.take(m + 1).last().1) == (exists|j: int| 0 <= j < m && #[trigger] sorted[j].1 == f.path@)) by {
                if exists|j: int| 0 <= j < m && #[trigger] sorted[j].1 == f.path@ {
                    let j = choose|j: int| 0 <= j < m && #[trigger] sorted[j].1 == f.path@;
                    assert(sorted.take(m + 1)[j] == sorted[j]);
                }
            }
        }
        if !seen {
            let ghost before = out@;
            let copy = RecentFileEntry {
                title: f.title.clone(),
                path: f.path.clone(),
                modified: f.modified,
                search_blob: f.search_blob.clone(),
            };
            out.push(copy);
            assert(out@.map_values(|f: RecentFileEntry| recent_view(f)) =~= before.map_values(
                |f: RecentFileEntry| recent_view(f),
            ).push(recent_view(copy)));
            assert forall|p: Seq<char>| #[trigger] path_among(sorted, m + 1, p) <==> has_path(out@, p) by {
                if path_among(sorted, m + 1, p) {
                    let j = choose|j: int| 0 <= j < m + 1 && #[trigger] sorted[j].1 == p;
                    if j < m {
                        assert(path_among(sorted, m as int, p));
                        let t = choose|t: int| 0 <= t < before.len() && #[trigger] before[t].path@ == p;
                        assert(out@[t] == before[t]);
                    } else {
                        assert(out@[before.len() as int].path@ == p);
                    }
                }
                if has_path(out@, p) {
                    let t = choose|t: int| 0 <= t < out@.len() && #[trigger] out@[t].path@ == p;
                    if t < before.len() {
                        assert(before[t] == out@[t]);
                        assert(has_path(before, p));
                    } else {
                        assert(sorted[m as int].1 == p);
                    }
                    if t < before.len() {
                        assert(has_path(before, p));
                        assert(path_among(sorted, m as int, p));
                        let j = choose|j: int| 0 <= j < m && #[trigger] sorted[j].1 == p;
                        assert(0 <= j < m + 1 && sorted[j].1 == p);
                    } else {
                        assert(0 <= m < m + 1 && sorted[m as int].1 == p);
                    }
                }
            }
        } else {
            assert forall|p: Seq<char>| #[trigger] path_among(sorted, m + 1, p) <==> has_path(out@, p) by {
                if path_among(sorted, m + 1, p) {
                    let j = choose|j: int| 0 <= j < m + 1 && #[trigger] sorted[j].1 == p;
                    if j == m {
                        let t = choose|t: int| 0 <= t < out@.len() && out@[t].path@ == f.path@;
                        assert(out@[t].path@ == p);
                    } else {
                        assert(path_among(sorted, m as int, p));
                    }
                }
                if has_path(out@, p) {
                    assert(path_among(sorted, m as int, p));
                    let j = choose|j: int| 0 <= j < m && #[trigger] sorted[j].1 == p;
                    assert(0 <= j < m + 1 && sorted[j].1 == p);
                }
            }
        }
        m = m + 1;
    }
    assert(sorted.take(order@.len() as int) =~= sorted);
    proof {
        assert(found@.len() == fv.len());
        assert(xbel_run(events@).4 == fv);
    }
    out
}

/// One event of an XML reader: an XBEL event, another kind of event, or a
/// reader error.
pub enum XmlItem {
    /// An element start, an element end or character data.
    Event(XbelEvent),
    /// Any other event (declaration, comment, white space, ...).
    Other,
    /// The reader failed; nothing follows.
    Failed,
}

/// The events an XML reader reports for a document, in order.
pub uninterp spec fn xml_reader_events(text: Seq<char>) -> Seq<XmlItem>;

/// `xml::reader::EventReader::from_str` over `raw`, every item its
/// iteration yields: element starts (local name, attributes by local name
/// and value), element ends and character data as events, any other event
/// as `Other`, an error as `Failed`. The contract names the sequence as a
/// function of the text alone.
#[verifier::external_body]
fn read_xml_events(raw: &str) -> (r: Vec<XmlItem>)
    ensures
        r@ == xml_reader_events(raw@),
{
    EventReader::from_str(raw).into_iter().map(|item| match item {
        Ok(XmlEvent::StartElement { name, attributes, .. }) => XmlItem::Event(XbelEvent::Start {
            name: name.local_name,
            attributes: attributes.into_iter().map(|a| (a.name.local_name, a.value)).collect(),
        }),
        Ok(XmlEvent::EndElement { name }) => XmlItem::Event(XbelEvent::End { name: name.local_name }),
        Ok(XmlEvent::Characters(text)) => XmlItem::Event(XbelEvent::Text(text)),
        Ok(_) => XmlItem::Other,
        Err(_) => XmlItem::Failed,
    }).collect()
}

/// The XBEL events among reader items, up to the first error.
pub open spec fn xbel_events_spec(items: Seq<XmlItem>) -> Seq<XbelEvent>
    decreases items.len(),
{
    if items.len() == 0 {
        Seq::empty()
    } else {
        match items[0] {
            XmlItem::Event(e) => seq![e] + xbel_events_spec(items.skip(1)),
            XmlItem::Other => xbel_events_spec(items.skip(1)),
            XmlItem::Failed => Seq::empty(),
        }
    }
}

/// The XBEL events among reader items, up to the first error.
pub fn xbel_events(items: Vec<XmlItem>) -> (r: Vec<XbelEvent>)
    ensures
        r@ == xbel_events_spec(items@),
{
    let ghost all = items@;
    let mut rest = items;
    let mut out: Vec<XbelEvent> = Vec::new();
    let mut done = false;
    while !done && rest.len() > 0
        invariant
            done ==> xbel_events_spec(all) == out@,
            !done ==> xbel_events_spec(all) == out@ + xbel_events_spec(rest@),
        decreases rest@.len(),
    {
        let ghost before = rest@;
        let item = rest.remove(0);
        assert(rest@ =~= before.skip(1));
        match item {
            XmlItem::Event(e) => {
                let ghost prev = out@;
                out.push(e);
                assert(prev + xbel_events_spec(before) =~= out@ + xbel_events_spec(rest@));
            },
            XmlItem::Other => {},
            XmlItem::Failed => {
                assert(out@ + xbel_events_spec(before) =~= out@);
                done = true;
            },
        }
    }
    if !done {
        assert(out@ + xbel_events_spec(rest@) =~= out@);
    }
    out
}

/// The recent files an XBEL document lists (see `parse_recent_files_xbel`),
/// read from the events the XML reader reports for it.
pub fn recent_files_from_xbel(raw: &str) -> (r: Vec<RecentFileEntry>)
    ensures
        ({
            let found = xbel_run(xbel_events_spec(xml_reader_events(raw@))).4;
            exists|order: Seq<int>|
                #![trigger crate::sort::is_permutation(order, found.len() as int)]
                crate::sort::is_permutation(order, found.len() as int)
                && crate::sort::is_sorted_by(found.map_values(|f: RecentView| recent_rank(f)), order)
                && crate::sort::is_stable(found.map_values(|f: RecentView| recent_rank(f)), order)
                && r@.map_values(|f: RecentFileEntry| recent_view(f)) == dedup_paths(
                    order.map_values(|i: int| found[i]),
                )
        }),
{
    let items = read_xml_events(raw);
    let events = xbel_events(items);
    parse_recent_files_xbel(&events)
}

// ---------------------------------------------------------------------------
// Password-store entries
// ---------------------------------------------------------------------------

/// What `Path::strip_prefix` gives: `path` relative to `root`, when `root`
/// is a prefix of it component by component.
pub uninterp spec fn path_relative(path: Seq<char>, root: Seq<char>) -> Option<Seq<char>>;

/// `Path::strip_prefix`: `path` relative to `root`, if `root` is one of its
/// ancestors (or itself).
#[verifier::external_body]
fn strip_path_prefix(path: &str, root: &str) -> (r: Option<String>)
    ensures
        match r {
            Some(s) => path_relative(path@, root@) == Some(s@),
            None => path_relative(path@, root@) is None,
        },
{
    let relative = std::path::Path::new(path).strip_prefix(root).ok()?;
    Some(relative.to_string_lossy().into_owned())
}

/// The entry name of a path relative to the password store: the path
/// without its `.gpg` suffix; nothing for other files.
pub open spec fn entry_of_relative(rel: Seq<char>) -> Option<Seq<char>> {
    if is_suffix(".gpg"@, rel) && rel.len() > 4 {
        Some(rel.take(rel.len() - 4))
    } else {
        None
    }
}

/// The entry name of a password-store file: its path below the store,
/// without the `.gpg` suffix; nothing for other files.
pub open spec fn pass_name(root: Seq<char>, path: Seq<char>) -> Option<Seq<char>> {
    match path_relative(path, root) {
        None => None,
        Some(rel) => entry_of_relative(rel),
    }
}

/// The entry name of a path relative to the store (see `entry_of_relative`).
pub fn pass_entry_from_relative(rel: &str) -> (r: Option<String>)
    ensures
        match r {
            Some(n) => entry_of_relative(rel@) == Some(n@),
            None => entry_of_relative(rel@) is None,
        },
{
    let v = chars_of(rel);
    let suffix = chars_of(".gpg");
    proof {
        reveal_strlit(".gpg");
    }
    if v.len() <= 4 {
        return None;
    }
    let tail = slice_vec(&v, v.len() - 4, v.len());
    if !crate::text::vec_eq(&tail, &suffix) {
        return None;
    }
    assert(v@.take(v@.len() - 4) =~= v@.subrange(0, v@.len() - 4));
    Some(string_of_range(&v, 0, v.len() - 4))
}

/// The entry name of a password-store file (see `pass_name`).
pub fn pass_entry_name(root: &str, path: &str) -> (r: Option<String>)
    ensures
        match r {
            Some(n) => pass_name(root@, path@) == Some(n@),
            None => pass_name(root@, path@) is None,
        },
{
    match strip_path_prefix(path, root) {
        None => None,
        Some(rel) => pass_entry_from_relative(rel.as_str()),
    }
}

// ---------------------------------------------------------------------------
// Windows reported by the compositor
// ---------------------------------------------------------------------------

/// What Hyprland reports of one client, field by field (`None` where the
/// field is missing or of another type).
pub struct HyprWindowFields {
    pub address: Option<String>,
    pub title: Option<String>,
    pub initial_title: Option<String>,
    pub class: Option<String>,
    pub initial_class: Option<String>,
    pub workspace_name: Option<String>,
    pub workspace_id: Option<i64>,
    pub focus_history_id: Option<i64>,
    pub mapped: Option<bool>,
    pub hidden: Option<bool>,
    pub xwayland: Option<bool>,
}

/// What Niri reports of one window, field by field.
pub struct NiriWindowFields {
    pub id: Option<u64>,
    pub title: Option<String>,
    pub app_id: Option<String>,
    pub app_id_or_class: Option<String>,
    pub workspace_name: Option<String>,
    pub workspace_id: Option<i64>,
    pub focus_order: Option<i64>,
    pub last_focus_time: Option<i64>,
}

/// A window entry as plain values: title, app, workspace, matched text,
/// focus order, target.
pub type WindowView = (Seq<char>, Seq<char>, Seq<char>, Seq<char>, i64, crate::search::TargetView);

pub open spec fn window_view(w: crate::search::WindowEntry) -> WindowView {
    (w.title@, w.app_name@, w.workspace@, w.search_blob@, w.focus_order, crate::search::target_view(w.focus_target))
}

/// `o`, unless it is blank.
pub open spec fn non_blank(o: Option<Seq<char>>) -> Option<Seq<char>> {
    match o {
        Some(s) => if trim(s).len() == 0 { None } else { Some(s) },
        None => None,
    }
}

pub open spec fn or_else(a: Option<Seq<char>>, b: Option<Seq<char>>) -> Option<Seq<char>> {
    match a {
        Some(x) => Some(x),
        None => b,
    }
}

pub open spec fn or_default(a: Option<Seq<char>>, d: Seq<char>) -> Seq<char> {
    match a {
        Some(x) => x,
        None => d,
    }
}

/// The workspace a window is on: its name, else its number, else `unknown`.
pub open spec fn workspace_label(name: Option<String>, id: Option<i64>) -> Seq<char> {
    match name {
        Some(n) => n@,
        None => match id {
            Some(i) => crate::text::dec_int(i as int),
            None => "unknown"@,
        },
    }
}

/// The text a query is matched against for a window.
pub open spec fn window_blob(title: Seq<char>, app: Seq<char>, workspace: Seq<char>) -> Seq<char> {
    lower_seq(title + " "@ + app + " workspace "@ + workspace)
}

/// A Hyprland client as a window entry: mapped and not hidden, with an
/// address; the title falls back to the initial title, then `Untitled
/// window`, the app to the initial class, then `Unknown app`; a client
/// never focused sorts last.
pub open spec fn hypr_window(w: HyprWindowFields) -> Option<WindowView> {
    let mapped = match w.mapped { Some(b) => b, None => true };
    let hidden = match w.hidden { Some(b) => b, None => false };
    if !mapped || hidden || w.address is None {
        None
    } else {
        let title = or_default(or_else(non_blank(opt_view(w.title)), opt_view(w.initial_title)), "Untitled window"@);
        let app = or_default(or_else(non_blank(opt_view(w.class)), opt_view(w.initial_class)), "Unknown app"@);
        let ws = workspace_label(w.workspace_name, w.workspace_id);
        let order = match w.focus_history_id { Some(f) => f, None => i64::MAX };
        let xwayland = match w.xwayland { Some(b) => b, None => false };
        Some((title, app, ws, window_blob(title, app, ws), order, crate::search::TargetView::Hyprland {
            address: w.address.unwrap()@,
            xwayland,
        }))
    }
}

/// A Niri window as a window entry: it needs an id; a window with no focus
/// information keeps its place in the list.
pub open spec fn niri_window(w: NiriWindowFields, index: int) -> Option<WindowView> {
    match w.id {
        None => None,
        Some(id) => {
            let title = or_default(non_blank(opt_view(w.title)), "Untitled window"@);
            let app = or_default(or_else(non_blank(opt_view(w.app_id)), opt_view(w.app_id_or_class)), "Unknown app"@);
            let ws = workspace_label(w.workspace_name, w.workspace_id);
            let order = match w.focus_order {
                Some(f) => f,
                None => match w.last_focus_time {
                    Some(t) => t,
                    None => index as i64,
                },
            };
            Some((title, app, ws, window_blob(title, app, ws), order, crate::search::TargetView::Niri { id }))
        },
    }
}

pub open spec fn hypr_windows(ws: Seq<HyprWindowFields>) -> Seq<WindowView>
    decreases ws.len(),
{
    if ws.len() == 0 {
        Seq::empty()
    } else {
        hypr_windows(ws.drop_last()) + match hypr_window(ws.last()) {
            Some(w) => seq![w],
            None => Seq::empty(),
        }
    }
}

pub open spec fn niri_windows(ws: Seq<NiriWindowFields>) -> Seq<WindowView>
    decreases ws.len(),
{
    if ws.len() == 0 {
        Seq::empty()
    } else {
        niri_windows(ws.drop_last()) + match niri_window(ws.last(), ws.len() - 1) {
            Some(w) => seq![w],
            None => Seq::empty(),
        }
    }
}

/// Most recently focused first, then by title.
pub open spec fn window_rank(w: WindowView) -> crate::sort::KeySpec {
    (seq![w.4 as int], seq![w.0])
}

/// `r` holds the windows of `found`, ordered by `window_rank`.
pub open spec fn windows_ranked(found: Seq<WindowView>, r: Seq<crate::search::WindowEntry>) -> bool {
    exists|order: Seq<int>|
        #![trigger crate::sort::is_permutation(order, found.len() as int)]
        crate::sort::is_permutation(order, found.len() as int)
        && crate::sort::is_sorted_by(found.map_values(|w: WindowView| window_rank(w)), order)
        && crate::sort::is_stable(found.map_values(|w: WindowView| window_rank(w)), order)
        && r.map_values(|w: crate::search::WindowEntry| window_view(w)) == order.map_values(|i: int| found[i])
}

fn opt_string(o: &Option<String>) -> (r: Option<String>)
    ensures
        opt_view(r) == opt_view(*o),
{
    match o {
        Some(s) => Some(s.clone()),
        None => None,
    }
}

fn non_blank_of(o: Option<String>) -> (r: Option<String>)
    ensures
        opt_view(r) == non_blank(opt_view(o)),
{
    match o {
        Some(s) => {
            if trim_vec(&chars_of(s.as_str())).len() == 0 {
                None
            } else {
                Some(s)
            }
        },
        None => None,
    }
}

fn or_default_of(a: Option<String>, b: Option<String>, d: &str) -> (r: String)
    ensures
        r@ == or_default(or_else(opt_view(a), opt_view(b)), d@),
{
    match a {
        Some(x) => x,
        None => match b {
            Some(y) => y,
            None => owned(d),
        },
    }
}

fn workspace_label_of(name: &Option<String>, id: Option<i64>) -> (r: String)
    ensures
        r@ == workspace_label(*name, id),
{
    match name {
        Some(n) => n.clone(),
        None => match id {
            Some(i) => {
                let mut s = String::new();
                crate::text::push_dec_i64(&mut s, i);
                s
            },
            None => owned("unknown"),
        },
    }
}

fn window_blob_of(title: &str, app: &str, workspace: &str) -> (r: String)
    ensures
        r@ == window_blob(title@, app@, workspace@),
{
    let mut s = owned(title);
    push_str(&mut s, " ");
    push_str(&mut s, app);
    push_str(&mut s, " workspace ");
    push_str(&mut s, workspace);
    string_of(&lower_vec(&chars_of(s.as_str())))
}

fn hypr_entry(w: &HyprWindowFields) -> (r: Option<crate::search::WindowEntry>)
    ensures
        match r {
            Some(e) => hypr_window(*w) == Some(window_view(e)),
            None => hypr_window(*w) is None,
        },
{
    let mapped = match w.mapped { Some(b) => b, None => true };
    let hidden = match w.hidden { Some(b) => b, None => false };
    if !mapped || hidden {
        return None;
    }
    let address = match &w.address {
        None => return None,
        Some(a) => a.clone(),
    };
    let title = or_default_of(non_blank_of(opt_string(&w.title)), opt_string(&w.initial_title), "Untitled window");
    let app_name = or_default_of(non_blank_of(opt_string(&w.class)), opt_string(&w.initial_class), "Unknown app");
    let workspace = workspace_label_of(&w.workspace_name, w.workspace_id);
    let focus_order = match w.focus_history_id { Some(f) => f, None => i64::MAX };
    let xwayland = match w.xwayland { Some(b) => b, None => false };
    let search_blob = window_blob_of(title.as_str(), app_name.as_str(), workspace.as_str());
    Some(crate::search::WindowEntry {
        title,
        app_name,
        workspace,
        search_blob,
        focus_order,
        focus_target: crate::model::WindowFocusTarget::Hyprland { address, xwayland },
    })
}

fn niri_entry(w: &NiriWindowFields, index: usize) -> (r: Option<crate::search::WindowEntry>)
    requires
        index <= i64::MAX,
    ensures
        match r {
            Some(e) => niri_window(*w, index as int) == Some(window_view(e)),
            None => niri_window(*w, index as int) is None,
        },
{
    let id = match w.id {
        None => return None,
        Some(i) => i,
    };
    let title = or_default_of(non_blank_of(opt_string(&w.title)), None, "Untitled window");
    let app_name = or_default_of(non_blank_of(opt_string(&w.app_id)), opt_string(&w.app_id_or_class), "Unknown app");
    let workspace = workspace_label_of(&w.workspace_name, w.workspace_id);
    let focus_order = match w.focus_order {
        Some(f) => f,
        None => match w.last_focus_time {
            Some(t) => t,
            None => index as i64,
        },
    };
    let search_blob = window_blob_of(title.as_str(), app_name.as_str(), workspace.as_str());
    Some(crate::search::WindowEntry {
        title,
        app_name,
        workspace,
        search_blob,
        focus_order,
        focus_target: crate::model::WindowFocusTarget::Niri { id },
    })
}

/// `found` ordered by `window_rank`.
fn rank_windows(found: Vec<crate::search::WindowEntry>) -> (r: Vec<crate::search::WindowEntry>)
    ensures
        windows_ranked(found@.map_values(|w: crate::search::WindowEntry| window_view(w)), r@),
{
    let ghost fv = found@.map_values(|w: crate::search::WindowEntry| window_view(w));
    let mut keys: Vec<crate::sort::SortKey> = Vec::new();
    let mut i: usize = 0;
    while i < found.len()
        invariant
            i <= found@.len(),
            keys@.len() == i,
            fv == found@.map_values(|w: crate::search::WindowEntry| window_view(w)),
            forall|j: int| 0 <= j < i ==> (#[trigger] keys@[j]).view() == window_rank(fv[j]),
        decreases found@.len() - i,
    {
        let mut nums: Vec<i128> = Vec::new();
        nums.push(found[i].focus_order as i128);
        let mut strs: Vec<Vec<char>> = Vec::new();
        strs.push(chars_of(found[i].title.as_str()));
        let k = crate::sort::SortKey { nums, strs };
        assert(k.view().0 =~= window_rank(fv[i as int]).0);
        assert(k.view().1 =~= window_rank(fv[i as int]).1);
        keys.push(k);
        i = i + 1;
    }
    assert(keys@.map_values(|k: crate::sort::SortKey| k.view()) =~= fv.map_values(|w: WindowView| window_rank(w)));
    let order = crate::sort::sort_indices(&keys);
    let ghost ov = order@.map_values(|x: usize| x as int);
    let mut out: Vec<crate::search::WindowEntry> = Vec::new();
    let mut m: usize = 0;
    while m < order.len()
        invariant
            m <= order@.len(),
            ov == order@.map_values(|x: usize| x as int),
            crate::sort::is_permutation(ov, found@.len() as int),
            fv == found@.map_values(|w: crate::search::WindowEntry| window_view(w)),
            out@.map_values(|w: crate::search::WindowEntry| window_view(w)) == ov.take(m as int).map_values(|i: int| fv[i]),
        decreases order@.len() - m,
    {
        let idx = order[m];
        assert(ov[m as int] == idx as int);
        let w = &found[idx];
        let copy = crate::search::WindowEntry {
            title: w.title.clone(),
            app_name: w.app_name.clone(),
            workspace: w.workspace.clone(),
            search_blob: w.search_blob.clone(),
            focus_order: w.focus_order,
            focus_target: crate::prediction::copy_focus_target(&w.focus_target),
        };
        let ghost before = out@;
        out.push(copy);
        assert(out@.map_values(|w: crate::search::WindowEntry| window_view(w)) =~= before.map_values(
            |w: crate::search::WindowEntry| window_view(w),
        ).push(window_view(copy)));
        assert(ov.take(m + 1).map_values(|i: int| fv[i]) =~= ov.take(m as int).map_values(|i: int| fv[i]).push(fv[ov[m as int]]));
        m = m + 1;
    }
    assert(ov.take(order@.len() as int) =~= ov);
    out
}

/// The windows Hyprland reports, as entries ranked by `window_rank`.
pub fn hypr_window_entries(windows: &Vec<HyprWindowFields>) -> (r: Vec<crate::search::WindowEntry>)
    ensures
        windows_ranked(hypr_windows(windows@), r@),
{
    let mut found: Vec<crate::search::WindowEntry> = Vec::new();
    let mut i: usize = 0;
    while i < windows.len()
        invariant
            i <= windows@.len(),
            found@.map_values(|w: crate::search::WindowEntry| window_view(w)) == hypr_windows(windows@.take(i as int)),
        decreases windows@.len() - i,
    {
        assert(windows@.take(i + 1).drop_last() =~= windows@.take(i as int));
        let ghost before = found@;
        match hypr_entry(&windows[i]) {
            Some(e) => {
                found.push(e);
                assert(found@.map_values(|w: crate::search::WindowEntry| window_view(w)) =~= before.map_values(
                    |w: crate::search::WindowEntry| window_view(w),
                ) + seq![window_view(e)]);
            },
            None => {
                assert(hypr_windows(windows@.take(i + 1)) =~= hypr_windows(windows@.take(i as int)));
            },
        }
        i = i + 1;
    }
    assert(windows@.take(windows@.len() as int) =~= windows@);
    rank_windows(found)
}

/// The windows Niri reports, as entries ranked by `window_rank`.
pub fn niri_window_entries(windows: &Vec<NiriWindowFields>) -> (r: Vec<crate::search::WindowEntry>)
    requires
        windows@.len() <= i64::MAX,
    ensures
        windows_ranked(niri_windows(windows@), r@),
{
    let mut found: Vec<crate::search::WindowEntry> = Vec::new();
    let mut i: usize = 0;
    while i < windows.len()
        invariant
            i <= windows@.len() <= i64::MAX,
            found@.map_values(|w: crate::search::WindowEntry| window_view(w)) == niri_windows(windows@.take(i as int)),
        decreases windows@.len() - i,
    {
        assert(windows@.take(i + 1).drop_last() =~= windows@.take(i as int));
        let ghost before = found@;
        match niri_entry(&windows[i], i) {
            Some(e) => {
                found.push(e);
                assert(found@.map_values(|w: crate::search::WindowEntry| window_view(w)) =~= before.map_values(
                    |w: crate::search::WindowEntry| window_view(w),
                ) + seq![window_view(e)]);
            },
            None => {
                assert(niri_windows(windows@.take(i + 1)) =~= niri_windows(windows@.take(i as int)));
            },
        }
        i = i + 1;
    }
    assert(windows@.take(windows@.len() as int) =~= windows@);
    rank_windows(found)
}

// ---------------------------------------------------------------------------
// SSH hosts
// ---------------------------------------------------------------------------

/// An alias of a `Host` line that names one host: no wildcard, no negation.
pub open spec fn alias_ok(a: Seq<char>) -> bool {
    !a.contains('*') && !a.contains('?') && !(a.len() > 0 && a[0] == '!')
}

pub open spec fn good_aliases(ws: Seq<Seq<char>>) -> Seq<Seq<char>>
    decreases ws.len(),
{
    if ws.len() == 0 {
        Seq::empty()
    } else {
        good_aliases(ws.drop_last()) + if alias_ok(ws.last()) { seq![ws.last()] } else { Seq::empty() }
    }
}

/// The hosts a line of `~/.ssh/config` names: the aliases after a `Host`
/// keyword (in any ASCII case); blank lines and comments name none.
pub open spec fn config_line_hosts(line: Seq<char>) -> Seq<Seq<char>> {
    let t = trim(line);
    let w = crate::monitor::words(t);
    if t.len() == 0 || t[0] == '#' || w.len() == 0 || lower_seq(w[0]) != "host"@ {
        Seq::empty()
    } else {
        good_aliases(w.skip(1))
    }
}

/// `s` without leading and trailing brackets (`trim_matches`).
pub open spec fn strip_brackets_start(s: Seq<char>) -> Seq<char>
    decreases s.len(),
{
    if s.len() > 0 && (s[0] == '[' || s[0] == ']') {
        strip_brackets_start(s.drop_first())
    } else {
        s
    }
}

pub open spec fn strip_brackets_end(s: Seq<char>) -> Seq<char>
    decreases s.len(),
{
    if s.len() > 0 && (s.last() == '[' || s.last() == ']') {
        strip_brackets_end(s.drop_last())
    } else {
        s
    }
}

/// A host of a `known_hosts` line, cleaned: brackets and a port removed,
/// white space trimmed.
pub open spec fn clean_host(h: Seq<char>) -> Seq<char> {
    let b = strip_brackets_end(strip_brackets_start(h));
    let before = match crate::text::first_index_of(b, ':') {
        Some(i) => b.take(i),
        None => b,
    };
    trim(before)
}

/// The pieces of `s` between the occurrences of `sep` (`str::split`).
pub open spec fn split_on(s: Seq<char>, sep: char) -> Seq<Seq<char>>
    decreases s.len(),
{
    match crate::text::first_index_of(s, sep) {
        None => seq![s],
        Some(i) => {
            proof {
                crate::text::lemma_first_index_of_range(s, sep);
            }
            seq![s.take(i)] + split_on(s.skip(i + 1), sep)
        },
    }
}

pub open spec fn clean_hosts(hs: Seq<Seq<char>>) -> Seq<Seq<char>>
    decreases hs.len(),
{
    if hs.len() == 0 {
        Seq::empty()
    } else {
        clean_hosts(hs.drop_last()) + if clean_host(hs.last()).len() > 0 {
            seq![clean_host(hs.last())]
        } else {
            Seq::empty()
        }
    }
}

/// The hosts a line of `known_hosts` names: the comma-separated names of
/// its first field, unless the line is blank, a comment or hashed.
pub open spec fn known_line_hosts(line: Seq<char>) -> Seq<Seq<char>> {
    let w = crate::monitor::words(line);
    if trim(line).len() == 0 || (line.len() > 0 && line[0] == '#') || w.len() == 0 || (w[0].len() > 0 && w[0][0] == '|') {
        Seq::empty()
    } else {
        clean_hosts(split_on(w[0], ','))
    }
}

/// The hosts of every line, in order.
pub open spec fn hosts_of_lines(lines: Seq<Seq<char>>, known: bool) -> Seq<Seq<char>>
    decreases lines.len(),
{
    if lines.len() == 0 {
        Seq::empty()
    } else {
        hosts_of_lines(lines.drop_last(), known) + if known {
            known_line_hosts(lines.last())
        } else {
            config_line_hosts(lines.last())
        }
    }
}

/// `v` with the views of `w` appended.
fn append_strings(v: &mut Vec<String>, w: &Vec<String>)
    ensures
        final(v)@.map_values(|s: String| s@) == old(v)@.map_values(|s: String| s@) + w@.map_values(|s: String| s@),
{
    let ghost first = v@.map_values(|s: String| s@);
    let ghost wv = w@.map_values(|s: String| s@);
    let mut k: usize = 0;
    while k < w.len()
        invariant
            k <= w@.len(),
            wv == w@.map_values(|s: String| s@),
            v@.map_values(|s: String| s@) == first + wv.take(k as int),
        decreases w@.len() - k,
    {
        let ghost before = v@;
        v.push(w[k].clone());
        assert(v@.map_values(|s: String| s@) =~= before.map_values(|s: String| s@).push(wv[k as int]));
        assert(first + wv.take(k + 1) =~= (first + wv.take(k as int)).push(wv[k as int]));
        k = k + 1;
    }
    assert(wv.take(w@.len() as int) =~= wv);
}

fn config_line_aliases(line: &Vec<char>) -> (r: Vec<String>)
    ensures
        r@.map_values(|s: String| s@) == config_line_hosts(line@),
{
    let t = trim_vec(line);
    let mut out: Vec<String> = Vec::new();
    if t.len() == 0 || t[0] == '#' {
        return out;
    }
    let w = crate::monitor::split_words(string_of(&t).as_str());
    let ghost wv = w@.map_values(|s: String| s@);
    proof {
        reveal_strlit("host");
    }
    if w.len() == 0 || !crate::text::vec_eq(&lower_vec(&chars_of(w[0].as_str())), &chars_of("host")) {
        assert(out@.map_values(|s: String| s@) =~= Seq::<Seq<char>>::empty());
        return out;
    }
    assert(wv[0] == w@[0]@);
    let mut k: usize = 1;
    while k < w.len()
        invariant
            1 <= k <= w@.len(),
            wv == w@.map_values(|s: String| s@),
            out@.map_values(|s: String| s@) == good_aliases(wv.skip(1).take(k - 1)),
        decreases w@.len() - k,
    {
        let a = chars_of(w[k].as_str());
        assert(wv.skip(1).take(k as int).drop_last() =~= wv.skip(1).take(k - 1));
        assert(wv.skip(1).take(k as int).last() == a@);
        let has_star = crate::text::first_index(&a, '*').is_some();
        let has_q = crate::text::first_index(&a, '?').is_some();
        let negated = a.len() > 0 && a[0] == '!';
        proof {
            crate::text::lemma_first_index_of_contains(a@, '*');
            crate::text::lemma_first_index_of_contains(a@, '?');
        }
        if !has_star && !has_q && !negated {
            let ghost before = out@;
            out.push(w[k].clone());
            assert(out@.map_values(|s: String| s@) =~= before.map_values(|s: String| s@) + seq![a@]);
        }
        k = k + 1;
    }
    assert(wv.skip(1).take(w@.len() - 1) =~= wv.skip(1));
    out
}

fn strip_brackets_of(s: &Vec<char>) -> (r: Vec<char>)
    ensures
        r@ == strip_brackets_end(strip_brackets_start(s@)),
{
    let mut lo: usize = 0;
    assert(s@.skip(0) =~= s@);
    while lo < s.len() && (s[lo] == '[' || s[lo] == ']')
        invariant
            lo <= s@.len(),
            strip_brackets_start(s@.skip(lo as int)) == strip_brackets_start(s@),
        decreases s@.len() - lo,
    {
        assert(s@.skip(lo as int).drop_first() =~= s@.skip(lo + 1));
        lo = lo + 1;
    }
    let mut hi: usize = s.len();
    assert(s@.skip(lo as int) =~= s@.subrange(lo as int, hi as int));
    while hi > lo && (s[hi - 1] == '[' || s[hi - 1] == ']')
        invariant
            lo <= hi <= s@.len(),
            strip_brackets_end(s@.subrange(lo as int, hi as int)) == strip_brackets_end(strip_brackets_start(s@)),
        decreases hi - lo,
    {
        assert(s@.subrange(lo as int, hi as int).drop_last() =~= s@.subrange(lo as int, hi - 1));
        hi = hi - 1;
    }
    slice_vec(s, lo, hi)
}

fn clean_host_of(h: &Vec<char>) -> (r: Vec<char>)
    ensures
        r@ == clean_host(h@),
{
    let b = strip_brackets_of(h);
    let before = match crate::text::first_index(&b, ':') {
        Some(i) => {
            assert(b@.subrange(0, i as int) =~= b@.take(i as int));
            slice_vec(&b, 0, i)
        },
        None => b,
    };
    trim_vec(&before)
}

fn split_on_vec(s: &Vec<char>, sep: char) -> (r: Vec<Vec<char>>)
    ensures
        r@.map_values(|p: Vec<char>| p@) == split_on(s@, sep),
{
    let mut out: Vec<Vec<char>> = Vec::new();
    let mut start: usize = 0;
    let ghost mut done: Seq<Seq<char>> = Seq::empty();
    assert(s@.skip(0) =~= s@);
    loop
        invariant
            start <= s@.len(),
            out@.map_values(|p: Vec<char>| p@) == done,
            split_on(s@, sep) == done + split_on(s@.skip(start as int), sep),
        decreases s@.len() - start,
    {
        let ghost rest = s@.skip(start as int);
        match crate::text::index_of_in(s, start, s.len(), sep) {
            Some(i) => {
                proof {
                    crate::text::lemma_first_index_of(rest, sep, i - start);
                    assert(rest.take(i - start) =~= s@.subrange(start as int, i as int));
                    assert(rest.skip(i - start + 1) =~= s@.skip(i + 1));
                }
                let piece = slice_vec(s, start, i);
                let ghost before = out@;
                out.push(piece);
                proof {
                    assert(out@.map_values(|p: Vec<char>| p@) =~= before.map_values(|p: Vec<char>| p@).push(piece@));
                    assert(done.push(piece@) + split_on(s@.skip(i + 1), sep) =~= done + split_on(rest, sep));
                    done = done.push(piece@);
                }
                start = i + 1;
            },
            None => {
                proof {
                    crate::text::lemma_first_index_of(rest, sep, rest.len() as int);
                    assert(rest =~= s@.subrange(start as int, s@.len() as int));
                }
                let piece = slice_vec(s, start, s.len());
                let ghost before = out@;
                out.push(piece);
                assert(out@.map_values(|p: Vec<char>| p@) =~= before.map_values(|p: Vec<char>| p@).push(piece@));
                assert(done.push(piece@) =~= done + split_on(rest, sep));
                return out;
            },
        }
    }
}

fn known_line_names(line: &Vec<char>) -> (r: Vec<String>)
    ensures
        r@.map_values(|s: String| s@) == known_line_hosts(line@),
{
    let mut out: Vec<String> = Vec::new();
    let t = trim_vec(line);
    if t.len() == 0 || (line.len() > 0 && line[0] == '#') {
        assert(out@.map_values(|s: String| s@) =~= Seq::<Seq<char>>::empty());
        return out;
    }
    let w = crate::monitor::split_words(string_of(line).as_str());
    let ghost wv = w@.map_values(|s: String| s@);
    if w.len() == 0 {
        assert(out@.map_values(|s: String| s@) =~= Seq::<Seq<char>>::empty());
        return out;
    }
    let field = chars_of(w[0].as_str());
    assert(wv[0] == field@);
    if field.len() > 0 && field[0] == '|' {
        assert(out@.map_values(|s: String| s@) =~= Seq::<Seq<char>>::empty());
        return out;
    }
    let parts = split_on_vec(&field, ',');
    let ghost pv = parts@.map_values(|p: Vec<char>| p@);
    let mut k: usize = 0;
    while k < parts.len()
        invariant
            k <= parts@.len(),
            pv == parts@.map_values(|p: Vec<char>| p@),
            out@.map_values(|s: String| s@) == clean_hosts(pv.take(k as int)),
        decreases parts@.len() - k,
    {
        assert(pv.take(k + 1).drop_last() =~= pv.take(k as int));
        assert(pv.take(k + 1).last() == parts@[k as int]@);
        let c = clean_host_of(&parts[k]);
        if c.len() > 0 {
            let ghost before = out@;
            out.push(string_of(&c));
            assert(out@.map_values(|s: String| s@) =~= before.map_values(|s: String| s@) + seq![c@]);
        }
        k = k + 1;
    }
    assert(pv.take(parts@.len() as int) =~= pv);
    out
}

/// The hosts a file names, line by line: `known` for a `known_hosts` file,
/// else an SSH client configuration.
pub fn hosts_in_file(contents: &str, known: bool) -> (r: Vec<String>)
    ensures
        r@.map_values(|s: String| s@) == hosts_of_lines(crate::password::lines_of(contents@), known),
{
    let lines = crate::password::split_lines(&chars_of(contents));
    let ghost lv = crate::password::lines_of(contents@);
    let mut out: Vec<String> = Vec::new();
    let mut k: usize = 0;
    while k < lines.len()
        invariant
            k <= lines@.len(),
            lines@.len() == lv.len(),
            forall|i: int| 0 <= i < lines@.len() ==> #[trigger] lines@[i]@ == lv[i],
            out@.map_values(|s: String| s@) == hosts_of_lines(lv.take(k as int), known),
        decreases lines@.len() - k,
    {
        assert(lv.take(k + 1).drop_last() =~= lv.take(k as int));
        assert(lv.take(k + 1).last() == lines@[k as int]@);
        let names = if known {
            known_line_names(&lines[k])
        } else {
            config_line_aliases(&lines[k])
        };
        append_strings(&mut out, &names);
        k = k + 1;
    }
    assert(lv.take(lines@.len() as int) =~= lv);
    out
}

/// `r` lists the distinct texts of `v` in increasing order (a `BTreeSet`).
pub open spec fn sorted_set_of(v: Seq<Seq<char>>, r: Seq<Seq<char>>) -> bool {
    &&& forall|i: int, j: int| 0 <= i < j < r.len() ==> crate::text::seq_lt(#[trigger] r[i], #[trigger] r[j])
    &&& forall|x: Seq<char>| #[trigger] r.contains(x) <==> v.contains(x)
}

/// The distinct strings of `v` in increasing order.
pub fn sorted_unique(v: &Vec<String>) -> (r: Vec<String>)
    ensures
        sorted_set_of(v@.map_values(|s: String| s@), r@.map_values(|s: String| s@)),
{
    let ghost vv = v@.map_values(|s: String| s@);
    let mut out: Vec<String> = Vec::new();
    let mut i: usize = 0;
    while i < v.len()
        invariant
            i <= v@.len(),
            vv == v@.map_values(|s: String| s@),
            sorted_set_of(vv.take(i as int), out@.map_values(|s: String| s@)),
        decreases v@.len() - i,
    {
        let ghost ov = out@.map_values(|s: String| s@);
        let x = chars_of(v[i].as_str());
        assert(vv[i as int] == x@);
        let mut p: usize = 0;
        let mut found = false;
        let mut stop = false;
        while p < out.len() && !stop
            invariant
                p <= out@.len(),
                ov == out@.map_values(|s: String| s@),
                forall|q: int| 0 <= q < p ==> crate::text::seq_lt(#[trigger] ov[q], x@),
                found ==> stop && p < ov.len() && ov[p as int] == x@,
                stop && !found ==> p < ov.len() && crate::text::seq_lt(x@, ov[p as int]),
            decreases out@.len() - p + (if stop { 0int } else { 1int }),
        {
            let c = crate::text::compare_vec(&chars_of(out[p].as_str()), &x);
            assert(ov[p as int] == out@[p as int]@);
            if c == 0 {
                found = true;
                stop = true;
            } else if c > 0 {
                stop = true;
            } else {
                p = p + 1;
            }
        }
        let ghost t0 = vv.take(i as int);
        let ghost t1 = vv.take(i + 1);
        proof {
            assert(t1 =~= t0.push(x@));
        }
        if found {
            proof {
                assert(ov[p as int] == x@);
                assert forall|y: Seq<char>| #[trigger] ov.contains(y) <==> t1.contains(y) by {
                    if y == x@ {
                        assert(ov.contains(y));
                        assert(t1[i as int] == y);
                    }
                    if t1.contains(y) && y != x@ {
                        let k = choose|k: int| 0 <= k < t1.len() && #[trigger] t1[k] == y;
                        assert(t0[k] == y);
                        assert(t0.contains(y));
                    }
                    if t0.contains(y) {
                        let k = choose|k: int| 0 <= k < t0.len() && #[trigger] t0[k] == y;
                        assert(t1[k] == y);
                    }
                }
            }
        } else {
            proof {
                if p < ov.len() {
                    crate::text::lemma_seq_lt_total(ov[p as int], x@);
                }
            }
            out.insert(p, string_of(&x));
            proof {
                let nv = out@.map_values(|s: String| s@);
                assert(nv =~= ov.take(p as int).push(x@) + ov.skip(p as int));
                assert forall|a: int, b: int| 0 <= a < b < nv.len() implies crate::text::seq_lt(#[trigger] nv[a], #[trigger] nv[b]) by {
                    if b < p {
                        assert(nv[a] == ov[a] && nv[b] == ov[b]);
                    } else if b == p {
                        assert(nv[a] == ov[a]);
                    } else if a == p {
                        assert(nv[b] == ov[b - 1]);
                        if b - 1 > p {
                            crate::text::lemma_seq_lt_trans(x@, ov[p as int], ov[b - 1]);
                        }
                    } else if a < p {
                        assert(nv[a] == ov[a] && nv[b] == ov[b - 1]);
                        if b - 1 > p {
                            crate::text::lemma_seq_lt_trans(x@, ov[p as int], ov[b - 1]);
                        }
                        crate::text::lemma_seq_lt_trans(ov[a], x@, ov[b - 1]);
                    } else {
                        assert(nv[a] == ov[a - 1] && nv[b] == ov[b - 1]);
                    }
                }
                assert forall|y: Seq<char>| #[trigger] nv.contains(y) <==> t1.contains(y) by {
                    if nv.contains(y) {
                        let k = choose|k: int| 0 <= k < nv.len() && #[trigger] nv[k] == y;
                        if y != x@ {
                            if k < p {
                                assert(ov[k] == y);
                            } else {
                                assert(ov[k - 1] == y);
                            }
                            assert(ov.contains(y));
                            assert(t0.contains(y));
                            let m = choose|m: int| 0 <= m < t0.len() && #[trigger] t0[m] == y;
                            assert(t1[m] == y);
                        } else {
                            assert(t1[i as int] == y);
                        }
                    }
                    if t1.contains(y) {
                        let m = choose|m: int| 0 <= m < t1.len() && #[trigger] t1[m] == y;
                        if m == i {
                            assert(nv[p as int] == y);
                        } else {
                            assert(t0[m] == y);
                            assert(t0.contains(y));
                            assert(ov.contains(y));
                            let k = choose|k: int| 0 <= k < ov.len() && #[trigger] ov[k] == y;
                            if k < p {
                                assert(nv[k] == y);
                            } else {
                                assert(nv[k + 1] == y);
                            }
                        }
                    }
                }
            }
        }
        i = i + 1;
    }
    assert(vv.take(v@.len() as int) =~= vv);
    out
}

/// The SSH hosts known from the client configuration and the two
/// `known_hosts` files (each where it could be read), once each, sorted.
pub fn ssh_hosts(config: Option<&str>, known_hosts: Option<&str>, known_hosts_old: Option<&str>) -> (r: Vec<String>)
    ensures
        sorted_set_of(
            (match config {
                Some(c) => hosts_of_lines(crate::password::lines_of(c@), false),
                None => Seq::empty(),
            }) + (match known_hosts {
                Some(k) => hosts_of_lines(crate::password::lines_of(k@), true),
                None => Seq::empty(),
            }) + (match known_hosts_old {
                Some(k) => hosts_of_lines(crate::password::lines_of(k@), true),
                None => Seq::empty(),
            }),
            r@.map_values(|s: String| s@),
        ),
{
    let mut all: Vec<String> = Vec::new();
    if let Some(c) = config {
        let h = hosts_in_file(c, false);
        append_strings(&mut all, &h);
    }
    let ghost a1 = all@.map_values(|s: String| s@);
    if let Some(k) = known_hosts {
        let h = hosts_in_file(k, true);
        append_strings(&mut all, &h);
    }
    let ghost a2 = all@.map_values(|s: String| s@);
    if let Some(k) = known_hosts_old {
        let h = hosts_in_file(k, true);
        append_strings(&mut all, &h);
    }
    proof {
        assert(a1 =~= Seq::<Seq<char>>::empty() + a1);
    }
    sorted_unique(&all)
}

// ---------------------------------------------------------------------------
// Ordered listings
// ---------------------------------------------------------------------------

/// `r` is `found` reordered by `keys` (one key per item), items with equal
/// keys in their original order.
pub open spec fn ordered_as<V>(found: Seq<V>, keys: Seq<crate::sort::KeySpec>, r: Seq<V>) -> bool {
    exists|order: Seq<int>|
        #![trigger crate::sort::is_permutation(order, found.len() as int)]
        crate::sort::is_permutation(order, found.len() as int) && crate::sort::is_sorted_by(keys, order)
            && crate::sort::is_stable(keys, order) && r == order.map_values(|i: int| found[i])
}

/// A password-store entry as plain values: name and matched text.
pub open spec fn pass_view(e: crate::search::PassEntry) -> (Seq<char>, Seq<char>) {
    (e.name@, e.search_blob@)
}

pub open spec fn name_key(name: Seq<char>) -> crate::sort::KeySpec {
    (Seq::empty(), seq![name])
}

/// The entries for the names found in a password store, by name.
pub fn pass_entries(names: &Vec<String>) -> (r: Vec<crate::search::PassEntry>)
    ensures
        ordered_as(
            names@.map_values(|n: String| (n@, lower_seq(n@))),
            names@.map_values(|n: String| name_key(n@)),
            r@.map_values(|e: crate::search::PassEntry| pass_view(e)),
        ),
{
    let ghost found = names@.map_values(|n: String| (n@, lower_seq(n@)));
    let ghost ks = names@.map_values(|n: String| name_key(n@));
    let mut keys: Vec<crate::sort::SortKey> = Vec::new();
    let mut i: usize = 0;
    while i < names.len()
        invariant
            i <= names@.len(),
            keys@.len() == i,
            ks == names@.map_values(|n: String| name_key(n@)),
            forall|j: int| 0 <= j < i ==> (#[trigger] keys@[j]).view() == ks[j],
        decreases names@.len() - i,
    {
        let mut strs: Vec<Vec<char>> = Vec::new();
        strs.push(chars_of(names[i].as_str()));
        let k = crate::sort::SortKey { nums: Vec::new(), strs };
        assert(k.view().0 =~= ks[i as int].0);
        assert(k.view().1 =~= ks[i as int].1);
        keys.push(k);
        i = i + 1;
    }
    assert(keys@.map_values(|k: crate::sort::SortKey| k.view()) =~= ks);
    let order = crate::sort::sort_indices(&keys);
    let ghost ov = order@.map_values(|x: usize| x as int);
    let mut out: Vec<crate::search::PassEntry> = Vec::new();
    let mut m: usize = 0;
    while m < order.len()
        invariant
            m <= order@.len(),
            ov == order@.map_values(|x: usize| x as int),
            crate::sort::is_permutation(ov, names@.len() as int),
            found == names@.map_values(|n: String| (n@, lower_seq(n@))),
            out@.map_values(|e: crate::search::PassEntry| pass_view(e)) == ov.take(m as int).map_values(|i: int| found[i]),
        decreases order@.len() - m,
    {
        let idx = order[m];
        assert(ov[m as int] == idx as int);
        let n = &names[idx];
        let e = crate::search::PassEntry { name: n.clone(), search_blob: string_of(&lower_vec(&chars_of(n.as_str()))) };
        let ghost before = out@;
        out.push(e);
        assert(out@.map_values(|e: crate::search::PassEntry| pass_view(e)) =~= before.map_values(
            |e: crate::search::PassEntry| pass_view(e),
        ).push(pass_view(e)));
        assert(ov.take(m + 1).map_values(|i: int| found[i]) =~= ov.take(m as int).map_values(|i: int| found[i]).push(found[ov[m as int]]));
        m = m + 1;
    }
    assert(ov.take(order@.len() as int) =~= ov);
    assert(crate::sort::is_permutation(ov, found.len() as int));
    out
}

/// What the desktop database tells of an application.
pub struct AppInfoFields {
    pub desktop_id: String,
    pub name: String,
    pub description: Option<String>,
    pub executable: String,
    pub icon_name: Option<String>,
}

/// An application as plain values: id, name, description, executable,
/// icon, matched text.
pub type AppView = (Seq<char>, Seq<char>, Seq<char>, Seq<char>, Seq<char>, Seq<char>);

pub open spec fn app_view(a: crate::search::AppEntry) -> AppView {
    (a.desktop_id@, a.name@, a.description@, a.executable@, a.icon_name@, a.search_blob@)
}

/// An application's entry: no description reads as empty, no icon as the
/// generic executable icon, and it is matched by name, description and
/// executable.
pub open spec fn app_spec(a: AppInfoFields) -> AppView {
    let d = match a.description {
        Some(t) => t@,
        None => Seq::empty(),
    };
    let icon = match a.icon_name {
        Some(t) => t@,
        None => "application-x-executable-symbolic"@,
    };
    (a.desktop_id@, a.name@, d, a.executable@, icon, lower_seq(a.name@ + " "@ + d + " "@ + a.executable@))
}

/// The entries of the listed applications, by name.
pub fn app_entries(apps: &Vec<AppInfoFields>) -> (r: Vec<crate::search::AppEntry>)
    ensures
        ordered_as(
            apps@.map_values(|a: AppInfoFields| app_spec(a)),
            apps@.map_values(|a: AppInfoFields| name_key(a.name@)),
            r@.map_values(|e: crate::search::AppEntry| app_view(e)),
        ),
{
    let ghost found = apps@.map_values(|a: AppInfoFields| app_spec(a));
    let ghost ks = apps@.map_values(|a: AppInfoFields| name_key(a.name@));
    let mut keys: Vec<crate::sort::SortKey> = Vec::new();
    let mut i: usize = 0;
    while i < apps.len()
        invariant
            i <= apps@.len(),
            keys@.len() == i,
            ks == apps@.map_values(|a: AppInfoFields| name_key(a.name@)),
            forall|j: int| 0 <= j < i ==> (#[trigger] keys@[j]).view() == ks[j],
        decreases apps@.len() - i,
    {
        let mut strs: Vec<Vec<char>> = Vec::new();
        strs.push(chars_of(apps[i].name.as_str()));
        let k = crate::sort::SortKey { nums: Vec::new(), strs };
        assert(k.view().0 =~= ks[i as int].0);
        assert(k.view().1 =~= ks[i as int].1);
        keys.push(k);
        i = i + 1;
    }
    assert(keys@.map_values(|k: crate::sort::SortKey| k.view()) =~= ks);
    let order = crate::sort::sort_indices(&keys);
    let ghost ov = order@.map_values(|x: usize| x as int);
    let mut out: Vec<crate::search::AppEntry> = Vec::new();
    let mut m: usize = 0;
    while m < order.len()
        invariant
            m <= order@.len(),
            ov == order@.map_values(|x: usize| x as int),
            crate::sort::is_permutation(ov, apps@.len() as int),
            found == apps@.map_values(|a: AppInfoFields| app_spec(a)),
            out@.map_values(|e: crate::search::AppEntry| app_view(e)) == ov.take(m as int).map_values(|i: int| found[i]),
        decreases order@.len() - m,
    {
        let idx = order[m];
        assert(ov[m as int] == idx as int);
        let a = &apps[idx];
        let description = match &a.description {
            Some(t) => t.clone(),
            None => String::new(),
        };
        let icon_name = match &a.icon_name {
            Some(t) => t.clone(),
            None => owned("application-x-executable-symbolic"),
        };
        let mut text = a.name.clone();
        push_str(&mut text, " ");
        push_str(&mut text, description.as_str());
        push_str(&mut text, " ");
        push_str(&mut text, a.executable.as_str());
        let e = crate::search::AppEntry {
            desktop_id: a.desktop_id.clone(),
            name: a.name.clone(),
            search_blob: string_of(&lower_vec(&chars_of(text.as_str()))),
            description,
            executable: a.executable.clone(),
            icon_name,
        };
        let ghost before = out@;
        out.push(e);
        assert(out@.map_values(|e: crate::search::AppEntry| app_view(e)) =~= before.map_values(
            |e: crate::search::AppEntry| app_view(e),
        ).push(app_view(e)));
        assert(ov.take(m + 1).map_values(|i: int| found[i]) =~= ov.take(m as int).map_values(|i: int| found[i]).push(found[ov[m as int]]));
        m = m + 1;
    }
    assert(ov.take(order@.len() as int) =~= ov);
    assert(crate::sort::is_permutation(ov, found.len() as int));
    out
}

/// `bs` with every bookmark whose URL occurred earlier removed.
pub open spec fn first_per_url(bs: Seq<(Seq<char>, Seq<char>, Seq<char>)>) -> Seq<(Seq<char>, Seq<char>, Seq<char>)>
    decreases bs.len(),
{
    if bs.len() == 0 {
        Seq::empty()
    } else {
        let d = first_per_url(bs.drop_last());
        if exists|j: int| 0 <= j < bs.len() - 1 && #[trigger] bs[j].1 == bs.last().1 {
            d
        } else {
            d.push(bs.last())
        }
    }
}

/// Bookmarks sort by title in any ASCII case, then URL.
pub open spec fn bookmark_key(b: (Seq<char>, Seq<char>, Seq<char>)) -> crate::sort::KeySpec {
    (Seq::empty(), seq![lower_seq(b.0), b.1])
}

/// One of the first `n` bookmarks of `s` has URL `u`.
pub open spec fn url_among(s: Seq<(Seq<char>, Seq<char>, Seq<char>)>, n: int, u: Seq<char>) -> bool {
    exists|j: int| 0 <= j < n && #[trigger] s[j].1 == u
}

/// The bookmarks of every browser, each URL once (its first bookmark),
/// ordered by title in any ASCII case, then URL.
pub fn merge_bookmarks(all: &Vec<BookmarkEntry>) -> (r: Vec<BookmarkEntry>)
    ensures
        ({
            let kept = first_per_url(all@.map_values(|b: BookmarkEntry| bookmark_view(b)));
            ordered_as(kept, kept.map_values(|b: (Seq<char>, Seq<char>, Seq<char>)| bookmark_key(b)), r@.map_values(|b: BookmarkEntry| bookmark_view(b)))
        }),
{
    let ghost av = all@.map_values(|b: BookmarkEntry| bookmark_view(b));
    let mut kept: Vec<BookmarkEntry> = Vec::new();
    let mut i: usize = 0;
    while i < all.len()
        invariant
            i <= all@.len(),
            av == all@.map_values(|b: BookmarkEntry| bookmark_view(b)),
            kept@.map_values(|b: BookmarkEntry| bookmark_view(b)) == first_per_url(av.take(i as int)),
            forall|u: Seq<char>| #[trigger] url_among(av, i as int, u) <==> url_among(
                kept@.map_values(|b: BookmarkEntry| bookmark_view(b)),
                kept@.len() as int,
                u,
            ),
        decreases all@.len() - i,
    {
        let b = &all[i];
        let ghost kv = kept@.map_values(|b: BookmarkEntry| bookmark_view(b));
        let mut seen = false;
        let mut q: usize = 0;
        while q < kept.len()
            invariant
                q <= kept@.len(),
                kv == kept@.map_values(|b: BookmarkEntry| bookmark_view(b)),
                seen == url_among(kv, q as int, b.url@),
            decreases kept@.len() - q,
        {
            assert(kv[q as int].1 == kept@[q as int].url@);
            if crate::text::str_eq(kept[q].url.as_str(), b.url.as_str()) {
                assert(url_among(kv, q + 1, b.url@));
                seen = true;
            } else {
                assert(url_among(kv, q + 1, b.url@) == url_among(kv, q as int, b.url@)) by {
                    if url_among(kv, q + 1, b.url@) {
                        let j = choose|j: int| 0 <= j < q + 1 && #[trigger] kv[j].1 == b.url@;
                        assert(j < q);
                    }
                }
            }
            q = q + 1;
        }
        let ghost t1 = av.take(i + 1);
        proof {
            assert(t1.drop_last() =~= av.take(i as int));
            assert(t1.last() == bookmark_view(*b));
            assert(seen == url_among(av, i as int, b.url@));
            assert((exists|j: int| 0 <= j < t1.len() - 1 && #[trigger] t1[j].1 == t1.last().1) == url_among(av, i as int, b.url@)) by {
                if url_among(av, i as int, b.url@) {
                    let j = choose|j: int| 0 <= j < i && #[trigger] av[j].1 == b.url@;
                    assert(t1[j] == av[j]);
                }
                if exists|j: int| 0 <= j < t1.len() - 1 && #[trigger] t1[j].1 == t1.last().1 {
                    let j = choose|j: int| 0 <= j < t1.len() - 1 && #[trigger] t1[j].1 == t1.last().1;
                    assert(t1[j] == av[j]);
                }
            }
        }
        if !seen {
            let copy = BookmarkEntry { title: b.title.clone(), url: b.url.clone(), search_blob: b.search_blob.clone() };
            kept.push(copy);
            proof {
                let nk = kept@.map_values(|b: BookmarkEntry| bookmark_view(b));
                assert(nk =~= kv.push(bookmark_view(copy)));
                assert forall|u: Seq<char>| #[trigger] url_among(av, i + 1, u) <==> url_among(nk, nk.len() as int, u) by {
                    if url_among(av, i + 1, u) {
                        let j = choose|j: int| 0 <= j < i + 1 && #[trigger] av[j].1 == u;
                        if j < i {
                            assert(url_among(av, i as int, u));
                            assert(url_among(kv, kv.len() as int, u));
                            let k = choose|k: int| 0 <= k < kv.len() && #[trigger] kv[k].1 == u;
                            assert(nk[k] == kv[k]);
                        } else {
                            assert(nk[kv.len() as int].1 == u);
                        }
                    }
                    if url_among(nk, nk.len() as int, u) {
                        let k = choose|k: int| 0 <= k < nk.len() && #[trigger] nk[k].1 == u;
                        if k < kv.len() {
                            assert(kv[k] == nk[k]);
                            assert(url_among(kv, kv.len() as int, u));
                            assert(url_among(av, i as int, u));
                            let j = choose|j: int| 0 <= j < i && #[trigger] av[j].1 == u;
                            assert(0 <= j < i + 1);
                        } else {
                            assert(av[i as int].1 == u);
                        }
                    }
                }
            }
        } else {
            proof {
                assert forall|u: Seq<char>| #[trigger] url_among(av, i + 1, u) <==> url_among(kv, kv.len() as int, u) by {
                    if url_among(av, i + 1, u) {
                        let j = choose|j: int| 0 <= j < i + 1 && #[trigger] av[j].1 == u;
                        if j == i {
                            assert(url_among(av, i as int, u));
                        } else {
                            assert(url_among(av, i as int, u));
                        }
                    }
                    if url_among(kv, kv.len() as int, u) {
                        assert(url_among(av, i as int, u));
                        let j = choose|j: int| 0 <= j < i && #[trigger] av[j].1 == u;
                        assert(0 <= j < i + 1);
                    }
                }
            }
        }
        i = i + 1;
    }
    assert(av.take(all@.len() as int) =~= av);
    let ghost kept_v = kept@.map_values(|b: BookmarkEntry| bookmark_view(b));
    let ghost ks = kept_v.map_values(|b: (Seq<char>, Seq<char>, Seq<char>)| bookmark_key(b));
    let mut keys: Vec<crate::sort::SortKey> = Vec::new();
    let mut k: usize = 0;
    while k < kept.len()
        invariant
            k <= kept@.len(),
            keys@.len() == k,
            kept_v == kept@.map_values(|b: BookmarkEntry| bookmark_view(b)),
            ks == kept_v.map_values(|b: (Seq<char>, Seq<char>, Seq<char>)| bookmark_key(b)),
            forall|j: int| 0 <= j < k ==> (#[trigger] keys@[j]).view() == ks[j],
        decreases kept@.len() - k,
    {
        let mut strs: Vec<Vec<char>> = Vec::new();
        strs.push(lower_vec(&chars_of(kept[k].title.as_str())));
        strs.push(chars_of(kept[k].url.as_str()));
        let key = crate::sort::SortKey { nums: Vec::new(), strs };
        assert(key.view().0 =~= ks[k as int].0);
        assert(key.view().1 =~= ks[k as int].1);
        keys.push(key);
        k = k + 1;
    }
    assert(keys@.map_values(|k: crate::sort::SortKey| k.view()) =~= ks);
    let order = crate::sort::sort_indices(&keys);
    let ghost ov = order@.map_values(|x: usize| x as int);
    let mut out: Vec<BookmarkEntry> = Vec::new();
    let mut m: usize = 0;
    while m < order.len()
        invariant
            m <= order@.len(),
            ov == order@.map_values(|x: usize| x as int),
            crate::sort::is_permutation(ov, kept@.len() as int),
            kept_v == kept@.map_values(|b: BookmarkEntry| bookmark_view(b)),
            out@.map_values(|b: BookmarkEntry| bookmark_view(b)) == ov.take(m as int).map_values(|i: int| kept_v[i]),
        decreases order@.len() - m,
    {
        let idx = order[m];
        assert(ov[m as int] == idx as int);
        let b = &kept[idx];
        let copy = BookmarkEntry { title: b.title.clone(), url: b.url.clone(), search_blob: b.search_blob.clone() };
        let ghost before = out@;
        out.push(copy);
        assert(out@.map_values(|b: BookmarkEntry| bookmark_view(b)) =~= before.map_values(|b: BookmarkEntry| bookmark_view(b)).push(
            bookmark_view(copy),
        ));
        assert(ov.take(m + 1).map_values(|i: int| kept_v[i]) =~= ov.take(m as int).map_values(|i: int| kept_v[i]).push(kept_v[ov[m as int]]));
        m = m + 1;
    }
    assert(ov.take(order@.len() as int) =~= ov);
    out
}

// ---------------------------------------------------------------------------
// The focused window, to give focus back to
// ---------------------------------------------------------------------------

/// Hyprland's active window, from the `address` and `xwayland` fields of
/// `hyprctl activewindow -j`: none when the address is missing, empty or the
/// null address `0x0`.
pub open spec fn hypr_focus_spec(address: Option<Seq<char>>, xwayland: Option<bool>) -> Option<(Seq<char>, bool)> {
    match address {
        Some(a) => if a.len() > 0 && a != "0x0"@ {
            Some((a, match xwayland { Some(x) => x, None => false }))
        } else {
            None
        },
        None => None,
    }
}

pub open spec fn focus_target_view(t: crate::model::WindowFocusTarget) -> (Seq<char>, u64, bool, u8) {
    match t {
        crate::model::WindowFocusTarget::Hyprland { address, xwayland } => (address@, 0, xwayland, 0),
        crate::model::WindowFocusTarget::Niri { id } => (Seq::empty(), id, false, 1),
        crate::model::WindowFocusTarget::X11 { window_id } => (window_id@, 0, false, 2),
    }
}

/// The Hyprland window to refocus later, read from the active window's fields.
pub fn hypr_focus_target(address: Option<&str>, xwayland: Option<bool>) -> (r: Option<crate::model::WindowFocusTarget>)
    ensures
        match hypr_focus_spec(opt_str_view(address), xwayland) {
            Some((a, x)) => r is Some && focus_target_view(r->0) == (a, 0u64, x, 0u8),
            None => r is None,
        },
{
    match address {
        None => None,
        Some(a) => {
            if chars_of(a).len() == 0 || crate::text::str_eq(a, "0x0") {
                None
            } else {
                let x = match xwayland {
                    Some(b) => b,
                    None => false,
                };
                Some(crate::model::WindowFocusTarget::Hyprland { address: owned(a), xwayland: x })
            }
        },
    }
}

pub open spec fn opt_str_view(o: Option<&str>) -> Option<Seq<char>> {
    match o {
        Some(s) => Some(s@),
        None => None,
    }
}

/// The X11 window to refocus later, from the output of
/// `xdotool getactivewindow`: its trimmed text, when that is not empty.
pub fn x11_focus_target(stdout: &str) -> (r: Option<crate::model::WindowFocusTarget>)
    ensures
        match r {
            Some(t) => trim(stdout@).len() > 0 && focus_target_view(t) == (trim(stdout@), 0u64, false, 2u8),
            None => trim(stdout@).len() == 0,
        },
{
    let v = chars_of(stdout);
    let t = trim_vec(&v);
    if t.len() == 0 {
        None
    } else {
        Some(crate::model::WindowFocusTarget::X11 { window_id: string_of(&t) })
    }
}


// ---------------------------------------------------------------------------
// Window lists and bookmark files as JSON
// ---------------------------------------------------------------------------

/// `f` holds what the Hyprland client `w` reports: text fields trimmed and
/// never blank, the workspace's name and id, focus history and flags.
pub open spec fn hypr_fields_from(f: HyprWindowFields, w: JsonValue) -> bool {
    let ws = field(w, "workspace"@);
    &&& opt_view(f.address) == text_field(w, "address"@)
    &&& opt_view(f.title) == text_field(w, "title"@)
    &&& opt_view(f.initial_title) == text_field(w, "initialTitle"@)
    &&& opt_view(f.class) == text_field(w, "class"@)
    &&& opt_view(f.initial_class) == text_field(w, "initialClass"@)
    &&& opt_view(f.workspace_name) == (match ws { Some(x) => text_field(x, "name"@), None => None })
    &&& f.workspace_id == (match ws { Some(x) => int_field(x, "id"@), None => None })
    &&& f.focus_history_id == int_field(w, "focusHistoryID"@)
    &&& f.mapped == bool_field(w, "mapped"@)
    &&& f.hidden == bool_field(w, "hidden"@)
    &&& f.xwayland == bool_field(w, "xwayland"@)
}

/// `f` holds what the Niri window `w` reports.
pub open spec fn niri_fields_from(f: NiriWindowFields, w: JsonValue) -> bool {
    &&& f.id == unsigned_field(w, "id"@)
    &&& opt_view(f.title) == text_field(w, "title"@)
    &&& opt_view(f.app_id) == text_field(w, "app_id"@)
    &&& opt_view(f.app_id_or_class) == text_field(w, "app_id_or_class"@)
    &&& opt_view(f.workspace_name) == text_field(w, "workspace_name"@)
    &&& f.workspace_id == int_field(w, "workspace_id"@)
    &&& f.focus_order == int_field(w, "focus_order"@)
    &&& f.last_focus_time == int_field(w, "last_focus_time"@)
}

fn hypr_fields_of(w: &JsonValue) -> (f: HyprWindowFields)
    ensures
        hypr_fields_from(f, *w),
{
    let (workspace_name, workspace_id) = match field_of(w, "workspace") {
        Some(x) => (text_field_of(x, "name"), int_field_of(x, "id")),
        None => (None, None),
    };
    HyprWindowFields {
        address: text_field_of(w, "address"),
        title: text_field_of(w, "title"),
        initial_title: text_field_of(w, "initialTitle"),
        class: text_field_of(w, "class"),
        initial_class: text_field_of(w, "initialClass"),
        workspace_name,
        workspace_id,
        focus_history_id: int_field_of(w, "focusHistoryID"),
        mapped: bool_field_of(w, "mapped"),
        hidden: bool_field_of(w, "hidden"),
        xwayland: bool_field_of(w, "xwayland"),
    }
}

fn niri_fields_of(w: &JsonValue) -> (f: NiriWindowFields)
    ensures
        niri_fields_from(f, *w),
{
    NiriWindowFields {
        id: unsigned_field_of(w, "id"),
        title: text_field_of(w, "title"),
        app_id: text_field_of(w, "app_id"),
        app_id_or_class: text_field_of(w, "app_id_or_class"),
        workspace_name: text_field_of(w, "workspace_name"),
        workspace_id: int_field_of(w, "workspace_id"),
        focus_order: int_field_of(w, "focus_order"),
        last_focus_time: int_field_of(w, "last_focus_time"),
    }
}

/// The windows of a `hyprctl clients -j` document: the fields of each
/// element of its top-level array (none when it is no array) made into
/// window entries as `hypr_window_entries` does; nothing when the text is
/// not JSON.
pub fn parse_hypr_windows_json(raw: &str) -> (r: Option<Vec<crate::search::WindowEntry>>)
    ensures
        match (r, json_of_text(raw@)) {
            (Some(w), Some(j)) => exists|fs: Seq<HyprWindowFields>| {
                &&& fs.len() == json_items(j).len()
                &&& forall|i: int| 0 <= i < fs.len() ==> hypr_fields_from(#[trigger] fs[i], json_items(j)[i])
                &&& windows_ranked(hypr_windows(fs), w@)
            },
            (None, None) => true,
            _ => false,
        },
{
    let doc = match parse_json(raw) {
        Some(d) => d,
        None => return None,
    };
    let mut fields: Vec<HyprWindowFields> = Vec::new();
    match items_of(&doc) {
        Some(items) => {
            let mut i: usize = 0;
            while i < items.len()
                invariant
                    i <= items@.len(),
                    items@ == json_items(doc),
                    fields@.len() == i,
                    forall|k: int| 0 <= k < i ==> hypr_fields_from(#[trigger] fields@[k], items@[k]),
                decreases items@.len() - i,
            {
                fields.push(hypr_fields_of(&items[i]));
                i = i + 1;
            }
        },
        None => {},
    }
    let found = hypr_window_entries(&fields);
    Some(found)
}

/// The windows of a `niri msg --json windows` document: the fields of each
/// element of its top-level array (none when it is no array) made into
/// window entries as `niri_window_entries` does; nothing when the text is
/// not JSON, or when the array has more elements than a 64-bit position
/// can count.
pub fn parse_niri_windows_json(raw: &str) -> (r: Option<Vec<crate::search::WindowEntry>>)
    ensures
        match (r, json_of_text(raw@)) {
            (Some(w), Some(j)) => exists|fs: Seq<NiriWindowFields>| {
                &&& fs.len() == json_items(j).len()
                &&& forall|i: int| 0 <= i < fs.len() ==> niri_fields_from(#[trigger] fs[i], json_items(j)[i])
                &&& windows_ranked(niri_windows(fs), w@)
            },
            (None, Some(j)) => json_items(j).len() > i64::MAX,
            (None, None) => true,
            _ => false,
        },
{
    let doc = match parse_json(raw) {
        Some(d) => d,
        None => return None,
    };
    let mut fields: Vec<NiriWindowFields> = Vec::new();
    match items_of(&doc) {
        Some(items) => {
            if items.len() as u128 > i64::MAX as u128 {
                return None;
            }
            let mut i: usize = 0;
            while i < items.len()
                invariant
                    i <= items@.len(),
                    items@ == json_items(doc),
                    fields@.len() == i,
                    forall|k: int| 0 <= k < i ==> niri_fields_from(#[trigger] fields@[k], items@[k]),
                decreases items@.len() - i,
            {
                fields.push(niri_fields_of(&items[i]));
                i = i + 1;
            }
        },
        None => {},
    }
    let found = niri_window_entries(&fields);
    Some(found)
}

/// A bookmark-tree node's type (as written), name and URL (trimmed, never
/// blank).
pub type NodeView = (Option<Seq<char>>, Option<Seq<char>>, Option<Seq<char>>);

pub open spec fn node_view(n: ChromiumNode) -> NodeView {
    (opt_view(n.kind), opt_view(n.name), opt_view(n.url))
}

/// What a bookmark file node says of itself.
pub open spec fn json_node(v: JsonValue) -> NodeView {
    (raw_text_field(v, "type"@), text_field(v, "name"@), text_field(v, "url"@))
}

/// The elements of a node's `children` array.
pub open spec fn json_children(v: JsonValue) -> Seq<JsonValue> {
    match field(v, "children"@) {
        Some(JsonValue::Array(a)) => a@,
        _ => Seq::empty(),
    }
}

/// A node's children lie inside it.
pub proof fn lemma_children_inside(v: JsonValue)
    ensures
        json_children(v).len() > 0 ==> decreases_to!(v => json_children(v)),
{
    if json_children(v).len() > 0 {
        if let JsonValue::Object(pairs) = v {
            crate::json::lemma_pair_value_inside(pairs@, "children"@);
            let c = pair_value(pairs@, "children"@).unwrap();
            let j = choose|j: int| 0 <= j < pairs@.len() && (#[trigger] pairs@[j]).1 == c;
            if let JsonValue::Array(a) = c {
                assert(decreases_to!(v => pairs));
                assert(decreases_to!(pairs => pairs@));
                assert(decreases_to!(pairs@ => pairs@[j]));
                assert(decreases_to!(pairs@[j] => pairs@[j].1));
                assert(decreases_to!(c => a));
                assert(decreases_to!(a => a@));
            }
        }
    }
}

/// The nodes of a bookmark tree in depth-first order: the node, then the
/// trees of its children.
pub open spec fn tree_nodes(v: JsonValue) -> Seq<NodeView>
    decreases v,
{
    if json_children(v).len() == 0 {
        seq![json_node(v)]
    } else {
        proof {
            lemma_children_inside(v);
        }
        seq![json_node(v)] + forest_nodes(json_children(v))
    }
}

/// The nodes of bookmark trees, tree after tree.
pub open spec fn forest_nodes(s: Seq<JsonValue>) -> Seq<NodeView>
    decreases s,
{
    if s.len() == 0 {
        Seq::empty()
    } else {
        tree_nodes(s[0]) + forest_nodes(s.subrange(1, s.len() as int))
    }
}

/// The bookmark trees of a Chromium `Bookmarks` document: the values of its
/// `roots` object, in order.
pub open spec fn bookmark_roots(doc: JsonValue) -> Seq<JsonValue> {
    match field(doc, "roots"@) {
        Some(JsonValue::Object(pairs)) => pairs@.map_values(|p: (String, JsonValue)| p.1),
        _ => Seq::empty(),
    }
}

pub open spec fn nodes_view(nodes: Seq<ChromiumNode>) -> Seq<NodeView> {
    nodes.map_values(|n: ChromiumNode| node_view(n))
}

fn chromium_node_of(v: &JsonValue) -> (n: ChromiumNode)
    ensures
        node_view(n) == json_node(*v),
{
    ChromiumNode { kind: raw_text_field_of(v, "type"), name: text_field_of(v, "name"), url: text_field_of(v, "url") }
}

fn collect_tree(v: &JsonValue, out: &mut Vec<ChromiumNode>)
    ensures
        nodes_view(final(out)@) == nodes_view(old(out)@) + tree_nodes(*v),
    decreases *v,
{
    let ghost before = nodes_view(out@);
    out.push(chromium_node_of(v));
    assert(nodes_view(out@) =~= before + seq![json_node(*v)]);
    match field_of(v, "children") {
        Some(JsonValue::Array(kids)) => {
            if kids.len() > 0 {
                proof {
                    lemma_children_inside(*v);
                }
                collect_forest(kids, out);
                assert(nodes_view(out@) =~= before + tree_nodes(*v));
            }
        },
        _ => {},
    }
}

fn collect_forest(items: &Vec<JsonValue>, out: &mut Vec<ChromiumNode>)
    ensures
        nodes_view(final(out)@) == nodes_view(old(out)@) + forest_nodes(items@),
    decreases items@,
{
    let ghost start = nodes_view(out@);
    let mut i: usize = 0;
    assert(items@.skip(0) =~= items@);
    while i < items.len()
        invariant
            i <= items@.len(),
            nodes_view(out@) + forest_nodes(items@.skip(i as int)) == start + forest_nodes(items@),
        decreases items@.len() - i,
    {
        let ghost s = items@.skip(i as int);
        assert(s.subrange(1, s.len() as int) =~= items@.skip(i + 1));
        assert(s[0] == items@[i as int]);
        assert(decreases_to!(items@ => items@[i as int]));
        let ghost prev = nodes_view(out@);
        collect_tree(&items[i], out);
        assert(prev + forest_nodes(s) =~= nodes_view(out@) + forest_nodes(items@.skip(i + 1)));
        i = i + 1;
    }
    assert(items@.skip(i as int) =~= Seq::<JsonValue>::empty());
    assert(nodes_view(out@) =~= start + forest_nodes(items@));
}

/// The bookmarks of a Chromium `Bookmarks` document: its bookmark trees'
/// nodes in depth-first order, read as `parse_chromium_bookmarks` reads
/// them; none when the text is not JSON.
pub fn parse_chromium_bookmarks_json(raw: &str) -> (r: Vec<BookmarkEntry>)
    ensures
        match json_of_text(raw@) {
            Some(doc) => exists|nodes: Seq<ChromiumNode>| {
                &&& nodes_view(nodes) == forest_nodes(bookmark_roots(doc))
                &&& r@.map_values(|b: BookmarkEntry| bookmark_view(b)) == chromium_bookmarks(nodes)
            },
            None => r@.len() == 0,
        },
{
    let doc = match parse_json(raw) {
        Some(d) => d,
        None => return Vec::new(),
    };
    let mut nodes: Vec<ChromiumNode> = Vec::new();
    match field_of(&doc, "roots") {
        Some(JsonValue::Object(pairs)) => {
            let ghost roots = bookmark_roots(doc);
            assert(roots =~= pairs@.map_values(|p: (String, JsonValue)| p.1));
            let mut i: usize = 0;
            assert(roots.skip(0) =~= roots);
            while i < pairs.len()
                invariant
                    i <= pairs@.len(),
                    roots == pairs@.map_values(|p: (String, JsonValue)| p.1),
                    nodes_view(nodes@) + forest_nodes(roots.skip(i as int)) == forest_nodes(roots),
                decreases pairs@.len() - i,
            {
                let ghost s = roots.skip(i as int);
                assert(s.subrange(1, s.len() as int) =~= roots.skip(i + 1));
                assert(s[0] == pairs@[i as int].1);
                let ghost prev = nodes_view(nodes@);
                collect_tree(&pairs[i].1, &mut nodes);
                assert(prev + forest_nodes(s) =~= nodes_view(nodes@) + forest_nodes(roots.skip(i + 1)));
                i = i + 1;
            }
            assert(roots.skip(i as int) =~= Seq::<JsonValue>::empty());
            assert(nodes_view(nodes@) =~= forest_nodes(roots));
        },
        _ => {
            assert(bookmark_roots(doc) =~= Seq::<JsonValue>::empty());
        },
    }
    parse_chromium_bookmarks(&nodes)
}


/// The window to refocus later from a `hyprctl activewindow -j` document:
/// nothing when the text is not JSON; otherwise the target its trimmed
/// `address` and `xwayland` flag name, if any.
pub fn hypr_active_target_json(raw: &str) -> (r: Option<Option<crate::model::WindowFocusTarget>>)
    ensures
        match json_of_text(raw@) {
            None => r is None,
            Some(doc) => r matches Some(t) && match hypr_focus_spec(text_field(doc, "address"@), bool_field(doc, "xwayland"@)) {
                Some((a, x)) => t is Some && focus_target_view(t->0) == (a, 0u64, x, 0u8),
                None => t is None,
            },
        },
{
    let doc = match parse_json(raw) {
        Some(d) => d,
        None => return None,
    };
    let address = text_field_of(&doc, "address");
    let xwayland = bool_field_of(&doc, "xwayland");
    let t = match &address {
        Some(a) => hypr_focus_target(Some(a.as_str()), xwayland),
        None => hypr_focus_target(None, xwayland),
    };
    Some(t)
}

/// The id of the window to refocus later from a `niri msg focused-window
/// --json` document: nothing when the text is not JSON; otherwise its `id`,
/// if it has one.
pub fn niri_focused_id_json(raw: &str) -> (r: Option<Option<u64>>)
    ensures
        match json_of_text(raw@) {
            None => r is None,
            Some(doc) => r == Some(unsigned_field(doc, "id"@)),
        },
{
    match parse_json(raw) {
        Some(doc) => Some(unsigned_field_of(&doc, "id")),
        None => None,
    }
}

} // verus!

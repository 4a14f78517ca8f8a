//! Connected monitors: the identity that survives a change of port, and the
//! reading of `xrandr` output lines.
//!
//! A monitor's scale is a single-precision float; it is carried here as its
//! IEEE 754 bit pattern, which the library only copies and range-checks.
use vstd::prelude::*;

use crate::text::{
    chars_of, contains_seq, dec, find_seq, is_ws, is_ws_char, push_dec, push_str, string_of,
    vec_eq,
};

verus! {

/// The bit pattern of the single-precision float 1.0.
pub const SCALE_ONE_BITS: u32 = 0x3f80_0000;

/// The description `xrandr` monitors get, as it does not read their EDID.
pub open spec fn unknown_x11() -> Seq<char> {
    "Unknown X11 Display"@
}

#[derive(Clone, Debug, PartialEq)]
pub struct Monitor {
    /// The connector, such as `DP-1`; it changes with the port.
    pub interface: String,
    /// Make and model, such as `Dell Inc. DELL U2719D`.
    pub description: String,
    pub width: u32,
    pub height: u32,
    /// The refresh rate in millihertz (59950 for 59.95 Hz).
    pub refresh_rate: u32,
    pub serial: Option<String>,
    /// The scale as the bit pattern of an `f32`.
    pub scale_bits: Option<u32>,
    pub transform: Option<u8>,
    pub x: i32,
    pub y: i32,
    pub primary: bool,
    pub active: bool,
}

// ---------------------------------------------------------------------------
// Stable identity
// ---------------------------------------------------------------------------

/// Spaces and dashes replaced by underscores.
pub open spec fn sanitized(s: Seq<char>) -> Seq<char> {
    s.map_values(|c: char| if c == ' ' || c == '-' { '_' } else { c })
}

/// Dashes replaced by underscores.
pub open spec fn undashed(s: Seq<char>) -> Seq<char> {
    s.map_values(|c: char| if c == '-' { '_' } else { c })
}

/// `MODEL_SERIAL` when the serial is known; for an `xrandr` monitor
/// `MODEL_INTERFACE_WxH_RATE`; else `MODEL_WxH_RATE`.
pub open spec fn stable_id_spec(m: Monitor) -> Seq<char> {
    let model = sanitized(m.description@);
    let mode = dec(m.width as nat) + "x"@ + dec(m.height as nat) + "_"@ + dec(m.refresh_rate as nat);
    match m.serial {
        Some(s) => model + "_"@ + s@,
        None => if m.description@ == unknown_x11() {
            model + "_"@ + undashed(m.interface@) + "_"@ + mode
        } else {
            model + "_"@ + mode
        },
    }
}

fn replaced(s: &str, dashes_only: bool) -> (r: String)
    ensures
        r@ == (if dashes_only { undashed(s@) } else { sanitized(s@) }),
{
    let v = chars_of(s);
    let mut out: Vec<char> = Vec::new();
    let mut i: usize = 0;
    while i < v.len()
        invariant
            i <= v@.len(),
            v@ == s@,
            out@ == (if dashes_only { undashed(v@.take(i as int)) } else { sanitized(v@.take(i as int)) }),
        decreases v@.len() - i,
    {
        let c = v[i];
        let d = if c == '-' || (!dashes_only && c == ' ') { '_' } else { c };
        out.push(d);
        i = i + 1;
        proof {
            if dashes_only {
                assert(out@ =~= undashed(v@.take(i as int)));
            } else {
                assert(out@ =~= sanitized(v@.take(i as int)));
            }
        }
    }
    assert(v@.take(v@.len() as int) =~= v@);
    string_of(&out)
}

impl Monitor {
    /// An identity that survives a change of port.
    pub fn get_stable_id(&self) -> (id: String)
        ensures
            id@ == stable_id_spec(*self),
    {
        let mut id = replaced(self.description.as_str(), false);
        push_str(&mut id, "_");
        match &self.serial {
            Some(s) => {
                push_str(&mut id, s.as_str());
                return id;
            },
            None => {},
        }
        if vec_eq(&chars_of(self.description.as_str()), &chars_of("Unknown X11 Display")) {
            let iface = replaced(self.interface.as_str(), true);
            push_str(&mut id, iface.as_str());
            push_str(&mut id, "_");
        }
        push_dec(&mut id, self.width as u64);
        push_str(&mut id, "x");
        push_dec(&mut id, self.height as u64);
        push_str(&mut id, "_");
        push_dec(&mut id, self.refresh_rate as u64);
        id
    }
}

// ---------------------------------------------------------------------------
// Decimal numbers
// ---------------------------------------------------------------------------

pub open spec fn is_digit(c: char) -> bool {
    '0' <= c && c <= '9'
}

pub open spec fn all_digits(s: Seq<char>) -> bool {
    forall|i: int| 0 <= i < s.len() ==> is_digit(#[trigger] s[i])
}

/// The value of a run of decimal digits.
pub open spec fn digits_value(s: Seq<char>) -> nat
    decreases s.len(),
{
    if s.len() == 0 {
        0
    } else {
        digits_value(s.drop_last()) * 10 + ((s.last() as u32 - 48) as nat)
    }
}

/// `s` without one leading `sign`, when it has one.
pub open spec fn unsigned_part(s: Seq<char>, sign: char) -> Seq<char> {
    if s.len() > 0 && s[0] == sign { s.drop_first() } else { s }
}

/// `u32::from_str`: an optional `+`, then at least one digit, within range.
pub open spec fn parse_u32_spec(s: Seq<char>) -> Option<u32> {
    let d = unsigned_part(s, '+');
    if d.len() > 0 && all_digits(d) && digits_value(d) <= u32::MAX {
        Some(digits_value(d) as u32)
    } else {
        None
    }
}

/// `i32::from_str`: an optional `+` or `-`, then at least one digit, within range.
pub open spec fn parse_i32_spec(s: Seq<char>) -> Option<i32> {
    if s.len() > 0 && s[0] == '-' {
        let d = s.drop_first();
        if d.len() > 0 && all_digits(d) && digits_value(d) <= 0x8000_0000 {
            Some((0 - digits_value(d)) as i32)
        } else {
            None
        }
    } else {
        let d = unsigned_part(s, '+');
        if d.len() > 0 && all_digits(d) && digits_value(d) <= i32::MAX {
            Some(digits_value(d) as i32)
        } else {
            None
        }
    }
}

proof fn lemma_digits_value_grows(s: Seq<char>, i: int)
    requires
        0 <= i <= s.len(),
        all_digits(s),
    ensures
        digits_value(s.take(i)) <= digits_value(s),
    decreases s.len() - i,
{
    if i < s.len() {
        lemma_digits_value_grows(s, i + 1);
        assert(s.take(i + 1).drop_last() =~= s.take(i));
    } else {
        assert(s.take(i) =~= s);
    }
}

/// The value of the digits `v[lo..hi]` when they are all digits and the
/// value is at most `bound`.
fn digits_at_most(v: &Vec<char>, lo: usize, hi: usize, bound: u64) -> (r: Option<u64>)
    requires
        lo <= hi <= v.len(),
        bound <= u32::MAX,
    ensures
        match r {
            Some(n) => all_digits(v@.subrange(lo as int, hi as int))
                && n == digits_value(v@.subrange(lo as int, hi as int)) && n <= bound,
            None => !(all_digits(v@.subrange(lo as int, hi as int))
                && digits_value(v@.subrange(lo as int, hi as int)) <= bound),
        },
{
    let ghost s = v@.subrange(lo as int, hi as int);
    let mut n: u64 = 0;
    let mut i = lo;
    while i < hi
        invariant
            lo <= i <= hi <= v.len(),
            s == v@.subrange(lo as int, hi as int),
            bound <= u32::MAX,
            all_digits(s.take(i - lo)),
            n == digits_value(s.take(i - lo)),
            n <= bound,
        decreases hi - i,
    {
        let c = v[i];
        proof {
            assert(s.take(i - lo + 1).drop_last() =~= s.take(i - lo));
        }
        if !('0' <= c && c <= '9') {
            proof {
                assert(s[i - lo] == c);
            }
            return None;
        }
        let d = (c as u32 - 48) as u64;
        n = n * 10 + d;
        i = i + 1;
        proof {
            assert forall|k: int| 0 <= k < s.take(i - lo).len() implies is_digit(#[trigger] s.take(i - lo)[k]) by {
                if k < i - lo - 1 {
                    assert(s.take(i - lo)[k] == s.take(i - lo - 1)[k]);
                }
            }
        }
        if n > bound {
            proof {
                if all_digits(s) {
                    lemma_digits_value_grows(s, i - lo);
                }
            }
            return None;
        }
    }
    assert(s.take(hi - lo) =~= s);
    Some(n)
}

/// `u32::from_str` on `v[lo..hi]`.
pub fn parse_u32_at(v: &Vec<char>, lo: usize, hi: usize) -> (r: Option<u32>)
    requires
        lo <= hi <= v.len(),
    ensures
        r == parse_u32_spec(v@.subrange(lo as int, hi as int)),
{
    let ghost s = v@.subrange(lo as int, hi as int);
    let mut start = lo;
    if lo < hi && v[lo] == '+' {
        start = lo + 1;
        assert(s.drop_first() =~= v@.subrange(start as int, hi as int));
    } else {
        assert(unsigned_part(s, '+') == s);
    }
    if start == hi {
        return None;
    }
    match digits_at_most(v, start, hi, 0xffff_ffff) {
        Some(n) => Some(n as u32),
        None => None,
    }
}

/// `i32::from_str` on `v[lo..hi]`.
pub fn parse_i32_at(v: &Vec<char>, lo: usize, hi: usize) -> (r: Option<i32>)
    requires
        lo <= hi <= v.len(),
    ensures
        r == parse_i32_spec(v@.subrange(lo as int, hi as int)),
{
    let ghost s = v@.subrange(lo as int, hi as int);
    if lo < hi && v[lo] == '-' {
        assert(s.drop_first() =~= v@.subrange(lo + 1, hi as int));
        if lo + 1 == hi {
            return None;
        }
        match digits_at_most(v, lo + 1, hi, 0x8000_0000) {
            Some(n) => {
                let r: i64 = 0 - (n as i64);
                Some(r as i32)
            },
            None => None,
        }
    } else {
        let mut start = lo;
        if lo < hi && v[lo] == '+' {
            start = lo + 1;
            assert(s.drop_first() =~= v@.subrange(start as int, hi as int));
        } else {
            assert(unsigned_part(s, '+') == s);
        }
        if start == hi {
            return None;
        }
        match digits_at_most(v, start, hi, 0x7fff_ffff) {
            Some(n) => Some(n as i32),
            None => None,
        }
    }
}

// ---------------------------------------------------------------------------
// Geometry `WxH+X+Y`
// ---------------------------------------------------------------------------

pub open spec fn is_geometry_sep(c: char) -> bool {
    c == 'x' || c == '+'
}

/// `str::split` on `x` and `+`: the fields between separators, empty ones
/// included.
pub open spec fn geometry_fields(s: Seq<char>) -> Seq<Seq<char>>
    decreases s.len(),
{
    if s.len() == 0 {
        seq![Seq::empty()]
    } else {
        let init = geometry_fields(s.drop_last());
        if is_geometry_sep(s.last()) {
            init.push(Seq::empty())
        } else {
            init.update(init.len() - 1, init.last().push(s.last()))
        }
    }
}

proof fn lemma_geometry_fields_nonempty(s: Seq<char>)
    ensures
        geometry_fields(s).len() >= 1,
    decreases s.len(),
{
    if s.len() > 0 {
        lemma_geometry_fields_nonempty(s.drop_last());
    }
}

/// `WxH+X+Y`: at least four fields, the first four width, height, x, y.
pub open spec fn geometry_spec(s: Seq<char>) -> Option<(u32, u32, i32, i32)> {
    let f = geometry_fields(s);
    if f.len() < 4 {
        None
    } else {
        match (parse_u32_spec(f[0]), parse_u32_spec(f[1]), parse_i32_spec(f[2]), parse_i32_spec(f[3])) {
            (Some(w), Some(h), Some(x), Some(y)) => Some((w, h, x, y)),
            _ => None,
        }
    }
}

/// The bounds `(start, end)` in `v` of each field of `geometry_fields`.
fn geometry_bounds(v: &Vec<char>) -> (b: Vec<(usize, usize)>)
    ensures
        b@.len() == geometry_fields(v@).len(),
        forall|k: int| 0 <= k < b@.len() ==> {
            &&& (#[trigger] b@[k]).0 <= b@[k].1 <= v@.len()
            &&& v@.subrange(b@[k].0 as int, b@[k].1 as int) == geometry_fields(v@)[k]
        },
{
    let mut b: Vec<(usize, usize)> = Vec::new();
    let mut start: usize = 0;
    let mut i: usize = 0;
    while i < v.len()
        invariant
            start <= i <= v@.len(),
            b@.len() + 1 == geometry_fields(v@.take(i as int)).len(),
            forall|k: int| 0 <= k < b@.len() ==> {
                &&& (#[trigger] b@[k]).0 <= b@[k].1 <= v@.len()
                &&& v@.subrange(b@[k].0 as int, b@[k].1 as int) == geometry_fields(v@.take(i as int))[k]
            },
            v@.subrange(start as int, i as int) == geometry_fields(v@.take(i as int)).last(),
        decreases v@.len() - i,
    {
        let ghost prev = geometry_fields(v@.take(i as int));
        proof {
            assert(v@.take(i + 1).drop_last() =~= v@.take(i as int));
            lemma_geometry_fields_nonempty(v@.take(i as int));
        }
        if v[i] == 'x' || v[i] == '+' {
            b.push((start, i));
            start = i + 1;
            i = i + 1;
            proof {
                let now = geometry_fields(v@.take(i as int));
                assert(now == prev.push(Seq::empty()));
                assert(v@.subrange(start as int, i as int) =~= Seq::<char>::empty());
                assert forall|k: int| 0 <= k < b@.len() implies {
                    &&& (#[trigger] b@[k]).0 <= b@[k].1 <= v@.len()
                    &&& v@.subrange(b@[k].0 as int, b@[k].1 as int) == now[k]
                } by {
                    if k < b@.len() - 1 {
                        assert(now[k] == prev[k]);
                    } else {
                        assert(now[k] == prev.last());
                    }
                }
            }
        } else {
            i = i + 1;
            proof {
                let now = geometry_fields(v@.take(i as int));
                assert(now == prev.update(prev.len() - 1, prev.last().push(v@[i - 1])));
                assert(v@.subrange(start as int, i as int) =~= prev.last().push(v@[i - 1]));
                assert forall|k: int| 0 <= k < b@.len() implies {
                    &&& (#[trigger] b@[k]).0 <= b@[k].1 <= v@.len()
                    &&& v@.subrange(b@[k].0 as int, b@[k].1 as int) == now[k]
                } by {
                    assert(now[k] == prev[k]);
                }
            }
        }
    }
    proof {
        assert(v@.take(v@.len() as int) =~= v@);
    }
    let ghost before = b@;
    b.push((start, v.len()));
    proof {
        let f = geometry_fields(v@);
        assert forall|k: int| 0 <= k < b@.len() implies {
            &&& (#[trigger] b@[k]).0 <= b@[k].1 <= v@.len()
            &&& v@.subrange(b@[k].0 as int, b@[k].1 as int) == f[k]
        } by {
            if k < before.len() {
                assert(b@[k] == before[k]);
            }
        }
    }
    b
}

/// Width, height and position from `WxH+X+Y`.
pub fn parse_xrandr_geometry(s: &str) -> (r: Option<(u32, u32, i32, i32)>)
    ensures
        r == geometry_spec(s@),
{
    let v = chars_of(s);
    assert(v@.subrange(0, v@.len() as int) =~= s@);
    geometry_of(&v, 0, v.len())
}

fn geometry_of(v: &Vec<char>, lo: usize, hi: usize) -> (r: Option<(u32, u32, i32, i32)>)
    requires
        lo <= hi <= v.len(),
    ensures
        r == geometry_spec(v@.subrange(lo as int, hi as int)),
{
    let w = slice_of(v, lo, hi);
    let b = geometry_bounds(&w);
    if b.len() < 4 {
        return None;
    }
    let (a0, a1) = b[0];
    let (b0, b1) = b[1];
    let (c0, c1) = b[2];
    let (d0, d1) = b[3];
    let width = parse_u32_at(&w, a0, a1);
    let height = parse_u32_at(&w, b0, b1);
    let x = parse_i32_at(&w, c0, c1);
    let y = parse_i32_at(&w, d0, d1);
    match (width, height, x, y) {
        (Some(w), Some(h), Some(x), Some(y)) => Some((w, h, x, y)),
        _ => None,
    }
}

fn slice_of(v: &Vec<char>, lo: usize, hi: usize) -> (r: Vec<char>)
    requires
        lo <= hi <= v.len(),
    ensures
        r@ == v@.subrange(lo as int, hi as int),
{
    crate::text::slice_vec(v, lo, hi)
}

// ---------------------------------------------------------------------------
// `xrandr` lines
// ---------------------------------------------------------------------------

/// `str::split_whitespace`: the maximal runs of non-white-space characters.
pub open spec fn words(s: Seq<char>) -> Seq<Seq<char>>
    decreases s.len(),
{
    if s.len() == 0 {
        Seq::empty()
    } else {
        let init = words(s.drop_last());
        if is_ws(s.last()) {
            init
        } else if s.len() >= 2 && !is_ws(s[s.len() - 2]) {
            init.update(init.len() - 1, init.last().push(s.last()))
        } else {
            init.push(seq![s.last()])
        }
    }
}

/// The first word that reads as a geometry.
pub open spec fn first_geometry(ws: Seq<Seq<char>>) -> Option<(u32, u32, i32, i32)>
    decreases ws.len(),
{
    if ws.len() == 0 {
        None
    } else {
        match geometry_spec(ws[0]) {
            Some(g) => Some(g),
            None => first_geometry(ws.drop_first()),
        }
    }
}

/// What a `connected` line of `xrandr --prop` describes: the connector is
/// the first word, `primary` may be among the words, and the first word that
/// reads as `WxH+X+Y` gives an active monitor its mode and position.
pub open spec fn connected_line_spec(line: Seq<char>, m: Monitor) -> bool {
    let ws = words(line);
    &&& ws.len() > 0
    &&& m.interface@ == ws[0]
    &&& m.description@ == unknown_x11()
    &&& m.refresh_rate == 60000
    &&& m.serial is None
    &&& m.scale_bits == Some(SCALE_ONE_BITS)
    &&& m.transform is None
    &&& m.primary == ws.contains("primary"@)
    &&& match first_geometry(ws) {
        Some((w, h, x, y)) => m.width == w && m.height == h && m.x == x && m.y == y && m.active,
        None => m.width == 0 && m.height == 0 && m.x == 0 && m.y == 0 && !m.active,
    }
}

proof fn lemma_words_len(s: Seq<char>)
    ensures
        words(s).len() <= s.len(),
        s.len() > 0 && !is_ws(s.last()) ==> words(s).len() > 0,
    decreases s.len(),
{
    if s.len() > 0 {
        lemma_words_len(s.drop_last());
    }
}

/// The bounds `(start, end)` in `v` of each word.
fn word_bounds(v: &Vec<char>) -> (b: Vec<(usize, usize)>)
    ensures
        b@.len() == words(v@).len(),
        forall|k: int| 0 <= k < b@.len() ==> {
            &&& (#[trigger] b@[k]).0 <= b@[k].1 <= v@.len()
            &&& v@.subrange(b@[k].0 as int, b@[k].1 as int) == words(v@)[k]
        },
{
    let mut b: Vec<(usize, usize)> = Vec::new();
    let mut start: usize = 0;
    let mut in_word = false;
    let mut i: usize = 0;
    while i < v.len()
        invariant
            start <= i <= v@.len(),
            in_word == (i > 0 && !is_ws(v@[i - 1])),
            in_word ==> b@.len() + 1 == words(v@.take(i as int)).len()
                && v@.subrange(start as int, i as int) == words(v@.take(i as int)).last(),
            !in_word ==> b@.len() == words(v@.take(i as int)).len(),
            forall|k: int| 0 <= k < b@.len() ==> {
                &&& (#[trigger] b@[k]).0 <= b@[k].1 <= v@.len()
                &&& v@.subrange(b@[k].0 as int, b@[k].1 as int) == words(v@.take(i as int))[k]
            },
        decreases v@.len() - i,
    {
        let ghost prev = words(v@.take(i as int));
        let ghost t = v@.take(i + 1);
        proof {
            assert(t.drop_last() =~= v@.take(i as int));
            assert(t.last() == v@[i as int]);
            if i > 0 {
                assert(t[t.len() - 2] == v@[i - 1]);
            }
            lemma_words_len(v@.take(i as int));
        }
        let c = v[i];
        if is_ws_char(c) {
            if in_word {
                b.push((start, i));
                proof {
                    assert forall|k: int| 0 <= k < b@.len() implies {
                        &&& (#[trigger] b@[k]).0 <= b@[k].1 <= v@.len()
                        &&& v@.subrange(b@[k].0 as int, b@[k].1 as int) == words(t)[k]
                    } by {
                        assert(words(t) == prev);
                    }
                }
            }
            in_word = false;
            i = i + 1;
        } else {
            if !in_word {
                start = i;
            }
            i = i + 1;
            in_word = true;
            proof {
                let now = words(t);
                if i >= 2 && !is_ws(v@[i - 2]) {
                    assert(now == prev.update(prev.len() - 1, prev.last().push(c)));
                    assert(v@.subrange(start as int, i as int) =~= prev.last().push(c));
                    assert forall|k: int| 0 <= k < b@.len() implies {
                        &&& (#[trigger] b@[k]).0 <= b@[k].1 <= v@.len()
                        &&& v@.subrange(b@[k].0 as int, b@[k].1 as int) == now[k]
                    } by {
                        assert(now[k] == prev[k]);
                    }
                } else {
                    assert(now == prev.push(seq![c]));
                    assert(v@.subrange(start as int, i as int) =~= seq![c]);
                    assert forall|k: int| 0 <= k < b@.len() implies {
                        &&& (#[trigger] b@[k]).0 <= b@[k].1 <= v@.len()
                        &&& v@.subrange(b@[k].0 as int, b@[k].1 as int) == now[k]
                    } by {
                        assert(now[k] == prev[k]);
                    }
                }
            }
        }
    }
    proof {
        assert(v@.take(v@.len() as int) =~= v@);
    }
    if in_word {
        let ghost before = b@;
        b.push((start, v.len()));
        proof {
            assert forall|k: int| 0 <= k < b@.len() implies {
                &&& (#[trigger] b@[k]).0 <= b@[k].1 <= v@.len()
                &&& v@.subrange(b@[k].0 as int, b@[k].1 as int) == words(v@)[k]
            } by {
                if k < before.len() {
                    assert(b@[k] == before[k]);
                }
            }
        }
    }
    b
}

/// `str::split_whitespace`, collected.
pub fn split_words(s: &str) -> (r: Vec<String>)
    ensures
        r@.map_values(|w: String| w@) == words(s@),
{
    let v = chars_of(s);
    let b = word_bounds(&v);
    let mut r: Vec<String> = Vec::new();
    let mut k: usize = 0;
    while k < b.len()
        invariant
            k <= b@.len(),
            v@ == s@,
            b@.len() == words(v@).len(),
            forall|j: int| 0 <= j < b@.len() ==> {
                &&& (#[trigger] b@[j]).0 <= b@[j].1 <= v@.len()
                &&& v@.subrange(b@[j].0 as int, b@[j].1 as int) == words(v@)[j]
            },
            r@.len() == k,
            forall|j: int| 0 <= j < k ==> (#[trigger] r@[j])@ == words(v@)[j],
        decreases b@.len() - k,
    {
        let (lo, hi) = b[k];
        let w = string_of(&slice_of(&v, lo, hi));
        r.push(w);
        k = k + 1;
    }
    assert(r@.map_values(|w: String| w@) =~= words(s@));
    r
}

proof fn lemma_words_nonempty(s: Seq<char>, j: int)
    requires
        0 <= j < s.len(),
        !is_ws(s[j]),
    ensures
        words(s).len() > 0,
    decreases s.len(),
{
    if j < s.len() - 1 {
        assert(s.drop_last()[j] == s[j]);
        lemma_words_nonempty(s.drop_last(), j);
    } else if s.len() >= 2 && !is_ws(s[s.len() - 2]) {
        assert(s.drop_last()[s.len() - 2] == s[s.len() - 2]);
        lemma_words_nonempty(s.drop_last(), s.len() - 2);
    }
}

/// A monitor from a line of `xrandr --prop` that says ` connected `.
pub fn parse_xrandr_connected_line(line: &str) -> (r: Option<Monitor>)
    ensures
        match r {
            Some(m) => contains_seq(line@, " connected "@) && connected_line_spec(line@, m),
            None => !contains_seq(line@, " connected "@),
        },
{
    let v = chars_of(line);
    let needle = chars_of(" connected ");
    let at = match find_seq(&v, &needle) {
        Some(i) => i,
        None => return None,
    };
    let ghost ws = words(v@);
    proof {
        reveal_strlit(" connected ");
        assert(v@.subrange(at as int, at + 11)[1] == 'c');
        assert(v@[at + 1] == 'c');
        lemma_words_nonempty(v@, at + 1);
    }
    let b = word_bounds(&v);
    let (f0, f1) = b[0];
    let interface = string_of(&slice_of(&v, f0, f1));
    let primary_word = chars_of("primary");
    let mut primary = false;
    let mut geometry: Option<(u32, u32, i32, i32)> = None;
    let mut k: usize = 0;
    assert(ws.skip(0) =~= ws);
    while k < b.len()
        invariant
            k <= b@.len(),
            b@.len() == ws.len(),
            ws == words(v@),
            primary_word@ == "primary"@,
            forall|j: int| 0 <= j < b@.len() ==> {
                &&& (#[trigger] b@[j]).0 <= b@[j].1 <= v@.len()
                &&& v@.subrange(b@[j].0 as int, b@[j].1 as int) == ws[j]
            },
            primary == (exists|j: int| 0 <= j < k && ws[j] == "primary"@),
            geometry is None ==> first_geometry(ws) == first_geometry(ws.skip(k as int)),
            geometry is Some ==> geometry == first_geometry(ws),
        decreases b@.len() - k,
    {
        let (s, e) = b[k];
        let word = slice_of(&v, s, e);
        if vec_eq(&word, &primary_word) {
            primary = true;
        }
        if geometry.is_none() {
            proof {
                assert(ws.skip(k as int)[0] == ws[k as int]);
                assert(ws.skip(k as int).drop_first() =~= ws.skip(k + 1));
            }
            geometry = geometry_of(&v, s, e);
        }
        k = k + 1;
    }
    proof {
        assert(ws.skip(k as int).len() == 0);
        assert(primary == ws.contains("primary"@));
    }
    let (width, height, x, y, active) = match geometry {
        Some((w, h, x, y)) => (w, h, x, y, true),
        None => (0, 0, 0, 0, false),
    };
    let description = crate::text::owned("Unknown X11 Display");
    Some(Monitor {
        interface,
        description,
        width,
        height,
        refresh_rate: 60000,
        serial: None,
        scale_bits: Some(SCALE_ONE_BITS),
        transform: None,
        x,
        y,
        primary,
        active,
    })
}

/// A monitor as plain values.
pub type MonitorView = (Seq<char>, Seq<char>, u32, u32, u32, Option<Seq<char>>, Option<u32>, Option<u8>, i32, i32, bool, bool);

pub open spec fn monitor_view(m: Monitor) -> MonitorView {
    (
        m.interface@,
        m.description@,
        m.width,
        m.height,
        m.refresh_rate,
        crate::text::opt_view(m.serial),
        m.scale_bits,
        m.transform,
        m.x,
        m.y,
        m.primary,
        m.active,
    )
}

fn copy_monitor(m: &Monitor) -> (r: Monitor)
    ensures
        monitor_view(r) == monitor_view(*m),
{
    Monitor {
        interface: m.interface.clone(),
        description: m.description.clone(),
        width: m.width,
        height: m.height,
        refresh_rate: m.refresh_rate,
        serial: match &m.serial {
            Some(s) => Some(s.clone()),
            None => None,
        },
        scale_bits: m.scale_bits,
        transform: m.transform,
        x: m.x,
        y: m.y,
        primary: m.primary,
        active: m.active,
    }
}

/// The monitors `xrandr --prop` lists: one for each connected line.
pub open spec fn xrandr_monitors_spec(lines: Seq<Seq<char>>, r: Seq<Monitor>) -> bool
    decreases lines.len(),
{
    if lines.len() == 0 {
        r.len() == 0
    } else if contains_seq(lines.last(), " connected "@) {
        r.len() > 0 && connected_line_spec(lines.last(), r.last()) && xrandr_monitors_spec(lines.drop_last(), r.drop_last())
    } else {
        xrandr_monitors_spec(lines.drop_last(), r)
    }
}

/// The monitors in the output of `xrandr --prop`, in order.
pub fn xrandr_monitors(output: &str) -> (r: Vec<Monitor>)
    ensures
        xrandr_monitors_spec(crate::password::lines_of(output@), r@),
{
    let lines = crate::password::split_lines(&chars_of(output));
    let ghost lv = crate::password::lines_of(output@);
    let mut out: Vec<Monitor> = Vec::new();
    let mut k: usize = 0;
    while k < lines.len()
        invariant
            k <= lines@.len(),
            lines@.len() == lv.len(),
            forall|i: int| 0 <= i < lines@.len() ==> #[trigger] lines@[i]@ == lv[i],
            xrandr_monitors_spec(lv.take(k as int), out@),
        decreases lines@.len() - k,
    {
        assert(lv.take(k + 1).drop_last() =~= lv.take(k as int));
        assert(lv.take(k + 1).last() == lines@[k as int]@);
        let line = string_of(&lines[k]);
        match parse_xrandr_connected_line(line.as_str()) {
            Some(m) => {
                let ghost before = out@;
                out.push(m);
                assert(out@.drop_last() =~= before);
            },
            None => {},
        }
        k = k + 1;
    }
    assert(lv.take(lines@.len() as int) =~= lv);
    out
}

/// Monitors ordered by connector name.
pub fn monitors_by_interface(ms: &Vec<Monitor>) -> (r: Vec<Monitor>)
    ensures
        crate::catalog::ordered_as(
            ms@.map_values(|m: Monitor| monitor_view(m)),
            ms@.map_values(|m: Monitor| crate::catalog::name_key(m.interface@)),
            r@.map_values(|m: Monitor| monitor_view(m)),
        ),
{
    let ghost found = ms@.map_values(|m: Monitor| monitor_view(m));
    let ghost ks = ms@.map_values(|m: Monitor| crate::catalog::name_key(m.interface@));
    let mut keys: Vec<crate::sort::SortKey> = Vec::new();
    let mut i: usize = 0;
    while i < ms.len()
        invariant
            i <= ms@.len(),
            keys@.len() == i,
            ks == ms@.map_values(|m: Monitor| crate::catalog::name_key(m.interface@)),
            forall|j: int| 0 <= j < i ==> (#[trigger] keys@[j]).view() == ks[j],
        decreases ms@.len() - i,
    {
        let mut strs: Vec<Vec<char>> = Vec::new();
        strs.push(chars_of(ms[i].interface.as_str()));
        let k = crate::sort::SortKey { nums: Vec::new(), strs };
        assert(k.view().0 =~= ks[i as int].0);
        assert(k.view().1 =~= ks[i as int].1);
        keys.push(k);
        i = i + 1;
    }
    assert(keys@.map_values(|k: crate::sort::SortKey| k.view()) =~= ks);
    let order = crate::sort::sort_indices(&keys);
    let ghost ov = order@.map_values(|x: usize| x as int);
    let mut out: Vec<Monitor> = Vec::new();
    let mut m: usize = 0;
    while m < order.len()
        invariant
            m <= order@.len(),
            ov == order@.map_values(|x: usize| x as int),
            crate::sort::is_permutation(ov, ms@.len() as int),
            found == ms@.map_values(|m: Monitor| monitor_view(m)),
            out@.map_values(|m: Monitor| monitor_view(m)) == ov.take(m as int).map_values(|i: int| found[i]),
        decreases order@.len() - m,
    {
        let idx = order[m];
        assert(ov[m as int] == idx as int);
        let c = copy_monitor(&ms[idx]);
        let ghost before = out@;
        out.push(c);
        assert(out@.map_values(|m: Monitor| monitor_view(m)) =~= before.map_values(|m: Monitor| monitor_view(m)).push(
            monitor_view(c),
        ));
        assert(ov.take(m + 1).map_values(|i: int| found[i]) =~= ov.take(m as int).map_values(|i: int| found[i]).push(found[ov[m as int]]));
        m = m + 1;
    }
    assert(ov.take(order@.len() as int) =~= ov);
    assert(crate::sort::is_permutation(ov, found.len() as int));
    out
}

} // verus!

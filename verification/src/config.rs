//! Saved monitor profiles, keyed by a hash of the connected hardware, their
//! validation, and what applying one needs to know.
use vstd::prelude::*;
use vstd::relations::{sorted_by, total_ordering};

use crate::monitor::{stable_id_spec, Monitor, SCALE_ONE_BITS};
use crate::text::{
    chars_of, compare_vec, hex_digits, join, lemma_seq_lt_asym, lemma_seq_lt_total, lemma_seq_lt_trans,
    owned, push_char, push_str, seq_lt, trim_vec,
};
use crate::wm::blank;

verus! {

#[derive(Clone, Debug)]
pub struct MonitorConfig {
    pub stable_id: String,
    pub x: i32,
    pub y: i32,
    /// The scale as the bit pattern of an `f32`.
    pub scale_bits: u32,
    pub transform: u8,
    pub primary: bool,
    pub width: u32,
    pub height: u32,
    pub refresh_rate: u32,
}

#[derive(Clone, Debug)]
pub struct Profile {
    pub name: String,
    pub monitors: Vec<MonitorConfig>,
    pub commands: Option<Vec<String>>,
}

/// The saved profiles, each under the hardware hash of the monitors it was
/// saved for; no hash occurs twice.
#[derive(Clone, Debug)]
pub struct Config {
    profiles: Vec<(String, Profile)>,
}

#[derive(Clone, Copy, Debug, PartialEq, Eq, Structural)]
pub enum ConfigErrorKind {
    EmptyStableId,
    InvalidDimensions,
    InvalidScale,
    InvalidTransform,
    DuplicateStableId,
    EmptyCommand,
}

/// Why a configuration was refused: the kind, the profile's name and hash,
/// and the monitor's stable id (empty for the first and last kinds).
#[derive(Clone, Debug)]
pub struct ConfigError {
    pub kind: ConfigErrorKind,
    pub profile: String,
    pub hardware_hash: String,
    pub stable_id: String,
}

pub type ErrorView = (ConfigErrorKind, Seq<char>, Seq<char>, Seq<char>);

/// A monitor setting as plain values: stable id, x, y, scale bits, transform,
/// primary, width, height, refresh rate.
pub type MonitorConfigView = (Seq<char>, i32, i32, u32, u8, bool, u32, u32, u32);

/// A profile as plain values: name, monitor settings, commands.
pub type ProfileView = (Seq<char>, Seq<MonitorConfigView>, Option<Seq<Seq<char>>>);

pub open spec fn config_view(c: MonitorConfig) -> MonitorConfigView {
    (c.stable_id@, c.x, c.y, c.scale_bits, c.transform, c.primary, c.width, c.height, c.refresh_rate)
}

pub open spec fn configs_view(v: Seq<MonitorConfig>) -> Seq<MonitorConfigView> {
    v.map_values(|c: MonitorConfig| config_view(c))
}

pub open spec fn strings_view(v: Seq<String>) -> Seq<Seq<char>> {
    v.map_values(|s: String| s@)
}

pub open spec fn profile_view(p: Profile) -> ProfileView {
    (
        p.name@,
        configs_view(p.monitors@),
        match p.commands {
            Some(cs) => Some(strings_view(cs@)),
            None => None,
        },
    )
}

pub open spec fn entries_view(v: Seq<(String, Profile)>) -> Seq<(Seq<char>, ProfileView)> {
    v.map_values(|e: (String, Profile)| (e.0@, profile_view(e.1)))
}

pub open spec fn error_view(e: ConfigError) -> ErrorView {
    (e.kind, e.profile@, e.hardware_hash@, e.stable_id@)
}

// ---------------------------------------------------------------------------
// Validation
// ---------------------------------------------------------------------------

/// A positive, finite single-precision float: sign clear, exponent not all
/// ones, not zero.
pub open spec fn scale_ok(bits: u32) -> bool {
    0 < bits && bits < 0x7f80_0000
}

/// What is wrong with monitor `m` of a profile whose earlier monitors are
/// `earlier`, checked in this order.
pub open spec fn monitor_problem(m: MonitorConfigView, earlier: Seq<MonitorConfigView>) -> Option<ConfigErrorKind> {
    if blank(m.0) {
        Some(ConfigErrorKind::EmptyStableId)
    } else if m.6 == 0 || m.7 == 0 {
        Some(ConfigErrorKind::InvalidDimensions)
    } else if !scale_ok(m.3) {
        Some(ConfigErrorKind::InvalidScale)
    } else if m.4 > 7 {
        Some(ConfigErrorKind::InvalidTransform)
    } else if exists|j: int| 0 <= j < earlier.len() && (#[trigger] earlier[j]).0 == m.0 {
        Some(ConfigErrorKind::DuplicateStableId)
    } else {
        None
    }
}

/// The first monitor from index `i` on with a problem, and the problem.
pub open spec fn first_monitor_problem(ms: Seq<MonitorConfigView>, i: int) -> Option<(int, ConfigErrorKind)>
    decreases ms.len() - i,
{
    if i < 0 || i >= ms.len() {
        None
    } else {
        match monitor_problem(ms[i], ms.take(i)) {
            Some(k) => Some((i, k)),
            None => first_monitor_problem(ms, i + 1),
        }
    }
}

pub open spec fn has_blank_command(p: ProfileView) -> bool {
    match p.2 {
        Some(cs) => exists|i: int| 0 <= i < cs.len() && blank(#[trigger] cs[i]),
        None => false,
    }
}

/// The first problem of the profile saved under `hash`.
pub open spec fn profile_problem(hash: Seq<char>, p: ProfileView) -> Option<ErrorView> {
    match first_monitor_problem(p.1, 0) {
        Some((i, k)) => Some((
            k,
            p.0,
            hash,
            if k == ConfigErrorKind::EmptyStableId { Seq::empty() } else { p.1[i].0 },
        )),
        None => if has_blank_command(p) {
            Some((ConfigErrorKind::EmptyCommand, p.0, hash, Seq::empty()))
        } else {
            None
        },
    }
}

/// The first problem among the profiles from index `i` on.
pub open spec fn config_problem(entries: Seq<(Seq<char>, ProfileView)>, i: int) -> Option<ErrorView>
    decreases entries.len() - i,
{
    if i < 0 || i >= entries.len() {
        None
    } else {
        match profile_problem(entries[i].0, entries[i].1) {
            Some(e) => Some(e),
            None => config_problem(entries, i + 1),
        }
    }
}

/// The text of a refusal.
pub open spec fn error_message(e: ErrorView) -> Seq<char> {
    let head = "Profile '"@ + e.1 + "' ("@ + e.2 + ") "@;
    match e.0 {
        ConfigErrorKind::EmptyStableId => head + "has a monitor with an empty stable_id"@,
        ConfigErrorKind::InvalidDimensions => head + "has invalid monitor dimensions for '"@ + e.3 + "'"@,
        ConfigErrorKind::InvalidScale => head + "has invalid scale for '"@ + e.3 + "'"@,
        ConfigErrorKind::InvalidTransform => head + "has invalid transform for '"@ + e.3 + "'"@,
        ConfigErrorKind::DuplicateStableId => head + "contains duplicate monitor stable_id '"@ + e.3 + "'"@,
        ConfigErrorKind::EmptyCommand => head + "contains an empty command"@,
    }
}

impl ConfigError {
    /// The message shown for the refusal.
    pub fn message(&self) -> (m: String)
        ensures
            m@ == error_message(error_view(*self)),
    {
        let mut m = owned("Profile '");
        push_str(&mut m, self.profile.as_str());
        push_str(&mut m, "' (");
        push_str(&mut m, self.hardware_hash.as_str());
        push_str(&mut m, ") ");
        match self.kind {
            ConfigErrorKind::EmptyStableId => push_str(&mut m, "has a monitor with an empty stable_id"),
            ConfigErrorKind::InvalidDimensions => {
                push_str(&mut m, "has invalid monitor dimensions for '");
                push_str(&mut m, self.stable_id.as_str());
                push_str(&mut m, "'");
            },
            ConfigErrorKind::InvalidScale => {
                push_str(&mut m, "has invalid scale for '");
                push_str(&mut m, self.stable_id.as_str());
                push_str(&mut m, "'");
            },
            ConfigErrorKind::InvalidTransform => {
                push_str(&mut m, "has invalid transform for '");
                push_str(&mut m, self.stable_id.as_str());
                push_str(&mut m, "'");
            },
            ConfigErrorKind::DuplicateStableId => {
                push_str(&mut m, "contains duplicate monitor stable_id '");
                push_str(&mut m, self.stable_id.as_str());
                push_str(&mut m, "'");
            },
            ConfigErrorKind::EmptyCommand => push_str(&mut m, "contains an empty command"),
        }
        m
    }
}

fn is_blank_string(s: &String) -> (r: bool)
    ensures
        r == blank(s@),
{
    let v = chars_of(s.as_str());
    trim_vec(&v).len() == 0
}

fn monitor_problem_of(ms: &Vec<MonitorConfig>, i: usize) -> (r: Option<ConfigErrorKind>)
    requires
        i < ms@.len(),
    ensures
        ({
            let vs = configs_view(ms@);
            r == monitor_problem(vs[i as int], vs.take(i as int))
        }),
{
    let ghost vs = configs_view(ms@);
    let m = &ms[i];
    if is_blank_string(&m.stable_id) {
        return Some(ConfigErrorKind::EmptyStableId);
    }
    if m.width == 0 || m.height == 0 {
        return Some(ConfigErrorKind::InvalidDimensions);
    }
    if !(0 < m.scale_bits && m.scale_bits < 0x7f80_0000) {
        return Some(ConfigErrorKind::InvalidScale);
    }
    if m.transform > 7 {
        return Some(ConfigErrorKind::InvalidTransform);
    }
    let ghost earlier = vs.take(i as int);
    let mut j: usize = 0;
    while j < i
        invariant
            j <= i < ms@.len(),
            vs == configs_view(ms@),
            earlier == vs.take(i as int),
            vs[i as int] == config_view(ms@[i as int]),
            !blank(vs[i as int].0),
            vs[i as int].6 != 0 && vs[i as int].7 != 0,
            scale_ok(vs[i as int].3),
            vs[i as int].4 <= 7,
            forall|k: int| 0 <= k < j ==> (#[trigger] earlier[k]).0 != vs[i as int].0,
        decreases i - j,
    {
        assert(earlier[j as int] == vs[j as int]);
        if ms[j].stable_id == ms[i].stable_id {
            assert(vs[j as int].0 == vs[i as int].0);
            assert(exists|jj: int| 0 <= jj < earlier.len() && (#[trigger] earlier[jj]).0 == vs[i as int].0);
            assert(monitor_problem(vs[i as int], earlier) == Some(ConfigErrorKind::DuplicateStableId));
            return Some(ConfigErrorKind::DuplicateStableId);
        }
        j = j + 1;
    }
    None
}

fn profile_problem_of(hash: &String, p: &Profile) -> (r: Option<ConfigError>)
    ensures
        match r {
            Some(e) => profile_problem(hash@, profile_view(*p)) == Some(error_view(e)),
            None => profile_problem(hash@, profile_view(*p)) is None,
        },
{
    let ghost vs = configs_view(p.monitors@);
    let mut i: usize = 0;
    while i < p.monitors.len()
        invariant
            i <= p.monitors@.len(),
            vs == configs_view(p.monitors@),
            first_monitor_problem(vs, 0) == first_monitor_problem(vs, i as int),
        decreases p.monitors@.len() - i,
    {
        match monitor_problem_of(&p.monitors, i) {
            Some(kind) => {
                let stable_id = if kind == ConfigErrorKind::EmptyStableId {
                    String::new()
                } else {
                    p.monitors[i].stable_id.clone()
                };
                return Some(ConfigError {
                    kind,
                    profile: p.name.clone(),
                    hardware_hash: hash.clone(),
                    stable_id,
                });
            },
            None => {},
        }
        i = i + 1;
    }
    assert(first_monitor_problem(vs, i as int) is None);
    if let Some(cs) = &p.commands {
        let mut k: usize = 0;
        while k < cs.len()
            invariant
                k <= cs@.len(),
                p.commands == Some(*cs),
                vs == configs_view(p.monitors@),
                first_monitor_problem(vs, 0) is None,
                forall|j: int| 0 <= j < k ==> !blank((#[trigger] cs@[j])@),
            decreases cs@.len() - k,
        {
            if is_blank_string(&cs[k]) {
                proof {
                    let pv = profile_view(*p);
                    assert(pv.1 == vs);
                    assert(first_monitor_problem(pv.1, 0) is None);
                    assert(pv.2 == Some(strings_view(cs@)));
                    assert(strings_view(cs@)[k as int] == cs@[k as int]@);
                    assert(blank(strings_view(cs@)[k as int]));
                    assert(0 <= k < pv.2->0.len() && blank(pv.2->0[k as int]));
                    assert(has_blank_command(pv));
                }
                return Some(ConfigError {
                    kind: ConfigErrorKind::EmptyCommand,
                    profile: p.name.clone(),
                    hardware_hash: hash.clone(),
                    stable_id: String::new(),
                });
            }
            k = k + 1;
        }
        proof {
            assert forall|j: int| 0 <= j < strings_view(cs@).len() implies !blank(#[trigger] strings_view(cs@)[j]) by {
                assert(strings_view(cs@)[j] == cs@[j]@);
            }
        }
    }
    None
}

// ---------------------------------------------------------------------------
// Hardware hash
// ---------------------------------------------------------------------------

/// The SHA-256 digest of the UTF-8 encoding of `text`.
pub uninterp spec fn sha256_of_text(text: Seq<char>) -> Seq<u8>;

/// `sha2::Sha256::digest` of the bytes of `text`. Claimed: the result is the
/// digest named `sha256_of_text`, and it is 32 bytes long (the output size of
/// SHA-256). What the digest is, is not stated.
#[verifier::external_body]
fn sha256_text(text: &str) -> (d: Vec<u8>)
    ensures
        d@ == sha256_of_text(text@),
        d@.len() == 32,
{
    <sha2::Sha256 as sha2::Digest>::digest(text.as_bytes()).to_vec()
}

/// Bytes as lowercase hexadecimal, two digits each.
pub open spec fn lower_hex(bytes: Seq<u8>) -> Seq<char>
    decreases bytes.len(),
{
    if bytes.len() == 0 {
        Seq::empty()
    } else {
        lower_hex(bytes.drop_last()) + hex_digits(bytes.last() as nat, 2)
    }
}

/// `x` put into the sorted `s` before the first element not below it.
pub open spec fn insert_sorted(x: Seq<char>, s: Seq<Seq<char>>) -> Seq<Seq<char>>
    decreases s.len(),
{
    if s.len() == 0 || !seq_lt(s[0], x) {
        seq![x] + s
    } else {
        seq![s[0]] + insert_sorted(x, s.drop_first())
    }
}

/// `s` sorted (`[String]::sort`).
pub open spec fn sorted_strings(s: Seq<Seq<char>>) -> Seq<Seq<char>>
    decreases s.len(),
{
    if s.len() == 0 {
        Seq::empty()
    } else {
        insert_sorted(s.last(), sorted_strings(s.drop_last()))
    }
}

/// The stable ids of `ms`, in order.
pub open spec fn stable_ids(ms: Seq<Monitor>) -> Seq<Seq<char>> {
    ms.map_values(|m: Monitor| stable_id_spec(m))
}

/// The key of a set of monitors: the SHA-256 of their sorted stable ids
/// joined by `|`, in lowercase hexadecimal.
pub open spec fn hardware_hash_spec(ms: Seq<Monitor>) -> Seq<char> {
    lower_hex(sha256_of_text(join(sorted_strings(stable_ids(ms)), "|"@)))
}

proof fn lemma_insert_sorted_at(x: Seq<char>, s: Seq<Seq<char>>, k: int)
    requires
        0 <= k <= s.len(),
        forall|j: int| 0 <= j < k ==> seq_lt(#[trigger] s[j], x),
        k == s.len() || !seq_lt(s[k], x),
    ensures
        insert_sorted(x, s) == s.take(k) + seq![x] + s.skip(k),
    decreases s.len(),
{
    if k == 0 {
        assert(s.take(0) + seq![x] + s.skip(0) =~= seq![x] + s);
    } else {
        let t = s.drop_first();
        assert forall|j: int| 0 <= j < k - 1 implies seq_lt(#[trigger] t[j], x) by {
            assert(t[j] == s[j + 1]);
        }
        if k < s.len() {
            assert(t[k - 1] == s[k]);
        }
        lemma_insert_sorted_at(x, t, k - 1);
        assert(s.take(k) + seq![x] + s.skip(k) =~= seq![s[0]] + (t.take(k - 1) + seq![x] + t.skip(k - 1)));
    }
}

fn insert_sorted_vec(r: &mut Vec<Vec<char>>, x: Vec<char>)
    ensures
        final(r)@.map_values(|v: Vec<char>| v@) == insert_sorted(x@, old(r)@.map_values(|v: Vec<char>| v@)),
{
    let ghost s = r@.map_values(|v: Vec<char>| v@);
    let mut k: usize = 0;
    while k < r.len() && compare_vec(&r[k], &x) < 0
        invariant
            k <= r@.len(),
            s == r@.map_values(|v: Vec<char>| v@),
            forall|j: int| 0 <= j < k ==> seq_lt(#[trigger] s[j], x@),
        decreases r@.len() - k,
    {
        k = k + 1;
    }
    proof {
        lemma_insert_sorted_at(x@, s, k as int);
    }
    r.insert(k, x);
    assert(r@.map_values(|v: Vec<char>| v@) =~= s.take(k as int) + seq![x@] + s.skip(k as int));
}

fn join_with_bar(parts: &Vec<Vec<char>>) -> (r: String)
    ensures
        r@ == join(parts@.map_values(|v: Vec<char>| v@), "|"@),
{
    let ghost ps = parts@.map_values(|v: Vec<char>| v@);
    let mut r = String::new();
    let mut i: usize = 0;
    while i < parts.len()
        invariant
            i <= parts@.len(),
            ps == parts@.map_values(|v: Vec<char>| v@),
            r@ == join(ps.take(i as int), "|"@),
        decreases parts@.len() - i,
    {
        let ghost prev = r@;
        proof {
            reveal_strlit("|");
        }
        if i > 0 {
            push_char(&mut r, '|');
        }
        crate::text::push_all(&mut r, &parts[i]);
        proof {
            let t = ps.take(i + 1);
            assert(t.last() == parts@[i as int]@);
            if i == 0 {
                assert(t.len() == 1);
                assert(r@ =~= join(t, "|"@));
            } else {
                assert(t.drop_last() =~= ps.take(i as int));
                assert(r@ =~= prev + "|"@ + t.last());
                assert(r@ =~= join(t, "|"@));
            }
        }
        i = i + 1;
    }
    assert(ps.take(parts@.len() as int) =~= ps);
    r
}

fn lower_hex_of(bytes: &Vec<u8>) -> (r: String)
    ensures
        r@ == lower_hex(bytes@),
{
    let mut r = String::new();
    let mut i: usize = 0;
    while i < bytes.len()
        invariant
            i <= bytes@.len(),
            r@ == lower_hex(bytes@.take(i as int)),
        decreases bytes@.len() - i,
    {
        proof {
            assert(bytes@.take(i + 1).drop_last() =~= bytes@.take(i as int));
        }
        let b = bytes[i];
        let hi = b / 16;
        let lo = b % 16;
        let ch = if hi < 10 { (hi + 48) as char } else { (hi - 10 + 97) as char };
        let cl = if lo < 10 { (lo + 48) as char } else { (lo - 10 + 97) as char };
        push_char(&mut r, ch);
        push_char(&mut r, cl);
        i = i + 1;
        proof {
            let n = b as nat;
            assert(hex_digits(n, 2) == hex_digits(n / 16, 1).push(crate::text::hex_digit(n % 16)));
            assert(hex_digits(n / 16, 1) == hex_digits(n / 16 / 16, 0).push(crate::text::hex_digit((n / 16) % 16)));
            assert(n / 16 < 16);
            assert((n / 16) % 16 == n / 16);
            assert(r@ =~= lower_hex(bytes@.take(i as int)));
        }
    }
    assert(bytes@.take(bytes@.len() as int) =~= bytes@);
    r
}

/// A lowercase hexadecimal digit.
pub open spec fn is_lower_hex_digit(c: char) -> bool {
    ('0' <= c && c <= '9') || ('a' <= c && c <= 'f')
}

proof fn lemma_lower_hex_shape(bytes: Seq<u8>)
    ensures
        lower_hex(bytes).len() == 2 * bytes.len(),
        forall|i: int| 0 <= i < lower_hex(bytes).len() ==> is_lower_hex_digit(#[trigger] lower_hex(bytes)[i]),
    decreases bytes.len(),
{
    if bytes.len() > 0 {
        lemma_lower_hex_shape(bytes.drop_last());
        let n = bytes.last() as nat;
        let d = hex_digits(n, 2);
        assert(d == hex_digits(n / 16, 1).push(crate::text::hex_digit(n % 16)));
        assert(hex_digits(n / 16, 1) == hex_digits(n / 16 / 16, 0).push(crate::text::hex_digit((n / 16) % 16)));
        assert(n / 16 < 16);
        let hi = (n / 16) % 16;
        let lo = n % 16;
        assert(is_lower_hex_digit(crate::text::hex_digit(hi)));
        assert(is_lower_hex_digit(crate::text::hex_digit(lo)));
        let p = lower_hex(bytes.drop_last());
        assert forall|i: int| 0 <= i < lower_hex(bytes).len() implies is_lower_hex_digit(#[trigger] lower_hex(bytes)[i]) by {
            if i < p.len() {
                assert(lower_hex(bytes)[i] == p[i]);
            } else if i == p.len() {
                assert(lower_hex(bytes)[i] == crate::text::hex_digit(hi));
            } else {
                assert(lower_hex(bytes)[i] == crate::text::hex_digit(lo));
            }
        }
    }
}

/// The key of the connected monitors, whatever order they are listed in:
/// 64 lowercase hexadecimal digits.
pub fn generate_hardware_hash(monitors: &[Monitor]) -> (h: String)
    ensures
        h@ == hardware_hash_spec(monitors@),
        h@.len() == 64,
        forall|i: int| 0 <= i < h@.len() ==> is_lower_hex_digit(#[trigger] h@[i]),
{
    let ghost ids = stable_ids(monitors@);
    let mut sorted: Vec<Vec<char>> = Vec::new();
    let mut i: usize = 0;
    while i < monitors.len()
        invariant
            i <= monitors@.len(),
            ids == stable_ids(monitors@),
            sorted@.map_values(|v: Vec<char>| v@) == sorted_strings(ids.take(i as int)),
        decreases monitors@.len() - i,
    {
        let id = monitors[i].get_stable_id();
        proof {
            assert(ids.take(i + 1).drop_last() =~= ids.take(i as int));
            assert(ids.take(i + 1).last() == id@);
        }
        insert_sorted_vec(&mut sorted, chars_of(id.as_str()));
        i = i + 1;
    }
    assert(ids.take(monitors@.len() as int) =~= ids);
    let joined = join_with_bar(&sorted);
    let digest = sha256_text(joined.as_str());
    proof {
        lemma_lower_hex_shape(digest@);
    }
    lower_hex_of(&digest)
}

// ---------------------------------------------------------------------------
// Order of the stable ids
// ---------------------------------------------------------------------------

pub open spec fn text_le(a: Seq<char>, b: Seq<char>) -> bool {
    a == b || seq_lt(a, b)
}

proof fn lemma_text_le_total_ordering()
    ensures
        total_ordering(|a: Seq<char>, b: Seq<char>| text_le(a, b)),
{
    let leq = |a: Seq<char>, b: Seq<char>| text_le(a, b);
    assert forall|a: Seq<char>, b: Seq<char>| #[trigger] leq(a, b) && #[trigger] leq(b, a) implies a == b by {
        lemma_seq_lt_asym(a, b);
    }
    assert forall|a: Seq<char>, b: Seq<char>, c: Seq<char>| #[trigger] leq(a, b) && #[trigger] leq(b, c) implies leq(a, c) by {
        if a != b && b != c {
            lemma_seq_lt_trans(a, b, c);
        }
    }
    assert forall|a: Seq<char>, b: Seq<char>| #[trigger] leq(a, b) || #[trigger] leq(b, a) by {
        lemma_seq_lt_total(a, b);
    }
}

proof fn lemma_insert_sorted(x: Seq<char>, s: Seq<Seq<char>>)
    requires
        sorted_by(s, |a: Seq<char>, b: Seq<char>| text_le(a, b)),
    ensures
        sorted_by(insert_sorted(x, s), |a: Seq<char>, b: Seq<char>| text_le(a, b)),
        insert_sorted(x, s).to_multiset() == s.to_multiset().insert(x),
    decreases s.len(),
{
    broadcast use vstd::seq_lib::group_to_multiset_ensures;
    broadcast use vstd::multiset::group_multiset_axioms;

    let leq = |a: Seq<char>, b: Seq<char>| text_le(a, b);
    lemma_text_le_total_ordering();
    let r = insert_sorted(x, s);
    if s.len() == 0 || !seq_lt(s[0], x) {
        vstd::seq_lib::lemma_multiset_commutative(seq![x], s);
        assert(seq![x].to_multiset() =~= vstd::multiset::Multiset::empty().insert(x)) by {
            assert(seq![x] =~= Seq::<Seq<char>>::empty().push(x));
        }
        if s.len() > 0 {
            lemma_seq_lt_total(x, s[0]);
        }
        assert forall|i: int, j: int| 0 <= i < j < r.len() implies #[trigger] leq(r[i], r[j]) by {
            if i == 0 {
                assert(leq(x, s[0]));
                if j > 1 {
                    assert(leq(s[0], s[j - 1]));
                }
            } else {
                assert(leq(s[i - 1], s[j - 1]));
            }
        }
    } else {
        let rest = s.drop_first();
        assert(sorted_by(rest, leq)) by {
            assert forall|i: int, j: int| 0 <= i < j < rest.len() implies #[trigger] leq(rest[i], rest[j]) by {
                assert(leq(s[i + 1], s[j + 1]));
            }
        }
        lemma_insert_sorted(x, rest);
        let tail = insert_sorted(x, rest);
        vstd::seq_lib::lemma_multiset_commutative(seq![s[0]], tail);
        vstd::seq_lib::lemma_multiset_commutative(seq![s[0]], rest);
        assert(s =~= seq![s[0]] + rest);
        assert forall|j: int| 0 <= j < tail.len() implies #[trigger] leq(s[0], tail[j]) by {
            assert(tail.to_multiset().contains(tail[j]));
            if tail[j] != x {
                assert(rest.to_multiset().contains(tail[j]));
                let k = choose|k: int| 0 <= k < rest.len() && rest[k] == tail[j];
                assert(leq(s[0], s[k + 1]));
            }
        }
        assert forall|i: int, j: int| 0 <= i < j < r.len() implies #[trigger] leq(r[i], r[j]) by {
            if i == 0 {
                assert(r[j] == tail[j - 1]);
            } else {
                assert(r[i] == tail[i - 1]);
                assert(r[j] == tail[j - 1]);
            }
        }
    }
}

proof fn lemma_sorted_strings(s: Seq<Seq<char>>)
    ensures
        sorted_by(sorted_strings(s), |a: Seq<char>, b: Seq<char>| text_le(a, b)),
        sorted_strings(s).to_multiset() == s.to_multiset(),
    decreases s.len(),
{
    broadcast use vstd::seq_lib::group_to_multiset_ensures;

    if s.len() > 0 {
        lemma_sorted_strings(s.drop_last());
        lemma_insert_sorted(s.last(), sorted_strings(s.drop_last()));
        assert(s =~= s.drop_last().push(s.last()));
    }
}

/// Sorting gives the same result for any two orderings of the same strings.
pub proof fn lemma_sorted_strings_ignore_order(s: Seq<Seq<char>>, t: Seq<Seq<char>>)
    requires
        s.to_multiset() == t.to_multiset(),
    ensures
        sorted_strings(s) == sorted_strings(t),
{
    lemma_sorted_strings(s);
    lemma_sorted_strings(t);
    lemma_text_le_total_ordering();
    vstd::seq_lib::lemma_sorted_unique(sorted_strings(s), sorted_strings(t), |a: Seq<char>, b: Seq<char>| text_le(a, b));
}

/// The hardware hash depends on which monitors are connected, not on the
/// order in which they are listed: two lists with the same stable ids, each
/// as often, have the same hash.
pub proof fn hardware_hash_ignores_plug_order(ms1: Seq<Monitor>, ms2: Seq<Monitor>)
    requires
        stable_ids(ms1).to_multiset() == stable_ids(ms2).to_multiset(),
    ensures
        hardware_hash_spec(ms1) == hardware_hash_spec(ms2),
{
    lemma_sorted_strings_ignore_order(stable_ids(ms1), stable_ids(ms2));
}

/// Two lists of the same monitors, each as often, have the same stable ids,
/// each as often.
proof fn lemma_map_keeps_multiset(s: Seq<Monitor>, t: Seq<Monitor>)
    requires
        s.to_multiset() == t.to_multiset(),
    ensures
        stable_ids(s).to_multiset() == stable_ids(t).to_multiset(),
    decreases s.len(),
{
    broadcast use vstd::seq_lib::group_to_multiset_ensures;
    broadcast use vstd::multiset::group_multiset_axioms;

    if s.len() == 0 {
        assert(t.len() == 0) by {
            vstd::seq_lib::to_multiset_len(s);
            vstd::seq_lib::to_multiset_len(t);
        }
        assert(stable_ids(s) =~= stable_ids(t));
    } else {
        let x = s.last();
        let s1 = s.drop_last();
        assert(s1.push(x) =~= s);
        vstd::seq_lib::to_multiset_build(s1, x);
        assert(t.to_multiset().count(x) > 0);
        vstd::seq_lib::to_multiset_contains(t, x);
        let j = choose|j: int| 0 <= j < t.len() && t[j] == x;
        let t1 = t.remove(j);
        vstd::seq_lib::to_multiset_remove(t, j);
        assert(t1.to_multiset() =~= s1.to_multiset());
        lemma_map_keeps_multiset(s1, t1);
        let fx = stable_id_spec(x);
        assert(stable_ids(s) =~= stable_ids(s1).push(fx));
        vstd::seq_lib::to_multiset_build(stable_ids(s1), fx);
        assert(stable_ids(t) =~= stable_ids(t1).insert(j, fx));
        vstd::seq_lib::to_multiset_insert(stable_ids(t1), j, fx);
    }
}

/// The hardware hash does not depend on the order in which the same
/// monitors are listed.
pub proof fn hardware_hash_ignores_listing_order(ms1: Seq<Monitor>, ms2: Seq<Monitor>)
    requires
        ms1.to_multiset() == ms2.to_multiset(),
    ensures
        hardware_hash_spec(ms1) == hardware_hash_spec(ms2),
{
    lemma_map_keeps_multiset(ms1, ms2);
    hardware_hash_ignores_plug_order(ms1, ms2);
}

// ---------------------------------------------------------------------------
// Profiles
// ---------------------------------------------------------------------------

/// The profile saved under `key`, if any.
pub open spec fn lookup(entries: Seq<(Seq<char>, ProfileView)>, key: Seq<char>) -> Option<ProfileView>
    decreases entries.len(),
{
    if entries.len() == 0 {
        None
    } else if entries[0].0 == key {
        Some(entries[0].1)
    } else {
        lookup(entries.drop_first(), key)
    }
}

pub open spec fn keys_distinct(entries: Seq<(Seq<char>, ProfileView)>) -> bool {
    forall|a: int, b: int| 0 <= a < b < entries.len() ==> (#[trigger] entries[a]).0 != (#[trigger] entries[b]).0
}

/// The setting a profile records for a connected monitor: its stable id,
/// position and mode, its scale (1 when unknown) and transform (0 when
/// unknown), not primary.
pub open spec fn recorded(c: MonitorConfigView, m: Monitor) -> bool {
    &&& c.0 == stable_id_spec(m)
    &&& c.1 == m.x
    &&& c.2 == m.y
    &&& c.3 == (match m.scale_bits { Some(b) => b, None => SCALE_ONE_BITS })
    &&& c.4 == (match m.transform { Some(t) => t, None => 0u8 })
    &&& !c.5
    &&& c.6 == m.width
    &&& c.7 == m.height
    &&& c.8 == m.refresh_rate
}

/// A profile named `name` recording `ms`, with no commands.
pub open spec fn profile_of(p: ProfileView, name: Seq<char>, ms: Seq<Monitor>) -> bool {
    &&& p.0 == name
    &&& p.1.len() == ms.len()
    &&& forall|i: int| 0 <= i < ms.len() ==> recorded(#[trigger] p.1[i], ms[i])
    &&& p.2 is None
}

/// `after` is `before` with a profile named `name` for `ms` saved under the
/// hardware hash of `ms`, replacing what was saved there.
pub open spec fn saved(
    before: Seq<(Seq<char>, ProfileView)>,
    after: Seq<(Seq<char>, ProfileView)>,
    name: Seq<char>,
    ms: Seq<Monitor>,
) -> bool {
    let key = hardware_hash_spec(ms);
    &&& lookup(after, key) matches Some(p) && profile_of(p, name, ms)
    &&& forall|k: Seq<char>| k != key ==> #[trigger] lookup(after, k) == lookup(before, k)
}

proof fn lemma_lookup_at(entries: Seq<(Seq<char>, ProfileView)>, i: int)
    requires
        keys_distinct(entries),
        0 <= i < entries.len(),
    ensures
        lookup(entries, entries[i].0) == Some(entries[i].1),
    decreases i,
{
    if i > 0 {
        let t = entries.drop_first();
        assert(entries[0].0 != entries[i].0);
        assert(t[i - 1] == entries[i]);
        lemma_lookup_at(t, i - 1);
    }
}

proof fn lemma_lookup_absent(entries: Seq<(Seq<char>, ProfileView)>, key: Seq<char>)
    requires
        forall|j: int| 0 <= j < entries.len() ==> (#[trigger] entries[j]).0 != key,
    ensures
        lookup(entries, key) is None,
    decreases entries.len(),
{
    if entries.len() > 0 {
        let t = entries.drop_first();
        assert forall|j: int| 0 <= j < t.len() implies (#[trigger] t[j]).0 != key by {
            assert(t[j] == entries[j + 1]);
        }
        lemma_lookup_absent(t, key);
    }
}

proof fn lemma_lookup_push(entries: Seq<(Seq<char>, ProfileView)>, e: (Seq<char>, ProfileView), k: Seq<char>)
    ensures
        lookup(entries.push(e), k) == (match lookup(entries, k) {
            Some(p) => Some(p),
            None => if e.0 == k { Some(e.1) } else { None },
        }),
    decreases entries.len(),
{
    if entries.len() > 0 {
        assert(entries.push(e)[0] == entries[0]);
        assert(entries.push(e).drop_first() =~= entries.drop_first().push(e));
        lemma_lookup_push(entries.drop_first(), e, k);
        if entries[0].0 != k {
            assert(lookup(entries, k) == lookup(entries.drop_first(), k));
            assert(lookup(entries.push(e), k) == lookup(entries.push(e).drop_first(), k));
        }
    } else {
        assert(entries.push(e)[0] == e);
        assert(entries.push(e).drop_first() =~= Seq::<(Seq<char>, ProfileView)>::empty());
    }
}

proof fn lemma_lookup_update(entries: Seq<(Seq<char>, ProfileView)>, j: int, p: ProfileView, k: Seq<char>)
    requires
        keys_distinct(entries),
        0 <= j < entries.len(),
    ensures
        lookup(entries.update(j, (entries[j].0, p)), k) == if k == entries[j].0 {
            Some(p)
        } else {
            lookup(entries, k)
        },
    decreases j,
{
    let u = entries.update(j, (entries[j].0, p));
    if j == 0 {
        assert(u[0] == (entries[0].0, p));
        assert(u.drop_first() =~= entries.drop_first());
        if k != entries[0].0 {
            assert(lookup(u, k) == lookup(u.drop_first(), k));
        }
    } else {
        assert(u[0] == entries[0]);
        let t = entries.drop_first();
        assert(u.drop_first() =~= t.update(j - 1, (t[j - 1].0, p)));
        assert(keys_distinct(t)) by {
            assert forall|a: int, b: int| 0 <= a < b < t.len() implies (#[trigger] t[a]).0 != (#[trigger] t[b]).0 by {
                assert(t[a] == entries[a + 1]);
                assert(t[b] == entries[b + 1]);
            }
        }
        assert(entries[0].0 != entries[j].0);
        lemma_lookup_update(t, j - 1, p, k);
    }
}

fn copy_monitor_config(c: &MonitorConfig) -> (r: MonitorConfig)
    ensures
        config_view(r) == config_view(*c),
{
    MonitorConfig {
        stable_id: c.stable_id.clone(),
        x: c.x,
        y: c.y,
        scale_bits: c.scale_bits,
        transform: c.transform,
        primary: c.primary,
        width: c.width,
        height: c.height,
        refresh_rate: c.refresh_rate,
    }
}

fn copy_strings(v: &Vec<String>) -> (r: Vec<String>)
    ensures
        strings_view(r@) == strings_view(v@),
{
    let mut r: Vec<String> = Vec::new();
    let mut i: usize = 0;
    while i < v.len()
        invariant
            i <= v@.len(),
            r@.len() == i,
            strings_view(r@) == strings_view(v@.take(i as int)),
        decreases v@.len() - i,
    {
        let ghost prev = r@;
        let c = v[i].clone();
        r.push(c);
        proof {
            assert(r@ == prev.push(c));
            assert(c@ == v@[i as int]@);
            assert forall|x: int| 0 <= x < i + 1 implies #[trigger] strings_view(r@)[x] == strings_view(v@.take(i + 1))[x] by {
                if x < i {
                    assert(strings_view(r@)[x] == prev[x]@);
                    assert(strings_view(prev)[x] == strings_view(v@.take(i as int))[x]);
                }
            }
            assert(strings_view(r@) =~= strings_view(v@.take(i + 1)));
        }
        i = i + 1;
    }
    assert(v@.take(v@.len() as int) =~= v@);
    r
}

/// A copy of a profile.
pub fn copy_profile(p: &Profile) -> (r: Profile)
    ensures
        profile_view(r) == profile_view(*p),
{
    let mut monitors: Vec<MonitorConfig> = Vec::new();
    let mut i: usize = 0;
    while i < p.monitors.len()
        invariant
            i <= p.monitors@.len(),
            monitors@.len() == i,
            configs_view(monitors@) == configs_view(p.monitors@.take(i as int)),
        decreases p.monitors@.len() - i,
    {
        let ghost prev = monitors@;
        let c = copy_monitor_config(&p.monitors[i]);
        monitors.push(c);
        proof {
            assert(monitors@ == prev.push(c));
            assert forall|x: int| 0 <= x < i + 1 implies #[trigger] configs_view(monitors@)[x] == configs_view(p.monitors@.take(i + 1))[x] by {
                if x < i {
                    assert(configs_view(monitors@)[x] == config_view(prev[x]));
                    assert(configs_view(prev)[x] == configs_view(p.monitors@.take(i as int))[x]);
                }
            }
            assert(configs_view(monitors@) =~= configs_view(p.monitors@.take(i + 1)));
        }
        i = i + 1;
    }
    assert(p.monitors@.take(p.monitors@.len() as int) =~= p.monitors@);
    let commands = match &p.commands {
        Some(cs) => Some(copy_strings(cs)),
        None => None,
    };
    Profile { name: p.name.clone(), monitors, commands }
}

impl Config {
    /// The profiles and the hashes they are saved under.
    pub closed spec fn view(&self) -> Seq<(Seq<char>, ProfileView)> {
        entries_view(self.profiles@)
    }

    pub closed spec fn wf(&self) -> bool {
        keys_distinct(entries_view(self.profiles@))
    }

    /// No profiles.
    pub fn new() -> (c: Self)
        ensures
            c.wf(),
            c@.len() == 0,
    {
        Config { profiles: Vec::new() }
    }

    /// The profiles read from the configuration file, each under its hash; a
    /// later profile under an already seen hash replaces the earlier one.
    pub fn from_profiles(entries: Vec<(String, Profile)>) -> (c: Self)
        ensures
            c.wf(),
            forall|k: Seq<char>| #[trigger] lookup(c@, k) == lookup(entries_view(entries@).reverse(), k),
    {
        let ghost ev = entries_view(entries@);
        let mut c = Config::new();
        let mut i: usize = 0;
        while i < entries.len()
            invariant
                i <= entries@.len(),
                ev == entries_view(entries@),
                c.wf(),
                forall|k: Seq<char>| #[trigger] lookup(c@, k) == lookup(ev.take(i as int).reverse(), k),
            decreases entries@.len() - i,
        {
            let key = entries[i].0.clone();
            let profile = copy_profile(&entries[i].1);
            c.put(key, profile);
            i = i + 1;
            proof {
                let t = ev.take(i as int);
                assert(t.reverse() =~= seq![t.last()] + ev.take(i - 1).reverse());
                assert((seq![t.last()] + ev.take(i - 1).reverse()).drop_first() =~= ev.take(i - 1).reverse());
                assert(t.last() == ev[i - 1]);
            }
        }
        assert(ev.take(entries@.len() as int) =~= ev);
        c
    }

    /// The profiles and the hashes they are saved under, in storage order.
    pub fn profiles(&self) -> (p: &Vec<(String, Profile)>)
        ensures
            entries_view(p@) == self@,
    {
        &self.profiles
    }

    /// Saves `profile` under `key`, replacing what was saved there.
    fn put(&mut self, key: String, profile: Profile)
        requires
            old(self).wf(),
        ensures
            final(self).wf(),
            lookup(final(self)@, key@) == Some(profile_view(profile)),
            forall|k: Seq<char>| k != key@ ==> #[trigger] lookup(final(self)@, k) == lookup(old(self)@, k),
    {
        let ghost before = entries_view(self.profiles@);
        let ghost pv = profile_view(profile);
        let mut i: usize = 0;
        while i < self.profiles.len()
            invariant
                i <= self.profiles@.len(),
                before == entries_view(self.profiles@),
                before == old(self)@,
                pv == profile_view(profile),
                keys_distinct(before),
                forall|j: int| 0 <= j < i ==> (#[trigger] before[j]).0 != key@,
            decreases self.profiles@.len() - i,
        {
            if self.profiles[i].0 == key {
                let ghost j = i as int;
                let ghost vec_before = self.profiles@;
                self.profiles.set(i, (key, profile));
                proof {
                    assert(before[j].0 == key@);
                    assert forall|x: int| 0 <= x < before.len() implies #[trigger] entries_view(self.profiles@)[x]
                        == before.update(j, (before[j].0, pv))[x] by {
                        if x != j {
                            assert(self.profiles@[x] == vec_before[x]);
                        }
                    }
                    assert(entries_view(self.profiles@) =~= before.update(j, (before[j].0, pv)));
                    assert forall|k: Seq<char>| #[trigger] lookup(entries_view(self.profiles@), k) == if k == before[j].0 {
                        Some(pv)
                    } else {
                        lookup(before, k)
                    } by {
                        lemma_lookup_update(before, j, pv, k);
                    }
                    let after = entries_view(self.profiles@);
                    assert forall|a: int, b: int| 0 <= a < b < after.len() implies (#[trigger] after[a]).0 != (#[trigger] after[b]).0 by {
                        assert(after[a].0 == before[a].0);
                        assert(after[b].0 == before[b].0);
                    }
                }
                return;
            }
            i = i + 1;
        }
        self.profiles.push((key, profile));
        proof {
            let after = entries_view(self.profiles@);
            assert(after =~= before.push((key@, pv)));
            lemma_lookup_absent(before, key@);
            lemma_lookup_push(before, (key@, pv), key@);
            assert forall|k: Seq<char>| k != key@ implies #[trigger] lookup(after, k) == lookup(before, k) by {
                lemma_lookup_push(before, (key@, pv), k);
            }
            assert forall|a: int, b: int| 0 <= a < b < after.len() implies (#[trigger] after[a]).0 != (#[trigger] after[b]).0 by {
                assert(after[a] == before[a]);
                if b < before.len() {
                    assert(after[b] == before[b]);
                }
            }
        }
    }

    /// The profile saved for the connected monitors, if any.
    pub fn get_profile_for_monitors(&self, monitors: &[Monitor]) -> (r: Option<&Profile>)
        requires
            self.wf(),
        ensures
            match r {
                Some(p) => lookup(self@, hardware_hash_spec(monitors@)) == Some(profile_view(*p)),
                None => lookup(self@, hardware_hash_spec(monitors@)) is None,
            },
    {
        let ghost ev = entries_view(self.profiles@);
        let hash = generate_hardware_hash(monitors);
        let mut i: usize = 0;
        while i < self.profiles.len()
            invariant
                i <= self.profiles@.len(),
                ev == entries_view(self.profiles@),
                keys_distinct(ev),
                hash@ == hardware_hash_spec(monitors@),
                forall|j: int| 0 <= j < i ==> (#[trigger] ev[j]).0 != hash@,
            decreases self.profiles@.len() - i,
        {
            if self.profiles[i].0 == hash {
                proof {
                    assert(ev[i as int] == (self.profiles@[i as int].0@, profile_view(self.profiles@[i as int].1)));
                    assert(ev[i as int].0 == hash@);
                    lemma_lookup_at(ev, i as int);
                    assert(lookup(ev, hash@) == Some(ev[i as int].1));
                    assert(self@ == ev);
                }
                return Some(&self.profiles[i].1);
            }
            i = i + 1;
        }
        proof {
            lemma_lookup_absent(ev, hash@);
        }
        None
    }

    /// Saves the connected monitors' layout as profile `name`.
    pub fn add_profile(&mut self, name: String, monitors: &[Monitor])
        requires
            old(self).wf(),
        ensures
            final(self).wf(),
            saved(old(self)@, final(self)@, name@, monitors@),
    {
        let hash = generate_hardware_hash(monitors);
        let mut configs: Vec<MonitorConfig> = Vec::new();
        let mut i: usize = 0;
        while i < monitors.len()
            invariant
                i <= monitors@.len(),
                configs@.len() == i,
                forall|j: int| 0 <= j < i ==> recorded(config_view(#[trigger] configs@[j]), monitors@[j]),
            decreases monitors@.len() - i,
        {
            let m = &monitors[i];
            let c = MonitorConfig {
                stable_id: m.get_stable_id(),
                x: m.x,
                y: m.y,
                scale_bits: match m.scale_bits {
                    Some(b) => b,
                    None => SCALE_ONE_BITS,
                },
                transform: match m.transform {
                    Some(t) => t,
                    None => 0,
                },
                primary: false,
                width: m.width,
                height: m.height,
                refresh_rate: m.refresh_rate,
            };
            configs.push(c);
            i = i + 1;
        }
        let profile = Profile { name, monitors: configs, commands: None };
        proof {
            let pv = profile_view(profile);
            assert forall|j: int| 0 <= j < monitors@.len() implies recorded(#[trigger] pv.1[j], monitors@[j]) by {
                assert(pv.1[j] == config_view(profile.monitors@[j]));
            }
        }
        self.put(hash, profile);
    }

    /// Checks every profile: stable ids present and distinct, positive
    /// dimensions, a positive finite scale, a transform of at most 7, and
    /// no empty command. The first problem found is the error.
    pub fn validate(&self) -> (r: Result<(), ConfigError>)
        ensures
            match r {
                Ok(()) => config_problem(self@, 0) is None,
                Err(e) => config_problem(self@, 0) == Some(error_view(e)),
            },
    {
        let ghost ev = entries_view(self.profiles@);
        let mut i: usize = 0;
        while i < self.profiles.len()
            invariant
                i <= self.profiles@.len(),
                ev == entries_view(self.profiles@),
                config_problem(ev, 0) == config_problem(ev, i as int),
            decreases self.profiles@.len() - i,
        {
            match profile_problem_of(&self.profiles[i].0, &self.profiles[i].1) {
                Some(e) => return Err(e),
                None => {},
            }
            i = i + 1;
        }
        Ok(())
    }
}

/// A profile saved for some monitors is the one found for the same monitors
/// later, in whatever order they are then listed; saving touches no other
/// hardware's profile.
pub proof fn saved_profile_is_found_for_the_same_monitors(
    before: Seq<(Seq<char>, ProfileView)>,
    after: Seq<(Seq<char>, ProfileView)>,
    name: Seq<char>,
    saved_for: Seq<Monitor>,
    connected: Seq<Monitor>,
)
    requires
        saved(before, after, name, saved_for),
        stable_ids(saved_for).to_multiset() == stable_ids(connected).to_multiset(),
    ensures
        lookup(after, hardware_hash_spec(connected)) matches Some(p) && profile_of(p, name, saved_for),
        forall|k: Seq<char>| k != hardware_hash_spec(connected) ==> #[trigger] lookup(after, k) == lookup(before, k),
{
    hardware_hash_ignores_plug_order(saved_for, connected);
}

// ---------------------------------------------------------------------------
// Applying a profile
// ---------------------------------------------------------------------------

/// The interface of the last connected monitor with stable id `id`.
pub open spec fn interface_for(ms: Seq<Monitor>, id: Seq<char>) -> Option<Seq<char>>
    decreases ms.len(),
{
    if ms.len() == 0 {
        None
    } else if stable_id_spec(ms.last()) == id {
        Some(ms.last().interface@)
    } else {
        interface_for(ms.drop_last(), id)
    }
}

/// Where the monitor a profile calls `stable_id` is connected now.
pub fn connected_interface(monitors: &[Monitor], stable_id: &str) -> (r: Option<String>)
    ensures
        match r {
            Some(i) => interface_for(monitors@, stable_id@) == Some(i@),
            None => interface_for(monitors@, stable_id@) is None,
        },
{
    let want = chars_of(stable_id);
    let mut i: usize = monitors.len();
    assert(monitors@.take(monitors@.len() as int) =~= monitors@);
    while i > 0
        invariant
            i <= monitors@.len(),
            want@ == stable_id@,
            interface_for(monitors@, stable_id@) == interface_for(monitors@.take(i as int), stable_id@),
        decreases i,
    {
        proof {
            assert(monitors@.take(i as int).drop_last() =~= monitors@.take(i - 1));
            assert(monitors@.take(i as int).last() == monitors@[i - 1]);
        }
        let id = monitors[i - 1].get_stable_id();
        if crate::text::vec_eq(&chars_of(id.as_str()), &want) {
            return Some(monitors[i - 1].interface.clone());
        }
        i = i - 1;
    }
    None
}

/// `niri`'s name for a transform, as it is written to `niri msg output`.
pub open spec fn niri_transform_name_spec(transform: u8) -> Seq<char> {
    if transform == 1 {
        "90"@
    } else if transform == 2 {
        "180"@
    } else if transform == 3 {
        "270"@
    } else if transform == 4 {
        "flipped"@
    } else if transform == 5 {
        "flipped-90"@
    } else if transform == 6 {
        "flipped-180"@
    } else if transform == 7 {
        "flipped-270"@
    } else {
        "normal"@
    }
}

/// `niri`'s name for a transform.
pub fn niri_transform_name(transform: u8) -> (r: &'static str)
    ensures
        r@ == niri_transform_name_spec(transform),
        r@ == (if transform == 1 { "90"@ } else if transform == 2 { "180"@ } else if transform == 3 {
            "270"@
        } else if transform == 4 { "flipped"@ } else if transform == 5 { "flipped-90"@ } else if transform
            == 6 { "flipped-180"@ } else if transform == 7 { "flipped-270"@ } else { "normal"@ }),
{
    match transform {
        1 => "90",
        2 => "180",
        3 => "270",
        4 => "flipped",
        5 => "flipped-90",
        6 => "flipped-180",
        7 => "flipped-270",
        _ => "normal",
    }
}

/// `xrandr`'s rotation for a transform; flips are not rotations and become
/// `normal`.
pub fn xrandr_rotation(transform: u8) -> (r: &'static str)
    ensures
        r@ == (if transform == 1 { "left"@ } else if transform == 2 { "inverted"@ } else if transform
            == 3 { "right"@ } else { "normal"@ }),
{
    match transform {
        1 => "left",
        2 => "inverted",
        3 => "right",
        _ => "normal",
    }
}

/// The transform a `niri` output reports, as a number; `Normal` and any
/// unknown name are 0.
pub open spec fn niri_transform_spec(name: Seq<char>) -> u8 {
    if name == "90"@ {
        1
    } else if name == "180"@ {
        2
    } else if name == "270"@ {
        3
    } else if name == "Flipped"@ {
        4
    } else if name == "Flipped90"@ {
        5
    } else if name == "Flipped180"@ {
        6
    } else if name == "Flipped270"@ {
        7
    } else {
        0
    }
}

/// `s` without its hyphens.
pub open spec fn without_hyphens(s: Seq<char>) -> Seq<char>
    decreases s.len(),
{
    if s.len() == 0 {
        s
    } else if s[0] == '-' {
        without_hyphens(s.drop_first())
    } else {
        seq![s[0]] + without_hyphens(s.drop_first())
    }
}

/// How `niri msg outputs` spells a transform name written to it: without
/// hyphens, first letter capitalised (`flipped-90` reads `Flipped90`).
pub open spec fn niri_spelling(written: Seq<char>) -> Seq<char> {
    let s = without_hyphens(written);
    if s.len() > 0 {
        seq![crate::text::upper(s[0])] + s.drop_first()
    } else {
        s
    }
}

/// A transform written to niri by name and read back from niri's report of
/// it is the same transform: saved profiles re-apply what they saved.
pub proof fn niri_transforms_round_trip(t: u8)
    requires
        t <= 7,
    ensures
        niri_transform_spec(niri_spelling(niri_transform_name_spec(t))) == t,
{
    reveal_strlit("90");
    reveal_strlit("180");
    reveal_strlit("270");
    reveal_strlit("normal");
    reveal_strlit("flipped");
    reveal_strlit("flipped-90");
    reveal_strlit("flipped-180");
    reveal_strlit("flipped-270");
    reveal_strlit("Flipped");
    reveal_strlit("Flipped90");
    reveal_strlit("Flipped180");
    reveal_strlit("Flipped270");
    reveal_strlit("flipped90");
    reveal_strlit("flipped180");
    reveal_strlit("flipped270");
    reveal_with_fuel(without_hyphens, 12);
    let w = niri_transform_name_spec(t);
    let r = niri_spelling(w);
    if t == 0 {
        assert(without_hyphens(w) =~= "normal"@);
        assert(r.len() == 6);
        assert(r != "90"@ && r != "180"@ && r != "270"@);
        assert(r != "Flipped"@ && r != "Flipped90"@ && r != "Flipped180"@ && r != "Flipped270"@);
        assert(niri_transform_spec(r) == 0);
    } else if t == 1 {
        assert(without_hyphens(w) =~= "90"@);
        assert(r =~= "90"@);
        assert(niri_transform_spec(r) == 1);
    } else if t == 2 {
        assert(without_hyphens(w) =~= "180"@);
        assert(r =~= "180"@);
        assert(niri_transform_spec(r) == 2);
    } else if t == 3 {
        assert(without_hyphens(w) =~= "270"@);
        assert(r =~= "270"@);
        assert(niri_transform_spec(r) == 3);
    } else if t == 4 {
        assert(without_hyphens(w) =~= "flipped"@);
        assert(r =~= "Flipped"@);
        assert(niri_transform_spec(r) == 4);
    } else if t == 5 {
        assert(without_hyphens(w) =~= "flipped90"@);
        assert(r =~= "Flipped90"@);
        assert(niri_transform_spec(r) == 5);
    } else if t == 6 {
        assert(without_hyphens(w) =~= "flipped180"@);
        assert(r =~= "Flipped180"@);
        assert(niri_transform_spec(r) == 6);
    } else {
        assert(without_hyphens(w) =~= "flipped270"@);
        assert(r =~= "Flipped270"@);
        assert(r[7] != "Flipped180"@[7]);
        assert(niri_transform_spec(r) == 7);
    }
}

/// niri names a rotation by its degrees: `q` quarter turns read from the
/// decimal degrees `90 * q` as transform `q`, and with `Flipped` in front
/// as the flipped transform `4 + q`.
pub proof fn niri_rotations_read_as_quarter_turns(q: nat)
    requires
        1 <= q <= 3,
    ensures
        niri_transform_spec(crate::text::dec(90 * q)) == q,
        niri_transform_spec("Flipped"@ + crate::text::dec(90 * q)) == 4 + q,
{
    reveal_strlit("90");
    reveal_strlit("180");
    reveal_strlit("270");
    reveal_strlit("Flipped");
    reveal_strlit("Flipped90");
    reveal_strlit("Flipped180");
    reveal_strlit("Flipped270");
    reveal_with_fuel(crate::text::dec, 4);
    let d = crate::text::dec(90 * q);
    assert(crate::text::digit(0) == '0' && crate::text::digit(9) == '9' && crate::text::digit(1) == '1'
        && crate::text::digit(8) == '8' && crate::text::digit(2) == '2' && crate::text::digit(7) == '7');
    if q == 1 {
        assert(d =~= "90"@);
        assert(niri_transform_spec(d) == 1);
        assert("Flipped"@ + d =~= "Flipped90"@);
        assert(niri_transform_spec("Flipped"@ + d) == 5);
    } else if q == 2 {
        assert(d =~= "180"@);
        assert(niri_transform_spec(d) == 2);
        assert("Flipped"@ + d =~= "Flipped180"@);
        assert(niri_transform_spec("Flipped"@ + d) == 6);
    } else {
        assert(d =~= "270"@);
        assert(d[0] != "180"@[0]);
        assert(niri_transform_spec(d) == 3);
        assert("Flipped"@ + d =~= "Flipped270"@);
        assert(("Flipped"@ + d)[7] != "Flipped180"@[7]);
        assert(niri_transform_spec("Flipped"@ + d) == 7);
    }
}

/// The transform a `niri` output reports, as a number.
pub fn niri_transform_byte(name: &str) -> (t: u8)
    ensures
        t == niri_transform_spec(name@),
{
    let v = chars_of(name);
    if crate::text::vec_eq(&v, &chars_of("90")) {
        1
    } else if crate::text::vec_eq(&v, &chars_of("180")) {
        2
    } else if crate::text::vec_eq(&v, &chars_of("270")) {
        3
    } else if crate::text::vec_eq(&v, &chars_of("Flipped")) {
        4
    } else if crate::text::vec_eq(&v, &chars_of("Flipped90")) {
        5
    } else if crate::text::vec_eq(&v, &chars_of("Flipped180")) {
        6
    } else if crate::text::vec_eq(&v, &chars_of("Flipped270")) {
        7
    } else {
        0
    }
}

} // verus!

//! `pass` entries: parsing credentials and turning typing or clipboard
//! requests into program invocations that keep secrets out of argv.
use vstd::prelude::*;

use crate::text::{
    chars_of, dec, first_index_of, index_of_in, is_prefix, last_index, last_index_of, lemma_first_index_of,
    lower_seq, lower_vec, owned, push_char, push_dec, slice_vec, starts_with, string_of, trim,
    trim_vec, vec_eq, digit, opt_view,
};

verus! {

pub const DEFAULT_CLIP_TIMEOUT_SECONDS: u64 = 15;

#[derive(Clone, Debug)]
pub struct Credential {
    pub entry: String,
    pub password: String,
    pub username: String,
    /// `key: value` metadata lines, keys lower-cased, first occurrence kept,
    /// in the order of the entry.
    pub fields: Vec<(String, String)>,
    pub url: Option<String>,
    pub otp_uri: Option<String>,
    pub autotype: Option<String>,
}

#[derive(Clone, Debug, PartialEq, Eq)]
pub enum TypeStep {
    Text(String),
    Key(&'static str),
    Delay(u64),
}

#[derive(Clone, Debug, PartialEq, Eq)]
pub struct ProgramInput {
    pub program: String,
    pub args: Vec<String>,
    pub stdin: Option<String>,
}

/// Why a `pass` entry could not be read as a credential.
#[derive(Clone, Copy, Debug, PartialEq, Eq)]
pub enum CredentialError {
    /// The first line, which holds the password, is missing or empty.
    MissingPassword,
}

// ---------------------------------------------------------------------------
// Specification
// ---------------------------------------------------------------------------

/// One trailing `\r` removed.
pub open spec fn strip_cr(line: Seq<char>) -> Seq<char> {
    if line.len() > 0 && line.last() == '\r' {
        line.drop_last()
    } else {
        line
    }
}

/// The lines of a text as `str::lines` yields them: split at `\n`, a `\r`
/// before the `\n` dropped, no final empty line after a trailing `\n`.
pub open spec fn lines_of(s: Seq<char>) -> Seq<Seq<char>>
    decreases s.len(),
{
    if s.len() == 0 {
        Seq::empty()
    } else {
        match first_index_of(s, '\n') {
            None => seq![s],
            Some(k) => {
                proof {
                    crate::text::lemma_first_index_of_range(s, '\n');
                }
                seq![strip_cr(s.take(k))] + lines_of(s.skip(k + 1))
            },
        }
    }
}

pub type FieldsSpec = Seq<(Seq<char>, Seq<char>)>;

/// The value of the first field named `key`.
pub open spec fn lookup(fields: FieldsSpec, key: Seq<char>) -> Option<Seq<char>>
    decreases fields.len(),
{
    if fields.len() == 0 {
        None
    } else if fields[0].0 == key {
        Some(fields[0].1)
    } else {
        lookup(fields.drop_first(), key)
    }
}

/// The state of the metadata scan: the fields and the one-time password URI.
pub type ScanSpec = (FieldsSpec, Option<Seq<char>>);

/// One metadata line: the first `otpauth://` line is the OTP URI; otherwise a
/// `key: value` line adds a field unless its (trimmed, lower-cased) key is
/// empty or already present.
pub open spec fn scan_line(state: ScanSpec, line: Seq<char>) -> ScanSpec {
    let t = trim(line);
    if is_prefix("otpauth://"@, t) && state.1 is None {
        (state.0, Some(t))
    } else {
        match first_index_of(t, ':') {
            None => state,
            Some(k) => {
                let key = lower_seq(trim(t.take(k)));
                let value = trim(t.skip(k + 1));
                if key.len() == 0 || lookup(state.0, key) is Some {
                    state
                } else {
                    (state.0.push((key, value)), state.1)
                }
            },
        }
    }
}

/// The metadata scan over `lines`, in order.
pub open spec fn scan_lines(lines: Seq<Seq<char>>) -> ScanSpec
    decreases lines.len(),
{
    if lines.len() == 0 {
        (Seq::empty(), None)
    } else {
        scan_line(scan_lines(lines.drop_last()), lines.last())
    }
}

/// The value of the first of `keys` that is present, if it is non-empty.
pub open spec fn pick(fields: FieldsSpec, keys: Seq<Seq<char>>) -> Option<Seq<char>>
    decreases keys.len(),
{
    if keys.len() == 0 {
        None
    } else {
        match lookup(fields, keys[0]) {
            Some(v) => if v.len() > 0 { Some(v) } else { None },
            None => pick(fields, keys.drop_first()),
        }
    }
}

/// The last `/`-separated component of an entry name, or the whole name when
/// that component is empty.
pub open spec fn fallback_username_spec(entry: Seq<char>) -> Seq<char> {
    let base = match last_index_of(entry, '/') {
        Some(i) => entry.skip(i + 1),
        None => entry,
    };
    if base.len() > 0 { base } else { entry }
}

pub open spec fn username_keys() -> Seq<Seq<char>> {
    seq!["user"@, "username"@, "email"@]
}

pub open spec fn url_keys() -> Seq<Seq<char>> {
    seq!["url"@, "website"@]
}

pub open spec fn autotype_keys() -> Seq<Seq<char>> {
    seq!["autotype"@, "type"@]
}

// ---------------------------------------------------------------------------
// Parsing
// ---------------------------------------------------------------------------

pub fn split_lines(v: &Vec<char>) -> (lines: Vec<Vec<char>>)
    ensures
        lines@.len() == lines_of(v@).len(),
        forall|i: int| 0 <= i < lines@.len() ==> #[trigger] lines@[i]@ == lines_of(v@)[i],
{
    let mut lines: Vec<Vec<char>> = Vec::new();
    let mut pos: usize = 0;
    let ghost mut done: Seq<Seq<char>> = Seq::empty();
    assert(v@.skip(0) =~= v@);
    assert(lines_of(v@) =~= done + lines_of(v@.skip(0)));
    while pos < v.len()
        invariant
            pos <= v.len(),
            done.len() == lines@.len(),
            forall|i: int| 0 <= i < lines@.len() ==> #[trigger] lines@[i]@ == done[i],
            lines_of(v@) == done + lines_of(v@.skip(pos as int)),
        decreases v.len() - pos,
    {
        let ghost rest = v@.skip(pos as int);
        match index_of_in(v, pos, v.len(), '\n') {
            None => {
                proof {
                    lemma_first_index_of(rest, '\n', rest.len() as int);
                    assert(lines_of(rest) == seq![rest]);
                    assert(v@.skip(v@.len() as int) =~= Seq::<char>::empty());
                    assert(lines_of(Seq::<char>::empty()) =~= Seq::<Seq<char>>::empty());
                }
                let line = slice_vec(v, pos, v.len());
                assert(line@ =~= rest);
                lines.push(line);
                proof {
                    assert(lines_of(v@) =~= done.push(rest) + lines_of(v@.skip(v@.len() as int)));
                    done = done.push(rest);
                }
                pos = v.len();
            },
            Some(k) => {
                let ghost l = strip_cr(rest.take(k - pos));
                proof {
                    lemma_first_index_of(rest, '\n', k - pos);
                    assert(rest.take(k - pos) =~= v@.subrange(pos as int, k as int));
                    assert(rest.skip(k - pos + 1) =~= v@.skip(k + 1));
                    assert(lines_of(rest) == seq![l] + lines_of(v@.skip(k + 1)));
                    assert(lines_of(v@) =~= done.push(l) + lines_of(v@.skip(k + 1)));
                }
                let mut end = k;
                if end > pos && v[end - 1] == '\r' {
                    end = end - 1;
                }
                let line = slice_vec(v, pos, end);
                assert(line@ =~= l);
                lines.push(line);
                proof {
                    done = done.push(l);
                }
                pos = k + 1;
            },
        }
    }
    proof {
        assert(v@.skip(pos as int) =~= Seq::<char>::empty());
        assert(lines_of(v@) =~= done);
    }
    lines
}

pub open spec fn pairs_view(f: Seq<(Vec<char>, Vec<char>)>) -> FieldsSpec {
    f.map_values(|p: (Vec<char>, Vec<char>)| (p.0@, p.1@))
}

/// The fields of a credential as character sequences.
pub open spec fn fields_view(f: Seq<(String, String)>) -> FieldsSpec {
    f.map_values(|p: (String, String)| (p.0@, p.1@))
}

pub proof fn lemma_lookup(fields: FieldsSpec, key: Seq<char>, i: int)
    requires
        0 <= i <= fields.len(),
        forall|j: int| 0 <= j < i ==> fields[j].0 != key,
        i < fields.len() ==> fields[i].0 == key,
    ensures
        lookup(fields, key) == (if i < fields.len() { Some(fields[i].1) } else { None::<Seq<char>> }),
    decreases i,
{
    if fields.len() > 0 && i > 0 {
        lemma_lookup(fields.drop_first(), key, i - 1);
    }
}

fn lookup_index(fields: &Vec<(Vec<char>, Vec<char>)>, key: &Vec<char>) -> (r: Option<usize>)
    ensures
        match r {
            Some(i) => i < fields.len() && lookup(pairs_view(fields@), key@) == Some(fields@[i as int].1@),
            None => lookup(pairs_view(fields@), key@) is None,
        },
{
    let ghost fs = pairs_view(fields@);
    let mut i: usize = 0;
    while i < fields.len()
        invariant
            i <= fields.len(),
            fs == pairs_view(fields@),
            forall|j: int| 0 <= j < i ==> fs[j].0 != key@,
        decreases fields.len() - i,
    {
        if vec_eq(&fields[i].0, key) {
            proof {
                lemma_lookup(fs, key@, i as int);
            }
            return Some(i);
        }
        i = i + 1;
    }
    proof {
        lemma_lookup(fs, key@, fs.len() as int);
    }
    None
}

/// Applies one metadata line to the scan state.
fn scan_step(fields: &mut Vec<(Vec<char>, Vec<char>)>, otp: &mut Option<Vec<char>>, line: &Vec<char>)
    ensures
        (pairs_view(final(fields)@), match *final(otp) { Some(o) => Some(o@), None => None::<Seq<char>> })
            == scan_line((pairs_view(old(fields)@), match *old(otp) { Some(o) => Some(o@), None => None::<Seq<char>> }), line@),
{
    let t = trim_vec(line);
    let otp_prefix = chars_of("otpauth://");
    if starts_with(&t, &otp_prefix) && otp.is_none() {
        *otp = Some(t);
        return;
    }
    match crate::text::first_index(&t, ':') {
        None => {},
        Some(k) => {
            let key = lower_vec(&trim_vec(&slice_vec(&t, 0, k)));
            let value = trim_vec(&slice_vec(&t, k + 1, t.len()));
            assert(t@.take(k as int) =~= t@.subrange(0, k as int));
            assert(t@.skip(k + 1) =~= t@.subrange(k + 1, t@.len() as int));
            if key.len() == 0 {
                return;
            }
            match lookup_index(fields, &key) {
                Some(_) => {},
                None => {
                    fields.push((key, value));
                    assert(pairs_view(fields@) =~= pairs_view(old(fields)@).push((key@, value@)));
                },
            }
        },
    }
}

/// The value of the first of the given keys that is present, if non-empty.
fn pick_field(fields: &Vec<(Vec<char>, Vec<char>)>, keys: &Vec<&str>) -> (r: Option<String>)
    ensures
        match (r, pick(pairs_view(fields@), keys@.map_values(|k: &str| k@))) {
            (Some(got), Some(want)) => got@ == want,
            (None, None) => true,
            _ => false,
        },
{
    let ghost ks = keys@.map_values(|k: &str| k@);
    let mut i: usize = 0;
    assert(ks.skip(0) =~= ks);
    while i < keys.len()
        invariant
            i <= keys.len(),
            ks == keys@.map_values(|k: &str| k@),
            pick(pairs_view(fields@), ks) == pick(pairs_view(fields@), ks.skip(i as int)),
        decreases keys.len() - i,
    {
        let key = chars_of(keys[i]);
        assert(ks.skip(i as int)[0] == key@);
        assert(ks.skip(i as int).drop_first() =~= ks.skip(i + 1));
        match lookup_index(fields, &key) {
            Some(j) => {
                let value = &fields[j].1;
                if value.len() > 0 {
                    return Some(string_of(value));
                } else {
                    return None;
                }
            },
            None => {},
        }
        i = i + 1;
    }
    assert(ks.skip(i as int).len() == 0);
    None
}

/// The last `/`-separated component of an entry name, or the whole name
/// when that component is empty.
pub fn fallback_username(entry: &str) -> (r: String)
    ensures
        r@ == fallback_username_spec(entry@),
{
    let v = chars_of(entry);
    let start: usize = match last_index(&v, '/') {
        Some(i) => i + 1,
        None => 0,
    };
    assert(v@.skip(0) =~= v@);
    let base = slice_vec(&v, start, v.len());
    assert(base@ =~= v@.skip(start as int));
    if base.len() > 0 {
        string_of(&base)
    } else {
        string_of(&v)
    }
}

/// The credential that a decrypted `pass` entry describes.
pub open spec fn credential_spec(entry: Seq<char>, raw: Seq<char>, c: Credential) -> bool {
    let lines = lines_of(raw);
    let scan = scan_lines(lines.drop_first());
    &&& c.entry@ == entry
    &&& c.password@ == lines[0]
    &&& fields_view(c.fields@) == scan.0
    &&& opt_view(c.otp_uri) == scan.1
    &&& c.username@ == (match pick(scan.0, username_keys()) {
        Some(u) => u,
        None => fallback_username_spec(entry),
    })
    &&& opt_view(c.url) == pick(scan.0, url_keys())
    &&& opt_view(c.autotype) == pick(scan.0, autotype_keys())
}

/// Reads a decrypted `pass` entry: the first line is the password, an
/// `otpauth://` line the OTP URI, `key: value` lines metadata; the username
/// comes from `user`, `username` or `email`, else from the entry's basename.
/// Fails exactly when the first line is missing or empty.
pub fn parse_credential(entry: &str, raw: &str) -> (r: Result<Credential, CredentialError>)
    ensures
        match r {
            Ok(c) => lines_of(raw@).len() > 0 && lines_of(raw@)[0].len() > 0 && credential_spec(entry@, raw@, c),
            Err(e) => e == CredentialError::MissingPassword && (lines_of(raw@).len() == 0 || lines_of(raw@)[0].len() == 0),
        },
{
    let v = chars_of(raw);
    let lines = split_lines(&v);
    if lines.len() == 0 || lines[0].len() == 0 {
        return Err(CredentialError::MissingPassword);
    }
    let ghost all = lines_of(raw@);
    let ghost rest = all.drop_first();
    let mut fields: Vec<(Vec<char>, Vec<char>)> = Vec::new();
    let mut otp: Option<Vec<char>> = None;
    let mut i: usize = 1;
    assert(rest.take(0) =~= Seq::<Seq<char>>::empty());
    while i < lines.len()
        invariant
            1 <= i <= lines.len(),
            lines@.len() == all.len(),
            all == lines_of(raw@),
            rest == all.drop_first(),
            forall|j: int| 0 <= j < lines@.len() ==> #[trigger] lines@[j]@ == all[j],
            (pairs_view(fields@), match otp { Some(o) => Some(o@), None => None::<Seq<char>> })
                == scan_lines(rest.take(i - 1)),
        decreases lines.len() - i,
    {
        scan_step(&mut fields, &mut otp, &lines[i]);
        assert(rest.take(i as int).drop_last() =~= rest.take(i - 1));
        assert(rest.take(i as int).last() == lines@[i as int]@);
        i = i + 1;
    }
    assert(rest.take(i - 1) =~= rest);
    let username_keys_v: Vec<&str> = vec!["user", "username", "email"];
    let url_keys_v: Vec<&str> = vec!["url", "website"];
    let autotype_keys_v: Vec<&str> = vec!["autotype", "type"];
    assert(username_keys_v@.map_values(|k: &str| k@) =~= username_keys());
    assert(url_keys_v@.map_values(|k: &str| k@) =~= url_keys());
    assert(autotype_keys_v@.map_values(|k: &str| k@) =~= autotype_keys());
    let username = match pick_field(&fields, &username_keys_v) {
        Some(u) => u,
        None => fallback_username(entry),
    };
    let url = pick_field(&fields, &url_keys_v);
    let autotype = pick_field(&fields, &autotype_keys_v);
    let mut out_fields: Vec<(String, String)> = Vec::new();
    let mut j: usize = 0;
    while j < fields.len()
        invariant
            j <= fields.len(),
            out_fields@.len() == j,
            fields_view(out_fields@) == pairs_view(fields@).take(j as int),
        decreases fields.len() - j,
    {
        let ghost prev = out_fields@;
        let pair = (string_of(&fields[j].0), string_of(&fields[j].1));
        out_fields.push(pair);
        assert(out_fields@ == prev.push(pair));
        proof {
            let pv = pairs_view(fields@);
            let ov = fields_view(out_fields@);
            assert(pv.len() == fields@.len());
            assert(ov.len() == j + 1);
            assert forall|k: int| 0 <= k < j + 1 implies #[trigger] ov[k] == pv[k] by {
                assert(ov[k] == (out_fields@[k].0@, out_fields@[k].1@));
                assert(pv[k] == (fields@[k].0@, fields@[k].1@));
                if k < j {
                    assert(fields_view(prev)[k] == pv.take(j as int)[k]);
                    assert(fields_view(prev)[k] == (prev[k].0@, prev[k].1@));
                }
            }
            assert(ov =~= pv.take(j + 1));
        }
        j = j + 1;
    }
    assert(pairs_view(fields@).take(j as int) =~= pairs_view(fields@));
    let otp_uri = match otp {
        Some(o) => Some(string_of(&o)),
        None => None,
    };
    Ok(Credential {
        entry: owned(entry),
        password: string_of(&lines[0]),
        username,
        fields: out_fields,
        url,
        otp_uri,
        autotype,
    })
}

// ---------------------------------------------------------------------------
// Typing and clipboard commands
// ---------------------------------------------------------------------------

/// A program invocation as plain values: program, arguments, standard input.
pub type ProgramSpec = (Seq<char>, Seq<Seq<char>>, Option<Seq<char>>);

pub open spec fn program_view(p: ProgramInput) -> ProgramSpec {
    (p.program@, p.args@.map_values(|a: String| a@), opt_view(p.stdin))
}


/// `wtype` invocation for one step: text goes through standard input
/// (`wtype -`), keys as `-k KEY`, delays as `-s MILLISECONDS`.
pub open spec fn wtype_spec(step: TypeStep) -> ProgramSpec {
    match step {
        TypeStep::Text(text) => ("wtype"@, seq!["-"@], Some(text@)),
        TypeStep::Key(key) => ("wtype"@, seq!["-k"@, key@], None),
        TypeStep::Delay(ms) => ("wtype"@, seq!["-s"@, dec(ms as nat)], None),
    }
}

/// The fractional digits of `f / 1000` (`0 < f < 1000`) without trailing zeros.
pub open spec fn millis_fraction(f: nat) -> Seq<char> {
    if f % 100 == 0 {
        seq![digit(f / 100)]
    } else if f % 10 == 0 {
        seq![digit(f / 100), digit((f / 10) % 10)]
    } else {
        seq![digit(f / 100), digit((f / 10) % 10), digit(f % 10)]
    }
}

/// Seconds as `f64`'s `Display` writes `m / 1000` for a whole number of
/// milliseconds `m < 2^32`: shortest decimal, no exponent.
pub open spec fn seconds_text(m: nat) -> Seq<char> {
    if m % 1000 == 0 {
        dec(m / 1000)
    } else {
        dec(m / 1000) + seq!['.'] + millis_fraction(m % 1000)
    }
}

/// `xdotool` invocation for one step: text through standard input
/// (`xdotool type --clearmodifiers --file -`), keys as `xdotool key KEY`,
/// delays as `sleep SECONDS` (the delay taken modulo 2^32 milliseconds).
pub open spec fn xdotool_spec(step: TypeStep) -> ProgramSpec {
    match step {
        TypeStep::Text(text) => ("xdotool"@, seq!["type"@, "--clearmodifiers"@, "--file"@, "-"@], Some(text@)),
        TypeStep::Key(key) => ("xdotool"@, seq!["key"@, key@], None),
        TypeStep::Delay(ms) => ("sleep"@, seq![seconds_text((ms as nat) % 0x1_0000_0000)], None),
    }
}

/// Typed text reaches `wtype` and `xdotool` only through standard input:
/// a text step's arguments are the same whatever the text, and the text is
/// exactly what is written to the program.
pub proof fn typed_text_stays_out_of_arguments(a: TypeStep, b: TypeStep)
    requires
        a is Text,
        b is Text,
    ensures
        wtype_spec(a).1 == wtype_spec(b).1,
        xdotool_spec(a).1 == xdotool_spec(b).1,
        wtype_spec(a).2 == Some(a->Text_0@),
        xdotool_spec(a).2 == Some(a->Text_0@),
{
}

fn lit(s: &str) -> (r: String)
    ensures
        r@ == s@,
{
    owned(s)
}

/// Username, Tab, password: a login that is typed but never submitted.
pub fn default_login_steps(credential: &Credential) -> (steps: Vec<TypeStep>)
    ensures
        steps@.len() == 3,
        steps@[0] matches TypeStep::Text(t) && t@ == credential.username@,
        steps@[1] matches TypeStep::Key(k) && k@ == "Tab"@,
        steps@[2] matches TypeStep::Text(t) && t@ == credential.password@,
{
    let mut steps: Vec<TypeStep> = Vec::new();
    steps.push(TypeStep::Text(credential.username.clone()));
    steps.push(TypeStep::Key("Tab"));
    steps.push(TypeStep::Text(credential.password.clone()));
    steps
}

fn wtype_command(step: &TypeStep) -> (p: ProgramInput)
    ensures
        program_view(p) == wtype_spec(*step),
{
    let mut args: Vec<String> = Vec::new();
    let p = match step {
        TypeStep::Text(text) => {
            args.push(lit("-"));
            ProgramInput { program: lit("wtype"), args, stdin: Some(text.clone()) }
        },
        TypeStep::Key(key) => {
            args.push(lit("-k"));
            args.push(lit(key));
            ProgramInput { program: lit("wtype"), args, stdin: None }
        },
        TypeStep::Delay(ms) => {
            args.push(lit("-s"));
            let mut n = String::new();
            crate::text::push_dec(&mut n, *ms);
            args.push(n);
            ProgramInput { program: lit("wtype"), args, stdin: None }
        },
    };
    assert(program_view(p).1 =~= wtype_spec(*step).1);
    p
}

/// `wtype` invocations for a sequence of typing steps, one per step.
pub fn wtype_commands_for_steps(steps: &[TypeStep]) -> (commands: Vec<ProgramInput>)
    ensures
        commands@.len() == steps@.len(),
        forall|i: int| 0 <= i < steps@.len() ==> program_view(#[trigger] commands@[i]) == wtype_spec(steps@[i]),
{
    let mut commands: Vec<ProgramInput> = Vec::new();
    let mut i: usize = 0;
    while i < steps.len()
        invariant
            i <= steps@.len(),
            commands@.len() == i,
            forall|j: int| 0 <= j < i ==> program_view(#[trigger] commands@[j]) == wtype_spec(steps@[j]),
        decreases steps@.len() - i,
    {
        commands.push(wtype_command(&steps[i]));
        i = i + 1;
    }
    commands
}

fn seconds_string(ms: u64) -> (r: String)
    ensures
        r@ == seconds_text((ms as nat) % 0x1_0000_0000),
{
    let m: u64 = ms % 0x1_0000_0000;
    let whole = m / 1000;
    let f = m % 1000;
    let mut r = String::new();
    crate::text::push_dec(&mut r, whole);
    if f != 0 {
        push_char(&mut r, '.');
        let d1: u8 = (f / 100) as u8;
        let d2: u8 = ((f / 10) % 10) as u8;
        let d3: u8 = (f % 10) as u8;
        push_char(&mut r, (d1 + 48) as char);
        if f % 100 != 0 {
            push_char(&mut r, (d2 + 48) as char);
            if f % 10 != 0 {
                push_char(&mut r, (d3 + 48) as char);
            }
        }
        assert(r@ =~= dec(whole as nat) + seq!['.'] + millis_fraction(f as nat));
    }
    r
}

fn xdotool_command(step: &TypeStep) -> (p: ProgramInput)
    ensures
        program_view(p) == xdotool_spec(*step),
{
    let mut args: Vec<String> = Vec::new();
    let p = match step {
        TypeStep::Text(text) => {
            args.push(lit("type"));
            args.push(lit("--clearmodifiers"));
            args.push(lit("--file"));
            args.push(lit("-"));
            ProgramInput { program: lit("xdotool"), args, stdin: Some(text.clone()) }
        },
        TypeStep::Key(key) => {
            args.push(lit("key"));
            args.push(lit(key));
            ProgramInput { program: lit("xdotool"), args, stdin: None }
        },
        TypeStep::Delay(ms) => {
            args.push(seconds_string(*ms));
            ProgramInput { program: lit("sleep"), args, stdin: None }
        },
    };
    assert(program_view(p).1 =~= xdotool_spec(*step).1);
    p
}

/// `xdotool` invocations for a sequence of typing steps, one per step.
pub fn xdotool_commands_for_steps(steps: &[TypeStep]) -> (commands: Vec<ProgramInput>)
    ensures
        commands@.len() == steps@.len(),
        forall|i: int| 0 <= i < steps@.len() ==> program_view(#[trigger] commands@[i]) == xdotool_spec(steps@[i]),
{
    let mut commands: Vec<ProgramInput> = Vec::new();
    let mut i: usize = 0;
    while i < steps.len()
        invariant
            i <= steps@.len(),
            commands@.len() == i,
            forall|j: int| 0 <= j < i ==> program_view(#[trigger] commands@[j]) == xdotool_spec(steps@[j]),
        decreases steps@.len() - i,
    {
        commands.push(xdotool_command(&steps[i]));
        i = i + 1;
    }
    commands
}

/// `wl-copy` invocation that copies `text` through standard input, pastes it
/// once and clears it after the timeout (15 seconds when 0 is given).
pub fn wl_copy_command(text: &str, timeout_seconds: u64) -> (p: ProgramInput)
    ensures
        program_view(p) == ("wl-copy"@, seq!["--trim-newline"@, "--paste-once"@, "--clear"@, "--expire"@,
            dec((if timeout_seconds == 0 { DEFAULT_CLIP_TIMEOUT_SECONDS } else { timeout_seconds }) as nat)],
            Some(text@)),
{
    let timeout = if timeout_seconds == 0 { DEFAULT_CLIP_TIMEOUT_SECONDS } else { timeout_seconds };
    let mut args: Vec<String> = Vec::new();
    args.push(lit("--trim-newline"));
    args.push(lit("--paste-once"));
    args.push(lit("--clear"));
    args.push(lit("--expire"));
    let mut n = String::new();
    crate::text::push_dec(&mut n, timeout);
    assert(n@ =~= dec(timeout as nat));
    args.push(n);
    let p = ProgramInput { program: lit("wl-copy"), args, stdin: Some(owned(text)) };
    assert(program_view(p).1 =~= seq!["--trim-newline"@, "--paste-once"@, "--clear"@, "--expire"@, dec(timeout as nat)]);
    p
}

/// `xclip` invocation that copies `text` to the clipboard through standard input.
pub fn xclip_command(text: &str) -> (p: ProgramInput)
    ensures
        program_view(p) == ("xclip"@, seq!["-selection"@, "clipboard"@, "-in"@], Some(text@)),
{
    let mut args: Vec<String> = Vec::new();
    args.push(lit("-selection"));
    args.push(lit("clipboard"));
    args.push(lit("-in"));
    let p = ProgramInput { program: lit("xclip"), args, stdin: Some(owned(text)) };
    assert(program_view(p).1 =~= seq!["-selection"@, "clipboard"@, "-in"@]);
    p
}

} // verus!

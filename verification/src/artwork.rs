//! Media artwork: request generations, size limits, cache keys and which
//! source an artwork URI is read from.
use vstd::prelude::*;

use vstd::string::StringSliceAdditionalSpecFns;
use crate::control_spec::MediaControlSpec;
use crate::text::{chars_of, hex_digit, hex_digits, is_prefix, starts_with};

verus! {

pub const MAX_ARTWORK_BYTES: u64 = 8 * 1024 * 1024;
pub const MAX_CACHE_BYTES: u64 = 64 * 1024 * 1024;
pub const MAX_CACHE_FILES: usize = 64;

pub const FNV_OFFSET_BASIS: u64 = 0xcbf29ce484222325;
pub const FNV_PRIME: u64 = 0x100000001b3;

#[derive(Debug)]
pub struct ArtworkRequest {
    pub uri: String,
    pub generation: u64,
}

#[derive(Debug)]
pub struct ArtworkResult {
    pub uri: String,
    pub generation: u64,
    pub bytes: Result<Vec<u8>, String>,
}

/// Why artwork bytes were rejected.
#[derive(Clone, Copy, Debug, PartialEq, Eq)]
pub enum ArtworkError {
    /// More than `MAX_ARTWORK_BYTES` bytes.
    TooLarge,
    /// No bytes at all.
    Empty,
}

impl ArtworkError {
    /// The message shown for the error.
    pub fn message(&self) -> (m: &'static str)
        ensures
            m@ == match *self {
                ArtworkError::TooLarge => "artwork exceeds the 8 MiB limit"@,
                ArtworkError::Empty => "artwork is empty"@,
            },
    {
        match self {
            ArtworkError::TooLarge => "artwork exceeds the 8 MiB limit",
            ArtworkError::Empty => "artwork is empty",
        }
    }
}

/// Where an artwork URI is read from.
#[derive(Clone, Copy, Debug, PartialEq, Eq)]
pub enum ArtworkSource {
    /// A `file://` URI: read from the local file system.
    LocalFile,
    /// An `https://` URI: fetched over the network, through the cache.
    Remote,
    /// Any other scheme: refused.
    Unsupported,
}

/// Whether an artwork result belongs to the request generation that is current.
pub fn result_is_current(current_generation: u64, result_generation: u64) -> (current: bool)
    ensures
        current == (current_generation == result_generation),
{
    current_generation == result_generation
}

/// A candidate image replaces the best one only when it has strictly more pixels.
pub fn prefer_artwork_candidate(best_pixels: u64, candidate_pixels: u64) -> (prefer: bool)
    ensures
        prefer == (candidate_pixels > best_pixels),
{
    candidate_pixels > best_pixels
}

/// Accepts artwork of 1 to `MAX_ARTWORK_BYTES` bytes.
pub fn ensure_size(bytes: &[u8]) -> (r: Result<(), ArtworkError>)
    ensures
        r == (if bytes@.len() > MAX_ARTWORK_BYTES {
            Err(ArtworkError::TooLarge)
        } else if bytes@.len() == 0 {
            Err(ArtworkError::Empty)
        } else {
            Ok(())
        }),
{
    if bytes.len() as u64 > MAX_ARTWORK_BYTES {
        return Err(ArtworkError::TooLarge);
    }
    if bytes.len() == 0 {
        return Err(ArtworkError::Empty);
    }
    Ok(())
}

/// 64-bit FNV-1a over `bytes`.
pub open spec fn fnv1a(bytes: Seq<u8>) -> u64
    decreases bytes.len(),
{
    if bytes.len() == 0 {
        FNV_OFFSET_BASIS
    } else {
        (fnv1a(bytes.drop_last()) ^ (bytes.last() as u64)).wrapping_mul(FNV_PRIME)
    }
}

/// The cache file name of an artwork URI: the FNV-1a hash of its UTF-8
/// bytes as 16 lowercase hexadecimal digits.
pub open spec fn cache_key_spec(uri: &str) -> Seq<char> {
    hex_digits(fnv1a(uri.spec_bytes()) as nat, 16)
}

fn hex_chars(n: u64, k: usize) -> (r: Vec<char>)
    ensures
        r@ == hex_digits(n as nat, k as nat),
    decreases k,
{
    if k == 0 {
        Vec::new()
    } else {
        let mut r = hex_chars(n / 16, k - 1);
        let d: u8 = (n % 16) as u8;
        let c: char = if d < 10 { (d + 48) as char } else { (d - 10 + 97) as char };
        assert(c == hex_digit((n % 16) as nat));
        r.push(c);
        r
    }
}

/// The cache file name of an artwork URI.
pub fn cache_key(uri: &str) -> (key: String)
    ensures
        key@ == cache_key_spec(uri),
{
    let bytes = uri.as_bytes();
    let mut hash: u64 = FNV_OFFSET_BASIS;
    let mut i: usize = 0;
    while i < bytes.len()
        invariant
            i <= bytes@.len(),
            bytes@ == uri.spec_bytes(),
            hash == fnv1a(bytes@.subrange(0, i as int)),
        decreases bytes@.len() - i,
    {
        assert(bytes@.subrange(0, i + 1).drop_last() =~= bytes@.subrange(0, i as int));
        hash = hash ^ (bytes[i] as u64);
        hash = hash.wrapping_mul(FNV_PRIME);
        i = i + 1;
    }
    assert(bytes@.subrange(0, bytes@.len() as int) =~= bytes@);
    let digits = hex_chars(hash, 16);
    crate::text::string_of(&digits)
}

/// Where an artwork URI is read from: `file://` from disk, `https://` from
/// the network, anything else is refused.
pub fn artwork_source(uri: &str) -> (source: ArtworkSource)
    ensures
        source == (if is_prefix("file://"@, uri@) {
            ArtworkSource::LocalFile
        } else if is_prefix("https://"@, uri@) {
            ArtworkSource::Remote
        } else {
            ArtworkSource::Unsupported
        }),
{
    let v = chars_of(uri);
    if starts_with(&v, &chars_of("file://")) {
        ArtworkSource::LocalFile
    } else if starts_with(&v, &chars_of("https://")) {
        ArtworkSource::Remote
    } else {
        ArtworkSource::Unsupported
    }
}

/// Whether a cache of `files` files holding `bytes` bytes is within its
/// limits (pruning, oldest first, stops once it is).
pub fn cache_within_limits(files: usize, bytes: u64) -> (ok: bool)
    ensures
        ok == (files <= MAX_CACHE_FILES && bytes <= MAX_CACHE_BYTES),
{
    files <= MAX_CACHE_FILES && bytes <= MAX_CACHE_BYTES
}

// ---------------------------------------------------------------------------
// Which artwork to ask for
// ---------------------------------------------------------------------------

/// The track a media spec shows: its title and artist.
pub open spec fn track_of(media: Option<MediaControlSpec>) -> Option<(Seq<char>, Seq<char>)> {
    match media {
        Some(m) => Some((m.title@, m.artist@)),
        None => None,
    }
}

/// The artwork URI a media spec names.
pub open spec fn art_of(media: Option<MediaControlSpec>) -> Option<Seq<char>> {
    match media {
        Some(m) => match m.art_url {
            Some(u) => Some(u@),
            None => None,
        },
        None => None,
    }
}

/// The controller as plain values: track, requested URI, generation, the
/// pixels of the best image shown, and whether a delayed request waits.
pub type ControllerView = (Option<(Seq<char>, Seq<char>)>, Option<Seq<char>>, u64, u64, bool);

/// A command as plain values: `(0, _, _)` clears the artwork, `(1, _, _)`
/// cancels the delayed request, `(2, uri, g)` asks for `uri` now and
/// `(3, uri, g)` asks for it after a short delay, both for generation `g`.
pub type CommandView = (u8, Seq<char>, u64);

/// What the artwork loader and the media cards must do.
#[derive(Clone, Debug, PartialEq, Eq)]
pub enum ArtworkCommand {
    ClearArtwork,
    CancelPending,
    Request { uri: String, generation: u64 },
    RequestLater { uri: String, generation: u64 },
}

pub open spec fn command_view(c: ArtworkCommand) -> CommandView {
    match c {
        ArtworkCommand::ClearArtwork => (0u8, Seq::empty(), 0u64),
        ArtworkCommand::CancelPending => (1u8, Seq::empty(), 0u64),
        ArtworkCommand::Request { uri, generation } => (2u8, uri@, generation),
        ArtworkCommand::RequestLater { uri, generation } => (3u8, uri@, generation),
    }
}

/// Showing `media`: a new track starts a new generation, forgets the best
/// image and the requested URI, cancels a waiting request and clears the
/// artwork. Then a URI not requested yet is asked for: at once when no image
/// is shown, else after a short delay (a waiting request is cancelled first).
pub open spec fn show_spec(s: ControllerView, media: Option<MediaControlSpec>) -> (ControllerView, Seq<CommandView>) {
    let next = track_of(media);
    let changed = s.0 != next;
    let s1: ControllerView = if changed {
        (next, None, s.2.wrapping_add(1), 0u64, false)
    } else {
        s
    };
    let c1: Seq<CommandView> = if changed {
        (if s.4 {
            seq![(1u8, Seq::<char>::empty(), 0u64)]
        } else {
            Seq::empty()
        }).push((0u8, Seq::empty(), 0u64))
    } else {
        Seq::empty()
    };
    let uri = art_of(media);
    if !changed && uri is None {
        (s1, c1)
    } else if s1.1 == uri {
        (s1, c1)
    } else {
        let c2 = if s1.4 {
            c1.push((1u8, Seq::empty(), 0u64))
        } else {
            c1
        };
        match uri {
            Some(u) => if s1.3 == 0 {
                ((s1.0, Some(u), s1.2, s1.3, false), c2.push((2u8, u, s1.2)))
            } else {
                ((s1.0, Some(u), s1.2, s1.3, true), c2.push((3u8, u, s1.2)))
            },
            None => ((s1.0, None, s1.2, s1.3, false), if changed {
                c2.push((0u8, Seq::empty(), 0u64))
            } else {
                c2
            }),
        }
    }
}

/// How loading an image ended.
#[derive(Clone, Copy, Debug, PartialEq, Eq)]
pub enum ArtworkLoad {
    /// The bytes could not be read or decoded.
    Failed,
    /// An image of this many pixels.
    Decoded { pixels: u64 },
}

/// Decides which artwork the media cards ask for and show.
pub struct ArtworkController {
    track: Option<(String, String)>,
    requested: Option<String>,
    generation: u64,
    best_pixels: u64,
    pending: bool,
}

impl ArtworkController {
    pub closed spec fn view(&self) -> ControllerView {
        (
            match self.track {
                Some((t, a)) => Some((t@, a@)),
                None => None,
            },
            match self.requested {
                Some(u) => Some(u@),
                None => None,
            },
            self.generation,
            self.best_pixels,
            self.pending,
        )
    }

    /// No track, nothing requested, generation 0.
    pub fn new() -> (c: Self)
        ensures
            c.view() == (None::<(Seq<char>, Seq<char>)>, None::<Seq<char>>, 0u64, 0u64, false),
    {
        ArtworkController { track: None, requested: None, generation: 0, best_pixels: 0, pending: false }
    }

    /// The current request generation.
    pub fn generation(&self) -> (g: u64)
        ensures
            g == self.view().2,
    {
        self.generation
    }

    /// Shows `media`, and says what to clear, cancel and ask for.
    pub fn show(&mut self, media: Option<&MediaControlSpec>) -> (commands: Vec<ArtworkCommand>)
        ensures
            ({
                let m = match media {
                    Some(x) => Some(*x),
                    None => None,
                };
                &&& final(self).view() == show_spec(old(self).view(), m).0
                &&& commands@.map_values(|c: ArtworkCommand| command_view(c)) == show_spec(old(self).view(), m).1
            }),
    {
        let ghost m = match media {
            Some(x) => Some(*x),
            None => None,
        };
        let ghost s = self.view();
        let mut commands: Vec<ArtworkCommand> = Vec::new();
        let changed = match (&self.track, media) {
            (Some((t, a)), Some(x)) => !(*t == x.title && *a == x.artist),
            (None, None) => false,
            _ => true,
        };
        if changed {
            self.track = match media {
                Some(x) => Some((x.title.clone(), x.artist.clone())),
                None => None,
            };
            self.requested = None;
            self.generation = self.generation.wrapping_add(1);
            self.best_pixels = 0;
            if self.pending {
                commands.push(ArtworkCommand::CancelPending);
                self.pending = false;
            }
            commands.push(ArtworkCommand::ClearArtwork);
        }
        let ghost s1 = self.view();
        let ghost c1 = commands@.map_values(|c: ArtworkCommand| command_view(c));
        proof {
            assert(s1 == (if changed { (track_of(m), None::<Seq<char>>, s.2.wrapping_add(1), 0u64, false) } else { s }));
            assert(c1 =~= (if changed {
                (if s.4 {
                    seq![(1u8, Seq::<char>::empty(), 0u64)]
                } else {
                    Seq::empty()
                }).push((0u8, Seq::empty(), 0u64))
            } else {
                Seq::empty()
            }));
        }
        let uri: Option<&String> = match media {
            Some(x) => match &x.art_url {
                Some(u) => Some(u),
                None => None,
            },
            None => None,
        };
        if !changed && uri.is_none() {
            return commands;
        }
        let same = match (&self.requested, uri) {
            (Some(r), Some(u)) => *r == *u,
            (None, None) => true,
            _ => false,
        };
        if same {
            return commands;
        }
        self.requested = match uri {
            Some(u) => Some(u.clone()),
            None => None,
        };
        if self.pending {
            commands.push(ArtworkCommand::CancelPending);
            self.pending = false;
        }
        match uri {
            Some(u) => {
                if self.best_pixels == 0 {
                    commands.push(ArtworkCommand::Request { uri: u.clone(), generation: self.generation });
                } else {
                    commands.push(ArtworkCommand::RequestLater { uri: u.clone(), generation: self.generation });
                    self.pending = true;
                }
            },
            None => {
                if changed {
                    commands.push(ArtworkCommand::ClearArtwork);
                }
            },
        }
        proof {
            assert(commands@.map_values(|c: ArtworkCommand| command_view(c)) =~= show_spec(s, m).1);
        }
        commands
    }

    /// The delayed request for `uri` of `generation` is due: it goes out if
    /// that URI is still the one requested.
    pub fn fire_pending(&mut self, uri: &str, generation: u64) -> (r: Option<ArtworkCommand>)
        ensures
            final(self).view() == (old(self).view().0, old(self).view().1, old(self).view().2, old(self).view().3, false),
            match r {
                Some(c) => old(self).view().1 == Some(uri@) && command_view(c) == (2u8, uri@, generation),
                None => old(self).view().1 != Some(uri@),
            },
    {
        self.pending = false;
        let due = match &self.requested {
            Some(r) => crate::text::str_eq(r.as_str(), uri),
            None => false,
        };
        if due {
            Some(ArtworkCommand::Request { uri: crate::text::owned(uri), generation })
        } else {
            None
        }
    }

    /// A load for `uri` of generation `result_generation` ended: a result of
    /// an older generation is dropped; a failure forgets the request so a
    /// later show asks again; an image is shown only when it has more
    /// pixels than the one shown.
    pub fn loaded(&mut self, result_generation: u64, uri: &str, outcome: ArtworkLoad) -> (show: bool)
        ensures
            result_generation != old(self).view().2 ==> !show && final(self).view() == old(self).view(),
            result_generation == old(self).view().2 ==> match outcome {
                ArtworkLoad::Failed => !show && final(self).view() == (
                    old(self).view().0,
                    if old(self).view().1 == Some(uri@) {
                        None
                    } else {
                        old(self).view().1
                    },
                    old(self).view().2,
                    old(self).view().3,
                    old(self).view().4,
                ),
                ArtworkLoad::Decoded { pixels } => show == (pixels > old(self).view().3) && final(self).view() == (
                    old(self).view().0,
                    old(self).view().1,
                    old(self).view().2,
                    if show {
                        pixels
                    } else {
                        old(self).view().3
                    },
                    old(self).view().4,
                ),
            },
    {
        if !result_is_current(self.generation, result_generation) {
            return false;
        }
        match outcome {
            ArtworkLoad::Failed => {
                let forget = match &self.requested {
                    Some(r) => crate::text::str_eq(r.as_str(), uri),
                    None => false,
                };
                if forget {
                    self.requested = None;
                }
                false
            },
            ArtworkLoad::Decoded { pixels } => {
                if prefer_artwork_candidate(self.best_pixels, pixels) {
                    self.best_pixels = pixels;
                    true
                } else {
                    false
                }
            },
        }
    }
}

/// Showing the same media twice in a row asks for nothing the second time
/// and changes nothing.
pub proof fn showing_the_same_media_again_changes_nothing(s: ControllerView, media: Option<MediaControlSpec>)
    ensures
        show_spec(show_spec(s, media).0, media) == (show_spec(s, media).0, Seq::<CommandView>::empty()),
{
}

/// A new track always starts a new request generation and clears the shown
/// artwork, so no image of the previous track can be shown for it.
pub proof fn a_new_track_starts_a_new_generation(s: ControllerView, media: Option<MediaControlSpec>)
    requires
        s.0 != track_of(media),
    ensures
        show_spec(s, media).0.2 == s.2.wrapping_add(1),
        show_spec(s, media).0.3 == 0,
        show_spec(s, media).1.contains((0u8, Seq::<char>::empty(), 0u64)),
{
    let c = show_spec(s, media).1;
    let c1: Seq<CommandView> = (if s.4 {
        seq![(1u8, Seq::<char>::empty(), 0u64)]
    } else {
        Seq::empty()
    }).push((0u8, Seq::empty(), 0u64));
    assert(c1[c1.len() - 1] == (0u8, Seq::<char>::empty(), 0u64));
    assert(c.subrange(0, c1.len() as int) =~= c1) by {
        assert(c.len() >= c1.len());
    }
    assert(c[c1.len() - 1] == c1[c1.len() - 1]);
}

} // verus!

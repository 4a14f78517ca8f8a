//! The control center's decisions: its pages and how actions are routed to
//! them, per-page errors, slider debouncing, the open/close motion, gauges,
//! the quick-settings grid, timers and the agenda of a day.
use vstd::prelude::*;

use crate::state::CalendarAgendaEvent;
use crate::sort::{is_permutation, is_sorted_by, sort_indices, KeySpec, SortKey};
use crate::text::{
    chars_of, dec, dec2, index_of_in, lemma_first_index_of, owned, push_dec, push_dec2, push_str,
    slice_vec, starts_with, first_index_of, is_prefix, vec_eq,
};

verus! {

#[derive(Clone, Copy, Debug, PartialEq, Eq, PartialOrd, Ord, Hash, Structural)]
pub enum ControlCenterFocus {
    Overview,
    Keyboard,
    Resources,
    Network,
    Bluetooth,
    Audio,
    Power,
    Clock,
}

pub open spec fn focus_name(f: ControlCenterFocus) -> Seq<char> {
    match f {
        ControlCenterFocus::Overview => "overview"@,
        ControlCenterFocus::Keyboard => "keyboard"@,
        ControlCenterFocus::Resources => "resources"@,
        ControlCenterFocus::Network => "network"@,
        ControlCenterFocus::Bluetooth => "bluetooth"@,
        ControlCenterFocus::Audio => "audio"@,
        ControlCenterFocus::Power => "power"@,
        ControlCenterFocus::Clock => "clock"@,
    }
}

/// A page's heading.
pub open spec fn focus_title(f: ControlCenterFocus) -> Seq<char> {
    match f {
        ControlCenterFocus::Overview => "Quick Settings"@,
        ControlCenterFocus::Keyboard => "Keyboard"@,
        ControlCenterFocus::Resources => "System Resources"@,
        ControlCenterFocus::Network => "Network"@,
        ControlCenterFocus::Bluetooth => "Bluetooth"@,
        ControlCenterFocus::Audio => "Audio"@,
        ControlCenterFocus::Power => "Power"@,
        ControlCenterFocus::Clock => "Time & Focus"@,
    }
}

/// The line under a page's heading.
pub open spec fn focus_subtitle(f: ControlCenterFocus) -> Seq<char> {
    match f {
        ControlCenterFocus::Overview => "System overview"@,
        ControlCenterFocus::Keyboard => "Input layout"@,
        ControlCenterFocus::Resources => "CPU and memory"@,
        ControlCenterFocus::Network => "Connectivity"@,
        ControlCenterFocus::Bluetooth => "Devices and discovery"@,
        ControlCenterFocus::Audio => "Volume and playback"@,
        ControlCenterFocus::Power => "Performance and energy"@,
        ControlCenterFocus::Clock => "Calendar and timers"@,
    }
}

/// The pages in their fixed order.
pub open spec fn all_focuses() -> Seq<ControlCenterFocus> {
    seq![
        ControlCenterFocus::Overview,
        ControlCenterFocus::Keyboard,
        ControlCenterFocus::Resources,
        ControlCenterFocus::Network,
        ControlCenterFocus::Bluetooth,
        ControlCenterFocus::Audio,
        ControlCenterFocus::Power,
        ControlCenterFocus::Clock,
    ]
}

impl ControlCenterFocus {
    /// Every page, overview first.
    pub fn all() -> (v: Vec<ControlCenterFocus>)
        ensures
            v@ == all_focuses(),
    {
        let v = vec![
            ControlCenterFocus::Overview,
            ControlCenterFocus::Keyboard,
            ControlCenterFocus::Resources,
            ControlCenterFocus::Network,
            ControlCenterFocus::Bluetooth,
            ControlCenterFocus::Audio,
            ControlCenterFocus::Power,
            ControlCenterFocus::Clock,
        ];
        assert(v@ =~= all_focuses());
        v
    }

    /// The page's name in action origins.
    pub fn as_str(self) -> (r: &'static str)
        ensures
            r@ == focus_name(self),
    {
        match self {
            ControlCenterFocus::Overview => "overview",
            ControlCenterFocus::Keyboard => "keyboard",
            ControlCenterFocus::Resources => "resources",
            ControlCenterFocus::Network => "network",
            ControlCenterFocus::Bluetooth => "bluetooth",
            ControlCenterFocus::Audio => "audio",
            ControlCenterFocus::Power => "power",
            ControlCenterFocus::Clock => "clock",
        }
    }

    /// The page's heading.
    pub fn title(self) -> (r: &'static str)
        ensures
            r@ == focus_title(self),
    {
        match self {
            ControlCenterFocus::Overview => "Quick Settings",
            ControlCenterFocus::Keyboard => "Keyboard",
            ControlCenterFocus::Resources => "System Resources",
            ControlCenterFocus::Network => "Network",
            ControlCenterFocus::Bluetooth => "Bluetooth",
            ControlCenterFocus::Audio => "Audio",
            ControlCenterFocus::Power => "Power",
            ControlCenterFocus::Clock => "Time & Focus",
        }
    }

    /// The line under the page's heading.
    pub fn subtitle(self) -> (r: &'static str)
        ensures
            r@ == focus_subtitle(self),
    {
        match self {
            ControlCenterFocus::Overview => "System overview",
            ControlCenterFocus::Keyboard => "Input layout",
            ControlCenterFocus::Resources => "CPU and memory",
            ControlCenterFocus::Network => "Connectivity",
            ControlCenterFocus::Bluetooth => "Devices and discovery",
            ControlCenterFocus::Audio => "Volume and playback",
            ControlCenterFocus::Power => "Performance and energy",
            ControlCenterFocus::Clock => "Calendar and timers",
        }
    }

    /// The query the page hands to the launcher.
    pub fn luma_query(self) -> (r: &'static str)
        ensures
            r@ == match self {
                ControlCenterFocus::Overview => "system"@,
                ControlCenterFocus::Keyboard => "keyboard"@,
                ControlCenterFocus::Resources => "system"@,
                ControlCenterFocus::Network => "network"@,
                ControlCenterFocus::Bluetooth => "bluetooth"@,
                ControlCenterFocus::Audio => "audio"@,
                ControlCenterFocus::Power => "power"@,
                ControlCenterFocus::Clock => "calendar"@,
            },
    {
        match self {
            ControlCenterFocus::Overview => "system",
            ControlCenterFocus::Keyboard => "keyboard",
            ControlCenterFocus::Resources => "system",
            ControlCenterFocus::Network => "network",
            ControlCenterFocus::Bluetooth => "bluetooth",
            ControlCenterFocus::Audio => "audio",
            ControlCenterFocus::Power => "power",
            ControlCenterFocus::Clock => "calendar",
        }
    }
}

// ---------------------------------------------------------------------------
// Action origins
// ---------------------------------------------------------------------------

/// `control-center:PAGE:ACTION`.
pub open spec fn origin_spec(f: ControlCenterFocus, action: Seq<char>) -> Seq<char> {
    "control-center:"@ + focus_name(f) + ":"@ + action
}

/// The page named by the first `:`-separated segment after
/// `control-center:`, if it names one.
pub open spec fn focus_of_origin(origin: Seq<char>) -> Option<ControlCenterFocus> {
    if is_prefix("control-center:"@, origin) {
        let rest = origin.skip(15);
        let section = match first_index_of(rest, ':') {
            Some(k) => rest.take(k),
            None => rest,
        };
        focus_named(section)
    } else {
        None
    }
}

/// The page whose name is `section`.
pub open spec fn focus_named(section: Seq<char>) -> Option<ControlCenterFocus> {
    if exists|i: int| 0 <= i < 8 && focus_name(#[trigger] all_focuses()[i]) == section {
        Some(all_focuses()[choose|i: int| 0 <= i < 8 && focus_name(#[trigger] all_focuses()[i]) == section])
    } else {
        None
    }
}

proof fn lemma_focus_named(i: int)
    requires
        0 <= i < 8,
    ensures
        focus_named(focus_name(all_focuses()[i])) == Some(all_focuses()[i]),
{
    lemma_focus_names_distinct();
    let section = focus_name(all_focuses()[i]);
    let c = choose|c: int| 0 <= c < 8 && focus_name(#[trigger] all_focuses()[c]) == section;
    if c != i {
        assert(focus_name(all_focuses()[c]) != focus_name(all_focuses()[i]));
    }
}

/// The origin of an action taken on a page.
pub fn control_center_origin(focus: ControlCenterFocus, action: &str) -> (r: String)
    ensures
        r@ == origin_spec(focus, action@),
{
    let mut r = owned("control-center:");
    push_str(&mut r, focus.as_str());
    push_str(&mut r, ":");
    push_str(&mut r, action);
    r
}

proof fn lemma_focus_names_distinct()
    ensures
        forall|i: int, j: int| 0 <= i < 8 && 0 <= j < 8 && i != j ==> focus_name(#[trigger] all_focuses()[i])
            != focus_name(#[trigger] all_focuses()[j]),
        forall|i: int| 0 <= i < 8 ==> first_index_of(#[trigger] focus_name(all_focuses()[i]), ':') is None,
{
    reveal_strlit("overview");
    reveal_strlit("keyboard");
    reveal_strlit("resources");
    reveal_strlit("network");
    reveal_strlit("bluetooth");
    reveal_strlit("audio");
    reveal_strlit("power");
    reveal_strlit("clock");
    assert forall|i: int| 0 <= i < 8 implies first_index_of(#[trigger] focus_name(all_focuses()[i]), ':') is None by {
        let n = focus_name(all_focuses()[i]);
        lemma_no_colon(n);
    }
}

proof fn lemma_no_colon(s: Seq<char>)
    requires
        forall|k: int| 0 <= k < s.len() ==> s[k] != ':',
    ensures
        first_index_of(s, ':') is None,
    decreases s.len(),
{
    if s.len() > 0 {
        lemma_no_colon(s.drop_first());
    }
}

/// The page an action origin belongs to.
pub fn focus_from_origin(origin: &str) -> (r: Option<ControlCenterFocus>)
    ensures
        r == focus_of_origin(origin@),
{
    let v = chars_of(origin);
    let prefix = chars_of("control-center:");
    proof {
        reveal_strlit("control-center:");
    }
    if !starts_with(&v, &prefix) {
        return None;
    }
    let ghost rest = v@.skip(15);
    let end = match index_of_in(&v, 15, v.len(), ':') {
        Some(k) => {
            proof {
                lemma_first_index_of(rest, ':', k - 15);
                assert(rest.take(k - 15) =~= v@.subrange(15, k as int));
            }
            k
        },
        None => {
            proof {
                lemma_first_index_of(rest, ':', rest.len() as int);
                assert(rest =~= v@.subrange(15, v@.len() as int));
            }
            v.len()
        },
    };
    let section = slice_vec(&v, 15, end);
    assert(focus_of_origin(origin@) == focus_named(section@));
    let all = ControlCenterFocus::all();
    let mut i: usize = 0;
    while i < all.len()
        invariant
            i <= all@.len(),
            all@ == all_focuses(),
            focus_of_origin(origin@) == focus_named(section@),
            forall|j: int| 0 <= j < i ==> focus_name(#[trigger] all_focuses()[j]) != section@,
        decreases all@.len() - i,
    {
        let f = all[i];
        if vec_eq(&chars_of(f.as_str()), &section) {
            proof {
                lemma_focus_named(i as int);
            }
            return Some(f);
        }
        i = i + 1;
    }
    None
}

/// Every page's origin leads back to that page, whatever the action.
pub proof fn origins_round_trip(focus: ControlCenterFocus, action: Seq<char>)
    ensures
        focus_of_origin(origin_spec(focus, action)) == Some(focus),
{
    reveal_strlit("control-center:");
    reveal_strlit(":");
    lemma_focus_names_distinct();
    let o = origin_spec(focus, action);
    let name = focus_name(focus);
    let i: int = match focus {
        ControlCenterFocus::Overview => 0,
        ControlCenterFocus::Keyboard => 1,
        ControlCenterFocus::Resources => 2,
        ControlCenterFocus::Network => 3,
        ControlCenterFocus::Bluetooth => 4,
        ControlCenterFocus::Audio => 5,
        ControlCenterFocus::Power => 6,
        ControlCenterFocus::Clock => 7,
    };
    assert(all_focuses()[i] == focus);
    assert(o.subrange(0, 15) =~= "control-center:"@);
    let rest = o.skip(15);
    assert(rest =~= name + ":"@ + action);
    assert(first_index_of(name, ':') is None);
    assert(rest =~= name + (":"@ + action));
    lemma_first_index_after(name, ":"@ + action);
    assert(first_index_of(rest, ':') == Some(name.len() as int));
    assert(rest.take(name.len() as int) =~= name);
    lemma_focus_named(i);
    assert(is_prefix("control-center:"@, o));
    assert(focus_of_origin(o) == focus_named(name));
}

proof fn lemma_first_index_after(name: Seq<char>, tail: Seq<char>)
    requires
        first_index_of(name, ':') is None,
        tail.len() > 0,
        tail[0] == ':',
    ensures
        first_index_of(name + tail, ':') == Some(name.len() as int),
    decreases name.len(),
{
    if name.len() == 0 {
        assert(name + tail =~= tail);
    } else {
        assert((name + tail).drop_first() =~= name.drop_first() + tail);
        lemma_first_index_after(name.drop_first(), tail);
    }
}

// ---------------------------------------------------------------------------
// Per-page errors and slider debouncing
// ---------------------------------------------------------------------------

/// The latest value a slider was moved to, until it is taken.
#[derive(Clone, Debug, Default, PartialEq, Eq)]
pub struct SliderDebounce {
    pending: Option<u8>,
}

impl SliderDebounce {
    pub closed spec fn pending_spec(&self) -> Option<u8> {
        self.pending
    }

    pub fn new() -> (d: Self)
        ensures
            d.pending_spec() is None,
    {
        SliderDebounce { pending: None }
    }

    /// Keeps `percent`, at most 100, replacing any earlier value.
    pub fn schedule(&mut self, percent: u8)
        ensures
            final(self).pending_spec() == Some(if percent > 100 { 100u8 } else { percent }),
    {
        self.pending = Some(if percent > 100 { 100 } else { percent });
    }

    /// The kept value, which is then gone.
    pub fn take(&mut self) -> (r: Option<u8>)
        ensures
            r == old(self).pending_spec(),
            final(self).pending_spec() is None,
    {
        let r = self.pending;
        self.pending = None;
        r
    }
}

/// The error each page shows until it is retried or the center closes.
#[derive(Clone, Debug, Default)]
pub struct ControlCenterErrors {
    messages: Vec<(ControlCenterFocus, String)>,
}

pub open spec fn message_of(entries: Seq<(ControlCenterFocus, String)>, f: ControlCenterFocus) -> Option<Seq<char>>
    decreases entries.len(),
{
    if entries.len() == 0 {
        None
    } else if entries[0].0 == f {
        Some(entries[0].1@)
    } else {
        message_of(entries.drop_first(), f)
    }
}

proof fn lemma_message_of_prepend(entries: Seq<(ControlCenterFocus, String)>, e: (ControlCenterFocus, String), f: ControlCenterFocus)
    ensures
        message_of(seq![e] + entries, f) == if e.0 == f { Some(e.1@) } else { message_of(entries, f) },
{
    assert((seq![e] + entries).drop_first() =~= entries);
}

impl ControlCenterErrors {
    /// The message page `f` shows.
    pub closed spec fn message_spec(&self, f: ControlCenterFocus) -> Option<Seq<char>> {
        message_of(self.messages@, f)
    }

    pub fn new() -> (e: Self)
        ensures
            forall|f: ControlCenterFocus| #[trigger] e.message_spec(f) is None,
    {
        ControlCenterErrors { messages: Vec::new() }
    }

    /// Page `focus` shows `detail`.
    pub fn record_failure(&mut self, focus: ControlCenterFocus, detail: &str)
        ensures
            final(self).message_spec(focus) == Some(detail@),
            forall|f: ControlCenterFocus| f != focus ==> #[trigger] final(self).message_spec(f) == old(self).message_spec(f),
    {
        let ghost prev = self.messages@;
        self.messages.insert(0, (focus, owned(detail)));
        proof {
            assert(self.messages@ =~= seq![self.messages@[0]] + prev);
            assert forall|f: ControlCenterFocus| #[trigger] message_of(self.messages@, f) == if focus == f {
                Some(detail@)
            } else {
                message_of(prev, f)
            } by {
                lemma_message_of_prepend(prev, self.messages@[0], f);
            }
        }
    }

    /// Page `focus` shows no error.
    pub fn retry(&mut self, focus: ControlCenterFocus)
        ensures
            final(self).message_spec(focus) is None,
            forall|f: ControlCenterFocus| f != focus ==> #[trigger] final(self).message_spec(f) == old(self).message_spec(f),
    {
        let ghost prev = self.messages@;
        let mut kept: Vec<(ControlCenterFocus, String)> = Vec::new();
        let mut i: usize = 0;
        assert(prev.skip(0) =~= prev);
        while i < self.messages.len()
            invariant
                i <= prev.len(),
                prev == self.messages@,
                message_of(kept@, focus) is None,
                forall|f: ControlCenterFocus| f != focus ==> #[trigger] message_of(prev, f) == match message_of(kept@, f) {
                    Some(m) => Some(m),
                    None => message_of(prev.skip(i as int), f),
                },
            decreases prev.len() - i,
        {
            let ghost before = kept@;
            let f = self.messages[i].0;
            proof {
                assert(prev.skip(i as int)[0] == prev[i as int]);
                assert(prev.skip(i as int).drop_first() =~= prev.skip(i + 1));
            }
            if f != focus {
                let m = self.messages[i].1.clone();
                kept.push((f, m));
                proof {
                    assert forall|g: ControlCenterFocus| #[trigger] message_of(kept@, g) == match message_of(before, g) {
                        Some(x) => Some(x),
                        None => if f == g { Some(m@) } else { None },
                    } by {
                        lemma_message_of_push(before, (f, m), g);
                    }
                }
            }
            i = i + 1;
        }
        self.messages = kept;
        proof {
            assert forall|f: ControlCenterFocus| f != focus implies #[trigger] message_of(self.messages@, f) == message_of(prev, f) by {
                assert(prev.skip(prev.len() as int).len() == 0);
            }
        }
    }

    /// Every page's error is cleared.
    pub fn close(&mut self)
        ensures
            forall|f: ControlCenterFocus| #[trigger] final(self).message_spec(f) is None,
    {
        self.messages = Vec::new();
    }

    /// The message page `focus` shows, if any.
    pub fn message(&self, focus: ControlCenterFocus) -> (r: Option<&str>)
        ensures
            match r {
                Some(s) => self.message_spec(focus) == Some(s@),
                None => self.message_spec(focus) is None,
            },
    {
        let mut i: usize = 0;
        assert(self.messages@.skip(0) =~= self.messages@);
        while i < self.messages.len()
            invariant
                i <= self.messages@.len(),
                message_of(self.messages@, focus) == message_of(self.messages@.skip(i as int), focus),
            decreases self.messages@.len() - i,
        {
            proof {
                assert(self.messages@.skip(i as int)[0] == self.messages@[i as int]);
                assert(self.messages@.skip(i as int).drop_first() =~= self.messages@.skip(i + 1));
            }
            if self.messages[i].0 == focus {
                return Some(self.messages[i].1.as_str());
            }
            i = i + 1;
        }
        None
    }
}

proof fn lemma_message_of_push(entries: Seq<(ControlCenterFocus, String)>, e: (ControlCenterFocus, String), f: ControlCenterFocus)
    ensures
        message_of(entries.push(e), f) == match message_of(entries, f) {
            Some(m) => Some(m),
            None => if e.0 == f { Some(e.1@) } else { None },
        },
    decreases entries.len(),
{
    let p = entries.push(e);
    if entries.len() > 0 {
        assert(p[0] == entries[0]);
        assert(p.drop_first() =~= entries.drop_first().push(e));
        lemma_message_of_push(entries.drop_first(), e, f);
        if entries[0].0 == f {
            assert(message_of(p, f) == Some(entries[0].1@));
            assert(message_of(entries, f) == Some(entries[0].1@));
        } else {
            assert(message_of(entries, f) == message_of(entries.drop_first(), f));
            assert(message_of(p, f) == message_of(p.drop_first(), f));
        }
    } else {
        assert(p[0] == e);
        assert(p.drop_first() =~= Seq::<(ControlCenterFocus, String)>::empty());
        assert(message_of(p.drop_first(), f) is None);
        assert(message_of(entries, f) is None);
    }
}

// ---------------------------------------------------------------------------
// Motion
// ---------------------------------------------------------------------------

#[derive(Clone, Copy, Debug, PartialEq, Eq, Structural)]
pub enum ControlCenterMotionPhase {
    Hidden,
    Entering,
    Visible,
    Exiting,
}

#[derive(Clone, Copy, Debug, PartialEq, Eq, Structural)]
pub enum ControlCenterMotionEvent {
    Present,
    Dismiss,
    Entered,
    Exited,
}

pub open spec fn transition_spec(p: ControlCenterMotionPhase, e: ControlCenterMotionEvent) -> ControlCenterMotionPhase {
    match (p, e) {
        (ControlCenterMotionPhase::Hidden, ControlCenterMotionEvent::Present) => ControlCenterMotionPhase::Entering,
        (ControlCenterMotionPhase::Exiting, ControlCenterMotionEvent::Present) => ControlCenterMotionPhase::Entering,
        (ControlCenterMotionPhase::Entering, ControlCenterMotionEvent::Dismiss) => ControlCenterMotionPhase::Exiting,
        (ControlCenterMotionPhase::Visible, ControlCenterMotionEvent::Dismiss) => ControlCenterMotionPhase::Exiting,
        (ControlCenterMotionPhase::Entering, ControlCenterMotionEvent::Entered) => ControlCenterMotionPhase::Visible,
        (ControlCenterMotionPhase::Exiting, ControlCenterMotionEvent::Exited) => ControlCenterMotionPhase::Hidden,
        _ => p,
    }
}

impl ControlCenterMotionPhase {
    /// The phase after `event`: presenting enters from hidden or exiting,
    /// dismissing exits from entering or visible, and an animation's end
    /// completes only the phase it belongs to.
    pub fn transition(self, event: ControlCenterMotionEvent) -> (r: Self)
        ensures
            r == transition_spec(self, event),
    {
        match (self, event) {
            (ControlCenterMotionPhase::Hidden, ControlCenterMotionEvent::Present) => ControlCenterMotionPhase::Entering,
            (ControlCenterMotionPhase::Exiting, ControlCenterMotionEvent::Present) => ControlCenterMotionPhase::Entering,
            (ControlCenterMotionPhase::Entering, ControlCenterMotionEvent::Dismiss) => ControlCenterMotionPhase::Exiting,
            (ControlCenterMotionPhase::Visible, ControlCenterMotionEvent::Dismiss) => ControlCenterMotionPhase::Exiting,
            (ControlCenterMotionPhase::Entering, ControlCenterMotionEvent::Entered) => ControlCenterMotionPhase::Visible,
            (ControlCenterMotionPhase::Exiting, ControlCenterMotionEvent::Exited) => ControlCenterMotionPhase::Hidden,
            _ => self,
        }
    }

    /// Whether the center is on screen or on its way there.
    pub fn is_presented(self) -> (r: bool)
        ensures
            r == (self == ControlCenterMotionPhase::Entering || self == ControlCenterMotionPhase::Visible),
    {
        match self {
            ControlCenterMotionPhase::Entering => true,
            ControlCenterMotionPhase::Visible => true,
            _ => false,
        }
    }
}

/// Presenting always leads to a presented center, and dismissing to one that
/// is not, from every phase.
pub proof fn motion_follows_the_latest_request(p: ControlCenterMotionPhase)
    ensures
        ({
            let q = transition_spec(p, ControlCenterMotionEvent::Present);
            q == ControlCenterMotionPhase::Entering || q == ControlCenterMotionPhase::Visible
        }),
        ({
            let q = transition_spec(p, ControlCenterMotionEvent::Dismiss);
            q == ControlCenterMotionPhase::Exiting || q == ControlCenterMotionPhase::Hidden
        }),
{
}

/// What the window must do after a motion request.
#[derive(Clone, Copy, Debug, PartialEq, Eq, Structural)]
pub enum MotionEffect {
    /// The request changes nothing.
    Unchanged,
    /// Show the window at once (animations are off).
    ShowNow,
    /// Show the window and start entering; the end of the animation is due
    /// for `generation`.
    StartEntering { generation: u64 },
    /// Hide the window at once (animations are off).
    HideNow,
    /// Start exiting; hide the window when the animation for `generation`
    /// ends.
    StartExiting { generation: u64 },
}

/// The control center's open/close motion: its phase, and the generation of
/// the latest request, which tells a finished animation whether it still
/// matters.
pub struct ControlCenterMotion {
    phase: ControlCenterMotionPhase,
    generation: u64,
}

impl ControlCenterMotion {
    pub closed spec fn phase_spec(&self) -> ControlCenterMotionPhase {
        self.phase
    }

    pub closed spec fn generation_spec(&self) -> u64 {
        self.generation
    }

    /// Hidden, at generation 0.
    pub fn new() -> (m: Self)
        ensures
            m.phase_spec() == ControlCenterMotionPhase::Hidden,
            m.generation_spec() == 0,
    {
        ControlCenterMotion { phase: ControlCenterMotionPhase::Hidden, generation: 0 }
    }

    pub fn phase(&self) -> (p: ControlCenterMotionPhase)
        ensures
            p == self.phase_spec(),
    {
        self.phase
    }

    pub fn is_presented(&self) -> (r: bool)
        ensures
            r == (self.phase_spec() == ControlCenterMotionPhase::Entering || self.phase_spec()
                == ControlCenterMotionPhase::Visible),
    {
        self.phase.is_presented()
    }

    /// Opens the center: with nothing to change, nothing happens; otherwise
    /// a new generation starts, and the center becomes visible at once
    /// without animations or starts entering with them.
    pub fn present(&mut self, animations: bool) -> (e: MotionEffect)
        ensures
            ({
                let next = transition_spec(old(self).phase_spec(), ControlCenterMotionEvent::Present);
                let g = old(self).generation_spec().wrapping_add(1);
                if next == old(self).phase_spec() {
                    e == MotionEffect::Unchanged && final(self).phase_spec() == old(self).phase_spec()
                        && final(self).generation_spec() == old(self).generation_spec()
                } else if !animations {
                    e == MotionEffect::ShowNow && final(self).phase_spec() == ControlCenterMotionPhase::Visible
                        && final(self).generation_spec() == g
                } else {
                    e == (MotionEffect::StartEntering { generation: g }) && final(self).phase_spec() == next
                        && final(self).generation_spec() == g
                }
            }),
    {
        let next = self.phase.transition(ControlCenterMotionEvent::Present);
        if next == self.phase {
            return MotionEffect::Unchanged;
        }
        self.generation = self.generation.wrapping_add(1);
        if !animations {
            self.phase = ControlCenterMotionPhase::Visible;
            return MotionEffect::ShowNow;
        }
        self.phase = next;
        MotionEffect::StartEntering { generation: self.generation }
    }

    /// Closes the center: with nothing to change, nothing happens; otherwise
    /// a new generation starts, and the center hides at once without
    /// animations or starts exiting with them.
    pub fn dismiss(&mut self, animations: bool) -> (e: MotionEffect)
        ensures
            ({
                let next = transition_spec(old(self).phase_spec(), ControlCenterMotionEvent::Dismiss);
                let g = old(self).generation_spec().wrapping_add(1);
                if next == old(self).phase_spec() {
                    e == MotionEffect::Unchanged && final(self).phase_spec() == old(self).phase_spec()
                        && final(self).generation_spec() == old(self).generation_spec()
                } else if !animations {
                    e == MotionEffect::HideNow && final(self).phase_spec() == ControlCenterMotionPhase::Hidden
                        && final(self).generation_spec() == g
                } else {
                    e == (MotionEffect::StartExiting { generation: g }) && final(self).phase_spec() == next
                        && final(self).generation_spec() == g
                }
            }),
    {
        let next = self.phase.transition(ControlCenterMotionEvent::Dismiss);
        if next == self.phase {
            return MotionEffect::Unchanged;
        }
        self.generation = self.generation.wrapping_add(1);
        if !animations {
            self.phase = ControlCenterMotionPhase::Hidden;
            return MotionEffect::HideNow;
        }
        self.phase = next;
        MotionEffect::StartExiting { generation: self.generation }
    }

    /// An animation started for `generation` ended with `event` (entered or
    /// exited): it counts only if no request came after it. Returns whether
    /// it counted.
    pub fn animation_finished(&mut self, generation: u64, event: ControlCenterMotionEvent) -> (current: bool)
        ensures
            current == (generation == old(self).generation_spec()),
            final(self).generation_spec() == old(self).generation_spec(),
            final(self).phase_spec() == if current {
                transition_spec(old(self).phase_spec(), event)
            } else {
                old(self).phase_spec()
            },
    {
        if generation != self.generation {
            return false;
        }
        self.phase = self.phase.transition(event);
        true
    }

    /// The center goes away: a new generation starts, so no animation of an
    /// earlier request counts, and it is hidden.
    pub fn destroy(&mut self)
        ensures
            final(self).phase_spec() == ControlCenterMotionPhase::Hidden,
            final(self).generation_spec() == old(self).generation_spec().wrapping_add(1),
    {
        self.generation = self.generation.wrapping_add(1);
        self.phase = ControlCenterMotionPhase::Hidden;
    }
}

/// An animation started before the latest request no longer counts: a
/// request that changes the phase moves the generation from `g` to
/// `g.wrapping_add(1)`, which differs from `g`, and `animation_finished`
/// ignores any other generation than the current one.
pub proof fn a_new_request_outdates_running_animations(g: u64)
    ensures
        g.wrapping_add(1) != g,
{
}

// ---------------------------------------------------------------------------
// Gauges, icons, grid and timers
// ---------------------------------------------------------------------------

/// The volume icon: muted when muted or at 0, else low up to 33, medium up
/// to 66, high above.
pub open spec fn volume_icon_spec(muted: bool, percent: Option<u8>) -> Seq<char> {
    let p: int = match percent { Some(v) => if v > 100 { 100 } else { v as int }, None => 0 };
    if muted || p == 0 {
        "audio-volume-muted-symbolic"@
    } else if p <= 33 {
        "audio-volume-low-symbolic"@
    } else if p <= 66 {
        "audio-volume-medium-symbolic"@
    } else {
        "audio-volume-high-symbolic"@
    }
}

pub fn volume_icon_name(muted: bool, percent: Option<u8>) -> (r: &'static str)
    ensures
        r@ == volume_icon_spec(muted, percent),
{
    if muted {
        return "audio-volume-muted-symbolic";
    }
    let p: u8 = match percent {
        Some(v) => if v > 100 { 100 } else { v },
        None => 0,
    };
    if p == 0 {
        "audio-volume-muted-symbolic"
    } else if p <= 33 {
        "audio-volume-low-symbolic"
    } else if p <= 66 {
        "audio-volume-medium-symbolic"
    } else {
        "audio-volume-high-symbolic"
    }
}

pub const METRIC_SEGMENTS: usize = 10;

#[derive(Clone, Copy, Debug, PartialEq, Eq, Structural)]
pub enum MetricLevel {
    Normal,
    Warning,
    Critical,
    Unavailable,
}

#[derive(Debug, PartialEq, Eq)]
pub struct MetricVisual {
    pub active_segments: usize,
    pub level: MetricLevel,
    pub label: String,
}

/// A gauge of ten segments: a percentage (at most 100) lights one segment
/// per started tenth, is critical from 90 and a warning from 75.
pub fn metric_visual(percent: Option<u8>) -> (v: MetricVisual)
    ensures
        match percent {
            None => v.active_segments == 0 && v.level == MetricLevel::Unavailable && v.label@ == "Unavailable"@,
            Some(raw) => {
                let p: int = if raw > 100 { 100 } else { raw as int };
                &&& v.active_segments == (p + 9) / 10
                &&& v.level == (if p >= 90 {
                    MetricLevel::Critical
                } else if p >= 75 {
                    MetricLevel::Warning
                } else {
                    MetricLevel::Normal
                })
                &&& v.label@ == dec(p as nat) + "%"@
            },
        },
{
    match percent {
        None => MetricVisual { active_segments: 0, level: MetricLevel::Unavailable, label: owned("Unavailable") },
        Some(raw) => {
            let p: u8 = if raw > 100 { 100 } else { raw };
            let active_segments: usize = (p as usize + 9) / 10;
            let level = if p >= 90 {
                MetricLevel::Critical
            } else if p >= 75 {
                MetricLevel::Warning
            } else {
                MetricLevel::Normal
            };
            let mut label = String::new();
            push_dec(&mut label, p as u64);
            push_str(&mut label, "%");
            MetricVisual { active_segments, level, label }
        },
    }
}

/// A percentage as digits, or `--`.
pub fn percent_label(percent: Option<u8>) -> (r: String)
    ensures
        r@ == match percent { Some(p) => dec(p as nat), None => "--"@ },
{
    match percent {
        Some(p) => {
            let mut r = String::new();
            push_dec(&mut r, p as u64);
            r
        },
        None => owned("--"),
    }
}

/// Where tile `index` of `count` goes in the two-column grid: column, row
/// and width; a last tile alone on its row spans both columns.
pub open spec fn placement_spec(index: int, count: int) -> (i32, i32, i32) {
    (
        (index % 2) as i32,
        (index / 2) as i32,
        if count % 2 == 1 && index + 1 == count { 2 } else { 1 },
    )
}

pub fn quick_grid_placements(count: usize) -> (r: Vec<(i32, i32, i32)>)
    requires
        count <= 0x7fff_ffff,
    ensures
        r@.len() == count,
        forall|i: int| 0 <= i < count ==> #[trigger] r@[i] == placement_spec(i, count as int),
{
    let mut r: Vec<(i32, i32, i32)> = Vec::new();
    let mut i: usize = 0;
    while i < count
        invariant
            i <= count <= 0x7fff_ffff,
            r@.len() == i,
            forall|j: int| 0 <= j < i ==> #[trigger] r@[j] == placement_spec(j, count as int),
        decreases count - i,
    {
        let column = (i % 2) as i32;
        let row = (i / 2) as i32;
        let width: i32 = if count % 2 == 1 && i + 1 == count { 2 } else { 1 };
        r.push((column, row, width));
        i = i + 1;
    }
    r
}

#[derive(Clone, Debug, PartialEq, Eq)]
pub struct TimerControlSpec {
    pub id: String,
    pub label: String,
    pub remaining_seconds: u64,
    pub completed: bool,
    pub paused: bool,
}

#[derive(Clone, Copy, Debug, PartialEq, Eq, Structural)]
pub enum TimerActionState {
    Clear,
    Resume,
    Pause,
}

/// What a timer's button does: clear a completed timer, resume a paused one,
/// else pause.
pub fn timer_action_state(timer: &TimerControlSpec) -> (s: TimerActionState)
    ensures
        s == (if timer.completed {
            TimerActionState::Clear
        } else if timer.paused {
            TimerActionState::Resume
        } else {
            TimerActionState::Pause
        }),
{
    if timer.completed {
        TimerActionState::Clear
    } else if timer.paused {
        TimerActionState::Resume
    } else {
        TimerActionState::Pause
    }
}

/// `Complete`, else `M:SS` with ` · paused` when paused.
pub open spec fn timer_summary_text(timer: TimerControlSpec) -> Seq<char> {
    if timer.completed {
        "Complete"@
    } else {
        dec((timer.remaining_seconds / 60) as nat) + ":"@ + dec2((timer.remaining_seconds % 60) as nat)
            + (if timer.paused { " · paused"@ } else { ""@ })
    }
}

/// The one-line summary of a timer.
pub fn timer_summary(timer: &TimerControlSpec) -> (r: String)
    ensures
        r@ == timer_summary_text(*timer),
{
    if timer.completed {
        return owned("Complete");
    }
    let mut r = String::new();
    push_dec(&mut r, timer.remaining_seconds / 60);
    push_str(&mut r, ":");
    push_dec2(&mut r, timer.remaining_seconds % 60);
    if timer.paused {
        push_str(&mut r, " · paused");
    } else {
        push_str(&mut r, "");
    }
    r
}

// ---------------------------------------------------------------------------
// The agenda of a day
// ---------------------------------------------------------------------------

/// The end of an event, an instant event lasting one second.
pub open spec fn event_end(e: CalendarAgendaEvent) -> int {
    if e.end_epoch == e.start_epoch {
        if e.start_epoch == i64::MAX { i64::MAX as int } else { e.start_epoch + 1 }
    } else {
        e.end_epoch as int
    }
}

/// Whether an event overlaps the window `[start, end)`.
pub open spec fn overlaps(e: CalendarAgendaEvent, start: i64, end: i64) -> bool {
    e.start_epoch < end && event_end(e) > start
}

/// The order of a day's agenda: all-day events first, then by start, then
/// by title.
pub open spec fn agenda_key(e: CalendarAgendaEvent) -> KeySpec {
    (seq![if e.all_day { 0int } else { 1int }, e.start_epoch as int], seq![e.title@])
}

/// The events that overlap `[start, end)`, in their listed order.
pub open spec fn in_window(events: Seq<CalendarAgendaEvent>, start: i64, end: i64) -> Seq<CalendarAgendaEvent> {
    events.filter(|e: CalendarAgendaEvent| overlaps(e, start, end))
}

pub open spec fn agenda_keys(s: Seq<CalendarAgendaEvent>) -> Seq<KeySpec> {
    s.map_values(|e: CalendarAgendaEvent| agenda_key(e))
}

fn copy_opt(o: &Option<String>) -> (r: Option<String>)
    ensures
        r == *o,
{
    match o {
        Some(s) => Some(s.clone()),
        None => None,
    }
}

fn copy_event(e: &CalendarAgendaEvent) -> (r: CalendarAgendaEvent)
    ensures
        r == *e,
{
    CalendarAgendaEvent {
        id: e.id.clone(),
        title: e.title.clone(),
        location: copy_opt(&e.location),
        calendar: copy_opt(&e.calendar),
        start_epoch: e.start_epoch,
        end_epoch: e.end_epoch,
        all_day: e.all_day,
    }
}

fn overlaps_window(e: &CalendarAgendaEvent, start: i64, end: i64) -> (r: bool)
    ensures
        r == overlaps(*e, start, end),
{
    let event_end: i64 = if e.end_epoch == e.start_epoch {
        if e.start_epoch == i64::MAX { i64::MAX } else { e.start_epoch + 1 }
    } else {
        e.end_epoch
    };
    e.start_epoch < end && event_end > start
}

fn agenda_sort_key(e: &CalendarAgendaEvent) -> (k: SortKey)
    ensures
        k.view() == agenda_key(*e),
{
    let mut nums: Vec<i128> = Vec::new();
    nums.push(if e.all_day { 0 } else { 1 });
    nums.push(e.start_epoch as i128);
    let mut strs: Vec<Vec<char>> = Vec::new();
    strs.push(chars_of(e.title.as_str()));
    let k = SortKey { nums, strs };
    assert(k.view().0 =~= agenda_key(*e).0);
    assert(k.view().1 =~= agenda_key(*e).1);
    k
}

/// The agenda of the window `[start, end)` (a local day, as the caller
/// computes it): the events overlapping it, an event without duration
/// counting as one second, all-day events first, then by start, then by
/// title.
pub fn events_in_window(events: &[CalendarAgendaEvent], start: i64, end: i64) -> (r: Vec<CalendarAgendaEvent>)
    ensures
        r@.len() == in_window(events@, start, end).len(),
        exists|order: Seq<int>| {
            &&& is_permutation(order, r@.len() as int)
            &&& is_sorted_by(agenda_keys(in_window(events@, start, end)), order)
            &&& forall|k: int| 0 <= k < r@.len() ==> #[trigger] r@[k] == in_window(events@, start, end)[order[k]]
        },
{
    let ghost pred = |e: CalendarAgendaEvent| overlaps(e, start, end);
    let mut kept: Vec<CalendarAgendaEvent> = Vec::new();
    let mut i: usize = 0;
    while i < events.len()
        invariant
            i <= events@.len(),
            pred == (|e: CalendarAgendaEvent| overlaps(e, start, end)),
            kept@ == events@.take(i as int).filter(pred),
        decreases events@.len() - i,
    {
        proof {
            reveal(Seq::filter);
            assert(events@.take(i + 1).drop_last() =~= events@.take(i as int));
            assert(events@.take(i + 1).last() == events@[i as int]);
        }
        if overlaps_window(&events[i], start, end) {
            kept.push(copy_event(&events[i]));
        }
        i = i + 1;
    }
    assert(events@.take(events@.len() as int) =~= events@);
    let ghost f = kept@;
    let mut keys: Vec<SortKey> = Vec::new();
    let mut j: usize = 0;
    while j < kept.len()
        invariant
            j <= kept@.len(),
            keys@.len() == j,
            forall|x: int| 0 <= x < j ==> (#[trigger] keys@[x]).view() == agenda_key(kept@[x]),
        decreases kept@.len() - j,
    {
        keys.push(agenda_sort_key(&kept[j]));
        j = j + 1;
    }
    let order = sort_indices(&keys);
    let ghost ov = order@.map_values(|x: usize| x as int);
    proof {
        assert(keys@.map_values(|k: SortKey| k.view()) =~= agenda_keys(f));
    }
    let mut r: Vec<CalendarAgendaEvent> = Vec::new();
    let mut k: usize = 0;
    while k < order.len()
        invariant
            k <= order@.len(),
            order@.len() == f.len(),
            f == kept@,
            ov == order@.map_values(|x: usize| x as int),
            is_permutation(ov, f.len() as int),
            r@.len() == k,
            forall|x: int| 0 <= x < k ==> #[trigger] r@[x] == f[ov[x]],
        decreases order@.len() - k,
    {
        assert(ov[k as int] == order@[k as int] as int);
        let idx = order[k];
        r.push(copy_event(&kept[idx]));
        k = k + 1;
    }
    proof {
        assert(is_sorted_by(agenda_keys(in_window(events@, start, end)), ov));
    }
    r
}

} // verus!

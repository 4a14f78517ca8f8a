//! Moving between the control center's pages, and the status line of each
//! page: the requests a page has in flight, the error it shows, and what a
//! finished request changes.
use vstd::prelude::*;

use crate::control_center::{
    control_center_origin, focus_from_origin, focus_of_origin, focus_subtitle, focus_title, origin_spec, ControlCenterErrors, ControlCenterFocus,
};
use crate::intents::{request_view, ActionIntent, ActionRequest};
use crate::text::{chars_of, is_suffix, owned, push_str};

verus! {

// ---------------------------------------------------------------------------
// Navigation
// ---------------------------------------------------------------------------

/// How the page stack slides to the new page.
#[derive(Clone, Copy, Debug, PartialEq, Eq, Structural)]
pub enum PageTransition {
    SlideLeft,
    SlideRight,
}

/// What the header shows for a page.
#[derive(Clone, Debug)]
pub struct NavigationView {
    pub page: ControlCenterFocus,
    pub transition: PageTransition,
    /// The back button shows everywhere but on the overview.
    pub back_visible: bool,
    pub title: &'static str,
    pub subtitle: &'static str,
    /// The footer offers to ask about the page.
    pub footer: String,
}

/// Moving to `page`; going back slides the other way.
pub fn navigate(page: ControlCenterFocus, backwards: bool) -> (r: NavigationView)
    ensures
        r.page == page,
        r.transition == (if backwards {
            PageTransition::SlideRight
        } else {
            PageTransition::SlideLeft
        }),
        r.back_visible == (page != ControlCenterFocus::Overview),
        r.title@ == focus_title(page),
        r.subtitle@ == focus_subtitle(page),
        r.footer@ == "Open "@ + focus_title(page) + " in Luma"@,
{
    let title = page.title();
    let mut footer = owned("Open ");
    push_str(&mut footer, title);
    push_str(&mut footer, " in Luma");
    NavigationView {
        page,
        transition: if backwards {
            PageTransition::SlideRight
        } else {
            PageTransition::SlideLeft
        },
        back_visible: page != ControlCenterFocus::Overview,
        title,
        subtitle: page.subtitle(),
        footer,
    }
}

// ---------------------------------------------------------------------------
// Requests in flight
// ---------------------------------------------------------------------------

/// The place of a page among the counts.
pub open spec fn slot(f: ControlCenterFocus) -> int {
    match f {
        ControlCenterFocus::Overview => 0,
        ControlCenterFocus::Keyboard => 1,
        ControlCenterFocus::Resources => 2,
        ControlCenterFocus::Network => 3,
        ControlCenterFocus::Bluetooth => 4,
        ControlCenterFocus::Audio => 5,
        ControlCenterFocus::Power => 6,
        ControlCenterFocus::Clock => 7,
    }
}

fn slot_of(f: ControlCenterFocus) -> (i: usize)
    ensures
        i == slot(f),
{
    match f {
        ControlCenterFocus::Overview => 0,
        ControlCenterFocus::Keyboard => 1,
        ControlCenterFocus::Resources => 2,
        ControlCenterFocus::Network => 3,
        ControlCenterFocus::Bluetooth => 4,
        ControlCenterFocus::Audio => 5,
        ControlCenterFocus::Power => 6,
        ControlCenterFocus::Clock => 7,
    }
}

/// One more request in flight on page `f`.
pub open spec fn begun(counts: Seq<nat>, f: ControlCenterFocus) -> Seq<nat> {
    counts.update(slot(f), counts[slot(f)] + 1)
}

/// One request fewer in flight on page `f`, never below none.
pub open spec fn finished(counts: Seq<nat>, f: ControlCenterFocus) -> Seq<nat> {
    counts.update(
        slot(f),
        if counts[slot(f)] == 0 {
            0nat
        } else {
            (counts[slot(f)] - 1) as nat
        },
    )
}

/// How many requests each page has in flight.
pub struct PendingActions {
    counts: Vec<u64>,
}

impl PendingActions {
    #[verifier::type_invariant]
    closed spec fn eight_pages(&self) -> bool {
        self.counts@.len() == 8
    }

    /// The count of each page, in page order.
    pub closed spec fn view(&self) -> Seq<nat> {
        self.counts@.map_values(|c: u64| c as nat)
    }

    /// The requests page `f` has in flight.
    pub open spec fn count(&self, f: ControlCenterFocus) -> nat {
        self.view()[slot(f)]
    }

    /// No request in flight.
    pub fn new() -> (p: Self)
        ensures
            p.view() == Seq::new(8, |i: int| 0nat),
    {
        let mut counts: Vec<u64> = Vec::new();
        let mut i: usize = 0;
        while i < 8
            invariant
                i <= 8,
                counts@.len() == i,
                forall|k: int| 0 <= k < i ==> counts@[k] == 0,
            decreases 8 - i,
        {
            counts.push(0);
            i = i + 1;
        }
        let p = PendingActions { counts };
        assert(p.view() =~= Seq::new(8, |i: int| 0nat));
        p
    }

    /// The requests page `f` has in flight.
    pub fn count_of(&self, f: ControlCenterFocus) -> (n: u64)
        ensures
            n == self.count(f),
    {
        proof {
            use_type_invariant(self);
        }
        self.counts[slot_of(f)]
    }

    /// A request from page `f` went out.
    pub fn begin(&mut self, f: ControlCenterFocus)
        requires
            old(self).count(f) < u64::MAX,
        ensures
            final(self).view() == begun(old(self).view(), f),
    {
        proof {
            use_type_invariant(&*self);
        }
        let i = slot_of(f);
        let n = self.counts[i];
        self.counts = with_count(&self.counts, i, n + 1);
        assert(self.view() =~= begun(old(self).view(), f));
    }

    /// A request from page `f` came back, or could not be sent.
    pub fn finish(&mut self, f: ControlCenterFocus)
        ensures
            final(self).view() == finished(old(self).view(), f),
    {
        proof {
            use_type_invariant(&*self);
        }
        let i = slot_of(f);
        let n = self.counts[i];
        let m = if n == 0 {
            0
        } else {
            n - 1
        };
        self.counts = with_count(&self.counts, i, m);
        assert(self.view() =~= finished(old(self).view(), f));
    }
}

/// `counts` with the count at `i` replaced by `n`.
fn with_count(counts: &Vec<u64>, i: usize, n: u64) -> (r: Vec<u64>)
    requires
        i < counts@.len(),
    ensures
        r@ == counts@.update(i as int, n),
{
    let mut r: Vec<u64> = Vec::new();
    let mut k: usize = 0;
    while k < counts.len()
        invariant
            k <= counts@.len(),
            i < counts@.len(),
            r@ == counts@.update(i as int, n).take(k as int),
        decreases counts@.len() - k,
    {
        if k == i {
            r.push(n);
        } else {
            r.push(counts[k]);
        }
        k = k + 1;
        assert(r@ =~= counts@.update(i as int, n).take(k as int));
    }
    assert(r@ =~= counts@.update(i as int, n));
    r
}

/// Finishing what was begun leaves every page's count as it was.
pub proof fn finishing_undoes_beginning(counts: Seq<nat>, f: ControlCenterFocus)
    requires
        counts.len() == 8,
    ensures
        finished(begun(counts, f), f) == counts,
        forall|g: ControlCenterFocus| g != f ==> #[trigger] begun(counts, f)[slot(g)] == counts[slot(g)],
{
    assert(finished(begun(counts, f), f) =~= counts);
}

// ---------------------------------------------------------------------------
// The status line
// ---------------------------------------------------------------------------

/// What a page's status line shows.
#[derive(Clone, Debug, PartialEq, Eq)]
pub enum PageStatus {
    /// The page's error.
    Error(String),
    /// `Applying change…` while a request is in flight.
    Pending,
    /// Nothing; the line is hidden.
    Idle,
}

/// An error wins over requests in flight; without either the line hides.
pub fn page_status(errors: &ControlCenterErrors, pending: &PendingActions, page: ControlCenterFocus) -> (r:
    PageStatus)
    ensures
        match errors.message_spec(page) {
            Some(m) => r matches PageStatus::Error(s) && s@ == m,
            None => if pending.count(page) > 0 {
                r is Pending
            } else {
                r is Idle
            },
        },
{
    match errors.message(page) {
        Some(m) => PageStatus::Error(owned(m)),
        None => if pending.count_of(page) > 0 {
            PageStatus::Pending
        } else {
            PageStatus::Idle
        },
    }
}

/// The text of a status line.
pub fn status_text(status: &PageStatus) -> (r: &str)
    ensures
        r@ == match *status {
            PageStatus::Error(m) => m@,
            PageStatus::Pending => "Applying change…"@,
            PageStatus::Idle => ""@,
        },
{
    match status {
        PageStatus::Error(m) => m.as_str(),
        PageStatus::Pending => "Applying change…",
        PageStatus::Idle => "",
    }
}

// ---------------------------------------------------------------------------
// Sending and finishing requests
// ---------------------------------------------------------------------------

/// Sending from page `focus` clears its error, counts the request in flight
/// and names the page and `action` in the request's origin.
pub fn begin_request(
    errors: &mut ControlCenterErrors,
    pending: &mut PendingActions,
    focus: ControlCenterFocus,
    action: &str,
    intent: ActionIntent,
) -> (r: ActionRequest)
    requires
        old(pending).count(focus) < u64::MAX,
    ensures
        request_view(r) == (origin_spec(focus, action@), intent),
        final(errors).message_spec(focus) is None,
        forall|f: ControlCenterFocus| f != focus ==> #[trigger] final(errors).message_spec(f) == old(
            errors,
        ).message_spec(f),
        final(pending).view() == begun(old(pending).view(), focus),
{
    errors.retry(focus);
    pending.begin(focus);
    ActionRequest { origin: control_center_origin(focus, action), intent }
}

/// How a request ended.
#[derive(Clone, Debug, PartialEq, Eq)]
pub enum ActionResult {
    Completed,
    Failed { detail: String },
}

/// What finishing a request asks of the control center.
#[derive(Clone, Copy, Debug, PartialEq, Eq, Structural)]
pub struct CompletionOutcome {
    /// The request came from the control center.
    pub handled: bool,
    /// A failed question about a page reopens the center to show why.
    pub present: bool,
}

/// A finished request from page `f` (named by the origin): success clears
/// the page's error, failure shows its detail; either way one request fewer
/// is in flight there. Requests from elsewhere are left alone.
pub fn handle_completion(
    errors: &mut ControlCenterErrors,
    pending: &mut PendingActions,
    origin: &str,
    result: &ActionResult,
) -> (r: CompletionOutcome)
    ensures
        match focus_of_origin(origin@) {
            None => {
                &&& !r.handled
                &&& !r.present
                &&& final(pending).view() == old(pending).view()
                &&& forall|f: ControlCenterFocus| #[trigger] final(errors).message_spec(f) == old(errors).message_spec(f)
            },
            Some(focus) => {
                &&& r.handled
                &&& r.present == (result is Failed && is_suffix(":open-luma"@, origin@))
                &&& final(pending).view() == finished(old(pending).view(), focus)
                &&& final(errors).message_spec(focus) == match *result {
                    ActionResult::Completed => None,
                    ActionResult::Failed { detail } => Some(detail@),
                }
                &&& forall|f: ControlCenterFocus| f != focus ==> #[trigger] final(errors).message_spec(f) == old(
                    errors,
                ).message_spec(f)
            },
        },
{
    let focus = match focus_from_origin(origin) {
        Some(f) => f,
        None => return CompletionOutcome { handled: false, present: false },
    };
    let present = match result {
        ActionResult::Completed => {
            errors.retry(focus);
            false
        },
        ActionResult::Failed { detail } => {
            errors.record_failure(focus, detail.as_str());
            ends_with(origin, ":open-luma")
        },
    };
    pending.finish(focus);
    CompletionOutcome { handled: true, present }
}

fn ends_with(s: &str, suffix: &str) -> (r: bool)
    ensures
        r == is_suffix(suffix@, s@),
{
    let v = chars_of(s);
    let p = chars_of(suffix);
    if p.len() > v.len() {
        return false;
    }
    let off = v.len() - p.len();
    let mut i: usize = 0;
    while i < p.len()
        invariant
            i <= p@.len(),
            off + p@.len() == v@.len(),
            off + p.len() == v.len(),
            v@ == s@,
            p@ == suffix@,
            forall|k: int| 0 <= k < i ==> v@[off + k] == p@[k],
        decreases p@.len() - i,
    {
        if v[off + i] != p[i] {
            proof {
                if is_suffix(suffix@, s@) {
                    assert(s@.subrange(s@.len() - suffix@.len(), s@.len() as int)[i as int] == v@[off + i]);
                }
            }
            return false;
        }
        i = i + 1;
    }
    assert(s@.subrange(s@.len() - suffix@.len(), s@.len() as int) =~= suffix@);
    true
}

} // verus!

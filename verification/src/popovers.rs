//! Which system popover is open, and the action errors shown in each one.
use vstd::prelude::*;

use crate::text::{
    chars_of, first_index_of, index_of_in, is_prefix, lemma_first_index_of, owned, slice_vec,
    starts_with, str_eq, string_of,
};

verus! {

/// The outcome of a system action.
#[derive(Clone, Debug, PartialEq, Eq)]
pub enum ActionResult {
    Succeeded { summary: String },
    Failed { summary: String, detail: String },
}

/// The open popover and the last action error of each popover.
#[derive(Clone, Debug, Default)]
pub struct PopoverCoordinator {
    active_id: Option<String>,
    /// Error messages by popover id; the first entry for an id counts.
    errors: Vec<(String, String)>,
}

pub type ErrorsSpec = Seq<(String, String)>;

/// The message recorded for `id`: the first entry for it.
pub open spec fn lookup(s: ErrorsSpec, id: Seq<char>) -> Option<Seq<char>>
    decreases s.len(),
{
    if s.len() == 0 {
        None
    } else if s[0].0@ == id {
        Some(s[0].1@)
    } else {
        lookup(s.drop_first(), id)
    }
}

proof fn lemma_lookup_push(s: ErrorsSpec, x: (String, String), id: Seq<char>)
    ensures
        lookup(s.push(x), id) == match lookup(s, id) {
            Some(v) => Some(v),
            None => if x.0@ == id { Some(x.1@) } else { None::<Seq<char>> },
        },
    decreases s.len(),
{
    if s.len() > 0 {
        assert(s.push(x).drop_first() =~= s.drop_first().push(x));
        lemma_lookup_push(s.drop_first(), x, id);
    } else {
        assert(s.push(x).drop_first() =~= Seq::<(String, String)>::empty());
        assert(lookup(Seq::<(String, String)>::empty(), id) is None);
    }
}

pub const SYSTEM_PREFIX_LEN: usize = 7;

/// `system:` removed from the front of an id, when it is there.
pub open spec fn system_suffix(id: Seq<char>) -> Option<Seq<char>> {
    if is_prefix("system:"@, id) {
        Some(id.skip(7))
    } else {
        None
    }
}

/// The popover that an action origin `system-popover:ID[:...]` belongs to.
pub open spec fn popover_id_spec(origin: Seq<char>) -> Option<Seq<char>> {
    if is_prefix("system-popover:"@, origin) {
        let rest = origin.skip(15);
        let segment = match first_index_of(rest, ':') {
            Some(k) => rest.take(k),
            None => rest,
        };
        if segment.len() > 0 { Some(segment) } else { None }
    } else {
        None
    }
}

/// The popover that an action origin belongs to: the first `:`-separated
/// segment after `system-popover:`, when non-empty.
pub fn popover_id_from_origin(origin: &str) -> (r: Option<String>)
    ensures
        match (r, popover_id_spec(origin@)) {
            (Some(got), Some(want)) => got@ == want,
            (None, None) => true,
            _ => false,
        },
{
    let v = chars_of(origin);
    let prefix = chars_of("system-popover:");
    proof {
        reveal_strlit("system-popover:");
    }
    if !starts_with(&v, &prefix) {
        return None;
    }
    let ghost rest = v@.skip(15);
    let end = match index_of_in(&v, 15, v.len(), ':') {
        Some(k) => {
            proof {
                lemma_first_index_of(rest, ':', k - 15);
                assert(rest.take(k - 15) =~= v@.subrange(15, k as int));
            }
            k
        },
        None => {
            proof {
                lemma_first_index_of(rest, ':', rest.len() as int);
                assert(rest =~= v@.subrange(15, v@.len() as int));
            }
            v.len()
        },
    };
    if end == 15 {
        return None;
    }
    Some(string_of(&slice_vec(&v, 15, end)))
}

impl PopoverCoordinator {
    pub closed spec fn active_spec(&self) -> Option<Seq<char>> {
        match self.active_id {
            Some(s) => Some(s@),
            None => None,
        }
    }

    /// The error recorded for popover `id`.
    pub closed spec fn error_spec(&self, id: Seq<char>) -> Option<Seq<char>> {
        lookup(self.errors@, id)
    }

    /// No popover open, no errors.
    pub fn new() -> (c: Self)
        ensures
            c.active_spec() is None,
            forall|id: Seq<char>| c.error_spec(id) is None,
    {
        PopoverCoordinator { active_id: None, errors: Vec::new() }
    }

    fn remove_error(&mut self, id: &String)
        ensures
            final(self).active_id == old(self).active_id,
            forall|k: Seq<char>| #[trigger] final(self).error_spec(k) == if k == id@ {
                None
            } else {
                old(self).error_spec(k)
            },
    {
        let ghost s = self.errors@;
        let mut kept: Vec<(String, String)> = Vec::new();
        let mut i: usize = 0;
        while i < self.errors.len()
            invariant
                i <= self.errors.len(),
                self.errors@ == s,
                forall|k: Seq<char>| #[trigger] lookup(kept@, k) == if k == id@ {
                    None
                } else {
                    lookup(s.take(i as int), k)
                },
            decreases self.errors.len() - i,
        {
            let ghost prev = kept@;
            let entry_key = &self.errors[i].0;
            if !str_eq(entry_key.as_str(), id.as_str()) {
                let pair = (self.errors[i].0.clone(), self.errors[i].1.clone());
                kept.push(pair);
                proof {
                    assert forall|k: Seq<char>| #[trigger] lookup(kept@, k) == if k == id@ {
                        None
                    } else {
                        lookup(s.take(i + 1), k)
                    } by {
                        lemma_lookup_push(prev, pair, k);
                        lemma_lookup_push(s.take(i as int), s[i as int], k);
                        assert(s.take(i + 1) =~= s.take(i as int).push(s[i as int]));
                    }
                }
            } else {
                proof {
                    assert forall|k: Seq<char>| #[trigger] lookup(kept@, k) == if k == id@ {
                        None
                    } else {
                        lookup(s.take(i + 1), k)
                    } by {
                        lemma_lookup_push(s.take(i as int), s[i as int], k);
                        assert(s.take(i + 1) =~= s.take(i as int).push(s[i as int]));
                    }
                }
            }
            i = i + 1;
        }
        assert(s.take(i as int) =~= s);
        self.errors = kept;
    }

    fn remove_with_system_suffix(&mut self, id: &String)
        ensures
            final(self).active_id == old(self).active_id,
            forall|k: Seq<char>| #[trigger] final(self).error_spec(k) == if k == id@ || Some(k) == system_suffix(id@) {
                None
            } else {
                old(self).error_spec(k)
            },
    {
        self.remove_error(id);
        let v = chars_of(id.as_str());
        let prefix = chars_of("system:");
        proof {
            reveal_strlit("system:");
        }
        if starts_with(&v, &prefix) {
            let suffix = string_of(&slice_vec(&v, 7, v.len()));
            assert(suffix@ =~= id@.skip(7));
            self.remove_error(&suffix);
        }
    }

    /// Opens popover `id`; returns the popover that was open before and must
    /// be closed, unless it is `id` itself.
    pub fn open(&mut self, id: &str) -> (previous: Option<String>)
        ensures
            final(self).active_spec() == Some(id@),
            forall|k: Seq<char>| #[trigger] final(self).error_spec(k) == old(self).error_spec(k),
            match previous {
                Some(p) => old(self).active_spec() == Some(p@) && p@ != id@,
                None => old(self).active_spec() is None || old(self).active_spec() == Some(id@),
            },
    {
        let previous = self.active_id.take();
        self.active_id = Some(owned(id));
        match previous {
            Some(p) => {
                if str_eq(p.as_str(), id) {
                    None
                } else {
                    Some(p)
                }
            },
            None => None,
        }
    }

    /// Closes popover `id`: it is no longer active, and its errors (also
    /// those recorded under the id without a `system:` prefix) are dropped.
    pub fn close(&mut self, id: &str)
        ensures
            final(self).active_spec() == if old(self).active_spec() == Some(id@) {
                None
            } else {
                old(self).active_spec()
            },
            forall|k: Seq<char>| #[trigger] final(self).error_spec(k) == if k == id@ || Some(k) == system_suffix(id@) {
                None
            } else {
                old(self).error_spec(k)
            },
    {
        let closing = match &self.active_id {
            Some(a) => str_eq(a.as_str(), id),
            None => false,
        };
        if closing {
            self.active_id = None;
        }
        let owned_id = owned(id);
        self.remove_with_system_suffix(&owned_id);
    }

    /// Closes whatever popover is open, dropping its errors; returns it.
    pub fn clear_active(&mut self) -> (previous: Option<String>)
        ensures
            final(self).active_spec() is None,
            match previous {
                Some(p) => old(self).active_spec() == Some(p@) && forall|k: Seq<char>|
                    #[trigger] final(self).error_spec(k) == if k == p@ || Some(k) == system_suffix(p@) {
                        None
                    } else {
                        old(self).error_spec(k)
                    },
                None => old(self).active_spec() is None && forall|k: Seq<char>|
                    #[trigger] final(self).error_spec(k) == old(self).error_spec(k),
            },
    {
        let previous = self.active_id.take();
        match &previous {
            Some(id) => {
                self.remove_with_system_suffix(id);
            },
            None => {},
        }
        previous
    }

    /// The open popover, if any.
    pub fn active_id(&self) -> (r: Option<&str>)
        ensures
            match r {
                Some(s) => self.active_spec() == Some(s@),
                None => self.active_spec() is None,
            },
    {
        match &self.active_id {
            Some(s) => Some(s.as_str()),
            None => None,
        }
    }

    /// Before an action runs, the error of the popover it comes from is cleared.
    pub fn before_action(&mut self, origin: &str)
        ensures
            final(self).active_spec() == old(self).active_spec(),
            forall|k: Seq<char>| #[trigger] final(self).error_spec(k) == if popover_id_spec(origin@) == Some(k) {
                None
            } else {
                old(self).error_spec(k)
            },
    {
        match popover_id_from_origin(origin) {
            Some(id) => self.remove_error(&id),
            None => {},
        }
    }

    /// A failed action leaves its detail with the popover it came from.
    pub fn record_completion(&mut self, origin: &str, result: &ActionResult)
        ensures
            final(self).active_spec() == old(self).active_spec(),
            forall|k: Seq<char>| #[trigger] final(self).error_spec(k) == match (popover_id_spec(origin@), *result) {
                (Some(id), ActionResult::Failed { detail, .. }) => if k == id {
                    Some(detail@)
                } else {
                    old(self).error_spec(k)
                },
                _ => old(self).error_spec(k),
            },
    {
        match popover_id_from_origin(origin) {
            Some(id) => match result {
                ActionResult::Failed { detail, .. } => {
                    let ghost prev = self.errors@;
                    self.errors.insert(0, (id, detail.clone()));
                    assert(self.errors@.drop_first() =~= prev);
                },
                ActionResult::Succeeded { .. } => {},
            },
            None => {},
        }
    }

    /// The error shown in popover `id`, if any.
    pub fn error_for(&self, id: &str) -> (r: Option<&str>)
        ensures
            match r {
                Some(s) => self.error_spec(id@) == Some(s@),
                None => self.error_spec(id@) is None,
            },
    {
        let mut i: usize = 0;
        assert(self.errors@.skip(0) =~= self.errors@);
        while i < self.errors.len()
            invariant
                i <= self.errors.len(),
                lookup(self.errors@, id@) == lookup(self.errors@.skip(i as int), id@),
            decreases self.errors.len() - i,
        {
            proof {
                assert(self.errors@.skip(i as int).drop_first() =~= self.errors@.skip(i + 1));
            }
            if str_eq(self.errors[i].0.as_str(), id) {
                return Some(self.errors[i].1.as_str());
            }
            i = i + 1;
        }
        None
    }
}

} // verus!

//! The session registry: a mapping from opaque session identifiers to the
//! one page-flow session each identifier owns. It is viewed abstractly as a
//! map from identifier characters to abstract flow states; callers that need
//! exclusive access across a whole request wrap the registry in a lock and
//! hold it for the request's critical section.

use vstd::prelude::*;

use crate::text::str_eq;
use crate::transition::{allowed_list, initial_abs, page_after, token_allowed, FlowAbs};
use crate::user_session::{UserSession, ValidationError, ValidationResult};

verus! {

type Entry = (String, UserSession);

spec fn has_id(s: Seq<Entry>, k: Seq<char>) -> bool {
    exists|i: int| 0 <= i < s.len() && s[i].0@ == k
}

spec fn idx_of(s: Seq<Entry>, k: Seq<char>) -> int {
    choose|i: int| 0 <= i < s.len() && s[i].0@ == k
}

spec fn uniq(s: Seq<Entry>) -> bool {
    forall|i: int, j: int| 0 <= i < j < s.len() ==> s[i].0@ != s[j].0@
}

spec fn map_of(s: Seq<Entry>) -> Map<Seq<char>, FlowAbs> {
    Map::new(|k: Seq<char>| has_id(s, k), |k: Seq<char>| s[idx_of(s, k)].1@)
}

/// With unique identifiers, the entry at any index is the one its identifier
/// selects.
proof fn lemma_idx(s: Seq<Entry>, i: int)
    requires
        uniq(s),
        0 <= i < s.len(),
    ensures
        has_id(s, s[i].0@),
        idx_of(s, s[i].0@) == i,
{
    assert(has_id(s, s[i].0@)) by {
        assert(0 <= i < s.len() && s[i].0@ == s[i].0@);
    }
    let j = idx_of(s, s[i].0@);
    assert(0 <= j < s.len() && s[j].0@ == s[i].0@);
    if i < j {
        assert(false);
    } else if j < i {
        assert(false);
    }
}

/// Appending an entry under a fresh identifier adds exactly that binding to
/// the abstract map.
proof fn lemma_map_push(s: Seq<Entry>, e: Entry)
    requires
        uniq(s),
        !has_id(s, e.0@),
    ensures
        uniq(s.push(e)),
        map_of(s.push(e)) == map_of(s).insert(e.0@, e.1@),
{
    let s1 = s.push(e);
    let n = s.len() as int;
    assert forall|i: int, j: int| 0 <= i < j < s1.len() implies s1[i].0@ != s1[j].0@ by {
        if j < n {
            assert(s1[i] == s[i] && s1[j] == s[j]);
        } else {
            assert(s1[j] == e);
            assert(s1[i] == s[i]);
            assert(has_id(s, s[i].0@)) by {
                assert(0 <= i < s.len() && s[i].0@ == s[i].0@);
            }
        }
    }
    assert forall|k: Seq<char>| true implies #[trigger] has_id(s1, k) == (has_id(s, k) || k
        == e.0@) by {
        if has_id(s1, k) {
            let i = choose|i: int| 0 <= i < s1.len() && s1[i].0@ == k;
            if i < n {
                assert(s1[i] == s[i]);
                assert(0 <= i < s.len() && s[i].0@ == k);
            } else {
                assert(s1[i] == e);
            }
        }
        if has_id(s, k) {
            let i = choose|i: int| 0 <= i < s.len() && s[i].0@ == k;
            assert(s1[i] == s[i]);
            assert(0 <= i < s1.len() && s1[i].0@ == k);
        }
        if k == e.0@ {
            assert(s1[n] == e);
            assert(0 <= n < s1.len() && s1[n].0@ == k);
        }
    }
    assert(map_of(s1) =~= map_of(s).insert(e.0@, e.1@)) by {
        assert forall|k: Seq<char>| has_id(s1, k) implies map_of(s1)[k] == map_of(s).insert(
            e.0@,
            e.1@,
        )[k] by {
            let i = idx_of(s1, k);
            assert(0 <= i < s1.len() && s1[i].0@ == k);
            if k == e.0@ {
                if i < n {
                    assert(s1[i] == s[i]);
                    assert(has_id(s, k)) by {
                        assert(0 <= i < s.len() && s[i].0@ == k);
                    }
                    assert(false);
                }
                assert(s1[i] == e);
            } else {
                assert(i < n);
                assert(s1[i] == s[i]);
                lemma_idx(s, i);
                assert(idx_of(s, k) == i);
            }
        }
    }
}

/// Replacing the session at an index, keeping its identifier, updates
/// exactly that binding of the abstract map.
proof fn lemma_map_update(s: Seq<Entry>, i: int, e: Entry)
    requires
        uniq(s),
        0 <= i < s.len(),
        e.0@ == s[i].0@,
    ensures
        uniq(s.update(i, e)),
        map_of(s.update(i, e)) == map_of(s).insert(e.0@, e.1@),
{
    let s1 = s.update(i, e);
    assert forall|p: int, q: int| 0 <= p < q < s1.len() implies s1[p].0@ != s1[q].0@ by {
        assert(s1[p].0@ == s[p].0@ && s1[q].0@ == s[q].0@);
    }
    assert forall|k: Seq<char>| true implies #[trigger] has_id(s1, k) == has_id(s, k) by {
        if has_id(s1, k) {
            let j = choose|j: int| 0 <= j < s1.len() && s1[j].0@ == k;
            assert(s[j].0@ == k);
            assert(0 <= j < s.len() && s[j].0@ == k);
        }
        if has_id(s, k) {
            let j = choose|j: int| 0 <= j < s.len() && s[j].0@ == k;
            assert(s1[j].0@ == k);
            assert(0 <= j < s1.len() && s1[j].0@ == k);
        }
    }
    assert(map_of(s1) =~= map_of(s).insert(e.0@, e.1@)) by {
        assert forall|k: Seq<char>| has_id(s1, k) implies map_of(s1)[k] == map_of(s).insert(
            e.0@,
            e.1@,
        )[k] by {
            let j = idx_of(s1, k);
            assert(0 <= j < s1.len() && s1[j].0@ == k);
            assert(s[j].0@ == k);
            lemma_idx(s, j);
            if k == e.0@ {
                assert(j == i);
                assert(s1[j] == e);
            } else {
                assert(j != i);
                assert(s1[j] == s[j]);
            }
        }
    }
}

/// Removing the entry at an index removes exactly its binding from the
/// abstract map.
proof fn lemma_map_remove(s: Seq<Entry>, i: int)
    requires
        uniq(s),
        0 <= i < s.len(),
    ensures
        uniq(s.remove(i)),
        map_of(s.remove(i)) == map_of(s).remove(s[i].0@),
{
    let s1 = s.remove(i);
    let k0 = s[i].0@;
    assert forall|p: int, q: int| 0 <= p < q < s1.len() implies s1[p].0@ != s1[q].0@ by {
        let p0: int = if p < i { p } else { p + 1 };
        let q0: int = if q < i { q } else { q + 1 };
        assert(s1[p] == s[p0] && s1[q] == s[q0]);
    }
    assert forall|k: Seq<char>| true implies #[trigger] has_id(s1, k) == (has_id(s, k) && k
        != k0) by {
        if has_id(s1, k) {
            let j = choose|j: int| 0 <= j < s1.len() && s1[j].0@ == k;
            let j0: int = if j < i { j } else { j + 1 };
            assert(s1[j] == s[j0]);
            assert(0 <= j0 < s.len() && s[j0].0@ == k);
            if k == k0 {
                assert(s[j0].0@ == s[i].0@ && j0 != i);
                assert(false);
            }
        }
        if has_id(s, k) && k != k0 {
            let j = choose|j: int| 0 <= j < s.len() && s[j].0@ == k;
            assert(j != i);
            let j1: int = if j < i { j } else { j - 1 };
            assert(s1[j1] == s[j]);
            assert(0 <= j1 < s1.len() && s1[j1].0@ == k);
        }
    }
    assert(map_of(s1) =~= map_of(s).remove(k0)) by {
        assert forall|k: Seq<char>| has_id(s1, k) implies map_of(s1)[k] == map_of(s).remove(k0)[k]
        by {
            let j = idx_of(s1, k);
            assert(0 <= j < s1.len() && s1[j].0@ == k);
            let j0: int = if j < i { j } else { j + 1 };
            assert(s1[j] == s[j0]);
            lemma_idx(s, j0);
        }
    }
}

/// An in-memory table of sessions, keyed by opaque identifier strings.
/// Abstractly it is the map from each identifier present to the abstract
/// state of its session.
pub struct SessionRegistry {
    entries: Vec<Entry>,
}

impl View for SessionRegistry {
    type V = Map<Seq<char>, FlowAbs>;

    closed spec fn view(&self) -> Map<Seq<char>, FlowAbs> {
        map_of(self.entries@)
    }
}

impl SessionRegistry {
    /// Identifiers are unique, and every hosted session stands in a state
    /// reachable from a fresh one. Constructors establish this and every
    /// method preserves it.
    pub closed spec fn wf(&self) -> bool {
        &&& uniq(self.entries@)
        &&& forall|i: int| 0 <= i < self.entries@.len() ==> (#[trigger] self.entries@[i]).1.inv()
    }

    pub fn new() -> (r: Self)
        ensures
            r.wf(),
            r@ == Map::<Seq<char>, FlowAbs>::empty(),
    {
        let r = SessionRegistry { entries: Vec::new() };
        proof {
            assert(r@ =~= Map::<Seq<char>, FlowAbs>::empty());
        }
        r
    }

    fn find_index(&self, id: &str) -> (r: Option<usize>)
        ensures
            match r {
                Some(i) => i < self.entries@.len() && self.entries@[i as int].0@ == id@,
                None => !has_id(self.entries@, id@),
            },
    {
        let n = self.entries.len();
        for i in 0..n
            invariant
                n == self.entries@.len(),
                forall|j: int| 0 <= j < i ==> self.entries@[j].0@ != id@,
        {
            if str_eq(self.entries[i].0.as_str(), id) {
                return Some(i);
            }
        }
        None
    }

    /// Whether a session is registered under `id`.
    pub fn contains(&self, id: &str) -> (r: bool)
        requires
            self.wf(),
        ensures
            r == self@.dom().contains(id@),
    {
        self.find_index(id).is_some()
    }

    /// Looks up the session under `id`, inserting a fresh one first if none
    /// is registered, and reports whether it had to create it. An identifier
    /// that is already present keeps its session untouched, so two callers
    /// racing on a never-seen identifier under the same lock end up sharing
    /// one session: the loser of the race finds the winner's entry.
    pub fn get_or_create(&mut self, id: &str) -> (created: bool)
        requires
            old(self).wf(),
        ensures
            final(self).wf(),
            created == !old(self)@.dom().contains(id@),
            final(self)@ == (if created {
                old(self)@.insert(id@, initial_abs())
            } else {
                old(self)@
            }),
            final(self)@.dom().contains(id@),
    {
        match self.find_index(id) {
            Some(_) => false,
            None => {
                let entry = (String::from_str(id), UserSession::new());
                proof {
                    lemma_map_push(self.entries@, entry);
                }
                self.entries.push(entry);
                true
            },
        }
    }

    /// Applies one button press to the session under `id`, in place. The
    /// press is accepted exactly when the session's current page accepts the
    /// token; a rejected press leaves the registry unchanged.
    pub fn apply_press(&mut self, id: &str, button: &str) -> (r: ValidationResult<usize>)
        requires
            old(self).wf(),
            old(self)@.dom().contains(id@),
        ensures
            final(self).wf(),
            ({
                let m = old(self)@[id@];
                let t = button@;
                match r {
                    Ok(next) => {
                        &&& token_allowed(m.page, t)
                        &&& next as int == page_after(m.page, t)
                        &&& final(self)@ == old(self)@.insert(
                            id@,
                            FlowAbs { page: next as int, history: m.history.push(t) },
                        )
                    },
                    Err(ValidationError::InvalidButton(btn, allowed)) => {
                        &&& final(self)@ == old(self)@
                        &&& !token_allowed(m.page, t)
                        &&& btn@ == t
                        &&& allowed.deep_view() == allowed_list(m.page)
                    },
                    Err(_) => false,
                }
            }),
    {
        let i = self.find_index(id).unwrap();
        proof {
            lemma_idx(self.entries@, i as int);
        }
        let ghost s0 = self.entries@;
        let r = self.entries[i].1.process_button_press(button);
        proof {
            let e1 = self.entries@[i as int];
            assert(self.entries@ =~= s0.update(i as int, e1));
            lemma_map_update(s0, i as int, e1);
            if r is Err {
                assert(e1 == s0[i as int]);
                assert(s0.update(i as int, e1) =~= s0);
                assert(final(self)@ =~= old(self)@);
            } else {
                assert(final(self)@ =~= old(self)@.insert(
                    id@,
                    FlowAbs {
                        page: e1.1@.page,
                        history: old(self)@[id@].history.push(button@),
                    },
                ));
            }
        }
        r
    }

    /// Evicts the session under `id`, returning ownership of it, or nothing
    /// when the identifier is absent. Used for finalization: once removed,
    /// the identifier is free again and only a fresh session can reappear
    /// under it.
    pub fn remove(&mut self, id: &str) -> (r: Option<UserSession>)
        requires
            old(self).wf(),
        ensures
            final(self).wf(),
            final(self)@ == old(self)@.remove(id@),
            match r {
                Some(sess) => {
                    &&& old(self)@.dom().contains(id@)
                    &&& sess@ == old(self)@[id@]
                    &&& sess.inv()
                },
                None => !old(self)@.dom().contains(id@),
            },
    {
        match self.find_index(id) {
            Some(i) => {
                proof {
                    lemma_idx(self.entries@, i as int);
                    lemma_map_remove(self.entries@, i as int);
                }
                let entry = self.entries.remove(i);
                Some(entry.1)
            },
            None => {
                proof {
                    assert(final(self)@ =~= old(self)@.remove(id@));
                }
                None
            },
        }
    }

    /// Removes the session under `id` unconditionally, for an explicit
    /// restart request; an absent identifier is a no-op.
    pub fn reset_if_requested(&mut self, id: &str)
        requires
            old(self).wf(),
        ensures
            final(self).wf(),
            final(self)@ == old(self)@.remove(id@),
    {
        let _ = self.remove(id);
    }

    /// The page the session under `id` currently stands on.
    pub fn current_page_of(&self, id: &str) -> (p: usize)
        requires
            self.wf(),
            self@.dom().contains(id@),
        ensures
            p as int == self@[id@].page,
    {
        let i = self.find_index(id).unwrap();
        proof {
            lemma_idx(self.entries@, i as int);
        }
        self.entries[i].1.current_page()
    }
}

} // verus!

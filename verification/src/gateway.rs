//! Request-level orchestration: resolving a session identifier from an
//! inbound credential, applying one button-press event to the registry, and
//! finalizing a session the moment it reaches the terminal page.

use vstd::prelude::*;

use crate::registry::SessionRegistry;
use crate::summary::{record_matches, SummaryRecord};
use crate::transition::{initial_abs, page_after, token_allowed, FlowAbs};

verus! {

/// What one request produces: the page the caller should render, whether the
/// session identifier was freshly synthesized, and the summary of a session
/// that was finalized by this event, if any.
pub struct FlowOutcome {
    pub page_to_render: usize,
    pub is_new_session: bool,
    pub finalized_summary: Option<SummaryRecord>,
}

/// Reuses a supplied session identifier verbatim, or falls back to the
/// freshly synthesized one, reporting which of the two happened.
pub fn resolve_session_id(credential: Option<String>, fresh_id: String) -> (r: (String, bool))
    ensures
        match credential {
            Some(c) => r.0 == c && !r.1,
            None => r.0 == fresh_id && r.1,
        },
{
    match credential {
        Some(c) => (c, false),
        None => (fresh_id, true),
    }
}

/// The abstract state the session under `id` steps to when `t` is accepted
/// on `m`.
pub open spec fn stepped(m: FlowAbs, t: Seq<char>) -> FlowAbs {
    FlowAbs { page: page_after(m.page, t), history: m.history.push(t) }
}

/// Applies one inbound event to the registry, as one atomic unit under the
/// caller's exclusive access: looks up or creates the session under `id`,
/// applies the input token if one is present, and, when the session reaches
/// the terminal page, finalizes it — the summary is derived from the full
/// history and the session leaves the registry in the same step, so
/// finalization fires exactly once per completed session. A rejected token
/// is ignored and the current page reported unchanged.
pub fn handle_event(
    registry: &mut SessionRegistry,
    id: &str,
    input: Option<&str>,
    is_new: bool,
) -> (out: FlowOutcome)
    requires
        old(registry).wf(),
    ensures
        final(registry).wf(),
        out.is_new_session == is_new,
        ({
            let m0 = if old(registry)@.dom().contains(id@) {
                old(registry)@[id@]
            } else {
                initial_abs()
            };
            let present = old(registry)@.insert(id@, m0);
            match input {
                None => {
                    &&& final(registry)@ == present
                    &&& out.page_to_render as int == m0.page
                    &&& out.finalized_summary is None
                },
                Some(t) => {
                    if token_allowed(m0.page, t@) {
                        let m1 = stepped(m0, t@);
                        if m1.page == 9 {
                            &&& final(registry)@ == present.remove(id@)
                            &&& out.page_to_render == 9
                            &&& (out.finalized_summary matches Some(rec) && record_matches(
                                rec,
                                m1.history,
                            ))
                        } else {
                            &&& final(registry)@ == present.insert(id@, m1)
                            &&& out.page_to_render as int == m1.page
                            &&& out.finalized_summary is None
                        }
                    } else {
                        &&& final(registry)@ == present
                        &&& out.page_to_render as int == m0.page
                        &&& out.finalized_summary is None
                    }
                },
            }
        }),
        out.finalized_summary is Some ==> !final(registry)@.dom().contains(id@),
{
    let ghost m0 = if old(registry)@.dom().contains(id@) {
        old(registry)@[id@]
    } else {
        initial_abs()
    };
    let _created = registry.get_or_create(id);
    proof {
        assert(registry@ =~= old(registry)@.insert(id@, m0));
    }
    match input {
        None => {
            let page = registry.current_page_of(id);
            FlowOutcome { page_to_render: page, is_new_session: is_new, finalized_summary: None }
        },
        Some(t) => {
            let ghost before = registry@;
            match registry.apply_press(id, t) {
                Ok(next) => {
                    proof {
                        assert(registry@ =~= before.insert(id@, stepped(m0, t@)));
                    }
                    if next == 9 {
                        let sess = registry.remove(id).unwrap();
                        proof {
                            assert(registry@ =~= before.remove(id@));
                        }
                        let rec = sess.summarize();
                        FlowOutcome {
                            page_to_render: 9,
                            is_new_session: is_new,
                            finalized_summary: Some(rec),
                        }
                    } else {
                        FlowOutcome {
                            page_to_render: next,
                            is_new_session: is_new,
                            finalized_summary: None,
                        }
                    }
                },
                Err(_) => {
                    proof {
                        assert(registry@ =~= before);
                    }
                    let page = registry.current_page_of(id);
                    FlowOutcome {
                        page_to_render: page,
                        is_new_session: is_new,
                        finalized_summary: None,
                    }
                },
            }
        },
    }
}

} // verus!

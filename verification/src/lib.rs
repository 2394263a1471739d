//! A verified survey-flow library: a fixed nine-page page-flow state machine,
//! an in-memory session registry that hosts one machine per visitor, and a
//! request-level gateway that applies button presses and finalizes completed
//! sessions into flat summary records.
//!
//! - [`transition`] holds the transition table as specification functions,
//!   with the lemmas about reachable pages and histories.
//! - [`page_flow`] and [`user_session`] are the two executable machines over
//!   that table; the session additionally derives its response narrative.
//! - [`registry`] maps session identifiers to sessions, viewed as a map.
//! - [`gateway`] applies one inbound event to the registry and finalizes
//!   sessions that reach the terminal page.
//! - [`summary`] decodes a history into the flat record and its CSV row.
//! - [`request`] parses the button token, the session cookie, the restart
//!   flag and the served paths out of request text.

pub mod gateway;
pub mod page_flow;
pub mod registry;
pub mod request;
pub mod summary;
pub mod text;
pub mod transition;
pub mod user_session;

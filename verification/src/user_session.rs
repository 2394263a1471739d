//! One visitor's session: the same page-flow machine the validator runs,
//! together with the derivation of the human-readable response narrative
//! from the session's history.

use vstd::prelude::*;

use crate::summary::{
    doc_string_of, escape_cell, hpom_label_of, qtype_label_of, record_matches, richard_label_of,
    role_label_of, role_pref_label_of, team_size_label_of, SummaryRecord,
};
use crate::text::{contains_token, str_eq};
use crate::transition::{
    allowed_for, allowed_list, history_gate_ok, initial_abs, page_after, replay_page,
    token_allowed, valid_history, FlowAbs,
};

verus! {

/// A single session's walk through the fixed nine-page flow. Page 1 is the
/// initial page; page 9 is terminal and accepts nothing further.
#[derive(Debug, Clone)]
pub struct UserSession {
    button_presses: Vec<String>,
    current_page: usize,
}

/// Why a button press was rejected. A rejected press never changes the
/// session.
#[derive(Debug, PartialEq)]
pub enum ValidationError {
    /// The token is not in the accepted set of the current page; carries the
    /// token and that accepted set (empty at the terminal page).
    InvalidButton(String, Vec<String>),
    /// The current page's history precondition failed: a branch page was
    /// reached without the matching earlier choice. Unreachable through the
    /// public interface; kept as a defensive check.
    InvalidPage(usize),
    /// The current page has no entry in the transition table. Unreachable
    /// through the public interface; kept as a defensive check.
    NoTransitionDefined(usize),
}

pub type ValidationResult<T> = Result<T, ValidationError>;

impl View for UserSession {
    type V = FlowAbs;

    closed spec fn view(&self) -> FlowAbs {
        FlowAbs {
            page: self.current_page as int,
            history: self.button_presses.deep_view(),
        }
    }
}

impl UserSession {
    /// The session only ever stands in a state a fresh session can reach: its
    /// history is valid and its page is the replay of that history.
    pub open spec fn inv(&self) -> bool {
        &&& valid_history(self@.history)
        &&& self@.page == replay_page(self@.history)
    }

    /// Consumes the session and renders its history as the multi-line
    /// response narrative.
    pub fn to_doc_string(self) -> (r: String)
        ensures
            r@ == doc_string_of(self@.history),
    {
        let ghost h = self@.history;
        let n = self.button_presses.len();
        let mut doc = String::from_str("User Response Summary:\n");
        if n > 1 {
            let lbl = role_label_of(self.button_presses[1].as_str());
            proof {
                assert(h[1] == self.button_presses@[1]@);
            }
            doc.append("- Role: ");
            doc.append(lbl.as_str());
            doc.append("\n");
        }
        if n > 2 {
            let q = qtype_label_of(self.button_presses[2].as_str());
            proof {
                assert(h[2] == self.button_presses@[2]@);
            }
            doc.append("- Question type: ");
            doc.append(q.as_str());
            doc.append("\n");
            let is_mc = str_eq(q.as_str(), "Multiple Choice");
            let is_tf = str_eq(q.as_str(), "True/False");
            if is_mc {
                if n > 3 {
                    let ts = team_size_label_of(self.button_presses[3].as_str());
                    proof {
                        assert(h[3] == self.button_presses@[3]@);
                    }
                    doc.append("- Preferred team size: ");
                    doc.append(ts.as_str());
                    doc.append("\n");
                }
                if n > 4 {
                    let rp = role_pref_label_of(self.button_presses[4].as_str());
                    proof {
                        assert(h[4] == self.button_presses@[4]@);
                    }
                    doc.append("- Wants to see more: ");
                    doc.append(rp.as_str());
                    doc.append("\n");
                }
            } else if is_tf {
                if n > 3 {
                    let b5 = hpom_label_of(self.button_presses[3].as_str());
                    proof {
                        assert(h[3] == self.button_presses@[3]@);
                    }
                    doc.append("- Believes HPOM has been live for two years: ");
                    doc.append(b5.as_str());
                    doc.append("\n");
                }
                if n > 4 {
                    let b7 = richard_label_of(self.button_presses[4].as_str());
                    proof {
                        assert(h[4] == self.button_presses@[4]@);
                    }
                    doc.append("- Not intimidated by Richard Cai: ");
                    doc.append(b7.as_str());
                    doc.append("\n");
                }
            }
        }
        doc
    }

    /// Consumes a session and derives its flat summary record by positional
    /// decoding, with the fields of the branch not taken left empty and the
    /// narrative escaped for a quoted CSV cell.
    pub fn summarize(self) -> (rec: SummaryRecord)
        ensures
            record_matches(rec, self@.history),
    {
        let ghost h = self@.history;
        let n = self.button_presses.len();
        let role = if n > 1 {
            proof {
                assert(h[1] == self.button_presses@[1]@);
            }
            role_label_of(self.button_presses[1].as_str())
        } else {
            String::new()
        };
        let question_type = if n > 2 {
            proof {
                assert(h[2] == self.button_presses@[2]@);
            }
            qtype_label_of(self.button_presses[2].as_str())
        } else {
            String::new()
        };
        let is_mc = str_eq(question_type.as_str(), "Multiple Choice");
        let is_tf = str_eq(question_type.as_str(), "True/False");
        let team_size = if is_mc && n > 3 {
            proof {
                assert(h[3] == self.button_presses@[3]@);
            }
            team_size_label_of(self.button_presses[3].as_str())
        } else {
            String::new()
        };
        let role_pref = if is_mc && n > 4 {
            proof {
                assert(h[4] == self.button_presses@[4]@);
            }
            role_pref_label_of(self.button_presses[4].as_str())
        } else {
            String::new()
        };
        let hpom_live = if is_tf && n > 3 {
            proof {
                assert(h[3] == self.button_presses@[3]@);
            }
            hpom_label_of(self.button_presses[3].as_str())
        } else {
            String::new()
        };
        let richard_cai = if is_tf && n > 4 {
            proof {
                assert(h[4] == self.button_presses@[4]@);
            }
            richard_label_of(self.button_presses[4].as_str())
        } else {
            String::new()
        };
        let raw = self.to_doc_string();
        let doc_string = escape_cell(raw.as_str());
        SummaryRecord { role, question_type, team_size, role_pref, hpom_live, richard_cai, doc_string }
    }

    pub fn new() -> (r: Self)
        ensures
            r@ == initial_abs(),
            r.inv(),
    {
        let r = UserSession { button_presses: Vec::new(), current_page: 1 };
        proof {
            assert(r@.history =~= initial_abs().history);
        }
        r
    }

    /// Validates `button` against the current page and, if it is accepted,
    /// appends it to the history and moves to the next page. A rejected press
    /// leaves the session unchanged. Replaying accepted tokens from a fresh
    /// session deterministically reproduces the same pages and history, since
    /// the outcome is a function of the abstract state and the token alone.
    pub fn process_button_press(&mut self, button: &str) -> (r: ValidationResult<usize>)
        ensures
            ({
                let p = old(self)@.page;
                let h = old(self)@.history;
                let t = button@;
                match r {
                    Ok(next) => {
                        &&& 1 <= p <= 9
                        &&& history_gate_ok(p, h)
                        &&& token_allowed(p, t)
                        &&& next as int == page_after(p, t)
                        &&& final(self)@.page == next as int
                        &&& final(self)@.history == h.push(t)
                    },
                    Err(ValidationError::InvalidButton(btn, allowed)) => {
                        &&& *final(self) == *old(self)
                        &&& 1 <= p <= 9
                        &&& history_gate_ok(p, h)
                        &&& !token_allowed(p, t)
                        &&& btn@ == t
                        &&& allowed.deep_view() == allowed_list(p)
                    },
                    Err(ValidationError::InvalidPage(pg)) => {
                        &&& *final(self) == *old(self)
                        &&& pg as int == p
                        &&& !history_gate_ok(p, h)
                    },
                    Err(ValidationError::NoTransitionDefined(pg)) => {
                        &&& *final(self) == *old(self)
                        &&& pg as int == p
                        &&& !(1 <= p <= 9)
                    },
                }
            }),
            old(self)@.page == 9 ==> (r matches Err(ValidationError::InvalidButton(..))
                && *final(self) == *old(self)),
            old(self).inv() ==> final(self).inv(),
            old(self).inv() ==> !(r matches Err(ValidationError::InvalidPage(_))),
            old(self).inv() ==> !(r matches Err(ValidationError::NoTransitionDefined(_))),
    {
        proof {
            if old(self).inv() {
                crate::transition::lemma_valid_history_gate(old(self)@.history);
                crate::transition::lemma_replay_page_in_range(old(self)@.history);
            }
        }
        let step: ValidationResult<usize> = match self.current_page {
            1 => {
                if str_eq(button, "start") {
                    Ok(2)
                } else {
                    Err(ValidationError::InvalidButton(String::from_str(button), allowed_for(1)))
                }
            },
            2 => {
                if str_eq(button, "pm") || str_eq(button, "ux") || str_eq(button, "engi") || str_eq(
                    button,
                    "dm",
                ) {
                    Ok(3)
                } else {
                    Err(ValidationError::InvalidButton(String::from_str(button), allowed_for(2)))
                }
            },
            3 => {
                if str_eq(button, "mc") {
                    Ok(4)
                } else if str_eq(button, "tf") {
                    Ok(5)
                } else {
                    Err(ValidationError::InvalidButton(String::from_str(button), allowed_for(3)))
                }
            },
            4 => {
                if !contains_token(&self.button_presses, "mc") {
                    Err(ValidationError::InvalidPage(4))
                } else if str_eq(button, "4a") || str_eq(button, "4b") || str_eq(button, "4c")
                    || str_eq(button, "4d") {
                    Ok(6)
                } else {
                    Err(ValidationError::InvalidButton(String::from_str(button), allowed_for(4)))
                }
            },
            5 => {
                if !contains_token(&self.button_presses, "tf") {
                    Err(ValidationError::InvalidPage(5))
                } else if str_eq(button, "5t") || str_eq(button, "5f") {
                    Ok(7)
                } else {
                    Err(ValidationError::InvalidButton(String::from_str(button), allowed_for(5)))
                }
            },
            6 => {
                if !contains_token(&self.button_presses, "mc") {
                    Err(ValidationError::InvalidPage(6))
                } else if str_eq(button, "6a") || str_eq(button, "6b") || str_eq(button, "6c")
                    || str_eq(button, "6d") {
                    Ok(8)
                } else {
                    Err(ValidationError::InvalidButton(String::from_str(button), allowed_for(6)))
                }
            },
            7 => {
                if !contains_token(&self.button_presses, "tf") {
                    Err(ValidationError::InvalidPage(7))
                } else if str_eq(button, "7t") || str_eq(button, "7f") {
                    Ok(8)
                } else {
                    Err(ValidationError::InvalidButton(String::from_str(button), allowed_for(7)))
                }
            },
            8 => {
                if str_eq(button, "trophy") {
                    Ok(9)
                } else {
                    Err(ValidationError::InvalidButton(String::from_str(button), allowed_for(8)))
                }
            },
            9 => Err(ValidationError::InvalidButton(String::from_str(button), allowed_for(9))),
            _ => Err(ValidationError::NoTransitionDefined(self.current_page)),
        };
        match step {
            Ok(next) => {
                let ghost h0 = self.button_presses.deep_view();
                self.button_presses.push(String::from_str(button));
                self.current_page = next;
                proof {
                    let h1 = self.button_presses.deep_view();
                    assert(h1 =~= h0.push(button@)) by {
                        assert(forall|j: int|
                            0 <= j < h0.len() ==> h1[j] == self.button_presses@[j]@);
                        assert(h1[h0.len() as int] == self.button_presses@[h0.len() as int]@);
                    }
                    if old(self).inv() {
                        assert(h1.drop_last() =~= h0);
                    }
                }
                Ok(next)
            },
            Err(e) => Err(e),
        }
    }

    /// The page the session currently stands on.
    pub fn current_page(&self) -> (p: usize)
        ensures
            p as int == self@.page,
    {
        self.current_page
    }

    /// The accepted tokens so far, in the order they were pressed.
    pub fn button_presses(&self) -> (h: &[String])
        ensures
            h.deep_view() == self@.history,
    {
        self.button_presses.as_slice()
    }
}

} // verus!

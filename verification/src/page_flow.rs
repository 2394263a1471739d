//! The page-flow state machine for one visitor: the current page, the ordered
//! history of accepted tokens, and the single entry point that validates one
//! button press at a time against the fixed transition table.

use vstd::prelude::*;

use crate::text::{contains_token, str_eq};
use crate::transition::{
    allowed_for, allowed_list, history_gate_ok, initial_abs, page_after,
    replay_page, token_allowed, valid_history, FlowAbs,
};

verus! {

/// A single session's walk through the fixed nine-page flow. Page 1 is the
/// initial page; page 9 is terminal and accepts nothing further.
#[derive(Debug, Clone)]
pub struct PageFlowValidator {
    button_presses: Vec<String>,
    current_page: usize,
}

/// Why a button press was rejected. A rejected press never changes the
/// machine.
#[derive(Debug, PartialEq)]
pub enum ValidationError {
    /// The token is not in the accepted set of the current page; carries the
    /// token and that accepted set (empty at the terminal page).
    InvalidButton(String, Vec<String>),
    /// The current page's history precondition failed: a branch page was
    /// reached without the matching earlier choice. Unreachable through the
    /// public interface; kept as a defensive check.
    InvalidPage(usize),
    /// The current page has no entry in the transition table. Unreachable
    /// through the public interface; kept as a defensive check.
    NoTransitionDefined(usize),
}

pub type ValidationResult<T> = Result<T, ValidationError>;

impl View for PageFlowValidator {
    type V = FlowAbs;

    closed spec fn view(&self) -> FlowAbs {
        FlowAbs {
            page: self.current_page as int,
            history: self.button_presses.deep_view(),
        }
    }
}

impl PageFlowValidator {
    /// The machine only ever stands in a state a fresh machine can reach: its
    /// history is valid and its page is the replay of that history.
    pub open spec fn inv(&self) -> bool {
        &&& valid_history(self@.history)
        &&& self@.page == replay_page(self@.history)
    }

    pub fn new() -> (r: Self)
        ensures
            r@ == initial_abs(),
            r.inv(),
    {
        let r = PageFlowValidator { button_presses: Vec::new(), current_page: 1 };
        proof {
            assert(r@.history =~= initial_abs().history);
        }
        r
    }

    /// Validates `button` against the current page and, if it is accepted,
    /// appends it to the history and moves to the next page. A rejected press
    /// leaves the machine unchanged. Replaying accepted tokens from a fresh
    /// machine deterministically reproduces the same pages and history, since
    /// the outcome is a function of the abstract state and the token alone.
    pub fn process_button_press(&mut self, button: &str) -> (r: ValidationResult<usize>)
        ensures
            ({
                let p = old(self)@.page;
                let h = old(self)@.history;
                let t = button@;
                match r {
                    Ok(next) => {
                        &&& 1 <= p <= 9
                        &&& history_gate_ok(p, h)
                        &&& token_allowed(p, t)
                        &&& next as int == page_after(p, t)
                        &&& final(self)@.page == next as int
                        &&& final(self)@.history == h.push(t)
                    },
                    Err(ValidationError::InvalidButton(btn, allowed)) => {
                        &&& *final(self) == *old(self)
                        &&& 1 <= p <= 9
                        &&& history_gate_ok(p, h)
                        &&& !token_allowed(p, t)
                        &&& btn@ == t
                        &&& allowed.deep_view() == allowed_list(p)
                    },
                    Err(ValidationError::InvalidPage(pg)) => {
                        &&& *final(self) == *old(self)
                        &&& pg as int == p
                        &&& !history_gate_ok(p, h)
                    },
                    Err(ValidationError::NoTransitionDefined(pg)) => {
                        &&& *final(self) == *old(self)
                        &&& pg as int == p
                        &&& !(1 <= p <= 9)
                    },
                }
            }),
            old(self)@.page == 9 ==> (r matches Err(ValidationError::InvalidButton(..))
                && *final(self) == *old(self)),
            old(self).inv() ==> final(self).inv(),
            old(self).inv() ==> !(r matches Err(ValidationError::InvalidPage(_))),
            old(self).inv() ==> !(r matches Err(ValidationError::NoTransitionDefined(_))),
    {
        proof {
            if old(self).inv() {
                crate::transition::lemma_valid_history_gate(old(self)@.history);
                crate::transition::lemma_replay_page_in_range(old(self)@.history);
            }
        }
        let step: ValidationResult<usize> = match self.current_page {
            1 => {
                if str_eq(button, "start") {
                    Ok(2)
                } else {
                    Err(ValidationError::InvalidButton(String::from_str(button), allowed_for(1)))
                }
            },
            2 => {
                if str_eq(button, "pm") || str_eq(button, "ux") || str_eq(button, "engi") || str_eq(
                    button,
                    "dm",
                ) {
                    Ok(3)
                } else {
                    Err(ValidationError::InvalidButton(String::from_str(button), allowed_for(2)))
                }
            },
            3 => {
                if str_eq(button, "mc") {
                    Ok(4)
                } else if str_eq(button, "tf") {
                    Ok(5)
                } else {
                    Err(ValidationError::InvalidButton(String::from_str(button), allowed_for(3)))
                }
            },
            4 => {
                if !contains_token(&self.button_presses, "mc") {
                    Err(ValidationError::InvalidPage(4))
                } else if str_eq(button, "4a") || str_eq(button, "4b") || str_eq(button, "4c")
                    || str_eq(button, "4d") {
                    Ok(6)
                } else {
                    Err(ValidationError::InvalidButton(String::from_str(button), allowed_for(4)))
                }
            },
            5 => {
                if !contains_token(&self.button_presses, "tf") {
                    Err(ValidationError::InvalidPage(5))
                } else if str_eq(button, "5t") || str_eq(button, "5f") {
                    Ok(7)
                } else {
                    Err(ValidationError::InvalidButton(String::from_str(button), allowed_for(5)))
                }
            },
            6 => {
                if !contains_token(&self.button_presses, "mc") {
                    Err(ValidationError::InvalidPage(6))
                } else if str_eq(button, "6a") || str_eq(button, "6b") || str_eq(button, "6c")
                    || str_eq(button, "6d") {
                    Ok(8)
                } else {
                    Err(ValidationError::InvalidButton(String::from_str(button), allowed_for(6)))
                }
            },
            7 => {
                if !contains_token(&self.button_presses, "tf") {
                    Err(ValidationError::InvalidPage(7))
                } else if str_eq(button, "7t") || str_eq(button, "7f") {
                    Ok(8)
                } else {
                    Err(ValidationError::InvalidButton(String::from_str(button), allowed_for(7)))
                }
            },
            8 => {
                if str_eq(button, "trophy") {
                    Ok(9)
                } else {
                    Err(ValidationError::InvalidButton(String::from_str(button), allowed_for(8)))
                }
            },
            9 => Err(ValidationError::InvalidButton(String::from_str(button), allowed_for(9))),
            _ => Err(ValidationError::NoTransitionDefined(self.current_page)),
        };
        match step {
            Ok(next) => {
                let ghost h0 = self.button_presses.deep_view();
                self.button_presses.push(String::from_str(button));
                self.current_page = next;
                proof {
                    let h1 = self.button_presses.deep_view();
                    assert(h1 =~= h0.push(button@)) by {
                        assert(forall|j: int|
                            0 <= j < h0.len() ==> h1[j] == self.button_presses@[j]@);
                        assert(h1[h0.len() as int] == self.button_presses@[h0.len() as int]@);
                    }
                    if old(self).inv() {
                        assert(h1.drop_last() =~= h0);
                    }
                }
                Ok(next)
            },
            Err(e) => Err(e),
        }
    }

    /// The page the machine currently stands on.
    pub fn current_page(&self) -> (p: usize)
        ensures
            p as int == self@.page,
    {
        self.current_page
    }

    /// The accepted tokens so far, in the order they were pressed.
    pub fn button_presses(&self) -> (h: &[String])
        ensures
            h.deep_view() == self@.history,
    {
        self.button_presses.as_slice()
    }
}

/// Replaying a sequence of accepted tokens from a fresh machine
/// deterministically reproduces the same final page and history: whenever
/// the whole sequence is a valid history, the machine ends with exactly that
/// history, standing on exactly the page its replay reaches.
pub fn replay(tokens: &Vec<String>) -> (m: PageFlowValidator)
    ensures
        m.inv(),
        valid_history(tokens.deep_view()) ==> m@.history == tokens.deep_view() && m@.page
            == replay_page(tokens.deep_view()),
{
    let ghost all = tokens.deep_view();
    let mut m = PageFlowValidator::new();
    proof {
        assert(all.take(0) =~= m@.history);
    }
    for i in 0..tokens.len()
        invariant
            all == tokens.deep_view(),
            m.inv(),
            valid_history(all) ==> m@.history == all.take(i as int) && m@.page == replay_page(
                all.take(i as int),
            ),
    {
        proof {
            if valid_history(all) {
                crate::transition::lemma_valid_history_prefix(all, i + 1);
                crate::transition::lemma_valid_history_gate(all.take(i as int));
                assert(all.take(i + 1).drop_last() =~= all.take(i as int));
                assert(all.take(i + 1).last() == all[i as int]);
            }
            assert(all[i as int] == tokens@[i as int]@);
        }
        let _ = m.process_button_press(tokens[i].as_str());
        proof {
            if valid_history(all) {
                assert(m@.history =~= all.take(i + 1));
            }
        }
    }
    proof {
        if valid_history(all) {
            assert(all.take(tokens@.len() as int) =~= all);
        }
    }
    m
}

/// Two machines in reachable states with the same history stand on the same
/// page: the transition function is pure and deterministic, so a history
/// determines everything else about the machine.
pub proof fn lemma_history_determines_page(a: &PageFlowValidator, b: &PageFlowValidator)
    requires
        a.inv(),
        b.inv(),
        a@.history == b@.history,
    ensures
        a@.page == b@.page,
{
}

} // verus!

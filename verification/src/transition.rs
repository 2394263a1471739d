//! The fixed page-flow transition table, as specification functions: which
//! tokens each page accepts, which page each accepted token leads to, and the
//! history preconditions that guard the two answer branches.
//!
//! Page 1 is the initial page, page 9 the terminal one. Pages 4 and 6 belong
//! to the multiple-choice branch and demand that `mc` was chosen earlier;
//! pages 5 and 7 belong to the true/false branch and demand `tf`.

use vstd::prelude::*;

verus! {

/// The abstract state of one page-flow machine: the page it stands on and the
/// ordered history of accepted tokens that brought it there.
pub ghost struct FlowAbs {
    pub page: int,
    pub history: Seq<Seq<char>>,
}

/// The abstract state of a machine that has seen no input yet.
pub open spec fn initial_abs() -> FlowAbs {
    FlowAbs { page: 1, history: Seq::empty() }
}

/// Whether `token` is in the accepted set of `page`. The terminal page 9
/// accepts nothing, and pages outside 1..=9 have no accepted set at all.
pub open spec fn token_allowed(page: int, token: Seq<char>) -> bool {
    if page == 1 {
        token == "start"@
    } else if page == 2 {
        token == "pm"@ || token == "ux"@ || token == "engi"@ || token == "dm"@
    } else if page == 3 {
        token == "mc"@ || token == "tf"@
    } else if page == 4 {
        token == "4a"@ || token == "4b"@ || token == "4c"@ || token == "4d"@
    } else if page == 5 {
        token == "5t"@ || token == "5f"@
    } else if page == 6 {
        token == "6a"@ || token == "6b"@ || token == "6c"@ || token == "6d"@
    } else if page == 7 {
        token == "7t"@ || token == "7f"@
    } else if page == 8 {
        token == "trophy"@
    } else {
        false
    }
}

/// The page an accepted token leads to. Meaningful only when
/// `token_allowed(page, token)` holds.
pub open spec fn page_after(page: int, token: Seq<char>) -> int {
    if page == 1 {
        2
    } else if page == 2 {
        3
    } else if page == 3 {
        if token == "mc"@ { 4 } else { 5 }
    } else if page == 4 {
        6
    } else if page == 5 {
        7
    } else if page == 6 || page == 7 {
        8
    } else {
        9
    }
}

/// Pages of the multiple-choice branch: reachable only after `mc`.
pub open spec fn needs_mc(page: int) -> bool {
    page == 4 || page == 6
}

/// Pages of the true/false branch: reachable only after `tf`.
pub open spec fn needs_tf(page: int) -> bool {
    page == 5 || page == 7
}

/// The defensive precondition on history that a branch page demands before it
/// accepts any token at all.
pub open spec fn history_gate_ok(page: int, history: Seq<Seq<char>>) -> bool {
    &&& (needs_mc(page) ==> history.contains("mc"@))
    &&& (needs_tf(page) ==> history.contains("tf"@))
}

/// The page reached by replaying `history` from page 1, one accepted token at
/// a time.
pub open spec fn replay_page(history: Seq<Seq<char>>) -> int
    decreases history.len(),
{
    if history.len() == 0 {
        1
    } else {
        page_after(replay_page(history.drop_last()), history.last())
    }
}

/// Whether `history` could have been produced by a fresh machine: every token
/// was accepted on the page reached so far, with that page's history gate
/// satisfied at the time.
pub open spec fn valid_history(history: Seq<Seq<char>>) -> bool
    decreases history.len(),
{
    if history.len() == 0 {
        true
    } else {
        let prev = history.drop_last();
        let p = replay_page(prev);
        &&& valid_history(prev)
        &&& history_gate_ok(p, prev)
        &&& token_allowed(p, history.last())
    }
}

/// The accepted-token list a rejected press reports for `page`, in table
/// order. Empty at the terminal page, where nothing is accepted.
pub open spec fn allowed_list(page: int) -> Seq<Seq<char>> {
    if page == 1 {
        seq!["start"@]
    } else if page == 2 {
        seq!["pm"@, "ux"@, "engi"@, "dm"@]
    } else if page == 3 {
        seq!["mc"@, "tf"@]
    } else if page == 4 {
        seq!["4a"@, "4b"@, "4c"@, "4d"@]
    } else if page == 5 {
        seq!["5t"@, "5f"@]
    } else if page == 6 {
        seq!["6a"@, "6b"@, "6c"@, "6d"@]
    } else if page == 7 {
        seq!["7t"@, "7f"@]
    } else if page == 8 {
        seq!["trophy"@]
    } else {
        Seq::empty()
    }
}

/// Builds the accepted-token list that a rejected press on `page` reports.
pub fn allowed_for(page: usize) -> (v: Vec<String>)
    ensures
        v.deep_view() == allowed_list(page as int),
{
    let v: Vec<String> = match page {
        1 => vec![String::from_str("start")],
        2 => vec![
            String::from_str("pm"),
            String::from_str("ux"),
            String::from_str("engi"),
            String::from_str("dm"),
        ],
        3 => vec![String::from_str("mc"), String::from_str("tf")],
        4 => vec![
            String::from_str("4a"),
            String::from_str("4b"),
            String::from_str("4c"),
            String::from_str("4d"),
        ],
        5 => vec![String::from_str("5t"), String::from_str("5f")],
        6 => vec![
            String::from_str("6a"),
            String::from_str("6b"),
            String::from_str("6c"),
            String::from_str("6d"),
        ],
        7 => vec![String::from_str("7t"), String::from_str("7f")],
        8 => vec![String::from_str("trophy")],
        _ => Vec::new(),
    };
    proof {
        assert(v.deep_view() =~= allowed_list(page as int));
    }
    v
}

/// Replaying a valid history can only land on a page of the flow.
pub proof fn lemma_replay_page_in_range(history: Seq<Seq<char>>)
    requires
        valid_history(history),
    ensures
        1 <= replay_page(history) <= 9,
    decreases history.len(),
{
    if history.len() > 0 {
        lemma_replay_page_in_range(history.drop_last());
    }
}

/// Reaching a branch page forces the matching choice into the history: a
/// valid history standing on page 4 or 6 contains `mc`, and one standing on
/// page 5 or 7 contains `tf`. The defensive gate on those pages is therefore
/// unreachable through the public transition table alone.
pub proof fn lemma_branch_page_implies_choice(history: Seq<Seq<char>>)
    requires
        valid_history(history),
    ensures
        needs_mc(replay_page(history)) ==> history.contains("mc"@),
        needs_tf(replay_page(history)) ==> history.contains("tf"@),
    decreases history.len(),
{
    if history.len() > 0 {
        let prev = history.drop_last();
        lemma_branch_page_implies_choice(prev);
        let p = replay_page(prev);
        let q = replay_page(history);
        if needs_mc(q) {
            if q == 4 {
                assert(history.last() == "mc"@);
                assert(history.contains("mc"@));
            } else {
                assert(p == 4);
                assert(prev.contains("mc"@));
                let i = choose|i: int| 0 <= i < prev.len() && prev[i] == "mc"@;
                assert(history[i] == "mc"@);
                assert(history.contains("mc"@));
            }
        }
        if needs_tf(q) {
            if q == 5 {
                assert(history.last() == "tf"@);
                assert(history.contains("tf"@));
            } else {
                assert(p == 5);
                assert(prev.contains("tf"@));
                let i = choose|i: int| 0 <= i < prev.len() && prev[i] == "tf"@;
                assert(history[i] == "tf"@);
                assert(history.contains("tf"@));
            }
        }
    }
}

/// Every prefix of a valid history is itself valid.
pub proof fn lemma_valid_history_prefix(history: Seq<Seq<char>>, n: int)
    requires
        valid_history(history),
        0 <= n <= history.len(),
    ensures
        valid_history(history.take(n)),
    decreases history.len(),
{
    if n == history.len() {
        assert(history.take(n) =~= history);
    } else {
        let prev = history.drop_last();
        lemma_valid_history_prefix(prev, n);
        assert(prev.take(n) =~= history.take(n));
    }
}

/// A valid history always meets the history precondition of the page it
/// stands on.
pub proof fn lemma_valid_history_gate(history: Seq<Seq<char>>)
    requires
        valid_history(history),
    ensures
        history_gate_ok(replay_page(history), history),
{
    lemma_branch_page_implies_choice(history);
}

} // verus!

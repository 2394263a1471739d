//! Positional decoding of a session's history into human-readable fields,
//! the multi-line narrative derived from them, and the flat summary record
//! that is appended to the log when a session completes.

use vstd::prelude::*;

use crate::text::{push_char, str_eq};

verus! {

/// The role chosen on page 2, decoded; an unrecognized token stands for
/// itself.
pub open spec fn role_label(t: Seq<char>) -> Seq<char> {
    if t == "pm"@ {
        "Product Manager"@
    } else if t == "ux"@ {
        "UX Designer"@
    } else if t == "engi"@ {
        "Engineer"@
    } else if t == "dm"@ {
        "Developer Manager"@
    } else {
        t
    }
}

/// The question type chosen on page 3, decoded; an unrecognized token stands
/// for itself.
pub open spec fn qtype_label(t: Seq<char>) -> Seq<char> {
    if t == "mc"@ {
        "Multiple Choice"@
    } else if t == "tf"@ {
        "True/False"@
    } else {
        t
    }
}

/// The team-size answer from page 4, decoded.
pub open spec fn team_size_label(t: Seq<char>) -> Seq<char> {
    if t == "4a"@ {
        "3-5 people"@
    } else if t == "4b"@ {
        "6-8 people"@
    } else if t == "4c"@ {
        "9-12 people"@
    } else if t == "4d"@ {
        "13-15 people"@
    } else {
        "(unknown)"@
    }
}

/// The role-preference answer from page 6, decoded.
pub open spec fn role_pref_label(t: Seq<char>) -> Seq<char> {
    if t == "6a"@ {
        "Product Manager"@
    } else if t == "6b"@ {
        "Developer Manager"@
    } else if t == "6c"@ {
        "Engineer"@
    } else if t == "6d"@ {
        "UX Designer"@
    } else {
        "(unknown)"@
    }
}

/// The first true/false answer, from page 5, decoded.
pub open spec fn hpom_label(t: Seq<char>) -> Seq<char> {
    if t == "5t"@ {
        "True"@
    } else if t == "5f"@ {
        "False"@
    } else {
        "(unknown)"@
    }
}

/// The second true/false answer, from page 7, decoded.
pub open spec fn richard_label(t: Seq<char>) -> Seq<char> {
    if t == "7t"@ {
        "True"@
    } else if t == "7f"@ {
        "False"@
    } else {
        "(unknown)"@
    }
}

/// Decodes the role token chosen on page 2.
pub fn role_label_of(t: &str) -> (r: String)
    ensures
        r@ == role_label(t@),
{
    if str_eq(t, "pm") {
        String::from_str("Product Manager")
    } else if str_eq(t, "ux") {
        String::from_str("UX Designer")
    } else if str_eq(t, "engi") {
        String::from_str("Engineer")
    } else if str_eq(t, "dm") {
        String::from_str("Developer Manager")
    } else {
        String::from_str(t)
    }
}

/// Decodes the question-type token chosen on page 3.
pub fn qtype_label_of(t: &str) -> (r: String)
    ensures
        r@ == qtype_label(t@),
{
    if str_eq(t, "mc") {
        String::from_str("Multiple Choice")
    } else if str_eq(t, "tf") {
        String::from_str("True/False")
    } else {
        String::from_str(t)
    }
}

/// Decodes the team-size answer from page 4.
pub fn team_size_label_of(t: &str) -> (r: String)
    ensures
        r@ == team_size_label(t@),
{
    if str_eq(t, "4a") {
        String::from_str("3-5 people")
    } else if str_eq(t, "4b") {
        String::from_str("6-8 people")
    } else if str_eq(t, "4c") {
        String::from_str("9-12 people")
    } else if str_eq(t, "4d") {
        String::from_str("13-15 people")
    } else {
        String::from_str("(unknown)")
    }
}

/// Decodes the role-preference answer from page 6.
pub fn role_pref_label_of(t: &str) -> (r: String)
    ensures
        r@ == role_pref_label(t@),
{
    if str_eq(t, "6a") {
        String::from_str("Product Manager")
    } else if str_eq(t, "6b") {
        String::from_str("Developer Manager")
    } else if str_eq(t, "6c") {
        String::from_str("Engineer")
    } else if str_eq(t, "6d") {
        String::from_str("UX Designer")
    } else {
        String::from_str("(unknown)")
    }
}

/// Decodes the first true/false answer, from page 5.
pub fn hpom_label_of(t: &str) -> (r: String)
    ensures
        r@ == hpom_label(t@),
{
    if str_eq(t, "5t") {
        String::from_str("True")
    } else if str_eq(t, "5f") {
        String::from_str("False")
    } else {
        String::from_str("(unknown)")
    }
}

/// Decodes the second true/false answer, from page 7.
pub fn richard_label_of(t: &str) -> (r: String)
    ensures
        r@ == richard_label(t@),
{
    if str_eq(t, "7t") {
        String::from_str("True")
    } else if str_eq(t, "7f") {
        String::from_str("False")
    } else {
        String::from_str("(unknown)")
    }
}

/// The flat `role` field of a summary: the decoded second token, or empty
/// when the session never answered the role page.
pub open spec fn summary_role(h: Seq<Seq<char>>) -> Seq<char> {
    if h.len() > 1 {
        role_label(h[1])
    } else {
        Seq::empty()
    }
}

/// The flat `question_type` field of a summary.
pub open spec fn summary_qtype(h: Seq<Seq<char>>) -> Seq<char> {
    if h.len() > 2 {
        qtype_label(h[2])
    } else {
        Seq::empty()
    }
}

/// Whether a history's decoded question type selects the multiple-choice
/// branch of the summary.
pub open spec fn summary_is_mc(h: Seq<Seq<char>>) -> bool {
    summary_qtype(h) == "Multiple Choice"@
}

/// Whether a history's decoded question type selects the true/false branch
/// of the summary.
pub open spec fn summary_is_tf(h: Seq<Seq<char>>) -> bool {
    summary_qtype(h) == "True/False"@
}

/// The flat `team_size` field: filled only on the multiple-choice branch.
pub open spec fn summary_team_size(h: Seq<Seq<char>>) -> Seq<char> {
    if summary_is_mc(h) && h.len() > 3 {
        team_size_label(h[3])
    } else {
        Seq::empty()
    }
}

/// The flat `role_pref` field: filled only on the multiple-choice branch.
pub open spec fn summary_role_pref(h: Seq<Seq<char>>) -> Seq<char> {
    if summary_is_mc(h) && h.len() > 4 {
        role_pref_label(h[4])
    } else {
        Seq::empty()
    }
}

/// The flat `hpom_live` field: filled only on the true/false branch.
pub open spec fn summary_hpom(h: Seq<Seq<char>>) -> Seq<char> {
    if summary_is_tf(h) && h.len() > 3 {
        hpom_label(h[3])
    } else {
        Seq::empty()
    }
}

/// The flat `richard_cai` field: filled only on the true/false branch.
pub open spec fn summary_richard(h: Seq<Seq<char>>) -> Seq<char> {
    if summary_is_tf(h) && h.len() > 4 {
        richard_label(h[4])
    } else {
        Seq::empty()
    }
}

/// The multi-line narrative derived from a history by positional decoding:
/// a heading, then one line per answered slot, with the branch-specific
/// lines chosen by the decoded question type.
pub open spec fn doc_string_of(h: Seq<Seq<char>>) -> Seq<char> {
    let base = "User Response Summary:\n"@;
    let with_role = if h.len() > 1 {
        base + "- Role: "@ + role_label(h[1]) + "\n"@
    } else {
        base
    };
    let with_qtype = if h.len() > 2 {
        with_role + "- Question type: "@ + qtype_label(h[2]) + "\n"@
    } else {
        with_role
    };
    let mc = h.len() > 2 && qtype_label(h[2]) == "Multiple Choice"@;
    let tf = h.len() > 2 && qtype_label(h[2]) == "True/False"@;
    let with_a3 = if mc && h.len() > 3 {
        with_qtype + "- Preferred team size: "@ + team_size_label(h[3]) + "\n"@
    } else if tf && h.len() > 3 {
        with_qtype + "- Believes HPOM has been live for two years: "@ + hpom_label(h[3]) + "\n"@
    } else {
        with_qtype
    };
    if mc && h.len() > 4 {
        with_a3 + "- Wants to see more: "@ + role_pref_label(h[4]) + "\n"@
    } else if tf && h.len() > 4 {
        with_a3 + "- Not intimidated by Richard Cai: "@ + richard_label(h[4]) + "\n"@
    } else {
        with_a3
    }
}

/// The narrative with newline and double-quote characters escaped, so that it
/// can stand inside a single quoted CSV cell: a newline becomes the two
/// characters `\\n`, and a double quote becomes a single quote.
pub open spec fn cell_escaped(s: Seq<char>) -> Seq<char>
    decreases s.len(),
{
    if s.len() == 0 {
        Seq::empty()
    } else {
        let rest = cell_escaped(s.drop_first());
        if s[0] == '\n' {
            seq!['\\', 'n'] + rest
        } else if s[0] == '"' {
            seq!['\''] + rest
        } else {
            seq![s[0]] + rest
        }
    }
}

/// The flat record appended to the log when a session completes: the decoded
/// positional fields, with the fields of the branch not taken left empty, and
/// the narrative already escaped for a quoted CSV cell.
pub struct SummaryRecord {
    pub role: String,
    pub question_type: String,
    pub team_size: String,
    pub role_pref: String,
    pub hpom_live: String,
    pub richard_cai: String,
    pub doc_string: String,
}

/// Whether `rec` is exactly the summary that `h` decodes to.
pub open spec fn record_matches(rec: SummaryRecord, h: Seq<Seq<char>>) -> bool {
    &&& rec.role@ == summary_role(h)
    &&& rec.question_type@ == summary_qtype(h)
    &&& rec.team_size@ == summary_team_size(h)
    &&& rec.role_pref@ == summary_role_pref(h)
    &&& rec.hpom_live@ == summary_hpom(h)
    &&& rec.richard_cai@ == summary_richard(h)
    &&& rec.doc_string@ == cell_escaped(doc_string_of(h))
}

/// One log line for `rec` under `id`: the eight comma-separated columns, the
/// narrative quoted, with a trailing newline.
pub open spec fn csv_row_of(id: Seq<char>, rec: SummaryRecord) -> Seq<char> {
    id + ","@ + rec.role@ + ","@ + rec.question_type@ + ","@ + rec.team_size@ + ","@
        + rec.role_pref@ + ","@ + rec.hpom_live@ + ","@ + rec.richard_cai@ + ",\""@
        + rec.doc_string@ + "\"\n"@
}

impl SummaryRecord {
    /// Renders the record as the CSV line appended to the log.
    pub fn to_csv_row(&self, session_id: &str) -> (r: String)
        ensures
            r@ == csv_row_of(session_id@, *self),
    {
        let mut r = String::from_str(session_id);
        r.append(",");
        r.append(self.role.as_str());
        r.append(",");
        r.append(self.question_type.as_str());
        r.append(",");
        r.append(self.team_size.as_str());
        r.append(",");
        r.append(self.role_pref.as_str());
        r.append(",");
        r.append(self.hpom_live.as_str());
        r.append(",");
        r.append(self.richard_cai.as_str());
        r.append(",\"");
        r.append(self.doc_string.as_str());
        r.append("\"\n");
        r
    }
}

/// The header line of the log, naming the eight columns.
pub fn csv_header() -> (r: String)
    ensures
        r@
            == "session_id,role,question_type,team_size,role_pref,hpom_live,richard_cai,doc_string\n"@,
{
    String::from_str("session_id,role,question_type,team_size,role_pref,hpom_live,richard_cai,doc_string\n")
}

/// Escapes a narrative for embedding in a quoted CSV cell.
pub fn escape_cell(s: &str) -> (r: String)
    ensures
        r@ == cell_escaped(s@),
{
    let n = s.unicode_len();
    let mut out = String::new();
    proof {
        assert(s@.skip(0) =~= s@);
        assert(out@ + cell_escaped(s@.skip(0)) =~= cell_escaped(s@));
    }
    for i in 0..n
        invariant
            n == s@.len(),
            out@ + cell_escaped(s@.skip(i as int)) == cell_escaped(s@),
    {
        let c = s.get_char(i);
        proof {
            assert(s@.skip(i as int)[0] == c);
            assert(s@.skip(i as int).drop_first() =~= s@.skip(i + 1));
        }
        if c == '\n' {
            push_char(&mut out, '\\');
            push_char(&mut out, 'n');
        } else if c == '"' {
            push_char(&mut out, '\'');
        } else {
            push_char(&mut out, c);
        }
        proof {
            assert(out@ + cell_escaped(s@.skip(i + 1)) =~= cell_escaped(s@));
        }
    }
    proof {
        assert(s@.skip(n as int) =~= Seq::empty());
        assert(out@ =~= cell_escaped(s@));
    }
    out
}

} // verus!

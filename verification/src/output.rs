use vstd::prelude::*;

use crate::strutil::{ci_equal, eq_ignore_ascii_case_str};
use crate::worktree::Worktree;

verus! {

// ---------------------------------------------------------------------------
// Output format selection
// ---------------------------------------------------------------------------

/// How a listing is rendered.
#[derive(Debug, Clone, Copy)]
pub enum OutputFormat {
    Table,
    Compact,
    Json,
}

/// The format a user's word names, compared without regard to ASCII case:
/// `json`, one of the compact synonyms, or the table as the catch-all.
pub open spec fn output_format_spec(s: Seq<char>) -> OutputFormat {
    if ci_equal(s, "json"@) {
        OutputFormat::Json
    } else if ci_equal(s, "compact"@) || ci_equal(s, "simple"@) || ci_equal(s, "short"@) {
        OutputFormat::Compact
    } else {
        OutputFormat::Table
    }
}

impl OutputFormat {
    pub fn from_str(s: &str) -> (r: OutputFormat)
        ensures
            r == output_format_spec(s@),
    {
        if eq_ignore_ascii_case_str(s, "json") {
            OutputFormat::Json
        } else if eq_ignore_ascii_case_str(s, "compact") || eq_ignore_ascii_case_str(s, "simple")
            || eq_ignore_ascii_case_str(s, "short") {
            OutputFormat::Compact
        } else {
            OutputFormat::Table
        }
    }
}

/// Whether a user's word names one of the two formats every command
/// accepts.
pub fn validate_output_format(format: &str) -> (r: bool)
    ensures
        r == (ci_equal(format@, "table"@) || ci_equal(format@, "json"@)),
{
    eq_ignore_ascii_case_str(format, "table") || eq_ignore_ascii_case_str(format, "json")
}

// ---------------------------------------------------------------------------
// The plain-text detail block
// ---------------------------------------------------------------------------

/// What chrono prints for a Unix timestamp formatted `%Y-%m-%d %H:%M:%S`
/// in UTC.
pub uninterp spec fn timestamp_display(t: i64) -> Seq<char>;

/// Relies on chrono's `DateTime::from_timestamp` and strftime-style
/// formatting: the `%Y-%m-%d %H:%M:%S` rendering of the given Unix time in
/// UTC, a function of the timestamp alone; a timestamp outside chrono's
/// range renders as nothing.
#[verifier::external_body]
fn format_timestamp(t: i64) -> (r: String)
    ensures
        r@ == timestamp_display(t),
{
    match chrono::DateTime::<chrono::Utc>::from_timestamp(t, 0) {
        Some(dt) => dt.format("%Y-%m-%d %H:%M:%S").to_string(),
        None => String::new(),
    }
}

pub open spec fn yes_no(b: bool) -> Seq<char> {
    if b {
        "Yes"@
    } else {
        "No"@
    }
}

/// The detail block for one record, line by line.
pub open spec fn info_spec(w: Worktree) -> Seq<char> {
    "Worktree: "@ + w.dirname@ + "\n  Branch: "@ + w.branch_name@ + "\n  Path: "@ + w.path@
        + "\n  HEAD: "@ + (match w.head_commit.deep_view() {
        Some(h) => h,
        None => "N/A"@,
    }) + "\n  Current: "@ + yes_no(w.is_current) + "\n  Detached: "@ + yes_no(w.is_detached)
        + "\n"@ + (match w.upstream_branch.deep_view() {
        Some(u) => "  Upstream: "@ + u + "\n"@,
        None => Seq::<char>::empty(),
    }) + "  Last Modified: "@ + timestamp_display(w.last_modified) + "\n"@
}

/// Renders one record as the plain-text detail block.
pub fn format_worktree_info(worktree: &Worktree) -> (r: String)
    ensures
        r@ == info_spec(*worktree),
{
    let mut out = String::from_str("Worktree: ");
    out.append(worktree.dirname.as_str());
    out.append("\n  Branch: ");
    out.append(worktree.branch_name.as_str());
    out.append("\n  Path: ");
    out.append(worktree.path.as_str());
    out.append("\n  HEAD: ");
    match &worktree.head_commit {
        Some(h) => out.append(h.as_str()),
        None => out.append("N/A"),
    }
    out.append("\n  Current: ");
    if worktree.is_current {
        out.append("Yes");
    } else {
        out.append("No");
    }
    out.append("\n  Detached: ");
    if worktree.is_detached {
        out.append("Yes");
    } else {
        out.append("No");
    }
    out.append("\n");
    match &worktree.upstream_branch {
        Some(u) => {
            out.append("  Upstream: ");
            out.append(u.as_str());
            out.append("\n");
        },
        None => {},
    }
    out.append("  Last Modified: ");
    let ts = format_timestamp(worktree.last_modified);
    out.append(ts.as_str());
    out.append("\n");
    proof {
        assert(out@ =~= info_spec(*worktree));
    }
    out
}

} // verus!

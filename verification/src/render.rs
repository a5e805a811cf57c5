//! Rendering of the user-facing report lines, each pinned to its
//! exact character sequence. The surrounding program only prints what
//! these return.

use vstd::prelude::*;
use vstd::string::StringExecFns;
use crate::repo::Repo;
use crate::text::{dec_str, usize_to_string};

verus! {

/// Visibility label of a listing line.
pub open spec fn visibility_label(private: bool) -> Seq<char> {
    if private {
        "private"@
    } else {
        "public"@
    }
}

/// Tag suffix naming fork and archived status; empty when neither.
pub open spec fn tag_suffix(fork: bool, archived: bool) -> Seq<char> {
    if fork && archived {
        " [fork, archived]"@
    } else if fork {
        " [fork]"@
    } else if archived {
        " [archived]"@
    } else {
        Seq::<char>::empty()
    }
}

/// The listing line for the repository at 1-based position `index1`.
pub open spec fn repo_line_view(index1: int, r: Repo) -> Seq<char> {
    dec_str(index1) + ": "@ + r.full_name@ + " ("@ + visibility_label(r.private) + ")"@
        + tag_suffix(r.fork, r.archived)
}

/// Render one listing line.
pub fn repo_line(index1: usize, r: &Repo) -> (s: String)
    ensures
        s@ == repo_line_view(index1 as int, *r),
{
    let mut s = usize_to_string(index1);
    s.append(": ");
    s.append(r.full_name.as_str());
    s.append(" (");
    if r.private {
        s.append("private");
    } else {
        s.append("public");
    }
    s.append(")");
    if r.fork && r.archived {
        s.append(" [fork, archived]");
    } else if r.fork {
        s.append(" [fork]");
    } else if r.archived {
        s.append(" [archived]");
    }
    proof {
        assert(s@ =~= repo_line_view(index1 as int, *r));
    }
    s
}

/// Render the listing lines for all repositories, in order.
pub fn repo_lines(repos: &Vec<Repo>) -> (lines: Vec<String>)
    ensures
        lines@.len() == repos@.len(),
        forall|i: int| 0 <= i < repos@.len() ==> lines@[i]@ == repo_line_view(i + 1, repos@[i]),
{
    let mut lines: Vec<String> = Vec::new();
    let mut i: usize = 0;
    while i < repos.len()
        invariant
            i <= repos@.len(),
            lines@.len() == i,
            forall|j: int| 0 <= j < i ==> lines@[j]@ == repo_line_view(j + 1, repos@[j]),
        decreases repos@.len() - i,
    {
        lines.push(repo_line(i + 1, &repos[i]));
        i = i + 1;
    }
    lines
}

/// The line naming one repository selected for deletion.
pub open spec fn bullet_line_view(r: Repo) -> Seq<char> {
    "- "@ + r.full_name@
}

/// Render the line naming one selected repository.
pub fn bullet_line(r: &Repo) -> (s: String)
    ensures
        s@ == bullet_line_view(*r),
{
    let mut s = "- ".to_owned();
    s.append(r.full_name.as_str());
    s
}

/// The line reporting one successful deletion.
pub open spec fn deleted_line_view(r: Repo) -> Seq<char> {
    "Deleted: "@ + r.full_name@
}

/// Render the line reporting one successful deletion.
pub fn deleted_line(r: &Repo) -> (s: String)
    ensures
        s@ == deleted_line_view(*r),
{
    let mut s = "Deleted: ".to_owned();
    s.append(r.full_name.as_str());
    s
}

/// The line reporting one failed deletion.
pub open spec fn failed_line_view(r: Repo) -> Seq<char> {
    "Failed to delete "@ + r.full_name@
}

/// Render the line reporting one failed deletion.
pub fn failed_line(r: &Repo) -> (s: String)
    ensures
        s@ == failed_line_view(*r),
{
    let mut s = "Failed to delete ".to_owned();
    s.append(r.full_name.as_str());
    s
}

/// The banner announcing the deletion fan-out.
pub open spec fn deleting_banner_view(count: int, limit: int) -> Seq<char> {
    "Deleting "@ + dec_str(count) + " repositories with concurrency "@ + dec_str(limit) + "..."@
}

/// Render the banner announcing the deletion fan-out.
pub fn deleting_banner(count: usize, limit: usize) -> (s: String)
    ensures
        s@ == deleting_banner_view(count as int, limit as int),
{
    let mut s = "Deleting ".to_owned();
    let c = usize_to_string(count);
    s.append(c.as_str());
    s.append(" repositories with concurrency ");
    let l = usize_to_string(limit);
    s.append(l.as_str());
    s.append("...");
    proof {
        assert(s@ =~= deleting_banner_view(count as int, limit as int));
    }
    s
}

} // verus!

//! The confirmation gate: once a selection is made, a run proceeds to
//! deletion only in one of two ways — the bypass flag, or a typed
//! line matching the confirmation phrase exactly. Dry-run mode stops
//! before either, and anything else aborts the run.

use vstd::prelude::*;
use vstd::string::StrSliceExecFns;
use crate::repo::Repo;
use crate::requests::{delete_url, delete_url_view};
use crate::text::{trim_blanks, trimmed};

verus! {

/// How a run continues once a selection has been made.
#[derive(Clone, Copy, Debug, PartialEq, Eq, Structural)]
pub enum GateDecision {
    /// Report the intended deletions and stop; nothing is deleted.
    DryRun,
    /// Go ahead and delete the selection.
    Proceed,
    /// Stop without deleting anything.
    Abort,
}

/// The exact line a user must type to confirm deletion.
pub open spec fn confirmation_phrase() -> Seq<char> {
    "DELETE"@
}

/// The confirmation phrase, for building the prompt.
pub fn confirmation_phrase_str() -> (r: &'static str)
    ensures
        r@ == confirmation_phrase(),
{
    "DELETE"
}

/// Decision of the confirmation gate for given flags and typed line.
pub open spec fn spec_gate(dry_run: bool, yes: bool, typed: Option<Seq<char>>) -> GateDecision {
    if dry_run {
        GateDecision::DryRun
    } else if yes {
        GateDecision::Proceed
    } else {
        match typed {
            Some(line) => if trimmed(line) == confirmation_phrase() {
                GateDecision::Proceed
            } else {
                GateDecision::Abort
            },
            None => GateDecision::Abort,
        }
    }
}

/// Decide how the run continues. `typed` is the confirmation line, if
/// one was read.
pub fn gate(dry_run: bool, yes: bool, typed: Option<&String>) -> (g: GateDecision)
    ensures
        g == spec_gate(
            dry_run,
            yes,
            match typed {
                Some(s) => Some(s@),
                None => None::<Seq<char>>,
            },
        ),
{
    if dry_run {
        GateDecision::DryRun
    } else if yes {
        GateDecision::Proceed
    } else {
        match typed {
            Some(line) => {
                let t = trim_blanks(line.as_str()).to_owned();
                let phrase = confirmation_phrase_str().to_owned();
                if t == phrase {
                    GateDecision::Proceed
                } else {
                    GateDecision::Abort
                }
            },
            None => GateDecision::Abort,
        }
    }
}

/// The deletion requests a decision allows: one per selected
/// repository, in order, when proceeding; none otherwise.
pub open spec fn spec_planned_urls(g: GateDecision, selected: Seq<Repo>) -> Seq<Seq<char>> {
    if g is Proceed {
        selected.map(|i: int, r: Repo| delete_url_view(r.full_name@))
    } else {
        Seq::<Seq<char>>::empty()
    }
}

/// Build the deletion request URLs the decision allows.
pub fn planned_urls(g: GateDecision, selected: &Vec<Repo>) -> (urls: Vec<String>)
    ensures
        urls@.len() == spec_planned_urls(g, selected@).len(),
        forall|i: int| 0 <= i < urls@.len() ==> urls@[i]@ == spec_planned_urls(g, selected@)[i],
{
    let mut urls: Vec<String> = Vec::new();
    match g {
        GateDecision::Proceed => {
            let mut i: usize = 0;
            while i < selected.len()
                invariant
                    i <= selected@.len(),
                    urls@.len() == i,
                    forall|j: int|
                        0 <= j < i ==> urls@[j]@ == delete_url_view(selected@[j].full_name@),
                decreases selected@.len() - i,
            {
                urls.push(delete_url(selected[i].full_name.as_str()));
                i = i + 1;
            }
        },
        _ => {},
    }
    urls
}

/// Law: in dry-run mode no deletion request is planned, whatever the
/// bypass flag, the typed line, and the selection size.
pub proof fn lemma_dry_run_deletes_nothing(yes: bool, typed: Option<Seq<char>>, selected: Seq<Repo>)
    ensures
        spec_planned_urls(spec_gate(true, yes, typed), selected).len() == 0,
{
}

/// Law: without the bypass flag, a typed line other than the exact
/// confirmation phrase plans no deletion request.
pub proof fn lemma_unconfirmed_deletes_nothing(typed: Seq<char>, selected: Seq<Repo>)
    requires
        trimmed(typed) != confirmation_phrase(),
    ensures
        spec_planned_urls(spec_gate(false, false, Some(typed)), selected).len() == 0,
{
}

/// Law: without the bypass flag, reading no confirmation line at all
/// plans no deletion request either.
pub proof fn lemma_unprompted_deletes_nothing(selected: Seq<Repo>)
    ensures
        spec_planned_urls(spec_gate(false, false, None), selected).len() == 0,
{
}

} // verus!

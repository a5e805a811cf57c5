//! The repository record and the fork/archive filter stage.

use vstd::prelude::*;

verus! {

/// One repository as reported by the listing endpoint. Records are
/// immutable once constructed; a missing flag in the wire format is
/// reported as `false` by the layer that builds the record.
pub struct Repo {
    /// Short identifier of the repository.
    pub name: String,
    /// Owner-qualified identifier, `owner/name`.
    pub full_name: String,
    /// Whether the repository is private.
    pub private: bool,
    /// Whether the repository is archived.
    pub archived: bool,
    /// Whether the repository is a fork.
    pub fork: bool,
}

impl Clone for Repo {
    /// Field-for-field copy of the record.
    fn clone(&self) -> (res: Self)
        ensures
            res == *self,
    {
        Repo {
            name: self.name.clone(),
            full_name: self.full_name.clone(),
            private: self.private,
            archived: self.archived,
            fork: self.fork,
        }
    }
}

/// Whether the filter stage keeps `r`: forks are dropped unless
/// included, archived repositories are dropped unless included.
pub open spec fn kept(r: Repo, include_forks: bool, include_archived: bool) -> bool {
    (!r.fork || include_forks) && (!r.archived || include_archived)
}

/// The filter stage: keep exactly the repositories that pass the two
/// flags, in their original order.
pub fn filter_repos(repos: &Vec<Repo>, include_forks: bool, include_archived: bool) -> (r: Vec<
    Repo,
>)
    ensures
        r@ == repos@.filter(|x: Repo| kept(x, include_forks, include_archived)),
{
    let ghost pred = |x: Repo| kept(x, include_forks, include_archived);
    let mut r: Vec<Repo> = Vec::new();
    let mut i: usize = 0;
    proof {
        assert(repos@.take(0).filter(pred) =~= Seq::<Repo>::empty()) by {
            reveal(Seq::filter);
            assert(repos@.take(0) =~= Seq::<Repo>::empty());
        }
    }
    while i < repos.len()
        invariant
            i <= repos@.len(),
            pred == (|x: Repo| kept(x, include_forks, include_archived)),
            r@ == repos@.take(i as int).filter(pred),
        decreases repos@.len() - i,
    {
        proof {
            reveal(Seq::filter);
            assert(repos@.take(i + 1).drop_last() =~= repos@.take(i as int));
            assert(repos@.take(i + 1).last() == repos@[i as int]);
        }
        let keep_it = (!repos[i].fork || include_forks) && (!repos[i].archived
            || include_archived);
        if keep_it {
            r.push(repos[i].clone());
        }
        i = i + 1;
    }
    proof {
        assert(repos@.take(repos@.len() as int) =~= repos@);
    }
    r
}

/// Law: a repository appears in the filtered output if and only if it
/// appears in the input and passes the two inclusion flags.
pub proof fn lemma_filter_membership(
    repos: Seq<Repo>,
    include_forks: bool,
    include_archived: bool,
    r: Repo,
)
    ensures
        repos.filter(|x: Repo| kept(x, include_forks, include_archived)).contains(r) <==> (
        repos.contains(r) && kept(r, include_forks, include_archived)),
    decreases repos.len(),
{
    reveal(Seq::filter);
    let pred = |x: Repo| kept(x, include_forks, include_archived);
    if repos.len() > 0 {
        lemma_filter_membership(repos.drop_last(), include_forks, include_archived, r);
        if repos.drop_last().contains(r) {
            let i = choose|i: int| 0 <= i < repos.drop_last().len() && repos.drop_last()[i] == r;
            assert(repos[i] == r);
        }
        if repos.filter(pred).contains(r) {
            if pred(repos.last()) && repos.last() == r {
                assert(repos.contains(r)) by {
                    assert(repos[repos.len() - 1] == r);
                }
            } else {
                if pred(repos.last()) {
                    let j = choose|j: int|
                        0 <= j < repos.filter(pred).len() && repos.filter(pred)[j] == r;
                    if j < repos.filter(pred).len() - 1 {
                        assert(repos.drop_last().filter(pred).contains(r)) by {
                            assert(repos.drop_last().filter(pred)[j] == r);
                        }
                    }
                } else {
                    assert(repos.drop_last().filter(pred).contains(r));
                }
            }
        }
        if repos.contains(r) && pred(r) {
            let i = choose|i: int| 0 <= i < repos.len() && repos[i] == r;
            if i < repos.len() - 1 {
                assert(repos.drop_last()[i] == r);
                assert(repos.drop_last().contains(r));
                assert(repos.drop_last().filter(pred).contains(r));
                let j = choose|j: int|
                    0 <= j < repos.drop_last().filter(pred).len() && repos.drop_last().filter(
                        pred,
                    )[j] == r;
                assert(repos.filter(pred)[j] == r);
                assert(repos.filter(pred).contains(r));
            } else {
                assert(repos.last() == r);
                if pred(repos.last()) {
                    assert(repos.filter(pred).last() == r);
                    assert(repos.filter(pred).contains(r)) by {
                        assert(repos.filter(pred)[repos.filter(pred).len() - 1] == r);
                    }
                }
            }
        }
    }
}

} // verus!

//! Resolving a requirement on a repository: the commit that its selector
//! names, and the locator of that commit.
use crate::error::{result_view, Error, ErrorKind};
use crate::git::{
    listing_view, resolve_git_treeish, spec_resolve_git_treeish, GitRange, GitRangeView,
    GitReference, GitReferenceView, RemoteRef,
};
use crate::keyed::Duplicate;
use crate::primitives::{Ident, Locator, LocatorView, Reference, ReferenceView};
use vstd::prelude::*;

verus! {

/// The locator of a commit of the repository that a requirement names.
pub open spec fn spec_git_locator(
    ident: Seq<char>,
    source: GitRangeView,
    commit: Seq<char>,
) -> LocatorView {
    LocatorView {
        ident,
        reference: ReferenceView::Git(
            GitReferenceView { repo: source.repo, commit, prepare_params: source.prepare_params },
        ),
        parent: None,
    }
}

pub fn git_locator(ident: &Ident, source: &GitRange, commit: String) -> (locator: Locator)
    ensures
        locator@ == spec_git_locator(ident@, source@, commit@),
{
    Locator::new(
        ident.duplicate(),
        Reference::Git(
            GitReference {
                repo: source.repo.duplicate(),
                commit,
                prepare_params: source.prepare_params.duplicate(),
            },
        ),
    )
}

/// The package that a requirement on a repository stands for: the commit
/// that the selector resolves to, in the same repository and prepared the
/// same way. The errors are those of resolving the selector.
pub open spec fn spec_resolve_git(
    ident: Seq<char>,
    source: GitRangeView,
    listing: Result<Seq<(Seq<char>, Seq<char>)>, (ErrorKind, Seq<char>)>,
) -> Result<LocatorView, (ErrorKind, Seq<char>)> {
    match spec_resolve_git_treeish(source.treeish, listing) {
        Ok(commit) => Ok(spec_git_locator(ident, source, commit)),
        Err(e) => Err(e),
    }
}

/// Resolves a requirement on a repository to the locator that is then
/// fetched. `listing` is what listing the references of the repository
/// gave.
pub fn resolve_descriptor(
    ident: &Ident,
    source: &GitRange,
    listing: Result<Vec<RemoteRef>, Error>,
) -> (r: Result<Locator, Error>)
    ensures
        result_view(r) == spec_resolve_git(ident@, source@, listing_view(listing)),
{
    match resolve_git_treeish(source, listing) {
        Ok(commit) => Ok(git_locator(ident, source, commit)),
        Err(e) => Err(e),
    }
}

} // verus!

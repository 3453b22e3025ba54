//! Resolving a requirement on a directory that is packed as it is.
use crate::keyed::{duplicate_option, option_view, Duplicate};
use crate::primitives::{Ident, Locator, LocatorView, Reference, ReferenceView};
use crate::resolvers::boxed;
use crate::text::{chars_of, string_of};
use vstd::prelude::*;

verus! {

/// The locator of the directory at `path`, seen from the parent.
pub open spec fn spec_folder_locator(
    ident: Seq<char>,
    path: Seq<char>,
    parent: Option<LocatorView>,
) -> LocatorView {
    LocatorView { ident, reference: ReferenceView::Folder(path), parent: boxed(parent) }
}

/// Resolves a requirement on a directory to the locator that is then
/// fetched; the directory brings the manifest.
pub fn resolve_descriptor(ident: &Ident, path: &str, parent: &Option<Locator>) -> (locator: Locator)
    ensures
        locator@ == spec_folder_locator(ident@, path@, option_view(*parent)),
{
    Locator::new_bound(
        ident.duplicate(),
        Reference::Folder(string_of(&chars_of(path))),
        duplicate_option(parent),
    )
}

} // verus!

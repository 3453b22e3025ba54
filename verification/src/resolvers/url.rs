//! Resolving a requirement on an archive at an address.
use crate::keyed::Duplicate;
use crate::primitives::{Ident, Locator, LocatorView, Reference, ReferenceView};
use crate::text::{chars_of, string_of};
use vstd::prelude::*;

verus! {

/// The locator of the archive at `url`.
pub open spec fn spec_url_locator(ident: Seq<char>, url: Seq<char>) -> LocatorView {
    LocatorView { ident, reference: ReferenceView::Url(url), parent: None }
}

/// Resolves a requirement on an address to the locator that is then
/// fetched.
pub fn resolve_descriptor(ident: &Ident, url: &str) -> (locator: Locator)
    ensures
        locator@ == spec_url_locator(ident@, url@),
{
    Locator::new(ident.duplicate(), Reference::Url(string_of(&chars_of(url))))
}

} // verus!

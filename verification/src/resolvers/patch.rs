//! Resolving a patch: a package that is another one with a file of changes
//! laid over it.
use crate::encoding::{encode, url_encoded};
use crate::error::{result_view, Error, ErrorKind};
use crate::install::{InstallOpResult, InstallOpResultView};
use crate::keyed::{duplicate_option, key_views, option_view, Duplicate};
use crate::primitives::{locator_text, Ident, Locator, LocatorView, Reference, ReferenceView};
use crate::resolvers::boxed;
use crate::text::{chars_of, string_of};
use vstd::prelude::*;

verus! {

/// The locator of a patch. The package that is patched was resolved as the
/// last of what the resolution depends on; the patch names it by the
/// encoded text of its locator. Without that resolution there is nothing
/// to patch.
pub open spec fn spec_resolve_patch(
    ident: Seq<char>,
    path: Seq<char>,
    parent: Option<LocatorView>,
    dependencies: Seq<InstallOpResultView>,
) -> Result<LocatorView, (ErrorKind, Seq<char>)> {
    if dependencies.len() > 0 && dependencies.last() is Resolved {
        Ok(
            LocatorView {
                ident,
                reference: ReferenceView::Patch(
                    url_encoded(locator_text(dependencies.last()->Resolved_0.resolution.locator)),
                    path,
                ),
                parent: boxed(parent),
            },
        )
    } else {
        Err((ErrorKind::Unsupported, Seq::empty()))
    }
}

/// Resolves a patch to the locator that is then fetched.
pub fn resolve_descriptor(
    ident: &Ident,
    path: &str,
    parent: &Option<Locator>,
    dependencies: &Vec<InstallOpResult>,
) -> (r: Result<Locator, Error>)
    ensures
        result_view(r) == spec_resolve_patch(
            ident@,
            path@,
            option_view(*parent),
            key_views(dependencies@),
        ),
{
    let n = dependencies.len();
    if n > 0 {
        assert(key_views(dependencies@).last() == dependencies@[n - 1]@);
        match &dependencies[n - 1] {
            InstallOpResult::Resolved(inner) => {
                let text = inner.resolution.locator.to_file_string();
                let encoded = encode(text.as_str());
                Ok(
                    Locator::new_bound(
                        ident.duplicate(),
                        Reference::Patch(encoded, string_of(&chars_of(path))),
                        duplicate_option(parent),
                    ),
                )
            },
            _ => Err(Error::bare(ErrorKind::Unsupported)),
        }
    } else {
        Err(Error::bare(ErrorKind::Unsupported))
    }
}

} // verus!

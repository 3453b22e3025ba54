//! Resolving a link to a directory.
use crate::error::Error;
use crate::install::{ResolutionResult, ResolutionResultView};
use crate::keyed::{option_view, Duplicate, KeyedList};
use crate::primitives::{Ident, Locator, LocatorView, Reference, ReferenceView};
use crate::resolution::{Requirements, RequirementsView, Resolution, ResolutionView};
use crate::semver::Version;
use crate::text::{chars_of, string_of};
use vstd::prelude::*;

verus! {

/// The resolution of a link: the directory is taken as it is, at version
/// zero and without dependencies.
pub open spec fn spec_resolve_link(
    ident: Seq<char>,
    path: Seq<char>,
    parent: Option<LocatorView>,
) -> ResolutionResultView {
    ResolutionResultView {
        resolution: ResolutionView {
            locator: LocatorView {
                ident,
                reference: ReferenceView::Link(path),
                parent: match parent {
                    Some(p) => Some(Box::new(p)),
                    None => None,
                },
            },
            version: Version { major: 0, minor: 0, patch: 0 },
            requirements: RequirementsView { os: Seq::empty(), cpu: Seq::empty() },
            dependencies: Seq::empty(),
            peer_dependencies: Seq::empty(),
            optional_dependencies: Seq::empty(),
            missing_peer_dependencies: Seq::empty(),
        },
        package_data: None,
    }
}

/// Resolves a link.
pub fn resolve_descriptor(ident: &Ident, path: &str, parent: &Option<Locator>) -> (r: Result<
    ResolutionResult,
    Error,
>)
    ensures
        r matches Ok(result) && result@ == spec_resolve_link(ident@, path@, option_view(*parent))
            && result.resolution.wf(),
{
    let locator = Locator::new_bound(
        ident.duplicate(),
        Reference::Link(string_of(&chars_of(path))),
        crate::keyed::duplicate_option(parent),
    );
    let resolution = Resolution {
        locator,
        version: Version::new(),
        requirements: Requirements::default(),
        dependencies: KeyedList::new(),
        peer_dependencies: KeyedList::new(),
        optional_dependencies: Vec::new(),
        missing_peer_dependencies: Vec::new(),
    };
    assert(resolution@.dependencies =~= Seq::empty());
    assert(resolution@.peer_dependencies =~= Seq::empty());
    assert(resolution@.optional_dependencies =~= Seq::empty());
    assert(resolution@.missing_peer_dependencies =~= Seq::empty());
    let result = resolution.into_resolution_result();
    proof {
        reveal(Seq::filter);
        assert(result@.resolution.dependencies =~= Seq::empty());
        assert(result@.resolution.peer_dependencies =~= Seq::empty());
        assert(result@.resolution.missing_peer_dependencies =~= Seq::empty());
    }
    Ok(result)
}

} // verus!

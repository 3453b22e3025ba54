//! Resolving a portal: a directory that brings its own manifest.
use crate::error::Error;
use crate::fetcher::{spec_relative_path, PackageData, PackageDataView};
use crate::install::ResolutionResult;
use crate::keyed::Duplicate;
use crate::path_resolve::{join_path, spec_join_path};
use crate::primitives::{Ident, Locator, LocatorView, Reference, ReferenceView};
use crate::resolution::{RemoteManifest, Resolution};
use crate::resolvers::npm::spec_resolved;
use crate::text::{chars_of, string_of};
use vstd::prelude::*;

verus! {

/// Where the manifest of a portal is read: `package.json` in the
/// directory at `path`, seen from the parent.
pub open spec fn spec_portal_manifest_path(
    path: Seq<char>,
    parent: LocatorView,
    parent_data: PackageDataView,
) -> Seq<char> {
    spec_join_path(spec_relative_path(path, parent, parent_data), "package.json"@)
}

pub fn portal_manifest_path(path: &str, parent: &Locator, parent_data: &PackageData) -> (file:
    String)
    ensures
        file@ == spec_portal_manifest_path(path@, parent@, parent_data@),
{
    let context = parent_data.context_directory(parent);
    let directory = join_path(context.as_str(), path);
    join_path(directory.as_str(), "package.json")
}

/// Resolves a portal, given the manifest that was read from its directory.
pub fn resolve_descriptor(
    ident: &Ident,
    path: &str,
    parent: &Locator,
    manifest: RemoteManifest,
) -> (r: Result<ResolutionResult, Error>)
    requires
        manifest.wf(),
    ensures
        r matches Ok(result) && result@ == spec_resolved(
            LocatorView {
                ident: ident@,
                reference: ReferenceView::Portal(path@),
                parent: Some(Box::new(parent@)),
            },
            manifest@,
        ) && result.resolution.wf(),
{
    let locator = Locator::new_bound(
        ident.duplicate(),
        Reference::Portal(string_of(&chars_of(path))),
        Some(parent.duplicate()),
    );
    let resolution = Resolution::from_remote_manifest(locator, manifest);
    Ok(resolution.into_resolution_result())
}

} // verus!

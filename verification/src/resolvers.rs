//! Resolving a requirement: one way for each kind of range.
//!
//! What has to be asked of a registry, a repository or the disk is asked by
//! the caller; the functions here say what to ask, and decide on the answer.
pub mod folder;
pub mod git;
pub mod link;
pub mod npm;
pub mod patch;
pub mod portal;
pub mod semver;
pub mod tarball;
pub mod url;
pub mod workspace;

use crate::error::{result_view, Error, ErrorKind};
use crate::git::{needs_remote_refs, ref_views, spec_needs_remote_refs, GitSource, RemoteRef};
use crate::install::{InstallOpResult, InstallOpResultView, ResolutionResult, ResolutionResultView};
use crate::keyed::{key_views, Duplicate};
use crate::primitives::{
    Descriptor, DescriptorView, Ident, Locator, LocatorView, Range, RangeView,
};
use crate::project::{spec_by_ident, spec_by_rel_path, Project};
use vstd::prelude::*;

verus! {

/// The next step of resolving a requirement: its result, where nothing
/// has to be asked; or what to ask, and of whom.
#[derive(Debug)]
pub enum ResolveStep {
    Done(ResolutionResult),
    /// Ask the registry for the index of the package at this address, and
    /// resolve on the answer.
    Registry { ident: Ident, url: String },
    /// List the references of the repository at this address, and resolve
    /// the selector on the listing.
    Remote { url: String },
    /// Read the manifest at this path, and resolve the portal with it.
    Manifest { path: String },
    /// Fetch the package at this locator; its content brings its
    /// resolution along.
    Fetch { locator: Locator },
}

pub enum ResolveStepView {
    Done(ResolutionResultView),
    Registry { ident: Seq<char>, url: Seq<char> },
    Remote { url: Seq<char> },
    Manifest { path: Seq<char> },
    Fetch { locator: LocatorView },
}

impl View for ResolveStep {
    type V = ResolveStepView;

    open spec fn view(&self) -> ResolveStepView {
        match self {
            ResolveStep::Done(result) => ResolveStepView::Done(result@),
            ResolveStep::Registry { ident, url } => ResolveStepView::Registry {
                ident: ident@,
                url: url@,
            },
            ResolveStep::Remote { url } => ResolveStepView::Remote { url: url@ },
            ResolveStep::Manifest { path } => ResolveStepView::Manifest { path: path@ },
            ResolveStep::Fetch { locator } => ResolveStepView::Fetch { locator: locator@ },
        }
    }
}

pub open spec fn boxed(parent: Option<LocatorView>) -> Option<Box<LocatorView>> {
    match parent {
        Some(p) => Some(Box::new(p)),
        None => None,
    }
}

/// How each kind of requirement is resolved. `dependencies` holds the
/// outputs of what resolving depends on, in the order in which the
/// operation declares it.
pub open spec fn spec_resolve(
    project: Project,
    descriptor: DescriptorView,
    dependencies: Seq<InstallOpResultView>,
) -> Result<ResolveStepView, (ErrorKind, Seq<char>)> {
    let registry = project.config.project.npm_registry_server.value@;
    match descriptor.range {
        RangeView::Semver(range) => match semver::spec_transparent_workspace(
            project,
            descriptor.ident,
            range,
        ) {
            Some(result) => Ok(ResolveStepView::Done(result)),
            None => Ok(
                ResolveStepView::Registry {
                    ident: descriptor.ident,
                    url: npm::spec_index_url(registry, descriptor.ident),
                },
            ),
        },
        RangeView::SemverAlias(alias, _) => Ok(
            ResolveStepView::Registry { ident: alias, url: npm::spec_index_url(registry, alias) },
        ),
        RangeView::SemverTag(_) => Ok(
            ResolveStepView::Registry {
                ident: descriptor.ident,
                url: npm::spec_index_url(registry, descriptor.ident),
            },
        ),
        RangeView::Git(range) => if spec_needs_remote_refs(range.treeish) {
            Ok(ResolveStepView::Remote { url: GitSource::spec_to_url(range.repo) })
        } else {
            match git::spec_resolve_git(descriptor.ident, range, Ok(Seq::empty())) {
                Ok(locator) => Ok(ResolveStepView::Fetch { locator }),
                Err(e) => Err(e),
            }
        },
        RangeView::Link(path) => Ok(
            ResolveStepView::Done(
                link::spec_resolve_link(descriptor.ident, path, descriptor.parent),
            ),
        ),
        RangeView::Portal(path) => match descriptor.parent {
            Some(parent) => if dependencies.len() > 0 && dependencies[0] is Fetched {
                Ok(
                    ResolveStepView::Manifest {
                        path: portal::spec_portal_manifest_path(
                            path,
                            parent,
                            dependencies[0]->Fetched_0.package_data,
                        ),
                    },
                )
            } else {
                Err((ErrorKind::Unsupported, Seq::empty()))
            },
            None => Err((ErrorKind::Unsupported, Seq::empty())),
        },
        RangeView::Tarball(path) => Ok(
            ResolveStepView::Fetch {
                locator: tarball::spec_tarball_locator(descriptor.ident, path, descriptor.parent),
            },
        ),
        RangeView::Folder(path) => Ok(
            ResolveStepView::Fetch {
                locator: folder::spec_folder_locator(descriptor.ident, path, descriptor.parent),
            },
        ),
        RangeView::Url(url) => Ok(
            ResolveStepView::Fetch { locator: url::spec_url_locator(descriptor.ident, url) },
        ),
        RangeView::Patch(_, _, path) => match patch::spec_resolve_patch(
            descriptor.ident,
            path,
            descriptor.parent,
            dependencies,
        ) {
            Ok(locator) => Ok(ResolveStepView::Fetch { locator }),
            Err(e) => Err(e),
        },
        RangeView::WorkspaceIdent(name) => match spec_by_ident(
            project.workspaces@,
            name,
            project.workspaces@.len(),
        ) {
            Some(i) => Ok(
                ResolveStepView::Done(
                    workspace::spec_workspace_resolution(
                        workspace::spec_workspace_locator(name),
                        project.workspaces@[i],
                    ),
                ),
            ),
            None => Err((ErrorKind::WorkspaceNotFound, name)),
        },
        RangeView::WorkspacePath(path) => match spec_by_rel_path(
            project.workspaces@,
            path,
            project.workspaces@.len(),
        ) {
            Some(i) => Ok(
                ResolveStepView::Done(
                    workspace::spec_workspace_resolution(
                        workspace::spec_workspace_locator(project.workspaces@[i].name@),
                        project.workspaces@[i],
                    ),
                ),
            ),
            None => Err((ErrorKind::WorkspaceNotFound, path)),
        },
    }
}

/// The first step of resolving `descriptor`.
pub fn resolve(project: &Project, descriptor: &Descriptor, dependencies: &Vec<InstallOpResult>) -> (r:
    Result<ResolveStep, Error>)
    requires
        project.wf(),
    ensures
        result_view(r) == spec_resolve(*project, descriptor@, key_views(dependencies@)),
{
    match &descriptor.range {
        Range::Semver(range) => match semver::resolve_descriptor(project, &descriptor.ident, range) {
            Some(result) => Ok(ResolveStep::Done(result)),
            None => Ok(
                ResolveStep::Registry {
                    ident: descriptor.ident.duplicate(),
                    url: npm::index_url(project, &descriptor.ident),
                },
            ),
        },
        Range::SemverAlias(alias, _) => Ok(
            ResolveStep::Registry { ident: alias.duplicate(), url: npm::index_url(project, alias) },
        ),
        Range::SemverTag(_) => Ok(
            ResolveStep::Registry {
                ident: descriptor.ident.duplicate(),
                url: npm::index_url(project, &descriptor.ident),
            },
        ),
        Range::Git(range) => {
            if needs_remote_refs(&range.treeish) {
                Ok(ResolveStep::Remote { url: range.repo.to_url() })
            } else {
                let unlisted: Vec<RemoteRef> = Vec::new();
                assert(ref_views(unlisted@) =~= Seq::empty());
                match git::resolve_descriptor(&descriptor.ident, range, Ok(unlisted)) {
                    Ok(locator) => Ok(ResolveStep::Fetch { locator }),
                    Err(e) => Err(e),
                }
            }
        },
        Range::Link(path) => match link::resolve_descriptor(
            &descriptor.ident,
            path.as_str(),
            &descriptor.parent,
        ) {
            Ok(result) => Ok(ResolveStep::Done(result)),
            Err(e) => Err(e),
        },
        Range::Portal(path) => match &descriptor.parent {
            Some(parent) => {
                if dependencies.len() > 0 {
                    assert(key_views(dependencies@)[0] == dependencies@[0]@);
                    match &dependencies[0] {
                        InstallOpResult::Fetched(fetched) => Ok(
                            ResolveStep::Manifest {
                                path: portal::portal_manifest_path(
                                    path.as_str(),
                                    parent,
                                    &fetched.package_data,
                                ),
                            },
                        ),
                        _ => Err(Error::bare(ErrorKind::Unsupported)),
                    }
                } else {
                    Err(Error::bare(ErrorKind::Unsupported))
                }
            },
            None => Err(Error::bare(ErrorKind::Unsupported)),
        },
        Range::Tarball(path) => Ok(
            ResolveStep::Fetch {
                locator: tarball::resolve_descriptor(
                    &descriptor.ident,
                    path.as_str(),
                    &descriptor.parent,
                ),
            },
        ),
        Range::Folder(path) => Ok(
            ResolveStep::Fetch {
                locator: folder::resolve_descriptor(
                    &descriptor.ident,
                    path.as_str(),
                    &descriptor.parent,
                ),
            },
        ),
        Range::Url(address) => Ok(
            ResolveStep::Fetch { locator: url::resolve_descriptor(&descriptor.ident, address.as_str()) },
        ),
        Range::Patch(_, _, path) => match patch::resolve_descriptor(
            &descriptor.ident,
            path.as_str(),
            &descriptor.parent,
            dependencies,
        ) {
            Ok(locator) => Ok(ResolveStep::Fetch { locator }),
            Err(e) => Err(e),
        },
        Range::WorkspaceIdent(name) => match workspace::resolve_name_descriptor(project, name) {
            Ok(result) => Ok(ResolveStep::Done(result)),
            Err(e) => Err(e),
        },
        Range::WorkspacePath(path) => match workspace::resolve_path_descriptor(
            project,
            path.as_str(),
        ) {
            Ok(result) => Ok(ResolveStep::Done(result)),
            Err(e) => Err(e),
        },
    }
}

} // verus!

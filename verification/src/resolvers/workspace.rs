//! Resolving a requirement on a workspace of the project.
use crate::error::{Error, ErrorKind};
use crate::install::{ResolutionResult, ResolutionResultView};
use crate::keyed::{put_all, Duplicate};
use crate::primitives::{Ident, Locator, LocatorView, Reference, ReferenceView};
use crate::project::{spec_by_ident, spec_by_rel_path, Project, Workspace};
use crate::resolution::{spec_normalize, Resolution, ResolutionView};
use vstd::prelude::*;

verus! {

/// The resolution of a workspace at a locator: what its manifest says,
/// with what it needs for its own development counted among the
/// dependencies.
pub open spec fn spec_workspace_resolution(
    locator: LocatorView,
    workspace: Workspace,
) -> ResolutionResultView {
    let base = Resolution::spec_from_remote_manifest(locator, workspace.manifest.remote@);
    ResolutionResultView {
        resolution: spec_normalize(
            ResolutionView {
                dependencies: put_all(
                    base.dependencies,
                    workspace.manifest.dev_dependencies.deep(),
                    workspace.manifest.dev_dependencies.deep().len(),
                ),
                ..base
            },
        ),
        package_data: None,
    }
}

fn resolve_workspace(locator: Locator, workspace: &Workspace) -> (r: ResolutionResult)
    requires
        workspace.manifest.remote.wf(),
        workspace.manifest.dev_dependencies.wf(),
    ensures
        r@ == spec_workspace_resolution(locator@, *workspace),
        r.resolution.wf(),
{
    let remote = workspace.manifest.remote.duplicate();
    proof {
        remote.dependencies.lemma_deep();
        remote.optional_dependencies.lemma_deep();
        remote.peer_dependencies.lemma_deep();
        workspace.manifest.remote.dependencies.lemma_deep();
        workspace.manifest.remote.optional_dependencies.lemma_deep();
        workspace.manifest.remote.peer_dependencies.lemma_deep();
    }
    let mut resolution = Resolution::from_remote_manifest(locator, remote);
    resolution.dependencies.put_list(&workspace.manifest.dev_dependencies);
    resolution.into_resolution_result()
}

/// The locator of a workspace.
pub open spec fn spec_workspace_locator(ident: Seq<char>) -> LocatorView {
    LocatorView { ident, reference: ReferenceView::Workspace(ident), parent: None }
}

/// Resolves a requirement on the workspace of a name.
pub fn resolve_name_descriptor(project: &Project, ident: &Ident) -> (r: Result<
    ResolutionResult,
    Error,
>)
    requires
        project.wf(),
    ensures
        match spec_by_ident(project.workspaces@, ident@, project.workspaces@.len()) {
            Some(i) => r matches Ok(result) && result@ == spec_workspace_resolution(
                spec_workspace_locator(ident@),
                project.workspaces@[i],
            ) && result.resolution.wf(),
            None => r matches Err(e) && e@ == (ErrorKind::WorkspaceNotFound, ident@),
        },
{
    match project.workspace_by_ident(ident) {
        Ok(workspace) => {
            let locator = Locator::new(ident.duplicate(), Reference::Workspace(ident.duplicate()));
            Ok(resolve_workspace(locator, workspace))
        },
        Err(e) => Err(e),
    }
}

/// Resolves a requirement on the workspace at a path.
pub fn resolve_path_descriptor(project: &Project, path: &str) -> (r: Result<ResolutionResult, Error>)
    requires
        project.wf(),
    ensures
        match spec_by_rel_path(project.workspaces@, path@, project.workspaces@.len()) {
            Some(i) => r matches Ok(result) && result@ == spec_workspace_resolution(
                spec_workspace_locator(project.workspaces@[i].name@),
                project.workspaces@[i],
            ) && result.resolution.wf(),
            None => r matches Err(e) && e@ == (ErrorKind::WorkspaceNotFound, path@),
        },
{
    match project.workspace_by_rel_path(path) {
        Ok(workspace) => {
            let locator = Locator::new(
                workspace.name.duplicate(),
                Reference::Workspace(workspace.name.duplicate()),
            );
            Ok(resolve_workspace(locator, workspace))
        },
        Err(e) => Err(e),
    }
}

/// Resolves the workspace of a name at the locator given.
pub fn resolve_locator(project: &Project, locator: &Locator, ident: &Ident) -> (r: Result<
    ResolutionResult,
    Error,
>)
    requires
        project.wf(),
    ensures
        match spec_by_ident(project.workspaces@, ident@, project.workspaces@.len()) {
            Some(i) => r matches Ok(result) && result@ == spec_workspace_resolution(
                locator@,
                project.workspaces@[i],
            ) && result.resolution.wf(),
            None => r matches Err(e) && e@ == (ErrorKind::WorkspaceNotFound, ident@),
        },
{
    match project.workspace_by_ident(ident) {
        Ok(workspace) => Ok(resolve_workspace(locator.duplicate(), workspace)),
        Err(e) => Err(e),
    }
}

} // verus!

//! Resolving a range of versions: a workspace where one may stand in, else
//! the registry.
use crate::install::{ResolutionResult, ResolutionResultView};
use crate::keyed::option_view;
use crate::primitives::Ident;
use crate::project::{spec_by_ident, Project};
use crate::resolvers::workspace::{
    resolve_name_descriptor, spec_workspace_locator, spec_workspace_resolution,
};
use crate::semver::Range;
use vstd::prelude::*;

verus! {

/// Where workspaces may stand in for packages of the registry, a
/// requirement on a range of versions is met by the workspace of that name
/// if its version lies in the range.
pub open spec fn spec_transparent_workspace(
    project: Project,
    ident: Seq<char>,
    range: Range,
) -> Option<ResolutionResultView> {
    if !project.config.project.enable_transparent_workspaces.value {
        None
    } else {
        match spec_by_ident(project.workspaces@, ident, project.workspaces@.len()) {
            Some(i) => if range.accepts(project.workspaces@[i].manifest.remote.version) {
                Some(
                    spec_workspace_resolution(spec_workspace_locator(ident), project.workspaces@[i]),
                )
            } else {
                None
            },
            None => None,
        }
    }
}

/// The workspace that meets a requirement on a range of versions, if
/// there is one and workspaces may stand in; else the registry is to be
/// asked.
pub fn resolve_descriptor(project: &Project, ident: &Ident, range: &Range) -> (r: Option<
    ResolutionResult,
>)
    requires
        project.wf(),
    ensures
        option_view(r) == spec_transparent_workspace(*project, ident@, *range),
        r matches Some(result) ==> result.resolution.wf(),
{
    if !project.config.project.enable_transparent_workspaces.value {
        return None;
    }
    match resolve_name_descriptor(project, ident) {
        Ok(workspace) => {
            if range.check(&workspace.resolution.version) {
                Some(workspace)
            } else {
                None
            }
        },
        Err(_) => None,
    }
}

} // verus!

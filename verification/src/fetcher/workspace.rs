//! Fetching a workspace: its directory in the project.
use crate::error::{Error, ErrorKind};
use crate::fetcher::{fetch_workspace, PackageDataView};
use crate::install::{FetchResult, FetchResultView};
use crate::primitives::Ident;
use crate::project::{spec_by_ident, Project};
use vstd::prelude::*;

verus! {

/// The content of the workspace of a name; an error where the project has
/// no such workspace.
pub fn fetch_locator(project: &Project, ident: &Ident) -> (r: Result<FetchResult, Error>)
    ensures
        match spec_by_ident(project.workspaces@, ident@, project.workspaces@.len()) {
            Some(i) => r matches Ok(fetched) && fetched@ == (FetchResultView {
                resolution: None,
                package_data: PackageDataView::Local {
                    path: project.workspaces@[i].path@,
                    discard_from_lookup: false,
                },
            }),
            None => r matches Err(e) && e@ == (ErrorKind::WorkspaceNotFound, ident@),
        },
{
    match fetch_workspace(project, ident) {
        Ok(data) => Ok(FetchResult::new(data)),
        Err(e) => Err(e),
    }
}

} // verus!

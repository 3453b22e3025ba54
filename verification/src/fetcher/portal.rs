//! Fetching a portal: nothing is copied, the directory is used where it
//! lies.
use crate::error::Error;
use crate::fetcher::{relative_path, spec_relative_path, PackageData, PackageDataView};
use crate::install::{FetchResult, FetchResultView, InstallOpResult};
use crate::primitives::Locator;
use vstd::prelude::*;

verus! {

/// The content of the portal at `path`. The first of what the fetch depends
/// on is the content of the parent, from which the path is seen.
pub fn fetch_locator(path: &str, parent: &Locator, dependencies: &Vec<InstallOpResult>) -> (r:
    Result<FetchResult, Error>)
    requires
        dependencies@.len() > 0,
        dependencies@[0] is Fetched,
    ensures
        r matches Ok(fetched) && fetched@ == (FetchResultView {
            resolution: None,
            package_data: PackageDataView::Local {
                path: spec_relative_path(
                    path@,
                    parent@,
                    dependencies@[0]->Fetched_0.package_data@,
                ),
                discard_from_lookup: false,
            },
        }),
{
    match &dependencies[0] {
        InstallOpResult::Fetched(parent_data) => Ok(
            FetchResult::new(
                PackageData::Local {
                    path: relative_path(path, parent, &parent_data.package_data),
                    discard_from_lookup: false,
                },
            ),
        ),
        InstallOpResult::Resolved(_) => Err(Error::bare(crate::error::ErrorKind::Unsupported)),
    }
}

} // verus!

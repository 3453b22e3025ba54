//! The values that go to the rules of a project and come back from them.
use crate::colors::JsonPath;
use crate::primitives::{Ident, Locator};
use crate::semver::Version;
use vstd::prelude::*;

verus! {

/// Who asked for a value.
#[derive(Debug)]
pub struct Caller {
    pub file: Option<String>,
    pub method_name: String,
    pub arguments: Vec<String>,
    pub line: Option<u32>,
    pub column: Option<u32>,
}

/// What the rules found wrong in a manifest. Values are in their JSON
/// form.
#[derive(Debug)]
pub enum WorkspaceError {
    MissingField { field_path: JsonPath, expected: String },
    ExtraneousField { field_path: JsonPath, current_value: String },
    InvalidField { field_path: JsonPath, expected: String, current_value: String },
    ConflictingValues { field_path: JsonPath, values: Vec<(String, Vec<Caller>)> },
    UserError { message: String },
}

/// A change that the rules want made to a manifest. The value is in its
/// JSON form.
#[derive(Debug)]
pub enum WorkspaceOperation {
    Assign { path: Vec<String>, value: String },
    Unset { path: Vec<String> },
}

/// What the rules answered, workspace by workspace.
#[derive(Debug)]
pub struct ConstraintsOutput {
    pub all_workspace_operations: Vec<(String, Vec<WorkspaceOperation>)>,
    pub all_workspace_errors: Vec<(String, Vec<WorkspaceError>)>,
}

/// What the rules are told.
#[derive(Debug)]
pub struct ConstraintsContext {
    pub workspaces: Vec<ConstraintsWorkspace>,
    pub packages: Vec<ConstraintsPackage>,
}

#[derive(Debug)]
pub struct ConstraintsWorkspace {
    pub cwd: String,
    pub ident: Ident,
}

#[derive(Debug)]
pub struct ConstraintsPackage {
    pub locator: Locator,
    pub workspace: Option<String>,
    pub ident: Ident,
    pub version: Version,
    pub dependencies: Vec<(Ident, Locator)>,
    pub peer_dependencies: Vec<(Ident, Locator)>,
}

/// What is reported of one finding: a line, and below it the values in
/// conflict, if that is what was found.
#[derive(Debug)]
pub struct ReportLine {
    pub label: String,
    pub options: Vec<String>,
}

/// What is reported of one workspace: its name, and a line for each
/// finding.
#[derive(Debug)]
pub struct WorkspaceReport {
    pub name: String,
    pub lines: Vec<ReportLine>,
}

impl ConstraintsOutput {
    /// Whether the rules want nothing changed.
    pub fn is_settled(&self) -> (r: bool)
        ensures
            r == (self.all_workspace_operations@.len() == 0),
    {
        self.all_workspace_operations.len() == 0
    }

    /// Whether the rules found nothing wrong.
    pub fn is_clean(&self) -> (r: bool)
        ensures
            r == (self.all_workspace_errors@.len() == 0),
    {
        self.all_workspace_errors.len() == 0
    }
}

} // verus!

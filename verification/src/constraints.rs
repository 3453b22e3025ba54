//! What the rules of a project are told about it.
pub mod structs;

use crate::keyed::Duplicate;
use crate::colors::spec_json_path;
use crate::constraints::structs::{
    Caller, ConstraintsOutput, ConstraintsPackage, ConstraintsWorkspace, ReportLine,
    WorkspaceError, WorkspaceReport,
};
use crate::project::spec_by_rel_path;
use crate::text::{append_str, chars_of, string_of, string_views};
use crate::error::{Error, ErrorKind};
use crate::install::InstallState;
use crate::primitives::{Ident, Locator, Reference, ReferenceView};
use crate::project::{spec_by_ident, Project, Workspace};
use crate::resolution::Resolution;
use vstd::prelude::*;

verus! {

/// A workspace as the rules see it: where it lies, and its name.
pub fn to_constraints_workspace(workspace: &Workspace) -> (r: Result<ConstraintsWorkspace, Error>)
    ensures
        r matches Ok(w) && w.cwd@ == workspace.rel_path@ && w.ident@ == workspace.name@,
{
    Ok(ConstraintsWorkspace { cwd: workspace.rel_path.clone(), ident: workspace.name.duplicate() })
}

/// A package as the rules see it: its locator, name and version, the
/// workspace it is, if it is one, and the package that each of its
/// requirements resolved to.
///
/// A requirement that the tree of the install does not hold, and a
/// workspace that the project does not have, make no package.
pub fn to_constraints_package(
    project: &Project,
    install_state: &InstallState,
    resolution: &Resolution,
) -> (r: Option<ConstraintsPackage>)
    requires
        install_state.resolution_tree.descriptor_to_locator.wf(),
    ensures
        r is Some == ((forall|i: int|
            0 <= i < resolution@.dependencies.len()
                ==> install_state.resolution_tree.descriptor_to_locator.map().contains_key(
                (#[trigger] resolution@.dependencies[i]).1,
            )) && (resolution@.locator.reference matches ReferenceView::Workspace(name)
            ==> spec_by_ident(project.workspaces@, name, project.workspaces@.len()) is Some)),
        r matches Some(p) ==> {
            &&& p.locator@ == resolution@.locator
            &&& p.ident@ == resolution@.locator.ident
            &&& p.version == resolution@.version
            &&& p.peer_dependencies@.len() == 0
            &&& p.dependencies@.len() == resolution@.dependencies.len()
            &&& forall|i: int|
                0 <= i < resolution@.dependencies.len() ==> (#[trigger] p.dependencies@[i]).0@
                    == resolution@.dependencies[i].0 && p.dependencies@[i].1@
                    == install_state.resolution_tree.descriptor_to_locator.map()[resolution@.dependencies[i].1]@
            &&& match resolution@.locator.reference {
                ReferenceView::Workspace(name) => p.workspace is Some && p.workspace->0@
                    == project.workspaces@[spec_by_ident(
                    project.workspaces@,
                    name,
                    project.workspaces@.len(),
                )->0].rel_path@,
                _ => p.workspace is None,
            }
        },
{
    let tree = &install_state.resolution_tree.descriptor_to_locator;
    let mut dependencies: Vec<(Ident, Locator)> = Vec::new();
    let mut i: usize = 0;
    while i < resolution.dependencies.entries.len()
        invariant
            i <= resolution.dependencies.entries.len(),
            tree == &install_state.resolution_tree.descriptor_to_locator,
            tree.wf(),
            dependencies.len() == i,
            forall|j: int|
                0 <= j < i ==> tree.map().contains_key(
                    (#[trigger] resolution@.dependencies[j]).1,
                ),
            forall|j: int|
                0 <= j < i ==> (#[trigger] dependencies@[j]).0@ == resolution@.dependencies[j].0
                    && dependencies@[j].1@ == tree.map()[resolution@.dependencies[j].1]@,
        decreases resolution.dependencies.entries.len() - i,
    {
        let entry = &resolution.dependencies.entries[i];
        assert(resolution@.dependencies[i as int] == (entry.0@, entry.1@));
        match tree.get(&entry.1) {
            Some(locator) => {
                dependencies.push((entry.0.duplicate(), locator.duplicate()));
            },
            None => {
                return None;
            },
        }
        i += 1;
    }
    let workspace = match &resolution.locator.reference {
        Reference::Workspace(name) => match project.workspace_by_ident(name) {
            Ok(workspace) => Some(workspace.rel_path.clone()),
            Err(_) => {
                return None;
            },
        },
        _ => None,
    };
    Some(
        ConstraintsPackage {
            locator: resolution.locator.duplicate(),
            workspace,
            ident: resolution.locator.ident.duplicate(),
            version: resolution.version,
            dependencies,
            peer_dependencies: Vec::new(),
        },
    )
}

/// How often the rules are run at most: once to check, ten times to fix.
pub fn max_loops(fix: bool) -> (n: u32)
    ensures
        n == (if fix {
            10u32
        } else {
            1u32
        }),
{
    if fix {
        10
    } else {
        1
    }
}

/// Whether running the rules ends after this round: when they changed
/// nothing, when they found nothing wrong, or when they have run as often
/// as they may.
pub fn should_stop(operations: usize, errors: usize, loop_idx: u32, fix: bool) -> (stop: bool)
    ensures
        stop == (operations == 0 || errors == 0 || loop_idx == (if fix {
            10u32
        } else {
            1u32
        })),
{
    operations == 0 || errors == 0 || loop_idx == max_loops(fix)
}

/// A caller as it is reported: the method, and its arguments between
/// brackets.
pub open spec fn spec_caller_text(caller: Caller) -> Seq<char> {
    caller.method_name@ + "("@ + crate::text::join(string_views(caller.arguments@), ", "@) + ")"@
}

fn caller_text(caller: &Caller) -> (text: String)
    ensures
        text@ == spec_caller_text(*caller),
{
    let mut out = chars_of(caller.method_name.as_str());
    append_str(&mut out, "(");
    let mut parts: Vec<Vec<char>> = Vec::new();
    let mut i: usize = 0;
    while i < caller.arguments.len()
        invariant
            i <= caller.arguments.len(),
            parts.len() == i,
            forall|j: int| 0 <= j < i ==> parts@[j]@ == caller.arguments@[j]@,
        decreases caller.arguments.len() - i,
    {
        parts.push(chars_of(caller.arguments[i].as_str()));
        i += 1;
    }
    assert(crate::text::views(parts@) =~= string_views(caller.arguments@));
    let joined = crate::text::join_with(&parts, ", ");
    crate::text::append(&mut out, &joined);
    append_str(&mut out, ")");
    assert(out@ =~= spec_caller_text(*caller));
    string_of(&out)
}

pub open spec fn path_text(path: crate::colors::JsonPath) -> Seq<char> {
    spec_json_path(string_views(path.0@), path.0@.len())
}

/// The line that reports a finding.
pub open spec fn spec_error_label(error: WorkspaceError) -> Seq<char> {
    match error {
        WorkspaceError::MissingField { field_path, expected } => "\u{2699} Missing field at "@
            + path_text(field_path) + "; expected "@ + expected@,
        WorkspaceError::ExtraneousField {
            field_path,
            current_value,
        } => "\u{2699} Extraneous field at "@ + path_text(field_path) + "; current value "@
            + current_value@,
        WorkspaceError::InvalidField {
            field_path,
            expected,
            current_value,
        } => "\u{2699} Invalid field at "@ + path_text(field_path) + "; expected "@ + expected@
            + ", but got "@ + current_value@,
        WorkspaceError::ConflictingValues { field_path, .. } => "Conflicting values at "@
            + path_text(field_path) + "; expected values are:"@,
        WorkspaceError::UserError { message } => message@,
    }
}

/// The values in conflict, each with one of those who asked for it: value
/// by value, and for each value caller by caller.
pub open spec fn spec_options(values: Seq<(String, Vec<Caller>)>, n: nat) -> Seq<Seq<char>>
    decreases n,
{
    if n == 0 {
        Seq::empty()
    } else {
        spec_options(values, (n - 1) as nat) + values[n - 1].1@.map_values(
            |caller: Caller| values[n - 1].0@ + " as "@ + spec_caller_text(caller),
        )
    }
}

pub open spec fn spec_error_options(error: WorkspaceError) -> Seq<Seq<char>> {
    match error {
        WorkspaceError::ConflictingValues { values, .. } => spec_options(values@, values@.len()),
        _ => Seq::empty(),
    }
}

fn options_of(values: &Vec<(String, Vec<Caller>)>) -> (options: Vec<String>)
    ensures
        string_views(options@) == spec_options(values@, values@.len()),
{
    let mut options: Vec<String> = Vec::new();
    let mut i: usize = 0;
    assert(string_views(options@) =~= spec_options(values@, 0));
    while i < values.len()
        invariant
            i <= values.len(),
            string_views(options@) == spec_options(values@, i as nat),
        decreases values.len() - i,
    {
        let ghost before = string_views(options@);
        let ghost wanted = values@[i as int].1@.map_values(
            |caller: Caller| values@[i as int].0@ + " as "@ + spec_caller_text(caller),
        );
        let mut j: usize = 0;
        assert(string_views(options@) =~= before + wanted.take(0));
        while j < values[i].1.len()
            invariant
                i < values.len(),
                j <= values@[i as int].1@.len(),
                wanted == values@[i as int].1@.map_values(
                    |caller: Caller| values@[i as int].0@ + " as "@ + spec_caller_text(caller),
                ),
                string_views(options@) == before + wanted.take(j as int),
            decreases values@[i as int].1@.len() - j,
        {
            let ghost had = string_views(options@);
            let mut out = chars_of(values[i].0.as_str());
            append_str(&mut out, " as ");
            let who = caller_text(&values[i].1[j]);
            append_str(&mut out, who.as_str());
            assert(out@ =~= wanted[j as int]);
            options.push(string_of(&out));
            assert(string_views(options@) =~= had.push(wanted[j as int]));
            assert(before + wanted.take(j + 1) =~= (before + wanted.take(j as int)).push(
                wanted[j as int],
            ));
            j += 1;
        }
        assert(wanted.take(wanted.len() as int) =~= wanted);
        i += 1;
    }
    options
}

fn report_line(error: &WorkspaceError) -> (line: ReportLine)
    ensures
        line.label@ == spec_error_label(*error),
        string_views(line.options@) == spec_error_options(*error),
{
    let mut out: Vec<char> = Vec::new();
    let mut options: Vec<String> = Vec::new();
    assert(string_views(options@) =~= Seq::<Seq<char>>::empty());
    match error {
        WorkspaceError::MissingField { field_path, expected } => {
            append_str(&mut out, "\u{2699} Missing field at ");
            let path = field_path.to_file_string();
            append_str(&mut out, path.as_str());
            append_str(&mut out, "; expected ");
            append_str(&mut out, expected.as_str());
        },
        WorkspaceError::ExtraneousField { field_path, current_value } => {
            append_str(&mut out, "\u{2699} Extraneous field at ");
            let path = field_path.to_file_string();
            append_str(&mut out, path.as_str());
            append_str(&mut out, "; current value ");
            append_str(&mut out, current_value.as_str());
        },
        WorkspaceError::InvalidField { field_path, expected, current_value } => {
            append_str(&mut out, "\u{2699} Invalid field at ");
            let path = field_path.to_file_string();
            append_str(&mut out, path.as_str());
            append_str(&mut out, "; expected ");
            append_str(&mut out, expected.as_str());
            append_str(&mut out, ", but got ");
            append_str(&mut out, current_value.as_str());
        },
        WorkspaceError::ConflictingValues { field_path, values } => {
            append_str(&mut out, "Conflicting values at ");
            let path = field_path.to_file_string();
            append_str(&mut out, path.as_str());
            append_str(&mut out, "; expected values are:");
            options = options_of(values);
        },
        WorkspaceError::UserError { message } => {
            append_str(&mut out, message.as_str());
        },
    }
    assert(out@ =~= spec_error_label(*error));
    ReportLine { label: string_of(&out), options }
}

/// The report of one workspace is that of its findings: it bears the name
/// of the workspace at the path, and has a line for each finding.
pub open spec fn spec_workspace_reported(
    project: Project,
    finding: (String, Vec<WorkspaceError>),
    report: WorkspaceReport,
) -> bool {
    &&& spec_by_rel_path(project.workspaces@, finding.0@, project.workspaces@.len()) is Some
    &&& report.name@ == project.workspaces@[spec_by_rel_path(
        project.workspaces@,
        finding.0@,
        project.workspaces@.len(),
    )->0].name@
    &&& report.lines@.len() == finding.1@.len()
    &&& forall|j: int|
        0 <= j < report.lines@.len() ==> (#[trigger] report.lines@[j]).label@ == spec_error_label(
            finding.1@[j],
        ) && string_views(report.lines@[j].options@) == spec_error_options(finding.1@[j])
}

/// The report is that of the findings, workspace by workspace.
pub open spec fn spec_reported(
    project: Project,
    findings: Seq<(String, Vec<WorkspaceError>)>,
    reports: Seq<WorkspaceReport>,
) -> bool {
    &&& reports.len() == findings.len()
    &&& forall|i: int|
        0 <= i < reports.len() ==> spec_workspace_reported(
            project,
            findings[i],
            #[trigger] reports[i],
        )
}

/// What is to be reported of what the rules found wrong, workspace by
/// workspace. Findings for a path at which the project has no workspace
/// cannot be reported.
pub fn display_report(project: &Project, output: &ConstraintsOutput) -> (r: Result<
    Vec<WorkspaceReport>,
    Error,
>)
    ensures
        match r {
            Ok(reports) => spec_reported(*project, output.all_workspace_errors@, reports@),
            Err(e) => exists|i: int|
                0 <= i < output.all_workspace_errors@.len() && spec_by_rel_path(
                    project.workspaces@,
                    (#[trigger] output.all_workspace_errors@[i]).0@,
                    project.workspaces@.len(),
                ) is None && e@ == (ErrorKind::WorkspaceNotFound, output.all_workspace_errors@[i].0@),
        },
{
    let findings = &output.all_workspace_errors;
    let mut reports: Vec<WorkspaceReport> = Vec::new();
    let mut i: usize = 0;
    while i < findings.len()
        invariant
            i <= findings.len(),
            findings == &output.all_workspace_errors,
            spec_reported(*project, findings@.take(i as int), reports@),
        decreases findings.len() - i,
    {
        let workspace = match project.workspace_by_rel_path(findings[i].0.as_str()) {
            Ok(workspace) => workspace,
            Err(e) => {
                return Err(e);
            },
        };
        let mut lines: Vec<ReportLine> = Vec::new();
        let mut j: usize = 0;
        while j < findings[i].1.len()
            invariant
                i < findings.len(),
                j <= findings@[i as int].1@.len(),
                lines.len() == j,
                forall|k: int|
                    0 <= k < j ==> (#[trigger] lines@[k]).label@ == spec_error_label(
                        findings@[i as int].1@[k],
                    ) && string_views(lines@[k].options@) == spec_error_options(
                        findings@[i as int].1@[k],
                    ),
            decreases findings@[i as int].1@.len() - j,
        {
            lines.push(report_line(&findings[i].1[j]));
            j += 1;
        }
        let ghost before = reports@;
        let ghost lines_view = lines@;
        reports.push(WorkspaceReport { name: string_of(&chars_of(workspace.name.as_str())), lines });
        proof {
            let next = findings@.take(i + 1);
            assert(spec_workspace_reported(*project, findings@[i as int], reports@[i as int])) by {
                assert(reports@[i as int].lines@ == lines_view);
            }
            assert forall|a: int| 0 <= a < reports@.len() implies spec_workspace_reported(
                *project,
                next[a],
                #[trigger] reports@[a],
            ) by {
                if a < i {
                    assert(reports@[a] == before[a]);
                    assert(next[a] == findings@.take(i as int)[a]);
                }
            }
        }
        i += 1;
    }
    assert(findings@.take(findings.len() as int) =~= findings@);
    Ok(reports)
}

} // verus!

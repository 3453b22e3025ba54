//! The project that is being installed: its workspaces and its settings.
use crate::keyed::{Key, KeyedList};
use crate::config::Config;
use crate::error::{Error, ErrorKind};
use crate::primitives::{Descriptor, Ident};
use crate::resolution::RemoteManifest;
use crate::text::chars_of;
use vstd::prelude::*;

verus! {

/// The manifest of a workspace.
#[derive(Debug)]
pub struct Manifest {
    pub remote: RemoteManifest,
    pub dev_dependencies: KeyedList<Ident, Descriptor>,
}

/// One package of the project.
#[derive(Debug)]
pub struct Workspace {
    pub name: Ident,
    /// Where the workspace lies.
    pub path: String,
    /// Where it lies as seen from the project.
    pub rel_path: String,
    pub manifest: Manifest,
}

#[derive(Debug)]
pub struct Project {
    pub project_cwd: String,
    pub config: Config,
    pub workspaces: Vec<Workspace>,
}

/// The position of the first workspace among the first `n` that has this
/// name.
pub open spec fn spec_by_ident(workspaces: Seq<Workspace>, name: Seq<char>, n: nat) -> Option<int>
    decreases n,
{
    if n == 0 {
        None
    } else {
        match spec_by_ident(workspaces, name, (n - 1) as nat) {
            Some(i) => Some(i),
            None => if workspaces[n - 1].name@ == name {
                Some(n - 1)
            } else {
                None
            },
        }
    }
}

/// The position of the first workspace among the first `n` that lies at
/// this path.
pub open spec fn spec_by_rel_path(workspaces: Seq<Workspace>, path: Seq<char>, n: nat) -> Option<
    int,
>
    decreases n,
{
    if n == 0 {
        None
    } else {
        match spec_by_rel_path(workspaces, path, (n - 1) as nat) {
            Some(i) => Some(i),
            None => if workspaces[n - 1].rel_path@ == path {
                Some(n - 1)
            } else {
                None
            },
        }
    }
}

impl Project {
    /// Every manifest of the project names nothing twice.
    pub open spec fn wf(&self) -> bool {
        forall|i: int|
            0 <= i < self.workspaces@.len() ==> (#[trigger] self.workspaces@[i]).manifest.remote.wf()
                && self.workspaces@[i].manifest.dev_dependencies.wf()
    }

    /// The workspace of that name.
    pub fn workspace_by_ident(&self, ident: &Ident) -> (r: Result<&Workspace, Error>)
        ensures
            match r {
                Ok(w) => {
                    &&& spec_by_ident(self.workspaces@, ident@, self.workspaces@.len()) is Some
                    &&& 0 <= spec_by_ident(self.workspaces@, ident@, self.workspaces@.len())->0
                        < self.workspaces@.len()
                    &&& *w == self.workspaces@[spec_by_ident(
                        self.workspaces@,
                        ident@,
                        self.workspaces@.len(),
                    )->0]
                    &&& w.name@ == ident@
                },
                Err(e) => {
                    &&& spec_by_ident(self.workspaces@, ident@, self.workspaces@.len()) is None
                    &&& e@ == (ErrorKind::WorkspaceNotFound, ident@)
                },
            },
    {
        let mut i: usize = 0;
        while i < self.workspaces.len()
            invariant
                i <= self.workspaces.len(),
                spec_by_ident(self.workspaces@, ident@, i as nat) is None,
            decreases self.workspaces.len() - i,
        {
            if self.workspaces[i].name.same(ident) {
                proof {
                    lemma_by_ident_found(
                        self.workspaces@,
                        ident@,
                        i as nat + 1,
                        self.workspaces@.len(),
                    );
                }
                return Ok(&self.workspaces[i]);
            }
            i += 1;
        }
        Err(Error::new(ErrorKind::WorkspaceNotFound, ident.as_str()))
    }

    /// The workspace at that path, as seen from the project.
    pub fn workspace_by_rel_path(&self, path: &str) -> (r: Result<&Workspace, Error>)
        ensures
            match r {
                Ok(w) => {
                    &&& spec_by_rel_path(self.workspaces@, path@, self.workspaces@.len()) is Some
                    &&& 0 <= spec_by_rel_path(self.workspaces@, path@, self.workspaces@.len())->0
                        < self.workspaces@.len()
                    &&& *w == self.workspaces@[spec_by_rel_path(
                        self.workspaces@,
                        path@,
                        self.workspaces@.len(),
                    )->0]
                    &&& w.rel_path@ == path@
                },
                Err(e) => {
                    &&& spec_by_rel_path(self.workspaces@, path@, self.workspaces@.len()) is None
                    &&& e@ == (ErrorKind::WorkspaceNotFound, path@)
                },
            },
    {
        let wanted = chars_of(path);
        let mut i: usize = 0;
        while i < self.workspaces.len()
            invariant
                i <= self.workspaces.len(),
                wanted@ == path@,
                spec_by_rel_path(self.workspaces@, path@, i as nat) is None,
            decreases self.workspaces.len() - i,
        {
            let here = chars_of(self.workspaces[i].rel_path.as_str());
            if crate::text::same_chars(&here, &wanted) {
                proof {
                    lemma_by_rel_path_found(
                        self.workspaces@,
                        path@,
                        i as nat + 1,
                        self.workspaces@.len(),
                    );
                }
                return Ok(&self.workspaces[i]);
            }
            i += 1;
        }
        Err(Error::new(ErrorKind::WorkspaceNotFound, path))
    }
}

proof fn lemma_by_ident_found(workspaces: Seq<Workspace>, name: Seq<char>, n: nat, m: nat)
    requires
        spec_by_ident(workspaces, name, n) is Some,
        n <= m,
    ensures
        spec_by_ident(workspaces, name, m) == spec_by_ident(workspaces, name, n),
    decreases m - n,
{
    if n < m {
        lemma_by_ident_found(workspaces, name, n, (m - 1) as nat);
    }
}

proof fn lemma_by_rel_path_found(workspaces: Seq<Workspace>, path: Seq<char>, n: nat, m: nat)
    requires
        spec_by_rel_path(workspaces, path, n) is Some,
        n <= m,
    ensures
        spec_by_rel_path(workspaces, path, m) == spec_by_rel_path(workspaces, path, n),
    decreases m - n,
{
    if n < m {
        lemma_by_rel_path_found(workspaces, path, n, (m - 1) as nat);
    }
}

} // verus!

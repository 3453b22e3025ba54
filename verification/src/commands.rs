//! What the commands decide, apart from what they read and print.
use crate::keyed::{Duplicate, KeyedList};
use crate::config::{Config, Glob};
use crate::primitives::{Descriptor, Ident};
use crate::project::Workspace;
use crate::text::{append_str, chars_of, string_of};
use vstd::prelude::*;

verus! {

/// Whether one of the patterns matches the name.
pub open spec fn spec_matches_any(globs: Seq<Glob>, name: Seq<char>) -> bool {
    exists|i: int|
        0 <= i < globs.len() && Glob::spec_is_match((#[trigger] globs[i]).pattern@, name)
}

fn matches_any(globs: &Vec<Glob>, name: &str) -> (r: bool)
    ensures
        r == spec_matches_any(globs@, name@),
{
    let mut i: usize = 0;
    while i < globs.len()
        invariant
            i <= globs.len(),
            forall|j: int|
                0 <= j < i ==> !Glob::spec_is_match((#[trigger] globs@[j]).pattern@, name@),
        decreases globs.len() - i,
    {
        if globs[i].is_match(name) {
            return true;
        }
        i += 1;
    }
    false
}

/// Takes out of a set of dependencies every one whose name one of the
/// patterns matches. The others stay, in their order.
pub fn remove_dependencies_from_set<T>(set: &mut KeyedList<Ident, T>, ident_globs: &Vec<Glob>)
    requires
        old(set).wf(),
    ensures
        final(set).wf(),
        final(set).entries@ == old(set).entries@.filter(
            |e: (Ident, T)| !spec_matches_any(ident_globs@, e.0@),
        ),
{
    let ghost all = set.entries@;
    let ghost kept = |e: (Ident, T)| !spec_matches_any(ident_globs@, e.0@);
    let mut rest: Vec<(Ident, T)> = Vec::new();
    let mut taken: Vec<(Ident, T)> = Vec::new();
    std::mem::swap(&mut taken, &mut set.entries);
    let mut i: usize = 0;
    proof {
        reveal(Seq::filter);
        assert(all.take(0) =~= Seq::empty());
    }
    assert(rest@ =~= all.take(0).filter(kept));
    assert(all.len() == taken@.len());
    // the entries are taken off the end, so the list is walked backwards
    // and turned round afterwards
    let mut reversed: Vec<(Ident, T)> = Vec::new();
    while taken.len() > 0
        invariant
            all == old(set).entries@,
            taken@ == all.take(taken.len() as int),
            reversed@.len() == all.len() - taken.len(),
            forall|j: int|
                0 <= j < reversed@.len() ==> reversed@[j] == all[all.len() - 1 - j],
        decreases taken.len(),
    {
        let ghost n = taken.len();
        let entry = taken.pop();
        match entry {
            Some(entry) => {
                assert(entry == all[n - 1]);
                reversed.push(entry);
                assert(taken@ =~= all.take(taken.len() as int));
            },
            None => {},
        }
    }
    assert(reversed.len() == all.len());
    while reversed.len() > 0
        invariant
            all == old(set).entries@,
            kept == (|e: (Ident, T)| !spec_matches_any(ident_globs@, e.0@)),
            i + reversed@.len() == all.len(),
            all.len() <= usize::MAX,
            forall|j: int|
                0 <= j < reversed@.len() ==> reversed@[j] == all[all.len() - 1 - j],
            rest@ == all.take(i as int).filter(kept),
        decreases reversed.len(),
    {
        let ghost n = reversed.len();
        let entry = reversed.pop();
        match entry {
            Some(entry) => {
                proof {
                    reveal(Seq::filter);
                    assert(entry == all[i as int]);
                    let next = all.take(i + 1);
                    assert(next.drop_last() =~= all.take(i as int));
                    assert(next.last() == all[i as int]);
                }
                if !matches_any(ident_globs, entry.0.as_str()) {
                    rest.push(entry);
                }
                i += 1;
            },
            None => {},
        }
    }
    assert(all.take(all.len() as int) =~= all);
    set.entries = rest;
    proof {
        lemma_filter_keys_distinct(all, kept);
        assert(set.keys() =~= set.entries@.map_values(|e: (Ident, T)| e.0@));
    }
}

proof fn lemma_filter_keys_distinct<T>(all: Seq<(Ident, T)>, kept: spec_fn((Ident, T)) -> bool)
    requires
        all.map_values(|e: (Ident, T)| e.0@).no_duplicates(),
    ensures
        all.filter(kept).map_values(|e: (Ident, T)| e.0@).no_duplicates(),
        forall|i: int|
            0 <= i < all.filter(kept).len() ==> all.contains(#[trigger] all.filter(kept)[i]),
    decreases all.len(),
{
    reveal(Seq::filter);
    let keys = |e: (Ident, T)| e.0@;
    if all.len() > 0 {
        let front = all.drop_last();
        assert forall|a: int, b: int|
            0 <= a < front.len() && 0 <= b < front.len() && a != b implies front.map_values(
            keys,
        )[a] != front.map_values(keys)[b] by {
            assert(all.map_values(keys)[a] == front.map_values(keys)[a]);
            assert(all.map_values(keys)[b] == front.map_values(keys)[b]);
        }
        lemma_filter_keys_distinct(front, kept);
        let f = front.filter(kept);
        assert forall|i: int| 0 <= i < f.len() implies all.contains(#[trigger] f[i]) by {
            assert(front.contains(f[i]));
            let j = choose|j: int| 0 <= j < front.len() && front[j] == f[i];
            assert(all[j] == f[i]);
        }
        if kept(all.last()) {
            let g = all.filter(kept);
            assert(g == f.push(all.last()));
            assert(all[all.len() - 1] == all.last());
            assert forall|a: int, b: int|
                0 <= a < g.len() && 0 <= b < g.len() && a != b implies g.map_values(keys)[a]
                != g.map_values(keys)[b] by {
                if a < f.len() && b < f.len() {
                    assert(f.map_values(keys)[a] == g.map_values(keys)[a]);
                    assert(f.map_values(keys)[b] == g.map_values(keys)[b]);
                } else if a < f.len() {
                    assert(front.contains(f[a]));
                    let j = choose|j: int| 0 <= j < front.len() && front[j] == f[a];
                    assert(all.map_values(keys)[j] == f[a].0@);
                    assert(all.map_values(keys)[all.len() - 1] == all.last().0@);
                } else if b < f.len() {
                    assert(front.contains(f[b]));
                    let j = choose|j: int| 0 <= j < front.len() && front[j] == f[b];
                    assert(all.map_values(keys)[j] == f[b].0@);
                    assert(all.map_values(keys)[all.len() - 1] == all.last().0@);
                }
            }
        }
    }
}

/// Takes out of a manifest every dependency, of whichever kind, whose name
/// one of the patterns matches.
pub fn remove_dependencies_from_manifest(workspace: &mut Workspace, ident_globs: &Vec<Glob>)
    requires
        old(workspace).manifest.remote.wf(),
        old(workspace).manifest.dev_dependencies.wf(),
    ensures
        final(workspace).manifest.remote.wf(),
        final(workspace).manifest.dev_dependencies.wf(),
        final(workspace).name == old(workspace).name,
        final(workspace).path == old(workspace).path,
        final(workspace).rel_path == old(workspace).rel_path,
        final(workspace).manifest.remote.dependencies.entries@ == old(
            workspace,
        ).manifest.remote.dependencies.entries@.filter(
            |e: (Ident, Descriptor)| !spec_matches_any(ident_globs@, e.0@),
        ),
        final(workspace).manifest.remote.optional_dependencies.entries@ == old(
            workspace,
        ).manifest.remote.optional_dependencies.entries@.filter(
            |e: (Ident, Descriptor)| !spec_matches_any(ident_globs@, e.0@),
        ),
        final(workspace).manifest.remote.peer_dependencies.entries@ == old(
            workspace,
        ).manifest.remote.peer_dependencies.entries@.filter(
            |e: (Ident, crate::resolution::PeerRange)| !spec_matches_any(ident_globs@, e.0@),
        ),
        final(workspace).manifest.dev_dependencies.entries@ == old(
            workspace,
        ).manifest.dev_dependencies.entries@.filter(
            |e: (Ident, Descriptor)| !spec_matches_any(ident_globs@, e.0@),
        ),
{
    remove_dependencies_from_set(&mut workspace.manifest.remote.dependencies, ident_globs);
    remove_dependencies_from_set(&mut workspace.manifest.remote.optional_dependencies, ident_globs);
    remove_dependencies_from_set(&mut workspace.manifest.remote.peer_dependencies, ident_globs);
    remove_dependencies_from_set(&mut workspace.manifest.dev_dependencies, ident_globs);
}

/// Adds requirements to the dependencies of a workspace, each under the
/// name of its package; one that is there already is replaced.
pub fn add_dependencies(workspace: &mut Workspace, descriptors: &Vec<Descriptor>)
    requires
        old(workspace).manifest.remote.dependencies.wf(),
    ensures
        final(workspace).manifest.remote.dependencies.wf(),
        final(workspace).manifest.remote.dependencies.deep() == crate::keyed::put_all(
            old(workspace).manifest.remote.dependencies.deep(),
            descriptors@.map_values(|d: Descriptor| (d@.ident, d@)),
            descriptors@.len(),
        ),
        final(workspace).name == old(workspace).name,
        final(workspace).path == old(workspace).path,
        final(workspace).rel_path == old(workspace).rel_path,
        final(workspace).manifest.dev_dependencies == old(workspace).manifest.dev_dependencies,
{
    let ghost extra = descriptors@.map_values(|d: Descriptor| (d@.ident, d@));
    let mut i: usize = 0;
    while i < descriptors.len()
        invariant
            i <= descriptors.len(),
            extra == descriptors@.map_values(|d: Descriptor| (d@.ident, d@)),
            workspace.manifest.remote.dependencies.wf(),
            workspace.manifest.remote.dependencies.deep() == crate::keyed::put_all(
                old(workspace).manifest.remote.dependencies.deep(),
                extra,
                i as nat,
            ),
            workspace.name == old(workspace).name,
            workspace.path == old(workspace).path,
            workspace.rel_path == old(workspace).rel_path,
            workspace.manifest.dev_dependencies == old(workspace).manifest.dev_dependencies,
        decreases descriptors.len() - i,
    {
        let d = descriptors[i].duplicate();
        assert(extra[i as int] == (d@.ident, d@));
        workspace.manifest.remote.dependencies.put(d.ident.duplicate(), d);
        i += 1;
    }
}

/// The path of a workspace as it is listed: `.` for the project itself.
pub fn printed_workspace_path(rel_path: &str) -> (printed: String)
    ensures
        printed@ == (if rel_path@.len() == 0 {
            "."@
        } else {
            rel_path@
        }),
{
    let chars = chars_of(rel_path);
    if chars.len() == 0 {
        string_of(&chars_of("."))
    } else {
        string_of(&chars)
    }
}

/// The options that `node` is started with: those that were set, then the
/// file to require and the loader, each where the project has one.
pub open spec fn spec_node_options(
    set: Seq<char>,
    pnp_path: Option<Seq<char>>,
    pnp_loader_path: Option<Seq<char>>,
) -> Seq<char> {
    set + (match pnp_path {
        Some(path) => " --require "@ + path,
        None => Seq::<char>::empty(),
    }) + (match pnp_loader_path {
        Some(path) => " --experimental-loader "@ + path,
        None => Seq::<char>::empty(),
    })
}

pub fn node_options(set: &str, pnp_path: Option<&str>, pnp_loader_path: Option<&str>) -> (options:
    String)
    ensures
        options@ == spec_node_options(
            set@,
            match pnp_path {
                Some(p) => Some(p@),
                None => None,
            },
            match pnp_loader_path {
                Some(p) => Some(p@),
                None => None,
            },
        ),
{
    let mut out = chars_of(set);
    match pnp_path {
        Some(path) => {
            append_str(&mut out, " --require ");
            append_str(&mut out, path);
        },
        None => {},
    }
    match pnp_loader_path {
        Some(path) => {
            append_str(&mut out, " --experimental-loader ");
            append_str(&mut out, path);
        },
        None => {},
    }
    assert(out@ =~= spec_node_options(
        set@,
        match pnp_path {
            Some(p) => Some(p@),
            None => None,
        },
        match pnp_loader_path {
            Some(p) => Some(p@),
            None => None,
        },
    ));
    string_of(&out)
}

/// What the flags of `install` do to the settings: what a flag asks for is
/// switched on, and nothing is ever switched off.
pub fn apply_install_flags(config: &mut Config, immutable: bool, immutable_cache: bool)
    ensures
        final(config).project.enable_immutable_installs.value == (old(
            config,
        ).project.enable_immutable_installs.value || immutable),
        final(config).project.enable_immutable_cache.value == (old(
            config,
        ).project.enable_immutable_cache.value || immutable_cache),
        final(config).project.npm_registry_server == old(config).project.npm_registry_server,
        final(config).project.enable_transparent_workspaces == old(
            config,
        ).project.enable_transparent_workspaces,
{
    if immutable {
        config.project.enable_immutable_installs.value = true;
    }
    if immutable_cache {
        config.project.enable_immutable_cache.value = true;
    }
}

} // verus!

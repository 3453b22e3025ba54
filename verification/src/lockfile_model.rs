//! The lockfile as a document: how each value is written as a tree of
//! texts and numbers, how it is read back, and that reading gives back
//! what was written.
use crate::document::NodeView;
use crate::git::{
    GitRangeView, GitReferenceView, GitSourceView, GitTreeishView, PrepareParamsView,
};
use crate::install::{LockfileEntryView, LockfileView};
use crate::primitives::{DescriptorView, LocatorView, RangeView, ReferenceView};
use crate::resolution::{PeerRange, RequirementsView, ResolutionView};
use crate::semver;
use crate::semver::Version;
use vstd::prelude::*;

verus! {

pub open spec fn enc_bool(b: bool) -> NodeView {
    NodeView::Number(if b {
        1
    } else {
        0
    })
}

pub open spec fn dec_bool(n: NodeView) -> Option<bool> {
    match n {
        NodeView::Number(x) => if x == 0 {
            Some(false)
        } else if x == 1 {
            Some(true)
        } else {
            None
        },
        _ => None,
    }
}

pub open spec fn dec_text(n: NodeView) -> Option<Seq<char>> {
    match n {
        NodeView::Text(t) => Some(t),
        _ => None,
    }
}

/// The items of a list that starts with the number `tag` and holds `arity`
/// more items.
pub open spec fn tagged(n: NodeView, tag: u64, arity: nat) -> bool {
    n matches NodeView::List(items) && items.len() == arity + 1 && items[0] == NodeView::Number(
        tag,
    )
}

/// The items of a list of exactly `n` items.
pub open spec fn tuple(n: NodeView, len: nat) -> bool {
    n matches NodeView::List(items) && items.len() == len
}

pub open spec fn item(n: NodeView, i: int) -> NodeView {
    n->List_0[i]
}

pub open spec fn enc_opt_text(o: Option<Seq<char>>) -> NodeView {
    match o {
        Some(t) => NodeView::List(seq![NodeView::Text(t)]),
        None => NodeView::List(Seq::empty()),
    }
}

pub open spec fn dec_opt_text(n: NodeView) -> Option<Option<Seq<char>>> {
    if tuple(n, 0) {
        Some(None)
    } else if tuple(n, 1) && item(n, 0) is Text {
        Some(Some(item(n, 0)->Text_0))
    } else {
        None
    }
}

pub open spec fn enc_version(v: Version) -> NodeView {
    NodeView::List(
        seq![NodeView::Number(v.major), NodeView::Number(v.minor), NodeView::Number(v.patch)],
    )
}

pub open spec fn dec_version(n: NodeView) -> Option<Version> {
    if tuple(n, 3) && item(n, 0) is Number && item(n, 1) is Number && item(n, 2) is Number {
        Some(
            Version {
                major: item(n, 0)->Number_0,
                minor: item(n, 1)->Number_0,
                patch: item(n, 2)->Number_0,
            },
        )
    } else {
        None
    }
}

pub open spec fn enc_interval(r: semver::Range) -> NodeView {
    NodeView::List(
        seq![
            enc_bool(r.has_min),
            enc_version(r.min),
            enc_bool(r.min_inclusive),
            enc_bool(r.has_max),
            enc_version(r.max),
            enc_bool(r.max_inclusive),
        ],
    )
}

pub open spec fn dec_interval(n: NodeView) -> Option<semver::Range> {
    if tuple(n, 6) {
        match (
            dec_bool(item(n, 0)),
            dec_version(item(n, 1)),
            dec_bool(item(n, 2)),
            dec_bool(item(n, 3)),
            dec_version(item(n, 4)),
            dec_bool(item(n, 5)),
        ) {
            (
                Some(has_min),
                Some(min),
                Some(min_inclusive),
                Some(has_max),
                Some(max),
                Some(max_inclusive),
            ) => Some(
                semver::Range { has_min, min, min_inclusive, has_max, max, max_inclusive },
            ),
            _ => None,
        }
    } else {
        None
    }
}

pub open spec fn enc_git_source(s: GitSourceView) -> NodeView {
    match s {
        GitSourceView::GitHub { owner, repository } => NodeView::List(
            seq![NodeView::Number(0), NodeView::Text(owner), NodeView::Text(repository)],
        ),
        GitSourceView::Url(url) => NodeView::List(seq![NodeView::Number(1), NodeView::Text(url)]),
    }
}

pub open spec fn dec_git_source(n: NodeView) -> Option<GitSourceView> {
    if tagged(n, 0, 2) && item(n, 1) is Text && item(n, 2) is Text {
        Some(
            GitSourceView::GitHub {
                owner: item(n, 1)->Text_0,
                repository: item(n, 2)->Text_0,
            },
        )
    } else if tagged(n, 1, 1) && item(n, 1) is Text {
        Some(GitSourceView::Url(item(n, 1)->Text_0))
    } else {
        None
    }
}

pub open spec fn enc_params(p: PrepareParamsView) -> NodeView {
    NodeView::List(seq![enc_opt_text(p.cwd), enc_opt_text(p.workspace)])
}

pub open spec fn dec_params(n: NodeView) -> Option<PrepareParamsView> {
    if tuple(n, 2) {
        match (dec_opt_text(item(n, 0)), dec_opt_text(item(n, 1))) {
            (Some(cwd), Some(workspace)) => Some(PrepareParamsView { cwd, workspace }),
            _ => None,
        }
    } else {
        None
    }
}

pub open spec fn enc_treeish(t: GitTreeishView) -> NodeView {
    match t {
        GitTreeishView::AnythingGoes(x) => NodeView::List(
            seq![NodeView::Number(0), NodeView::Text(x)],
        ),
        GitTreeishView::Head(x) => NodeView::List(seq![NodeView::Number(1), NodeView::Text(x)]),
        GitTreeishView::Commit(x) => NodeView::List(seq![NodeView::Number(2), NodeView::Text(x)]),
        GitTreeishView::Semver(r) => NodeView::List(seq![NodeView::Number(3), enc_interval(r)]),
        GitTreeishView::Tag(x) => NodeView::List(seq![NodeView::Number(4), NodeView::Text(x)]),
    }
}

pub open spec fn dec_treeish(n: NodeView) -> Option<GitTreeishView> {
    if tagged(n, 0, 1) && item(n, 1) is Text {
        Some(GitTreeishView::AnythingGoes(item(n, 1)->Text_0))
    } else if tagged(n, 1, 1) && item(n, 1) is Text {
        Some(GitTreeishView::Head(item(n, 1)->Text_0))
    } else if tagged(n, 2, 1) && item(n, 1) is Text {
        Some(GitTreeishView::Commit(item(n, 1)->Text_0))
    } else if tagged(n, 3, 1) {
        match dec_interval(item(n, 1)) {
            Some(r) => Some(GitTreeishView::Semver(r)),
            None => None,
        }
    } else if tagged(n, 4, 1) && item(n, 1) is Text {
        Some(GitTreeishView::Tag(item(n, 1)->Text_0))
    } else {
        None
    }
}

pub open spec fn enc_git_range(g: GitRangeView) -> NodeView {
    NodeView::List(
        seq![enc_git_source(g.repo), enc_treeish(g.treeish), enc_params(g.prepare_params)],
    )
}

pub open spec fn dec_git_range(n: NodeView) -> Option<GitRangeView> {
    if tuple(n, 3) {
        match (dec_git_source(item(n, 0)), dec_treeish(item(n, 1)), dec_params(item(n, 2))) {
            (Some(repo), Some(treeish), Some(prepare_params)) => Some(
                GitRangeView { repo, treeish, prepare_params },
            ),
            _ => None,
        }
    } else {
        None
    }
}

pub open spec fn enc_git_reference(g: GitReferenceView) -> NodeView {
    NodeView::List(
        seq![enc_git_source(g.repo), NodeView::Text(g.commit), enc_params(g.prepare_params)],
    )
}

pub open spec fn dec_git_reference(n: NodeView) -> Option<GitReferenceView> {
    if tuple(n, 3) && item(n, 1) is Text {
        match (dec_git_source(item(n, 0)), dec_params(item(n, 2))) {
            (Some(repo), Some(prepare_params)) => Some(
                GitReferenceView { repo, commit: item(n, 1)->Text_0, prepare_params },
            ),
            _ => None,
        }
    } else {
        None
    }
}

pub open spec fn tag1(tag: u64, a: NodeView) -> NodeView {
    NodeView::List(seq![NodeView::Number(tag), a])
}

pub open spec fn tag2(tag: u64, a: NodeView, b: NodeView) -> NodeView {
    NodeView::List(seq![NodeView::Number(tag), a, b])
}

pub open spec fn tag3(tag: u64, a: NodeView, b: NodeView, c: NodeView) -> NodeView {
    NodeView::List(seq![NodeView::Number(tag), a, b, c])
}

pub open spec fn enc_range(r: RangeView) -> NodeView {
    match r {
        RangeView::Semver(x) => tag1(0, enc_interval(x)),
        RangeView::SemverAlias(i, x) => tag2(1, NodeView::Text(i), enc_interval(x)),
        RangeView::SemverTag(t) => tag1(2, NodeView::Text(t)),
        RangeView::Git(g) => tag1(3, enc_git_range(g)),
        RangeView::Link(p) => tag1(4, NodeView::Text(p)),
        RangeView::Portal(p) => tag1(5, NodeView::Text(p)),
        RangeView::Tarball(p) => tag1(6, NodeView::Text(p)),
        RangeView::Folder(p) => tag1(7, NodeView::Text(p)),
        RangeView::Patch(i, x, p) => tag3(8, NodeView::Text(i), enc_interval(x), NodeView::Text(p)),
        RangeView::Url(u) => tag1(9, NodeView::Text(u)),
        RangeView::WorkspaceIdent(i) => tag1(10, NodeView::Text(i)),
        RangeView::WorkspacePath(p) => tag1(11, NodeView::Text(p)),
    }
}

pub open spec fn dec_range(n: NodeView) -> Option<RangeView> {
    if tagged(n, 0, 1) {
        match dec_interval(item(n, 1)) {
            Some(x) => Some(RangeView::Semver(x)),
            None => None,
        }
    } else if tagged(n, 1, 2) && item(n, 1) is Text {
        match dec_interval(item(n, 2)) {
            Some(x) => Some(RangeView::SemverAlias(item(n, 1)->Text_0, x)),
            None => None,
        }
    } else if tagged(n, 2, 1) && item(n, 1) is Text {
        Some(RangeView::SemverTag(item(n, 1)->Text_0))
    } else if tagged(n, 3, 1) {
        match dec_git_range(item(n, 1)) {
            Some(g) => Some(RangeView::Git(g)),
            None => None,
        }
    } else if tagged(n, 4, 1) && item(n, 1) is Text {
        Some(RangeView::Link(item(n, 1)->Text_0))
    } else if tagged(n, 5, 1) && item(n, 1) is Text {
        Some(RangeView::Portal(item(n, 1)->Text_0))
    } else if tagged(n, 6, 1) && item(n, 1) is Text {
        Some(RangeView::Tarball(item(n, 1)->Text_0))
    } else if tagged(n, 7, 1) && item(n, 1) is Text {
        Some(RangeView::Folder(item(n, 1)->Text_0))
    } else if tagged(n, 8, 3) && item(n, 1) is Text && item(n, 3) is Text {
        match dec_interval(item(n, 2)) {
            Some(x) => Some(RangeView::Patch(item(n, 1)->Text_0, x, item(n, 3)->Text_0)),
            None => None,
        }
    } else if tagged(n, 9, 1) && item(n, 1) is Text {
        Some(RangeView::Url(item(n, 1)->Text_0))
    } else if tagged(n, 10, 1) && item(n, 1) is Text {
        Some(RangeView::WorkspaceIdent(item(n, 1)->Text_0))
    } else if tagged(n, 11, 1) && item(n, 1) is Text {
        Some(RangeView::WorkspacePath(item(n, 1)->Text_0))
    } else {
        None
    }
}

pub open spec fn enc_reference(r: ReferenceView) -> NodeView {
    match r {
        ReferenceView::Semver(v) => tag1(0, enc_version(v)),
        ReferenceView::SemverAlias(i, v) => tag2(1, NodeView::Text(i), enc_version(v)),
        ReferenceView::Git(g) => tag1(2, enc_git_reference(g)),
        ReferenceView::Link(p) => tag1(3, NodeView::Text(p)),
        ReferenceView::Portal(p) => tag1(4, NodeView::Text(p)),
        ReferenceView::Tarball(p) => tag1(5, NodeView::Text(p)),
        ReferenceView::Folder(p) => tag1(6, NodeView::Text(p)),
        ReferenceView::Url(u) => tag1(7, NodeView::Text(u)),
        ReferenceView::Patch(i, p) => tag2(8, NodeView::Text(i), NodeView::Text(p)),
        ReferenceView::Workspace(i) => tag1(9, NodeView::Text(i)),
    }
}

pub open spec fn dec_reference(n: NodeView) -> Option<ReferenceView> {
    if tagged(n, 0, 1) {
        match dec_version(item(n, 1)) {
            Some(v) => Some(ReferenceView::Semver(v)),
            None => None,
        }
    } else if tagged(n, 1, 2) && item(n, 1) is Text {
        match dec_version(item(n, 2)) {
            Some(v) => Some(ReferenceView::SemverAlias(item(n, 1)->Text_0, v)),
            None => None,
        }
    } else if tagged(n, 2, 1) {
        match dec_git_reference(item(n, 1)) {
            Some(g) => Some(ReferenceView::Git(g)),
            None => None,
        }
    } else if tagged(n, 3, 1) && item(n, 1) is Text {
        Some(ReferenceView::Link(item(n, 1)->Text_0))
    } else if tagged(n, 4, 1) && item(n, 1) is Text {
        Some(ReferenceView::Portal(item(n, 1)->Text_0))
    } else if tagged(n, 5, 1) && item(n, 1) is Text {
        Some(ReferenceView::Tarball(item(n, 1)->Text_0))
    } else if tagged(n, 6, 1) && item(n, 1) is Text {
        Some(ReferenceView::Folder(item(n, 1)->Text_0))
    } else if tagged(n, 7, 1) && item(n, 1) is Text {
        Some(ReferenceView::Url(item(n, 1)->Text_0))
    } else if tagged(n, 8, 2) && item(n, 1) is Text && item(n, 2) is Text {
        Some(ReferenceView::Patch(item(n, 1)->Text_0, item(n, 2)->Text_0))
    } else if tagged(n, 9, 1) && item(n, 1) is Text {
        Some(ReferenceView::Workspace(item(n, 1)->Text_0))
    } else {
        None
    }
}

/// One link of the chain of a locator: its name and its reference.
pub open spec fn enc_link(l: LocatorView) -> NodeView {
    NodeView::List(seq![NodeView::Text(l.ident), enc_reference(l.reference)])
}

pub open spec fn dec_link(n: NodeView) -> Option<(Seq<char>, ReferenceView)> {
    if tuple(n, 2) && item(n, 0) is Text {
        match dec_reference(item(n, 1)) {
            Some(reference) => Some((item(n, 0)->Text_0, reference)),
            None => None,
        }
    } else {
        None
    }
}

/// A locator is written as the chain of its links, itself first and the
/// package that hangs off nothing last.
pub open spec fn enc_chain(l: LocatorView) -> Seq<NodeView>
    decreases l,
{
    seq![enc_link(l)] + (match l.parent {
        Some(parent) => enc_chain(*parent),
        None => Seq::empty(),
    })
}

pub open spec fn dec_chain(items: Seq<NodeView>) -> Option<LocatorView>
    decreases items.len(),
{
    if items.len() == 0 {
        None
    } else {
        match dec_link(items[0]) {
            None => None,
            Some(link) => if items.len() == 1 {
                Some(LocatorView { ident: link.0, reference: link.1, parent: None })
            } else {
                match dec_chain(items.skip(1)) {
                    Some(parent) => Some(
                        LocatorView {
                            ident: link.0,
                            reference: link.1,
                            parent: Some(Box::new(parent)),
                        },
                    ),
                    None => None,
                }
            },
        }
    }
}

pub open spec fn enc_locator(l: LocatorView) -> NodeView {
    NodeView::List(enc_chain(l))
}

pub open spec fn dec_locator(n: NodeView) -> Option<LocatorView> {
    match n {
        NodeView::List(items) => dec_chain(items),
        _ => None,
    }
}

pub open spec fn enc_opt_locator(o: Option<LocatorView>) -> NodeView {
    match o {
        Some(l) => NodeView::List(seq![enc_locator(l)]),
        None => NodeView::List(Seq::empty()),
    }
}

pub open spec fn dec_opt_locator(n: NodeView) -> Option<Option<LocatorView>> {
    if tuple(n, 0) {
        Some(None)
    } else if tuple(n, 1) {
        match dec_locator(item(n, 0)) {
            Some(l) => Some(Some(l)),
            None => None,
        }
    } else {
        None
    }
}

pub open spec fn enc_descriptor(d: DescriptorView) -> NodeView {
    NodeView::List(seq![NodeView::Text(d.ident), enc_range(d.range), enc_opt_locator(d.parent)])
}

pub open spec fn dec_descriptor(n: NodeView) -> Option<DescriptorView> {
    if tuple(n, 3) && item(n, 0) is Text {
        match (dec_range(item(n, 1)), dec_opt_locator(item(n, 2))) {
            (Some(range), Some(parent)) => Some(
                DescriptorView { ident: item(n, 0)->Text_0, range, parent },
            ),
            _ => None,
        }
    } else {
        None
    }
}

/// A list of values, each written by `f`.
pub open spec fn enc_seq<T>(items: Seq<T>, f: spec_fn(T) -> NodeView) -> NodeView {
    NodeView::List(items.map_values(f))
}

/// A list of values, each read by `g`; one that cannot be read spoils the
/// list.
pub open spec fn dec_seq<T>(n: NodeView, g: spec_fn(NodeView) -> Option<T>) -> Option<Seq<T>> {
    match n {
        NodeView::List(items) => if forall|i: int|
            0 <= i < items.len() ==> (#[trigger] g(items[i])) is Some {
            Some(items.map_values(|x: NodeView| g(x)->0))
        } else {
            None
        },
        _ => None,
    }
}

pub open spec fn enc_texts(texts: Seq<Seq<char>>) -> NodeView {
    enc_seq(texts, |t: Seq<char>| NodeView::Text(t))
}

pub open spec fn dec_texts(n: NodeView) -> Option<Seq<Seq<char>>> {
    dec_seq(n, |x: NodeView| dec_text(x))
}

pub open spec fn enc_requirements(r: RequirementsView) -> NodeView {
    NodeView::List(seq![enc_texts(r.os), enc_texts(r.cpu)])
}

pub open spec fn dec_requirements(n: NodeView) -> Option<RequirementsView> {
    if tuple(n, 2) {
        match (dec_texts(item(n, 0)), dec_texts(item(n, 1))) {
            (Some(os), Some(cpu)) => Some(RequirementsView { os, cpu }),
            _ => None,
        }
    } else {
        None
    }
}

pub open spec fn enc_peer(p: PeerRange) -> NodeView {
    match p {
        PeerRange::Unconstrained => NodeView::List(seq![NodeView::Number(0)]),
        PeerRange::Semver(r) => tag1(1, enc_interval(r)),
    }
}

pub open spec fn dec_peer(n: NodeView) -> Option<PeerRange> {
    if tagged(n, 0, 0) {
        Some(PeerRange::Unconstrained)
    } else if tagged(n, 1, 1) {
        match dec_interval(item(n, 1)) {
            Some(r) => Some(PeerRange::Semver(r)),
            None => None,
        }
    } else {
        None
    }
}

pub open spec fn enc_dependency(d: (Seq<char>, DescriptorView)) -> NodeView {
    NodeView::List(seq![NodeView::Text(d.0), enc_descriptor(d.1)])
}

pub open spec fn dec_dependency(n: NodeView) -> Option<(Seq<char>, DescriptorView)> {
    if tuple(n, 2) && item(n, 0) is Text {
        match dec_descriptor(item(n, 1)) {
            Some(d) => Some((item(n, 0)->Text_0, d)),
            None => None,
        }
    } else {
        None
    }
}

pub open spec fn enc_peer_dependency(d: (Seq<char>, PeerRange)) -> NodeView {
    NodeView::List(seq![NodeView::Text(d.0), enc_peer(d.1)])
}

pub open spec fn dec_peer_dependency(n: NodeView) -> Option<(Seq<char>, PeerRange)> {
    if tuple(n, 2) && item(n, 0) is Text {
        match dec_peer(item(n, 1)) {
            Some(p) => Some((item(n, 0)->Text_0, p)),
            None => None,
        }
    } else {
        None
    }
}

pub open spec fn enc_resolution(r: ResolutionView) -> NodeView {
    NodeView::List(
        seq![
            enc_locator(r.locator),
            enc_version(r.version),
            enc_requirements(r.requirements),
            enc_seq(r.dependencies, |d: (Seq<char>, DescriptorView)| enc_dependency(d)),
            enc_seq(r.peer_dependencies, |d: (Seq<char>, PeerRange)| enc_peer_dependency(d)),
            enc_texts(r.optional_dependencies),
            enc_texts(r.missing_peer_dependencies),
        ],
    )
}

pub open spec fn dec_resolution(n: NodeView) -> Option<ResolutionView> {
    if tuple(n, 7) {
        match (
            dec_locator(item(n, 0)),
            dec_version(item(n, 1)),
            dec_requirements(item(n, 2)),
            dec_seq(item(n, 3), |x: NodeView| dec_dependency(x)),
            dec_seq(item(n, 4), |x: NodeView| dec_peer_dependency(x)),
            dec_texts(item(n, 5)),
            dec_texts(item(n, 6)),
        ) {
            (
                Some(locator),
                Some(version),
                Some(requirements),
                Some(dependencies),
                Some(peer_dependencies),
                Some(optional_dependencies),
                Some(missing_peer_dependencies),
            ) => Some(
                ResolutionView {
                    locator,
                    version,
                    requirements,
                    dependencies,
                    peer_dependencies,
                    optional_dependencies,
                    missing_peer_dependencies,
                },
            ),
            _ => None,
        }
    } else {
        None
    }
}

pub open spec fn enc_entry(e: (LocatorView, LockfileEntryView)) -> NodeView {
    NodeView::List(seq![enc_locator(e.0), enc_opt_text(e.1.checksum), enc_resolution(e.1.resolution)])
}

pub open spec fn dec_entry(n: NodeView) -> Option<(LocatorView, LockfileEntryView)> {
    if tuple(n, 3) {
        match (dec_locator(item(n, 0)), dec_opt_text(item(n, 1)), dec_resolution(item(n, 2))) {
            (Some(locator), Some(checksum), Some(resolution)) => Some(
                (locator, LockfileEntryView { checksum, resolution }),
            ),
            _ => None,
        }
    } else {
        None
    }
}

pub open spec fn enc_resolved(r: (DescriptorView, LocatorView)) -> NodeView {
    NodeView::List(seq![enc_descriptor(r.0), enc_locator(r.1)])
}

pub open spec fn dec_resolved(n: NodeView) -> Option<(DescriptorView, LocatorView)> {
    if tuple(n, 2) {
        match (dec_descriptor(item(n, 0)), dec_locator(item(n, 1))) {
            (Some(d), Some(l)) => Some((d, l)),
            _ => None,
        }
    } else {
        None
    }
}

/// The lockfile as a document: the list of what each requirement resolved
/// to, and the list of what is known of each package.
pub open spec fn enc_lockfile(l: LockfileView) -> NodeView {
    NodeView::List(
        seq![
            enc_seq(l.resolutions, |r: (DescriptorView, LocatorView)| enc_resolved(r)),
            enc_seq(l.entries, |e: (LocatorView, LockfileEntryView)| enc_entry(e)),
        ],
    )
}

/// The lockfile that a document writes, if it writes one.
pub open spec fn dec_lockfile(n: NodeView) -> Option<LockfileView> {
    if tuple(n, 2) {
        match (
            dec_seq(item(n, 0), |x: NodeView| dec_resolved(x)),
            dec_seq(item(n, 1), |x: NodeView| dec_entry(x)),
        ) {
            (Some(resolutions), Some(entries)) => Some(LockfileView { resolutions, entries }),
            _ => None,
        }
    } else {
        None
    }
}

pub proof fn lemma_seq_round_trip<T>(
    items: Seq<T>,
    f: spec_fn(T) -> NodeView,
    g: spec_fn(NodeView) -> Option<T>,
)
    requires
        forall|i: int| 0 <= i < items.len() ==> g(#[trigger] f(items[i])) == Some(items[i]),
    ensures
        dec_seq(enc_seq(items, f), g) == Some(items),
{
    let nodes = items.map_values(f);
    assert forall|i: int| 0 <= i < nodes.len() implies (#[trigger] g(nodes[i])) is Some by {
        assert(nodes[i] == f(items[i]));
    }
    assert(nodes.map_values(|x: NodeView| g(x)->0) =~= items) by {
        assert forall|i: int| 0 <= i < nodes.len() implies nodes.map_values(
            |x: NodeView| g(x)->0,
        )[i] == items[i] by {
            assert(nodes[i] == f(items[i]));
        }
    }
}

pub proof fn lemma_interval(r: semver::Range)
    ensures
        dec_interval(enc_interval(r)) == Some(r),
{
}

pub proof fn lemma_git_range(g: GitRangeView)
    ensures
        dec_git_range(enc_git_range(g)) == Some(g),
{
    lemma_treeish(g.treeish);
    assert(dec_opt_text(enc_opt_text(g.prepare_params.cwd)) == Some(g.prepare_params.cwd));
    assert(dec_opt_text(enc_opt_text(g.prepare_params.workspace)) == Some(
        g.prepare_params.workspace,
    ));
}

pub proof fn lemma_treeish(t: GitTreeishView)
    ensures
        dec_treeish(enc_treeish(t)) == Some(t),
{
    match t {
        GitTreeishView::Semver(r) => {
            lemma_interval(r);
        },
        _ => {},
    }
}

pub proof fn lemma_git_reference(g: GitReferenceView)
    ensures
        dec_git_reference(enc_git_reference(g)) == Some(g),
{
    assert(dec_opt_text(enc_opt_text(g.prepare_params.cwd)) == Some(g.prepare_params.cwd));
    assert(dec_opt_text(enc_opt_text(g.prepare_params.workspace)) == Some(
        g.prepare_params.workspace,
    ));
}

pub proof fn lemma_range(r: RangeView)
    ensures
        dec_range(enc_range(r)) == Some(r),
{
    match r {
        RangeView::Semver(x) => {
            lemma_interval(x);
        },
        RangeView::SemverAlias(_, x) => {
            lemma_interval(x);
        },
        RangeView::Git(g) => {
            lemma_git_range(g);
        },
        RangeView::Patch(_, x, _) => {
            lemma_interval(x);
        },
        _ => {},
    }
}

pub proof fn lemma_reference(r: ReferenceView)
    ensures
        dec_reference(enc_reference(r)) == Some(r),
{
    match r {
        ReferenceView::Git(g) => {
            lemma_git_reference(g);
        },
        _ => {},
    }
}

pub proof fn lemma_chain(l: LocatorView)
    ensures
        dec_chain(enc_chain(l)) == Some(l),
        enc_chain(l).len() >= 1,
    decreases l,
{
    lemma_reference(l.reference);
    let items = enc_chain(l);
    assert(items[0] == enc_link(l));
    match l.parent {
        Some(parent) => {
            lemma_chain(*parent);
            assert(items.skip(1) =~= enc_chain(*parent));
        },
        None => {
            assert(items.len() == 1);
        },
    }
}

pub proof fn lemma_descriptor(d: DescriptorView)
    ensures
        dec_descriptor(enc_descriptor(d)) == Some(d),
{
    lemma_range(d.range);
    match d.parent {
        Some(l) => {
            lemma_chain(l);
        },
        None => {},
    }
}

pub proof fn lemma_texts(texts: Seq<Seq<char>>)
    ensures
        dec_texts(enc_texts(texts)) == Some(texts),
{
    lemma_seq_round_trip(texts, |t: Seq<char>| NodeView::Text(t), |x: NodeView| dec_text(x));
}

pub proof fn lemma_resolution(r: ResolutionView)
    ensures
        dec_resolution(enc_resolution(r)) == Some(r),
{
    lemma_chain(r.locator);
    lemma_texts(r.requirements.os);
    lemma_texts(r.requirements.cpu);
    lemma_texts(r.optional_dependencies);
    lemma_texts(r.missing_peer_dependencies);
    let f = |d: (Seq<char>, DescriptorView)| enc_dependency(d);
    let g = |x: NodeView| dec_dependency(x);
    assert forall|i: int| 0 <= i < r.dependencies.len() implies g(#[trigger] f(r.dependencies[i]))
        == Some(r.dependencies[i]) by {
        lemma_descriptor(r.dependencies[i].1);
    }
    lemma_seq_round_trip(r.dependencies, f, g);
    let fp = |d: (Seq<char>, PeerRange)| enc_peer_dependency(d);
    let gp = |x: NodeView| dec_peer_dependency(x);
    assert forall|i: int|
        0 <= i < r.peer_dependencies.len() implies gp(#[trigger] fp(r.peer_dependencies[i]))
        == Some(r.peer_dependencies[i]) by {
        match r.peer_dependencies[i].1 {
            PeerRange::Semver(x) => {
                lemma_interval(x);
            },
            _ => {},
        }
    }
    lemma_seq_round_trip(r.peer_dependencies, fp, gp);
}

/// Writing a lockfile as a document and reading the document back gives
/// the lockfile: the same requirements with the same packages, and the same
/// packages with the same resolutions and checksums.
pub proof fn law_lockfile_round_trip(l: LockfileView)
    ensures
        dec_lockfile(enc_lockfile(l)) == Some(l),
{
    let f = |r: (DescriptorView, LocatorView)| enc_resolved(r);
    let g = |x: NodeView| dec_resolved(x);
    assert forall|i: int| 0 <= i < l.resolutions.len() implies g(#[trigger] f(l.resolutions[i]))
        == Some(l.resolutions[i]) by {
        lemma_descriptor(l.resolutions[i].0);
        lemma_chain(l.resolutions[i].1);
    }
    lemma_seq_round_trip(l.resolutions, f, g);
    let fe = |e: (LocatorView, LockfileEntryView)| enc_entry(e);
    let ge = |x: NodeView| dec_entry(x);
    assert forall|i: int| 0 <= i < l.entries.len() implies ge(#[trigger] fe(l.entries[i]))
        == Some(l.entries[i]) by {
        lemma_chain(l.entries[i].0);
        lemma_resolution(l.entries[i].1.resolution);
        assert(dec_opt_text(enc_opt_text(l.entries[i].1.checksum)) == Some(
            l.entries[i].1.checksum,
        ));
    }
    lemma_seq_round_trip(l.entries, fe, ge);
}

} // verus!

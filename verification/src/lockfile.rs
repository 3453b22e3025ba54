//! Writing a lockfile as a document, and reading one back.
use crate::document::{node_views, Node, NodeView};
use crate::error::{Error, ErrorKind};
use crate::git::{GitRange, GitReference, GitSource, GitTreeish, PrepareParams};
use crate::install::{Lockfile, LockfileEntry, LockfileView};
use crate::keyed::{key_views, option_view, KeyedList};
use crate::lockfile_model::{
    dec_bool,
    dec_chain,
    dec_dependency,
    dec_descriptor,
    dec_entry,
    dec_git_range,
    dec_git_reference,
    dec_git_source,
    dec_interval,
    dec_link,
    dec_locator,
    dec_lockfile,
    dec_opt_locator,
    dec_opt_text,
    dec_params,
    dec_peer,
    dec_peer_dependency,
    dec_range,
    dec_reference,
    dec_requirements,
    dec_resolution,
    dec_resolved,
    dec_seq,
    dec_text,
    dec_texts,
    dec_treeish,
    dec_version,
    enc_chain,
    enc_dependency,
    enc_descriptor,
    enc_entry,
    enc_git_range,
    enc_git_reference,
    enc_git_source,
    enc_interval,
    enc_link,
    enc_locator,
    enc_lockfile,
    enc_opt_locator,
    enc_opt_text,
    enc_params,
    enc_peer,
    enc_peer_dependency,
    enc_range,
    enc_reference,
    enc_requirements,
    enc_resolution,
    enc_resolved,
    enc_seq,
    enc_texts,
    enc_treeish,
    enc_version,
    item,
    tagged,
    tuple,
};
use crate::primitives::{
    locator_view,
    Descriptor,
    DescriptorView,
    Ident,
    Locator,
    LocatorView,
    Range,
    Reference,
};
use crate::resolution::{PeerRange, Requirements, Resolution};
use crate::semver;
use crate::semver::Version;
use crate::text::string_views;
use vstd::prelude::*;

verus! {

fn write_text(text: &String) -> (n: Node)
    ensures
        n@ == NodeView::Text(text@),
{
    Node::text(text.as_str())
}

fn read_text(n: &Node) -> (r: Option<String>)
    ensures
        crate::patterns::text_view(r) == dec_text(n@),
{
    match n.as_text() {
        Some(text) => Some(text.clone()),
        None => None,
    }
}

fn read_bool(n: &Node) -> (r: Option<bool>)
    ensures
        r == dec_bool(n@),
{
    match n.as_number() {
        Some(x) => {
            if x == 0 {
                Some(false)
            } else if x == 1 {
                Some(true)
            } else {
                None
            }
        },
        None => None,
    }
}

fn write_opt_text(text: &Option<String>) -> (n: Node)
    ensures
        n@ == enc_opt_text(crate::patterns::text_view(*text)),
{
    match text {
        Some(t) => Node::list1(write_text(t)),
        None => Node::list0(),
    }
}

fn read_opt_text(n: &Node) -> (r: Option<Option<String>>)
    ensures
        match r {
            Some(text) => dec_opt_text(n@) == Some(crate::patterns::text_view(text)),
            None => dec_opt_text(n@) is None,
        },
{
    match n.items() {
        Some(items) => {
            if items.len() == 0 {
                Some(None)
            } else if items.len() == 1 {
                assert(item(n@, 0) == items@[0]@);
                match items[0].as_text() {
                    Some(text) => Some(Some(text.clone())),
                    None => None,
                }
            } else {
                None
            }
        },
        None => None,
    }
}

fn write_version(v: &Version) -> (n: Node)
    ensures
        n@ == enc_version(*v),
{
    Node::list3(Node::number(v.major), Node::number(v.minor), Node::number(v.patch))
}

fn read_version(n: &Node) -> (r: Option<Version>)
    ensures
        r == dec_version(n@),
{
    match n.tuple(3) {
        Some(items) => {
            assert(item(n@, 0) == items@[0]@ && item(n@, 1) == items@[1]@ && item(n@, 2)
                == items@[2]@);
            match (items[0].as_number(), items[1].as_number(), items[2].as_number()) {
                (Some(major), Some(minor), Some(patch)) => Some(Version { major, minor, patch }),
                _ => None,
            }
        },
        None => None,
    }
}

fn write_interval(r: &semver::Range) -> (n: Node)
    ensures
        n@ == enc_interval(*r),
{
    let mut items: Vec<Node> = Vec::new();
    items.push(Node::flag(r.has_min));
    items.push(write_version(&r.min));
    items.push(Node::flag(r.min_inclusive));
    items.push(Node::flag(r.has_max));
    items.push(write_version(&r.max));
    items.push(Node::flag(r.max_inclusive));
    assert(node_views(items@) =~= enc_interval(*r)->List_0);
    Node::list(items)
}

fn read_interval(n: &Node) -> (r: Option<semver::Range>)
    ensures
        r == dec_interval(n@),
{
    match n.tuple(6) {
        Some(items) => {
            assert(forall|k: int| 0 <= k < 6 ==> item(n@, k) == items@[k]@);
            match (
                read_bool(&items[0]),
                read_version(&items[1]),
                read_bool(&items[2]),
                read_bool(&items[3]),
                read_version(&items[4]),
                read_bool(&items[5]),
            ) {
                (
                    Some(has_min),
                    Some(min),
                    Some(min_inclusive),
                    Some(has_max),
                    Some(max),
                    Some(max_inclusive),
                ) => Some(
                    semver::Range { has_min, min, min_inclusive, has_max, max, max_inclusive },
                ),
                _ => None,
            }
        },
        None => None,
    }
}

fn write_git_source(s: &GitSource) -> (n: Node)
    ensures
        n@ == enc_git_source(s@),
{
    match s {
        GitSource::GitHub { owner, repository } => Node::list3(
            Node::number(0),
            write_text(owner),
            write_text(repository),
        ),
        GitSource::Url(url) => Node::list2(Node::number(1), write_text(url)),
    }
}

fn read_git_source(n: &Node) -> (r: Option<GitSource>)
    ensures
        option_view(r) == dec_git_source(n@),
{
    match n.tagged() {
        Some((tag, items)) => {
            assert(forall|k: int| 0 <= k < items@.len() ==> item(n@, k) == items@[k]@);
            if tag == 0 && items.len() == 3 {
                match (items[1].as_text(), items[2].as_text()) {
                    (Some(owner), Some(repository)) => Some(
                        GitSource::GitHub { owner: owner.clone(), repository: repository.clone() },
                    ),
                    _ => None,
                }
            } else if tag == 1 && items.len() == 2 {
                match items[1].as_text() {
                    Some(url) => Some(GitSource::Url(url.clone())),
                    None => None,
                }
            } else {
                None
            }
        },
        None => None,
    }
}

fn write_params(p: &PrepareParams) -> (n: Node)
    ensures
        n@ == enc_params(p@),
{
    Node::list2(write_opt_text(&p.cwd), write_opt_text(&p.workspace))
}

fn read_params(n: &Node) -> (r: Option<PrepareParams>)
    ensures
        option_view(r) == dec_params(n@),
{
    match n.tuple(2) {
        Some(items) => {
            assert(item(n@, 0) == items@[0]@ && item(n@, 1) == items@[1]@);
            match (read_opt_text(&items[0]), read_opt_text(&items[1])) {
                (Some(cwd), Some(workspace)) => Some(PrepareParams { cwd, workspace }),
                _ => None,
            }
        },
        None => None,
    }
}

fn write_treeish(t: &GitTreeish) -> (n: Node)
    ensures
        n@ == enc_treeish(t@),
{
    match t {
        GitTreeish::AnythingGoes(x) => Node::list2(Node::number(0), write_text(x)),
        GitTreeish::Head(x) => Node::list2(Node::number(1), write_text(x)),
        GitTreeish::Commit(x) => Node::list2(Node::number(2), write_text(x)),
        GitTreeish::Semver(r) => Node::list2(Node::number(3), write_interval(r)),
        GitTreeish::Tag(x) => Node::list2(Node::number(4), write_text(x)),
    }
}

fn read_treeish(n: &Node) -> (r: Option<GitTreeish>)
    ensures
        option_view(r) == dec_treeish(n@),
{
    match n.tagged() {
        Some((tag, items)) => {
            assert(forall|k: int| 0 <= k < items@.len() ==> item(n@, k) == items@[k]@);
            if items.len() != 2 {
                return None;
            }
            if tag == 3 {
                match read_interval(&items[1]) {
                    Some(r) => Some(GitTreeish::Semver(r)),
                    None => None,
                }
            } else if tag <= 4 {
                match items[1].as_text() {
                    Some(x) => {
                        if tag == 0 {
                            Some(GitTreeish::AnythingGoes(x.clone()))
                        } else if tag == 1 {
                            Some(GitTreeish::Head(x.clone()))
                        } else if tag == 2 {
                            Some(GitTreeish::Commit(x.clone()))
                        } else {
                            Some(GitTreeish::Tag(x.clone()))
                        }
                    },
                    None => None,
                }
            } else {
                None
            }
        },
        None => None,
    }
}

fn write_git_range(g: &GitRange) -> (n: Node)
    ensures
        n@ == enc_git_range(g@),
{
    Node::list3(
        write_git_source(&g.repo),
        write_treeish(&g.treeish),
        write_params(&g.prepare_params),
    )
}

fn read_git_range(n: &Node) -> (r: Option<GitRange>)
    ensures
        option_view(r) == dec_git_range(n@),
{
    match n.tuple(3) {
        Some(items) => {
            assert(forall|k: int| 0 <= k < 3 ==> item(n@, k) == items@[k]@);
            match (read_git_source(&items[0]), read_treeish(&items[1]), read_params(&items[2])) {
                (Some(repo), Some(treeish), Some(prepare_params)) => Some(
                    GitRange { repo, treeish, prepare_params },
                ),
                _ => None,
            }
        },
        None => None,
    }
}

fn write_git_reference(g: &GitReference) -> (n: Node)
    ensures
        n@ == enc_git_reference(g@),
{
    Node::list3(write_git_source(&g.repo), write_text(&g.commit), write_params(&g.prepare_params))
}

fn read_git_reference(n: &Node) -> (r: Option<GitReference>)
    ensures
        option_view(r) == dec_git_reference(n@),
{
    match n.tuple(3) {
        Some(items) => {
            assert(forall|k: int| 0 <= k < 3 ==> item(n@, k) == items@[k]@);
            match (read_git_source(&items[0]), items[1].as_text(), read_params(&items[2])) {
                (Some(repo), Some(commit), Some(prepare_params)) => Some(
                    GitReference { repo, commit: commit.clone(), prepare_params },
                ),
                _ => None,
            }
        },
        None => None,
    }
}

fn write_ident(ident: &Ident) -> (n: Node)
    ensures
        n@ == NodeView::Text(ident@),
{
    Node::text(ident.as_str())
}

fn write_range(r: &Range) -> (n: Node)
    ensures
        n@ == enc_range(r@),
{
    match r {
        Range::Semver(x) => Node::list2(Node::number(0), write_interval(x)),
        Range::SemverAlias(i, x) => Node::list3(Node::number(1), write_ident(i), write_interval(x)),
        Range::SemverTag(t) => Node::list2(Node::number(2), write_text(t)),
        Range::Git(g) => Node::list2(Node::number(3), write_git_range(g)),
        Range::Link(p) => Node::list2(Node::number(4), write_text(p)),
        Range::Portal(p) => Node::list2(Node::number(5), write_text(p)),
        Range::Tarball(p) => Node::list2(Node::number(6), write_text(p)),
        Range::Folder(p) => Node::list2(Node::number(7), write_text(p)),
        Range::Patch(i, x, p) => Node::list4(
            Node::number(8),
            write_ident(i),
            write_interval(x),
            write_text(p),
        ),
        Range::Url(u) => Node::list2(Node::number(9), write_text(u)),
        Range::WorkspaceIdent(i) => Node::list2(Node::number(10), write_ident(i)),
        Range::WorkspacePath(p) => Node::list2(Node::number(11), write_text(p)),
    }
}

fn read_range(n: &Node) -> (r: Option<Range>)
    ensures
        option_view(r) == dec_range(n@),
{
    match n.tagged() {
        Some((tag, items)) => {
            assert(forall|k: int| 0 <= k < items@.len() ==> item(n@, k) == items@[k]@);
            let len = items.len();
            if tag == 0 && len == 2 {
                match read_interval(&items[1]) {
                    Some(x) => Some(Range::Semver(x)),
                    None => None,
                }
            } else if tag == 1 && len == 3 {
                match (items[1].as_text(), read_interval(&items[2])) {
                    (Some(i), Some(x)) => Some(Range::SemverAlias(Ident { name: i.clone() }, x)),
                    _ => None,
                }
            } else if tag == 3 && len == 2 {
                match read_git_range(&items[1]) {
                    Some(g) => Some(Range::Git(g)),
                    None => None,
                }
            } else if tag == 8 && len == 4 {
                match (items[1].as_text(), read_interval(&items[2]), items[3].as_text()) {
                    (Some(i), Some(x), Some(p)) => Some(
                        Range::Patch(Ident { name: i.clone() }, x, p.clone()),
                    ),
                    _ => None,
                }
            } else if len == 2 && tag <= 11 && tag != 0 && tag != 1 && tag != 3 && tag != 8 {
                match items[1].as_text() {
                    Some(t) => {
                        let t = t.clone();
                        if tag == 2 {
                            Some(Range::SemverTag(t))
                        } else if tag == 4 {
                            Some(Range::Link(t))
                        } else if tag == 5 {
                            Some(Range::Portal(t))
                        } else if tag == 6 {
                            Some(Range::Tarball(t))
                        } else if tag == 7 {
                            Some(Range::Folder(t))
                        } else if tag == 9 {
                            Some(Range::Url(t))
                        } else if tag == 10 {
                            Some(Range::WorkspaceIdent(Ident { name: t }))
                        } else {
                            Some(Range::WorkspacePath(t))
                        }
                    },
                    None => None,
                }
            } else {
                None
            }
        },
        None => None,
    }
}

fn write_reference(r: &Reference) -> (n: Node)
    ensures
        n@ == enc_reference(r@),
{
    match r {
        Reference::Semver(v) => Node::list2(Node::number(0), write_version(v)),
        Reference::SemverAlias(i, v) => Node::list3(
            Node::number(1),
            write_ident(i),
            write_version(v),
        ),
        Reference::Git(g) => Node::list2(Node::number(2), write_git_reference(g)),
        Reference::Link(p) => Node::list2(Node::number(3), write_text(p)),
        Reference::Portal(p) => Node::list2(Node::number(4), write_text(p)),
        Reference::Tarball(p) => Node::list2(Node::number(5), write_text(p)),
        Reference::Folder(p) => Node::list2(Node::number(6), write_text(p)),
        Reference::Url(u) => Node::list2(Node::number(7), write_text(u)),
        Reference::Patch(i, p) => Node::list3(Node::number(8), write_text(i), write_text(p)),
        Reference::Workspace(i) => Node::list2(Node::number(9), write_ident(i)),
    }
}

fn read_reference(n: &Node) -> (r: Option<Reference>)
    ensures
        option_view(r) == dec_reference(n@),
{
    match n.tagged() {
        Some((tag, items)) => {
            assert(forall|k: int| 0 <= k < items@.len() ==> item(n@, k) == items@[k]@);
            let len = items.len();
            if tag == 0 && len == 2 {
                match read_version(&items[1]) {
                    Some(v) => Some(Reference::Semver(v)),
                    None => None,
                }
            } else if tag == 1 && len == 3 {
                match (items[1].as_text(), read_version(&items[2])) {
                    (Some(i), Some(v)) => Some(
                        Reference::SemverAlias(Ident { name: i.clone() }, v),
                    ),
                    _ => None,
                }
            } else if tag == 2 && len == 2 {
                match read_git_reference(&items[1]) {
                    Some(g) => Some(Reference::Git(g)),
                    None => None,
                }
            } else if tag == 8 && len == 3 {
                match (items[1].as_text(), items[2].as_text()) {
                    (Some(i), Some(p)) => Some(Reference::Patch(i.clone(), p.clone())),
                    _ => None,
                }
            } else if len == 2 && tag <= 9 && tag >= 3 && tag != 8 {
                match items[1].as_text() {
                    Some(t) => {
                        let t = t.clone();
                        if tag == 3 {
                            Some(Reference::Link(t))
                        } else if tag == 4 {
                            Some(Reference::Portal(t))
                        } else if tag == 5 {
                            Some(Reference::Tarball(t))
                        } else if tag == 6 {
                            Some(Reference::Folder(t))
                        } else if tag == 7 {
                            Some(Reference::Url(t))
                        } else {
                            Some(Reference::Workspace(Ident { name: t }))
                        }
                    },
                    None => None,
                }
            } else {
                None
            }
        },
        None => None,
    }
}

fn write_chain(locator: &Locator) -> (items: Vec<Node>)
    ensures
        node_views(items@) == enc_chain(locator_view(*locator)),
    decreases locator,
{
    let link = Node::list2(write_ident(&locator.ident), write_reference(&locator.reference));
    let mut items = match &locator.parent {
        Some(parent) => write_chain(parent),
        None => Vec::new(),
    };
    let ghost rest = node_views(items@);
    items.insert(0, link);
    assert(node_views(items@) =~= seq![enc_link(locator_view(*locator))] + rest);
    items
}

fn write_locator(locator: &Locator) -> (n: Node)
    ensures
        n@ == enc_locator(locator@),
{
    Node::list(write_chain(locator))
}

fn read_link(n: &Node) -> (r: Option<(Ident, Reference)>)
    ensures
        match r {
            Some(link) => dec_link(n@) == Some((link.0@, link.1@)),
            None => dec_link(n@) is None,
        },
{
    match n.tuple(2) {
        Some(items) => {
            assert(item(n@, 0) == items@[0]@ && item(n@, 1) == items@[1]@);
            match (items[0].as_text(), read_reference(&items[1])) {
                (Some(ident), Some(reference)) => Some((Ident { name: ident.clone() }, reference)),
                _ => None,
            }
        },
        None => None,
    }
}

proof fn lemma_chain_broken(items: Seq<NodeView>, k: int, j: int)
    requires
        0 <= k <= j < items.len(),
        dec_link(items[j]) is None,
    ensures
        dec_chain(items.skip(k)) is None,
    decreases j - k,
{
    let tail = items.skip(k);
    assert(tail[0] == items[k]);
    if k < j {
        lemma_chain_broken(items, k + 1, j);
        assert(tail.skip(1) =~= items.skip(k + 1));
    }
}

fn read_locator(n: &Node) -> (r: Option<Locator>)
    ensures
        option_view(r) == dec_locator(n@),
{
    let items = match n.items() {
        Some(items) => items,
        None => {
            return None;
        },
    };
    let ghost views = node_views(items@);
    let mut current: Option<Locator> = None;
    let mut i: usize = items.len();
    assert(views.skip(0) =~= views);
    while i > 0
        invariant
            i <= items.len(),
            views == node_views(items@),
            n@ == NodeView::List(views),
            match current {
                None => i == items.len(),
                Some(l) => i < items.len() && dec_chain(views.skip(i as int)) == Some(l@),
            },
        decreases i,
    {
        let ghost tail = views.skip(i - 1);
        assert(tail[0] == items@[i - 1]@);
        assert(tail.skip(1) =~= views.skip(i as int));
        match read_link(&items[i - 1]) {
            Some(link) => {
                current = Some(
                    Locator {
                        ident: link.0,
                        reference: link.1,
                        parent: match current {
                            Some(parent) => Some(Box::new(parent)),
                            None => None,
                        },
                    },
                );
            },
            None => {
                proof {
                    lemma_chain_broken(views, 0, i - 1);
                    assert(views.skip(0) =~= views);
                }
                return None;
            },
        }
        i -= 1;
    }
    current
}

fn write_opt_locator(locator: &Option<Locator>) -> (n: Node)
    ensures
        n@ == enc_opt_locator(option_view(*locator)),
{
    match locator {
        Some(l) => Node::list1(write_locator(l)),
        None => Node::list0(),
    }
}

fn read_opt_locator(n: &Node) -> (r: Option<Option<Locator>>)
    ensures
        match r {
            Some(l) => dec_opt_locator(n@) == Some(option_view(l)),
            None => dec_opt_locator(n@) is None,
        },
{
    match n.items() {
        Some(items) => {
            if items.len() == 0 {
                Some(None)
            } else if items.len() == 1 {
                assert(item(n@, 0) == items@[0]@);
                match read_locator(&items[0]) {
                    Some(l) => Some(Some(l)),
                    None => None,
                }
            } else {
                None
            }
        },
        None => None,
    }
}

fn write_descriptor(d: &Descriptor) -> (n: Node)
    ensures
        n@ == enc_descriptor(d@),
{
    Node::list3(write_ident(&d.ident), write_range(&d.range), write_opt_locator(&d.parent))
}

fn read_descriptor(n: &Node) -> (r: Option<Descriptor>)
    ensures
        option_view(r) == dec_descriptor(n@),
{
    match n.tuple(3) {
        Some(items) => {
            assert(forall|k: int| 0 <= k < 3 ==> item(n@, k) == items@[k]@);
            match (items[0].as_text(), read_range(&items[1]), read_opt_locator(&items[2])) {
                (Some(ident), Some(range), Some(parent)) => Some(
                    Descriptor { ident: Ident { name: ident.clone() }, range, parent },
                ),
                _ => None,
            }
        },
        None => None,
    }
}

fn write_texts(texts: &Vec<String>) -> (n: Node)
    ensures
        n@ == enc_texts(string_views(texts@)),
{
    let mut items: Vec<Node> = Vec::new();
    let mut i: usize = 0;
    while i < texts.len()
        invariant
            i <= texts.len(),
            items.len() == i,
            forall|j: int| 0 <= j < i ==> items@[j]@ == NodeView::Text(texts@[j]@),
        decreases texts.len() - i,
    {
        items.push(write_text(&texts[i]));
        i += 1;
    }
    assert(node_views(items@) =~= string_views(texts@).map_values(
        |t: Seq<char>| NodeView::Text(t),
    ));
    Node::list(items)
}

fn write_idents(idents: &Vec<Ident>) -> (n: Node)
    ensures
        n@ == enc_texts(key_views(idents@)),
{
    let mut items: Vec<Node> = Vec::new();
    let mut i: usize = 0;
    while i < idents.len()
        invariant
            i <= idents.len(),
            items.len() == i,
            forall|j: int| 0 <= j < i ==> items@[j]@ == NodeView::Text(idents@[j]@),
        decreases idents.len() - i,
    {
        items.push(write_ident(&idents[i]));
        i += 1;
    }
    assert(node_views(items@) =~= key_views(idents@).map_values(|t: Seq<char>| NodeView::Text(t)));
    Node::list(items)
}

fn read_texts(n: &Node) -> (r: Option<Vec<String>>)
    ensures
        match r {
            Some(texts) => dec_texts(n@) == Some(string_views(texts@)),
            None => dec_texts(n@) is None,
        },
{
    let items = match n.items() {
        Some(items) => items,
        None => {
            return None;
        },
    };
    let ghost g = |x: NodeView| dec_text(x);
    let mut texts: Vec<String> = Vec::new();
    let mut i: usize = 0;
    while i < items.len()
        invariant
            i <= items.len(),
            n@ == NodeView::List(node_views(items@)),
            g == (|x: NodeView| dec_text(x)),
            texts.len() == i,
            forall|j: int| 0 <= j < i ==> dec_text(items@[j]@) == Some(texts@[j]@),
        decreases items.len() - i,
    {
        match items[i].as_text() {
            Some(text) => {
                texts.push(text.clone());
            },
            None => {
                assert(g(node_views(items@)[i as int]) is None);
                return None;
            },
        }
        i += 1;
    }
    proof {
        let views = node_views(items@);
        assert forall|j: int| 0 <= j < views.len() implies (#[trigger] g(views[j])) is Some by {
            assert(views[j] == items@[j]@);
        }
        assert(views.map_values(|x: NodeView| g(x)->0) =~= string_views(texts@));
    }
    Some(texts)
}

fn read_idents(n: &Node) -> (r: Option<Vec<Ident>>)
    ensures
        match r {
            Some(idents) => dec_texts(n@) == Some(key_views(idents@)),
            None => dec_texts(n@) is None,
        },
{
    match read_texts(n) {
        Some(texts) => {
            let mut idents: Vec<Ident> = Vec::new();
            let mut texts = texts;
            let ghost all = string_views(texts@);
            let mut i: usize = 0;
            let n = texts.len();
            while i < n
                invariant
                    i <= n,
                    n == texts.len(),
                    all.len() == n,
                    idents.len() == i,
                    forall|j: int| i <= j < n ==> texts@[j]@ == all[j],
                    forall|j: int| 0 <= j < i ==> idents@[j]@ == all[j],
                decreases n - i,
            {
                let mut name = String::new();
                let ghost before = texts@;
                std::mem::swap(&mut name, &mut texts[i]);
                assert(forall|j: int| 0 <= j < n && j != i ==> texts@[j] == before[j]);
                idents.push(Ident { name });
                i += 1;
            }
            assert(key_views(idents@) =~= all);
            Some(idents)
        },
        None => None,
    }
}

fn write_requirements(r: &Requirements) -> (n: Node)
    ensures
        n@ == enc_requirements(r@),
{
    Node::list2(write_texts(&r.os), write_texts(&r.cpu))
}

fn read_requirements(n: &Node) -> (r: Option<Requirements>)
    ensures
        option_view(r) == dec_requirements(n@),
{
    match n.tuple(2) {
        Some(items) => {
            assert(item(n@, 0) == items@[0]@ && item(n@, 1) == items@[1]@);
            match (read_texts(&items[0]), read_texts(&items[1])) {
                (Some(os), Some(cpu)) => Some(Requirements { os, cpu }),
                _ => None,
            }
        },
        None => None,
    }
}

fn write_peer(p: &PeerRange) -> (n: Node)
    ensures
        n@ == enc_peer(*p),
{
    match p {
        PeerRange::Unconstrained => Node::list1(Node::number(0)),
        PeerRange::Semver(r) => Node::list2(Node::number(1), write_interval(r)),
    }
}

fn read_peer(n: &Node) -> (r: Option<PeerRange>)
    ensures
        r == dec_peer(n@),
{
    match n.tagged() {
        Some((tag, items)) => {
            assert(forall|k: int| 0 <= k < items@.len() ==> item(n@, k) == items@[k]@);
            if tag == 0 && items.len() == 1 {
                Some(PeerRange::Unconstrained)
            } else if tag == 1 && items.len() == 2 {
                match read_interval(&items[1]) {
                    Some(r) => Some(PeerRange::Semver(r)),
                    None => None,
                }
            } else {
                None
            }
        },
        None => None,
    }
}

fn write_dependencies(list: &KeyedList<Ident, Descriptor>) -> (n: Node)
    ensures
        n@ == enc_seq(list.deep(), |d: (Seq<char>, DescriptorView)| enc_dependency(d)),
{
    let mut items: Vec<Node> = Vec::new();
    let mut i: usize = 0;
    while i < list.entries.len()
        invariant
            i <= list.entries.len(),
            items.len() == i,
            forall|j: int| 0 <= j < i ==> items@[j]@ == enc_dependency(list.deep()[j]),
        decreases list.entries.len() - i,
    {
        let entry = &list.entries[i];
        assert(list.deep()[i as int] == (entry.0@, entry.1@));
        items.push(Node::list2(write_ident(&entry.0), write_descriptor(&entry.1)));
        i += 1;
    }
    assert(node_views(items@) =~= list.deep().map_values(
        |d: (Seq<char>, DescriptorView)| enc_dependency(d),
    ));
    Node::list(items)
}

fn read_dependencies(n: &Node) -> (r: Option<KeyedList<Ident, Descriptor>>)
    ensures
        match r {
            Some(list) => dec_seq(n@, |x: NodeView| dec_dependency(x)) == Some(list.deep()),
            None => dec_seq(n@, |x: NodeView| dec_dependency(x)) is None,
        },
{
    let items = match n.items() {
        Some(items) => items,
        None => {
            return None;
        },
    };
    let ghost g = |x: NodeView| dec_dependency(x);
    let mut entries: Vec<(Ident, Descriptor)> = Vec::new();
    let mut i: usize = 0;
    while i < items.len()
        invariant
            i <= items.len(),
            n@ == NodeView::List(node_views(items@)),
            g == (|x: NodeView| dec_dependency(x)),
            entries.len() == i,
            forall|j: int|
                0 <= j < i ==> dec_dependency(items@[j]@) == Some(
                    (entries@[j].0@, entries@[j].1@),
                ),
        decreases items.len() - i,
    {
        let pair = match items[i].tuple(2) {
            Some(pair) => pair,
            None => {
                assert(g(node_views(items@)[i as int]) is None);
                return None;
            },
        };
        assert(item(items@[i as int]@, 0) == pair@[0]@ && item(items@[i as int]@, 1) == pair@[1]@);
        match (pair[0].as_text(), read_descriptor(&pair[1])) {
            (Some(name), Some(descriptor)) => {
                entries.push((Ident { name: name.clone() }, descriptor));
            },
            _ => {
                assert(g(node_views(items@)[i as int]) is None);
                return None;
            },
        }
        i += 1;
    }
    let list = KeyedList { entries };
    proof {
        let views = node_views(items@);
        assert forall|j: int| 0 <= j < views.len() implies (#[trigger] g(views[j])) is Some by {
            assert(views[j] == items@[j]@);
        }
        assert(views.map_values(|x: NodeView| g(x)->0) =~= list.deep());
    }
    Some(list)
}

fn write_peers(list: &KeyedList<Ident, PeerRange>) -> (n: Node)
    ensures
        n@ == enc_seq(list.deep(), |d: (Seq<char>, PeerRange)| enc_peer_dependency(d)),
{
    let mut items: Vec<Node> = Vec::new();
    let mut i: usize = 0;
    while i < list.entries.len()
        invariant
            i <= list.entries.len(),
            items.len() == i,
            forall|j: int| 0 <= j < i ==> items@[j]@ == enc_peer_dependency(list.deep()[j]),
        decreases list.entries.len() - i,
    {
        let entry = &list.entries[i];
        assert(list.deep()[i as int] == (entry.0@, entry.1@));
        items.push(Node::list2(write_ident(&entry.0), write_peer(&entry.1)));
        i += 1;
    }
    assert(node_views(items@) =~= list.deep().map_values(
        |d: (Seq<char>, PeerRange)| enc_peer_dependency(d),
    ));
    Node::list(items)
}

fn read_peers(n: &Node) -> (r: Option<KeyedList<Ident, PeerRange>>)
    ensures
        match r {
            Some(list) => dec_seq(n@, |x: NodeView| dec_peer_dependency(x)) == Some(list.deep()),
            None => dec_seq(n@, |x: NodeView| dec_peer_dependency(x)) is None,
        },
{
    let items = match n.items() {
        Some(items) => items,
        None => {
            return None;
        },
    };
    let ghost g = |x: NodeView| dec_peer_dependency(x);
    let mut entries: Vec<(Ident, PeerRange)> = Vec::new();
    let mut i: usize = 0;
    while i < items.len()
        invariant
            i <= items.len(),
            n@ == NodeView::List(node_views(items@)),
            g == (|x: NodeView| dec_peer_dependency(x)),
            entries.len() == i,
            forall|j: int|
                0 <= j < i ==> dec_peer_dependency(items@[j]@) == Some(
                    (entries@[j].0@, entries@[j].1@),
                ),
        decreases items.len() - i,
    {
        let pair = match items[i].tuple(2) {
            Some(pair) => pair,
            None => {
                assert(g(node_views(items@)[i as int]) is None);
                return None;
            },
        };
        assert(item(items@[i as int]@, 0) == pair@[0]@ && item(items@[i as int]@, 1) == pair@[1]@);
        match (pair[0].as_text(), read_peer(&pair[1])) {
            (Some(name), Some(peer)) => {
                entries.push((Ident { name: name.clone() }, peer));
            },
            _ => {
                assert(g(node_views(items@)[i as int]) is None);
                return None;
            },
        }
        i += 1;
    }
    let list = KeyedList { entries };
    proof {
        let views = node_views(items@);
        assert forall|j: int| 0 <= j < views.len() implies (#[trigger] g(views[j])) is Some by {
            assert(views[j] == items@[j]@);
        }
        assert(views.map_values(|x: NodeView| g(x)->0) =~= list.deep());
    }
    Some(list)
}

fn write_resolution(r: &Resolution) -> (n: Node)
    ensures
        n@ == enc_resolution(r@),
{
    let mut items: Vec<Node> = Vec::new();
    items.push(write_locator(&r.locator));
    items.push(write_version(&r.version));
    items.push(write_requirements(&r.requirements));
    items.push(write_dependencies(&r.dependencies));
    items.push(write_peers(&r.peer_dependencies));
    items.push(write_idents(&r.optional_dependencies));
    items.push(write_idents(&r.missing_peer_dependencies));
    assert(node_views(items@) =~= enc_resolution(r@)->List_0);
    Node::list(items)
}

fn read_resolution(n: &Node) -> (r: Option<Resolution>)
    ensures
        option_view(r) == dec_resolution(n@),
{
    match n.tuple(7) {
        Some(items) => {
            assert(forall|k: int| 0 <= k < 7 ==> item(n@, k) == items@[k]@);
            match (
                read_locator(&items[0]),
                read_version(&items[1]),
                read_requirements(&items[2]),
                read_dependencies(&items[3]),
                read_peers(&items[4]),
                read_idents(&items[5]),
                read_idents(&items[6]),
            ) {
                (
                    Some(locator),
                    Some(version),
                    Some(requirements),
                    Some(dependencies),
                    Some(peer_dependencies),
                    Some(optional_dependencies),
                    Some(missing_peer_dependencies),
                ) => Some(
                    Resolution {
                        locator,
                        version,
                        requirements,
                        dependencies,
                        peer_dependencies,
                        optional_dependencies,
                        missing_peer_dependencies,
                    },
                ),
                _ => None,
            }
        },
        None => None,
    }
}

/// The lockfile as a document.
pub fn encode_lockfile(lockfile: &Lockfile) -> (n: Node)
    ensures
        n@ == enc_lockfile(lockfile@),
{
    let mut resolutions: Vec<Node> = Vec::new();
    let mut i: usize = 0;
    while i < lockfile.resolutions.entries.len()
        invariant
            i <= lockfile.resolutions.entries.len(),
            resolutions.len() == i,
            forall|j: int| 0 <= j < i ==> resolutions@[j]@ == enc_resolved(lockfile@.resolutions[j]),
        decreases lockfile.resolutions.entries.len() - i,
    {
        let entry = &lockfile.resolutions.entries[i];
        assert(lockfile@.resolutions[i as int] == (entry.0@, entry.1@));
        resolutions.push(Node::list2(write_descriptor(&entry.0), write_locator(&entry.1)));
        i += 1;
    }
    let mut entries: Vec<Node> = Vec::new();
    let mut k: usize = 0;
    while k < lockfile.entries.entries.len()
        invariant
            k <= lockfile.entries.entries.len(),
            entries.len() == k,
            forall|j: int| 0 <= j < k ==> entries@[j]@ == enc_entry(lockfile@.entries[j]),
        decreases lockfile.entries.entries.len() - k,
    {
        let entry = &lockfile.entries.entries[k];
        assert(lockfile@.entries[k as int] == (entry.0@, entry.1@));
        entries.push(
            Node::list3(
                write_locator(&entry.0),
                write_opt_text(&entry.1.checksum),
                write_resolution(&entry.1.resolution),
            ),
        );
        k += 1;
    }
    assert(node_views(resolutions@) =~= lockfile@.resolutions.map_values(
        |r: (DescriptorView, LocatorView)| enc_resolved(r),
    ));
    assert(node_views(entries@) =~= lockfile@.entries.map_values(
        |e: (LocatorView, crate::install::LockfileEntryView)| enc_entry(e),
    ));
    Node::list2(Node::list(resolutions), Node::list(entries))
}

fn read_resolutions(n: &Node) -> (r: Option<KeyedList<Descriptor, Locator>>)
    ensures
        match r {
            Some(list) => dec_seq(n@, |x: NodeView| dec_resolved(x)) == Some(list.deep()),
            None => dec_seq(n@, |x: NodeView| dec_resolved(x)) is None,
        },
{
    let items = match n.items() {
        Some(items) => items,
        None => {
            return None;
        },
    };
    let ghost g = |x: NodeView| dec_resolved(x);
    let mut entries: Vec<(Descriptor, Locator)> = Vec::new();
    let mut i: usize = 0;
    while i < items.len()
        invariant
            i <= items.len(),
            n@ == NodeView::List(node_views(items@)),
            g == (|x: NodeView| dec_resolved(x)),
            entries.len() == i,
            forall|j: int|
                0 <= j < i ==> dec_resolved(items@[j]@) == Some((entries@[j].0@, entries@[j].1@)),
        decreases items.len() - i,
    {
        let pair = match items[i].tuple(2) {
            Some(pair) => pair,
            None => {
                assert(g(node_views(items@)[i as int]) is None);
                return None;
            },
        };
        assert(item(items@[i as int]@, 0) == pair@[0]@ && item(items@[i as int]@, 1) == pair@[1]@);
        match (read_descriptor(&pair[0]), read_locator(&pair[1])) {
            (Some(descriptor), Some(locator)) => {
                entries.push((descriptor, locator));
            },
            _ => {
                assert(g(node_views(items@)[i as int]) is None);
                return None;
            },
        }
        i += 1;
    }
    let list = KeyedList { entries };
    proof {
        let views = node_views(items@);
        assert forall|j: int| 0 <= j < views.len() implies (#[trigger] g(views[j])) is Some by {
            assert(views[j] == items@[j]@);
        }
        assert(views.map_values(|x: NodeView| g(x)->0) =~= list.deep());
    }
    Some(list)
}

fn read_entries(n: &Node) -> (r: Option<KeyedList<Locator, LockfileEntry>>)
    ensures
        match r {
            Some(list) => dec_seq(n@, |x: NodeView| dec_entry(x)) == Some(list.deep()),
            None => dec_seq(n@, |x: NodeView| dec_entry(x)) is None,
        },
{
    let items = match n.items() {
        Some(items) => items,
        None => {
            return None;
        },
    };
    let ghost g = |x: NodeView| dec_entry(x);
    let mut entries: Vec<(Locator, LockfileEntry)> = Vec::new();
    let mut i: usize = 0;
    while i < items.len()
        invariant
            i <= items.len(),
            n@ == NodeView::List(node_views(items@)),
            g == (|x: NodeView| dec_entry(x)),
            entries.len() == i,
            forall|j: int|
                0 <= j < i ==> dec_entry(items@[j]@) == Some((entries@[j].0@, entries@[j].1@)),
        decreases items.len() - i,
    {
        let triple = match items[i].tuple(3) {
            Some(triple) => triple,
            None => {
                assert(g(node_views(items@)[i as int]) is None);
                return None;
            },
        };
        assert(forall|k: int| 0 <= k < 3 ==> item(items@[i as int]@, k) == triple@[k]@);
        match (
            read_locator(&triple[0]),
            read_opt_text(&triple[1]),
            read_resolution(&triple[2]),
        ) {
            (Some(locator), Some(checksum), Some(resolution)) => {
                entries.push((locator, LockfileEntry { checksum, resolution }));
            },
            _ => {
                assert(g(node_views(items@)[i as int]) is None);
                return None;
            },
        }
        i += 1;
    }
    let list = KeyedList { entries };
    proof {
        let views = node_views(items@);
        assert forall|j: int| 0 <= j < views.len() implies (#[trigger] g(views[j])) is Some by {
            assert(views[j] == items@[j]@);
        }
        assert(views.map_values(|x: NodeView| g(x)->0) =~= list.deep());
    }
    Some(list)
}

fn is_closed(lockfile: &Lockfile) -> (r: bool)
    requires
        lockfile.resolutions.wf(),
        lockfile.entries.wf(),
    ensures
        r == lockfile.wf(),
{
    let mut i: usize = 0;
    while i < lockfile.resolutions.entries.len()
        invariant
            i <= lockfile.resolutions.entries.len(),
            lockfile.resolutions.wf(),
            forall|j: int|
                0 <= j < i ==> lockfile.entries.map().contains_key(
                    (#[trigger] lockfile.resolutions.entries@[j]).1@,
                ),
        decreases lockfile.resolutions.entries.len() - i,
    {
        if !lockfile.entries.contains(&lockfile.resolutions.entries[i].1) {
            proof {
                lockfile.resolutions.lemma_entry(i as int);
            }
            return false;
        }
        i += 1;
    }
    assert forall|d: DescriptorView| #[trigger]
        lockfile.resolutions.map().contains_key(d) implies lockfile.entries.map().contains_key(
        lockfile.resolutions.map()[d]@,
    ) by {
        let j = lockfile.resolutions.keys().index_of(d);
        assert(lockfile.resolutions.keys()[j] == d);
        lockfile.resolutions.lemma_entry(j);
    }
    true
}

/// Whether the lists name nothing twice and every package that a
/// requirement resolved to has its entry.
pub open spec fn spec_sound(l: LockfileView) -> bool {
    &&& crate::keyed::distinct_keys(l.resolutions)
    &&& crate::keyed::distinct_keys(l.entries)
    &&& forall|i: int|
        0 <= i < l.resolutions.len() ==> crate::keyed::has_key(
            l.entries,
            (#[trigger] l.resolutions[i]).1,
        )
}

/// The lockfile that a document writes. A document that writes none, or
/// one that names a requirement or a package twice or lacks the entry of a
/// resolved package, is refused as corrupt.
pub fn decode_lockfile(n: &Node) -> (r: Result<Lockfile, Error>)
    ensures
        match r {
            Ok(lockfile) => dec_lockfile(n@) == Some(lockfile@) && lockfile.wf(),
            Err(e) => e@ == (ErrorKind::SerializationError, Seq::<char>::empty()) && (dec_lockfile(
                n@,
            ) matches Some(l) ==> !spec_sound(l)),
        },
{
    let items = match n.tuple(2) {
        Some(items) => items,
        None => {
            return Err(Error::bare(ErrorKind::SerializationError));
        },
    };
    assert(item(n@, 0) == items@[0]@ && item(n@, 1) == items@[1]@);
    match (read_resolutions(&items[0]), read_entries(&items[1])) {
        (Some(resolutions), Some(entries)) => {
            let lockfile = Lockfile { resolutions, entries };
            proof {
                lockfile.resolutions.lemma_deep();
                lockfile.entries.lemma_deep();
            }
            if !crate::install::has_distinct_keys(&lockfile.resolutions)
                || !crate::install::has_distinct_keys(&lockfile.entries) {
                return Err(Error::bare(ErrorKind::SerializationError));
            }
            if !is_closed(&lockfile) {
                proof {
                    if spec_sound(lockfile@) {
                        assert forall|d: DescriptorView| #[trigger]
                            lockfile.resolutions.map().contains_key(
                                d,
                            ) implies lockfile.entries.map().contains_key(
                            lockfile.resolutions.map()[d]@,
                        ) by {
                            let j = lockfile.resolutions.keys().index_of(d);
                            assert(lockfile.resolutions.keys()[j] == d);
                            lockfile.resolutions.lemma_entry(j);
                            assert(lockfile@.resolutions[j].1
                                == lockfile.resolutions.entries@[j].1@);
                        }
                    }
                }
                return Err(Error::bare(ErrorKind::SerializationError));
            }
            Ok(lockfile)
        },
        _ => Err(Error::bare(ErrorKind::SerializationError)),
    }
}

/// Reading back what was written of a sound lockfile gives a lockfile with
/// the same content.
pub fn reread(lockfile: &Lockfile) -> (r: Result<Lockfile, Error>)
    requires
        lockfile.wf(),
    ensures
        r matches Ok(back) && back@ == lockfile@ && back.wf(),
{
    let node = encode_lockfile(lockfile);
    proof {
        crate::lockfile_model::law_lockfile_round_trip(lockfile@);
        lockfile.resolutions.lemma_deep();
        lockfile.entries.lemma_deep();
        assert(spec_sound(lockfile@)) by {
            assert forall|i: int| 0 <= i < lockfile@.resolutions.len() implies crate::keyed::has_key(
                lockfile@.entries,
                (#[trigger] lockfile@.resolutions[i]).1,
            ) by {
                lockfile.resolutions.lemma_entry(i);
            }
        }
    }
    decode_lockfile(&node)
}

} // verus!

//! The names a package manager works with: the name of a package, a
//! requirement on one, and the identity of one that was resolved.
use crate::encoding::{encode, url_encoded};
use crate::git::{
    is_git_url, spec_is_git_url, GitRange, GitRangeView, GitReference, GitReferenceView,
};
use crate::keyed::{Duplicate, Key};
use crate::semver;
use crate::semver::Version;
use crate::text::{
    append_str,
    chars_of,
    find,
    first_index,
    has_prefix,
    slice,
    starts_with,
    string_of,
};
use vstd::prelude::*;

verus! {

/// The name of a package, with its scope where it has one: `name` or
/// `@scope/name`.
#[derive(Debug)]
pub struct Ident {
    pub name: String,
}

impl View for Ident {
    type V = Seq<char>;

    open spec fn view(&self) -> Seq<char> {
        self.name@
    }
}

impl Duplicate for Ident {
    fn duplicate(&self) -> (copy: Self) {
        Ident { name: self.name.clone() }
    }
}

impl Key for Ident {
    fn same(&self, other: &Self) -> (same: bool) {
        self.name == other.name
    }
}

impl Ident {
    pub fn new(name: &str) -> (ident: Ident)
        ensures
            ident@ == name@,
    {
        let chars = chars_of(name);
        Ident { name: string_of(&chars) }
    }

    pub fn as_str(&self) -> (name: &str)
        ensures
            name@ == self@,
    {
        self.name.as_str()
    }

    /// The name without its scope.
    pub open spec fn spec_name(ident: Seq<char>) -> Seq<char> {
        match first_index(ident, '/') {
            Some(slash) => ident.skip(slash + 1),
            None => ident,
        }
    }

    pub fn name(&self) -> (name: String)
        ensures
            name@ == Self::spec_name(self@),
    {
        let chars = chars_of(self.name.as_str());
        match find(&chars, '/') {
            Some(slash) => {
                let rest = slice(&chars, slash + 1, chars.len());
                assert(rest@ =~= self@.skip(slash + 1));
                string_of(&rest)
            },
            None => string_of(&chars),
        }
    }
}

/// What a resolved package is: where its content comes from.
#[derive(Debug)]
pub enum Reference {
    /// A version on the registry.
    Semver(Version),
    /// A version of another package on the registry, under this name.
    SemverAlias(Ident, Version),
    /// A commit of a repository.
    Git(GitReference),
    /// A directory next to the parent, used where it lies.
    Link(String),
    /// A directory next to the parent, whose dependencies count.
    Portal(String),
    /// An archive next to the parent.
    Tarball(String),
    /// A directory next to the parent, packed like an archive.
    Folder(String),
    /// An archive at an address.
    Url(String),
    /// Another package, named by its percent-encoded text, with a patch
    /// file applied.
    Patch(String, String),
    /// A workspace of the project.
    Workspace(Ident),
}

pub enum ReferenceView {
    Semver(Version),
    SemverAlias(Seq<char>, Version),
    Git(GitReferenceView),
    Link(Seq<char>),
    Portal(Seq<char>),
    Tarball(Seq<char>),
    Folder(Seq<char>),
    Url(Seq<char>),
    Patch(Seq<char>, Seq<char>),
    Workspace(Seq<char>),
}

impl View for Reference {
    type V = ReferenceView;

    open spec fn view(&self) -> ReferenceView {
        match self {
            Reference::Semver(v) => ReferenceView::Semver(*v),
            Reference::SemverAlias(i, v) => ReferenceView::SemverAlias(i@, *v),
            Reference::Git(g) => ReferenceView::Git(g@),
            Reference::Link(p) => ReferenceView::Link(p@),
            Reference::Portal(p) => ReferenceView::Portal(p@),
            Reference::Tarball(p) => ReferenceView::Tarball(p@),
            Reference::Folder(p) => ReferenceView::Folder(p@),
            Reference::Url(u) => ReferenceView::Url(u@),
            Reference::Patch(inner, p) => ReferenceView::Patch(inner@, p@),
            Reference::Workspace(i) => ReferenceView::Workspace(i@),
        }
    }
}

impl Duplicate for Reference {
    fn duplicate(&self) -> (copy: Self) {
        match self {
            Reference::Semver(v) => Reference::Semver(*v),
            Reference::SemverAlias(i, v) => Reference::SemverAlias(i.duplicate(), *v),
            Reference::Git(g) => Reference::Git(g.duplicate()),
            Reference::Link(p) => Reference::Link(p.clone()),
            Reference::Portal(p) => Reference::Portal(p.clone()),
            Reference::Tarball(p) => Reference::Tarball(p.clone()),
            Reference::Folder(p) => Reference::Folder(p.clone()),
            Reference::Url(u) => Reference::Url(u.clone()),
            Reference::Patch(inner, p) => Reference::Patch(inner.clone(), p.clone()),
            Reference::Workspace(i) => Reference::Workspace(i.duplicate()),
        }
    }
}

impl Key for Reference {
    fn same(&self, other: &Self) -> (same: bool) {
        match (self, other) {
            (Reference::Semver(a), Reference::Semver(b)) => *a == *b,
            (Reference::SemverAlias(i, a), Reference::SemverAlias(j, b)) => i.same(j) && *a == *b,
            (Reference::Git(a), Reference::Git(b)) => a.same(b),
            (Reference::Link(a), Reference::Link(b)) => *a == *b,
            (Reference::Portal(a), Reference::Portal(b)) => *a == *b,
            (Reference::Tarball(a), Reference::Tarball(b)) => *a == *b,
            (Reference::Folder(a), Reference::Folder(b)) => *a == *b,
            (Reference::Url(a), Reference::Url(b)) => *a == *b,
            (Reference::Patch(i, a), Reference::Patch(j, b)) => *i == *j && *a == *b,
            (Reference::Workspace(a), Reference::Workspace(b)) => a.same(b),
            _ => false,
        }
    }
}

/// The identity of a resolved package: its name, its reference, and, where
/// the reference is relative, the package it is relative to.
#[derive(Debug)]
pub struct Locator {
    pub ident: Ident,
    pub reference: Reference,
    pub parent: Option<Box<Locator>>,
}

pub struct LocatorView {
    pub ident: Seq<char>,
    pub reference: ReferenceView,
    pub parent: Option<Box<LocatorView>>,
}

/// The view of a locator, parent by parent.
pub open spec fn locator_view(locator: Locator) -> LocatorView
    decreases locator,
{
    LocatorView {
        ident: locator.ident@,
        reference: locator.reference@,
        parent: match locator.parent {
            Some(parent) => Some(Box::new(locator_view(*parent))),
            None => None,
        },
    }
}

impl View for Locator {
    type V = LocatorView;

    open spec fn view(&self) -> LocatorView {
        locator_view(*self)
    }
}

/// How many packages a locator hangs off: none for one without a parent.
pub open spec fn locator_depth(locator: LocatorView) -> nat
    decreases locator,
{
    match locator.parent {
        Some(parent) => 1 + locator_depth(*parent),
        None => 0,
    }
}

fn copy_locator(locator: &Locator) -> (copy: Locator)
    ensures
        locator_view(copy) == locator_view(*locator),
    decreases locator,
{
    Locator {
        ident: locator.ident.duplicate(),
        reference: locator.reference.duplicate(),
        parent: match &locator.parent {
            Some(parent) => Some(Box::new(copy_locator(parent))),
            None => None,
        },
    }
}

fn same_locator(a: &Locator, b: &Locator) -> (same: bool)
    ensures
        same == (locator_view(*a) == locator_view(*b)),
    decreases a,
{
    if !a.ident.same(&b.ident) || !a.reference.same(&b.reference) {
        return false;
    }
    match (&a.parent, &b.parent) {
        (Some(x), Some(y)) => same_locator(x, y),
        (None, None) => true,
        _ => false,
    }
}

impl Duplicate for Locator {
    fn duplicate(&self) -> (copy: Self) {
        copy_locator(self)
    }
}

impl Key for Locator {
    fn same(&self, other: &Self) -> (same: bool) {
        same_locator(self, other)
    }
}

impl Reference {
    /// The reference as text, behind the protocol that tells its kind.
    pub open spec fn spec_text(reference: ReferenceView) -> Seq<char> {
        match reference {
            ReferenceView::Semver(v) => "npm:"@ + v.spec_text(),
            ReferenceView::SemverAlias(i, v) => "npm:"@ + i + "@"@ + v.spec_text(),
            ReferenceView::Git(g) => "git:"@ + GitReference::spec_text(g),
            ReferenceView::Link(p) => "link:"@ + p,
            ReferenceView::Portal(p) => "portal:"@ + p,
            ReferenceView::Tarball(p) => "file:"@ + p,
            ReferenceView::Folder(p) => "folder:"@ + p,
            ReferenceView::Url(u) => u,
            ReferenceView::Patch(inner, p) => "patch:"@ + inner + "#"@ + p,
            ReferenceView::Workspace(i) => "workspace:"@ + i,
        }
    }

    pub fn push_text(&self, out: &mut Vec<char>)
        ensures
            final(out)@ == old(out)@ + Self::spec_text(self@),
    {
        match self {
            Reference::Semver(v) => {
                append_str(out, "npm:");
                v.push_to(out);
            },
            Reference::SemverAlias(i, v) => {
                append_str(out, "npm:");
                append_str(out, i.as_str());
                append_str(out, "@");
                v.push_to(out);
            },
            Reference::Git(g) => {
                append_str(out, "git:");
                g.push_text(out);
            },
            Reference::Link(p) => {
                append_str(out, "link:");
                append_str(out, p.as_str());
            },
            Reference::Portal(p) => {
                append_str(out, "portal:");
                append_str(out, p.as_str());
            },
            Reference::Tarball(p) => {
                append_str(out, "file:");
                append_str(out, p.as_str());
            },
            Reference::Folder(p) => {
                append_str(out, "folder:");
                append_str(out, p.as_str());
            },
            Reference::Url(u) => {
                append_str(out, u.as_str());
            },
            Reference::Patch(inner, p) => {
                append_str(out, "patch:");
                append_str(out, inner.as_str());
                append_str(out, "#");
                append_str(out, p.as_str());
            },
            Reference::Workspace(i) => {
                append_str(out, "workspace:");
                append_str(out, i.as_str());
            },
        }
        assert(out@ =~= old(out)@ + Self::spec_text(self@));
    }

    /// Whether the content lies in a directory that is used where it is.
    pub open spec fn spec_is_local(reference: ReferenceView) -> bool {
        reference is Link || reference is Portal || reference is Workspace
    }
}

/// The locator as text: name, `@`, reference, and the parent, if any,
/// percent-encoded behind `::parent=`.
pub open spec fn locator_text(locator: LocatorView) -> Seq<char>
    decreases locator,
{
    locator.ident + "@"@ + Reference::spec_text(locator.reference) + match locator.parent {
        Some(parent) => "::parent="@ + url_encoded(locator_text(*parent)),
        None => Seq::<char>::empty(),
    }
}

fn write_locator(locator: &Locator) -> (text: String)
    ensures
        text@ == locator_text(locator_view(*locator)),
    decreases locator,
{
    let mut out: Vec<char> = Vec::new();
    append_str(&mut out, locator.ident.as_str());
    append_str(&mut out, "@");
    locator.reference.push_text(&mut out);
    match &locator.parent {
        Some(parent) => {
            let inner = write_locator(parent);
            let encoded = encode(inner.as_str());
            append_str(&mut out, "::parent=");
            append_str(&mut out, encoded.as_str());
        },
        None => {},
    }
    assert(out@ =~= locator_text(locator_view(*locator)));
    string_of(&out)
}

impl Locator {
    /// A locator that hangs off nothing.
    pub fn new(ident: Ident, reference: Reference) -> (locator: Locator)
        ensures
            locator@ == (LocatorView { ident: ident@, reference: reference@, parent: None }),
    {
        Locator { ident, reference, parent: None }
    }

    /// A locator relative to `parent`, where there is one.
    pub fn new_bound(ident: Ident, reference: Reference, parent: Option<Locator>) -> (locator:
        Locator)
        ensures
            locator@ == (LocatorView {
                ident: ident@,
                reference: reference@,
                parent: match parent {
                    Some(p) => Some(Box::new(p@)),
                    None => None,
                },
            }),
    {
        Locator {
            ident,
            reference,
            parent: match parent {
                Some(p) => Some(Box::new(p)),
                None => None,
            },
        }
    }

    pub fn to_file_string(&self) -> (text: String)
        ensures
            text@ == locator_text(self@),
    {
        write_locator(self)
    }

    /// The parent, where the locator hangs off one.
    pub fn parent(&self) -> (parent: Option<Locator>)
        ensures
            match parent {
                Some(p) => self@.parent == Some(Box::new(p@)),
                None => self@.parent is None,
            },
    {
        match &self.parent {
            Some(p) => Some(copy_locator(p)),
            None => None,
        }
    }
}

/// Which versions of a package a requirement accepts, or where else its
/// content is to come from.
#[derive(Debug)]
pub enum Range {
    /// A range of versions on the registry.
    Semver(semver::Range),
    /// A range of versions of another package on the registry.
    SemverAlias(Ident, semver::Range),
    /// A tag that the registry keeps, such as `latest`.
    SemverTag(String),
    Git(GitRange),
    Link(String),
    Portal(String),
    Tarball(String),
    Folder(String),
    /// A package of the registry, by name and range, with the patch file at
    /// the path applied.
    Patch(Ident, semver::Range, String),
    Url(String),
    /// The workspace of that name.
    WorkspaceIdent(Ident),
    /// The workspace at that path, relative to the project.
    WorkspacePath(String),
}

pub enum RangeView {
    Semver(semver::Range),
    SemverAlias(Seq<char>, semver::Range),
    SemverTag(Seq<char>),
    Git(GitRangeView),
    Link(Seq<char>),
    Portal(Seq<char>),
    Tarball(Seq<char>),
    Folder(Seq<char>),
    Patch(Seq<char>, semver::Range, Seq<char>),
    Url(Seq<char>),
    WorkspaceIdent(Seq<char>),
    WorkspacePath(Seq<char>),
}

impl View for Range {
    type V = RangeView;

    open spec fn view(&self) -> RangeView {
        match self {
            Range::Semver(r) => RangeView::Semver(*r),
            Range::SemverAlias(i, r) => RangeView::SemverAlias(i@, *r),
            Range::SemverTag(t) => RangeView::SemverTag(t@),
            Range::Git(g) => RangeView::Git(g@),
            Range::Link(p) => RangeView::Link(p@),
            Range::Portal(p) => RangeView::Portal(p@),
            Range::Tarball(p) => RangeView::Tarball(p@),
            Range::Folder(p) => RangeView::Folder(p@),
            Range::Patch(i, r, p) => RangeView::Patch(i@, *r, p@),
            Range::Url(u) => RangeView::Url(u@),
            Range::WorkspaceIdent(i) => RangeView::WorkspaceIdent(i@),
            Range::WorkspacePath(p) => RangeView::WorkspacePath(p@),
        }
    }
}

impl Duplicate for Range {
    fn duplicate(&self) -> (copy: Self) {
        match self {
            Range::Semver(r) => Range::Semver(*r),
            Range::SemverAlias(i, r) => Range::SemverAlias(i.duplicate(), *r),
            Range::SemverTag(t) => Range::SemverTag(t.clone()),
            Range::Git(g) => Range::Git(g.duplicate()),
            Range::Link(p) => Range::Link(p.clone()),
            Range::Portal(p) => Range::Portal(p.clone()),
            Range::Tarball(p) => Range::Tarball(p.clone()),
            Range::Folder(p) => Range::Folder(p.clone()),
            Range::Patch(i, r, p) => Range::Patch(i.duplicate(), *r, p.clone()),
            Range::Url(u) => Range::Url(u.clone()),
            Range::WorkspaceIdent(i) => Range::WorkspaceIdent(i.duplicate()),
            Range::WorkspacePath(p) => Range::WorkspacePath(p.clone()),
        }
    }
}

impl Key for Range {
    fn same(&self, other: &Self) -> (same: bool) {
        match (self, other) {
            (Range::Semver(a), Range::Semver(b)) => *a == *b,
            (Range::SemverAlias(i, a), Range::SemverAlias(j, b)) => i.same(j) && *a == *b,
            (Range::SemverTag(a), Range::SemverTag(b)) => *a == *b,
            (Range::Git(a), Range::Git(b)) => a.same(b),
            (Range::Link(a), Range::Link(b)) => *a == *b,
            (Range::Portal(a), Range::Portal(b)) => *a == *b,
            (Range::Tarball(a), Range::Tarball(b)) => *a == *b,
            (Range::Folder(a), Range::Folder(b)) => *a == *b,
            (Range::Patch(i, a, p), Range::Patch(j, b, q)) => i.same(j) && *a == *b && *p == *q,
            (Range::Url(a), Range::Url(b)) => *a == *b,
            (Range::WorkspaceIdent(a), Range::WorkspaceIdent(b)) => a.same(b),
            (Range::WorkspacePath(a), Range::WorkspacePath(b)) => *a == *b,
            _ => false,
        }
    }
}

impl Range {
    /// Whether the range only means something next to the package that
    /// declares it: a path is relative to that package.
    pub open spec fn spec_must_bind(range: RangeView) -> bool {
        range is Link || range is Portal || range is Tarball || range is Folder || range is Patch
    }

    pub fn must_bind(&self) -> (r: bool)
        ensures
            r == Self::spec_must_bind(self@),
    {
        match self {
            Range::Link(_) => true,
            Range::Portal(_) => true,
            Range::Tarball(_) => true,
            Range::Folder(_) => true,
            Range::Patch(_, _, _) => true,
            _ => false,
        }
    }

    /// The range as text, behind the protocol that tells its kind.
    pub open spec fn spec_text(range: RangeView) -> Seq<char> {
        match range {
            RangeView::Semver(r) => "npm:"@ + r.spec_text(),
            RangeView::SemverAlias(i, r) => "npm:"@ + i + "@"@ + r.spec_text(),
            RangeView::SemverTag(t) => "npm:"@ + t,
            RangeView::Git(g) => "git:"@ + GitRange::spec_text(g),
            RangeView::Link(p) => "link:"@ + p,
            RangeView::Portal(p) => "portal:"@ + p,
            RangeView::Tarball(p) => "file:"@ + p,
            RangeView::Folder(p) => "folder:"@ + p,
            RangeView::Patch(i, r, p) => "patch:"@ + i + "@npm:"@ + r.spec_text() + "#"@ + p,
            RangeView::Url(u) => u,
            RangeView::WorkspaceIdent(i) => "workspace:"@ + i,
            RangeView::WorkspacePath(p) => "workspace:"@ + p,
        }
    }

    pub fn push_text(&self, out: &mut Vec<char>)
        ensures
            final(out)@ == old(out)@ + Self::spec_text(self@),
    {
        match self {
            Range::Semver(r) => {
                append_str(out, "npm:");
                r.push_to(out);
            },
            Range::SemverAlias(i, r) => {
                append_str(out, "npm:");
                append_str(out, i.as_str());
                append_str(out, "@");
                r.push_to(out);
            },
            Range::SemverTag(t) => {
                append_str(out, "npm:");
                append_str(out, t.as_str());
            },
            Range::Git(g) => {
                append_str(out, "git:");
                g.push_text(out);
            },
            Range::Link(p) => {
                append_str(out, "link:");
                append_str(out, p.as_str());
            },
            Range::Portal(p) => {
                append_str(out, "portal:");
                append_str(out, p.as_str());
            },
            Range::Tarball(p) => {
                append_str(out, "file:");
                append_str(out, p.as_str());
            },
            Range::Folder(p) => {
                append_str(out, "folder:");
                append_str(out, p.as_str());
            },
            Range::Patch(i, r, p) => {
                append_str(out, "patch:");
                append_str(out, i.as_str());
                append_str(out, "@npm:");
                r.push_to(out);
                append_str(out, "#");
                append_str(out, p.as_str());
            },
            Range::Url(u) => {
                append_str(out, u.as_str());
            },
            Range::WorkspaceIdent(i) => {
                append_str(out, "workspace:");
                append_str(out, i.as_str());
            },
            Range::WorkspacePath(p) => {
                append_str(out, "workspace:");
                append_str(out, p.as_str());
            },
        }
        assert(out@ =~= old(out)@ + Self::spec_text(self@));
    }

    pub fn to_file_string(&self) -> (text: String)
        ensures
            text@ == Self::spec_text(self@),
    {
        let mut out: Vec<char> = Vec::new();
        self.push_text(&mut out);
        assert(out@ =~= Self::spec_text(self@));
        string_of(&out)
    }
}

/// A requirement: some version of a package, and, where its range is
/// relative, the package it is relative to.
#[derive(Debug)]
pub struct Descriptor {
    pub ident: Ident,
    pub range: Range,
    pub parent: Option<Locator>,
}

pub struct DescriptorView {
    pub ident: Seq<char>,
    pub range: RangeView,
    pub parent: Option<LocatorView>,
}

impl View for Descriptor {
    type V = DescriptorView;

    open spec fn view(&self) -> DescriptorView {
        DescriptorView {
            ident: self.ident@,
            range: self.range@,
            parent: crate::keyed::option_view(self.parent),
        }
    }
}

impl Duplicate for Descriptor {
    fn duplicate(&self) -> (copy: Self) {
        Descriptor {
            ident: self.ident.duplicate(),
            range: self.range.duplicate(),
            parent: crate::keyed::duplicate_option(&self.parent),
        }
    }
}

impl Key for Descriptor {
    fn same(&self, other: &Self) -> (same: bool) {
        self.ident.same(&other.ident) && self.range.same(&other.range)
            && crate::keyed::same_option(&self.parent, &other.parent)
    }
}

impl Descriptor {
    pub fn new(ident: Ident, range: Range) -> (descriptor: Descriptor)
        ensures
            descriptor@ == (DescriptorView { ident: ident@, range: range@, parent: None }),
    {
        Descriptor { ident, range, parent: None }
    }

    pub fn new_bound(ident: Ident, range: Range, parent: Option<Locator>) -> (descriptor:
        Descriptor)
        ensures
            descriptor@ == (DescriptorView {
                ident: ident@,
                range: range@,
                parent: crate::keyed::option_view(parent),
            }),
    {
        Descriptor { ident, range, parent }
    }

    /// A requirement on the registry, its range given as text; `None` where
    /// the text is no range.
    pub fn new_semver(ident: Ident, range: &str) -> (descriptor: Option<Descriptor>)
        ensures
            match descriptor {
                Some(d) => semver::Range::spec_parse(range@) is Some && d@ == (DescriptorView {
                    ident: ident@,
                    range: RangeView::Semver(semver::Range::spec_parse(range@)->0),
                    parent: None,
                }),
                None => semver::Range::spec_parse(range@) is None,
            },
    {
        match semver::Range::from_file_string(range) {
            Some(r) => Some(Descriptor { ident, range: Range::Semver(r), parent: None }),
            None => None,
        }
    }

    /// The requirement as text: name, `@`, range, and the parent, if any,
    /// percent-encoded behind `::parent=`.
    pub open spec fn spec_text(descriptor: DescriptorView) -> Seq<char> {
        descriptor.ident + "@"@ + Range::spec_text(descriptor.range) + match descriptor.parent {
            Some(parent) => "::parent="@ + url_encoded(locator_text(parent)),
            None => Seq::<char>::empty(),
        }
    }

    pub fn to_file_string(&self) -> (text: String)
        ensures
            text@ == Self::spec_text(self@),
    {
        let mut out: Vec<char> = Vec::new();
        append_str(&mut out, self.ident.as_str());
        append_str(&mut out, "@");
        self.range.push_text(&mut out);
        match &self.parent {
            Some(parent) => {
                let inner = parent.to_file_string();
                let encoded = encode(inner.as_str());
                append_str(&mut out, "::parent=");
                append_str(&mut out, encoded.as_str());
            },
            None => {},
        }
        assert(out@ =~= Self::spec_text(self@));
        string_of(&out)
    }
}

/// The position of the `@` that parts a name from what follows it: the
/// first one behind the first character, which may itself be the `@` of a
/// scope.
pub open spec fn spec_at_sign(text: Seq<char>) -> Option<int> {
    if text.len() == 0 {
        None
    } else {
        match first_index(text.skip(1), '@') {
            Some(i) => Some(i + 1),
            None => None,
        }
    }
}

fn at_sign(text: &Vec<char>) -> (r: Option<usize>)
    ensures
        match r {
            Some(i) => spec_at_sign(text@) == Some(i as int) && 1 <= i < text.len(),
            None => spec_at_sign(text@) is None,
        },
{
    if text.len() == 0 {
        return None;
    }
    let tail = slice(text, 1, text.len());
    assert(tail@ =~= text@.skip(1));
    match find(&tail, '@') {
        Some(i) => Some(i + 1),
        None => None,
    }
}

/// What stands behind `npm:`: a range of versions, a range of versions of
/// another package behind its name and `@`, or else a tag.
pub open spec fn spec_registry_range(text: Seq<char>) -> RangeView {
    match semver::Range::spec_parse(text) {
        Some(range) => RangeView::Semver(range),
        None => match spec_at_sign(text) {
            Some(at) => match semver::Range::spec_parse(text.skip(at + 1)) {
                Some(range) => RangeView::SemverAlias(text.take(at), range),
                None => RangeView::SemverTag(text),
            },
            None => RangeView::SemverTag(text),
        },
    }
}

/// What stands behind `patch:`: a name, `@npm:`, a range of versions, `#`
/// and the path of the patch file.
pub open spec fn spec_patch_range(text: Seq<char>) -> Option<RangeView> {
    match first_index(text, '#') {
        None => None,
        Some(hash) => {
            let target = text.take(hash);
            match spec_at_sign(target) {
                None => None,
                Some(at) => if starts_with(target.skip(at + 1), "npm:"@) {
                    match semver::Range::spec_parse(target.skip(at + 1).skip(4)) {
                        Some(range) => Some(
                            RangeView::Patch(target.take(at), range, text.skip(hash + 1)),
                        ),
                        None => None,
                    }
                } else {
                    None
                },
            }
        },
    }
}

/// A workspace is named where the text starts with the `@` of a scope or
/// holds no `/`, and given by its path otherwise.
pub open spec fn spec_workspace_range(text: Seq<char>) -> RangeView {
    if (text.len() > 0 && text[0] == '@') || first_index(text, '/') is None {
        RangeView::WorkspaceIdent(text)
    } else {
        RangeView::WorkspacePath(text)
    }
}

/// The range that a text of a manifest writes. The protocol in front says
/// what it is; without one, the address of a repository is that, another
/// address is an archive, and anything else is for the registry. `None`
/// where the text is that of a repository or a patch and cannot be read.
pub open spec fn spec_parse_range(text: Seq<char>) -> Option<RangeView> {
    if starts_with(text, "npm:"@) {
        Some(spec_registry_range(text.skip(4)))
    } else if starts_with(text, "link:"@) {
        Some(RangeView::Link(text.skip(5)))
    } else if starts_with(text, "portal:"@) {
        Some(RangeView::Portal(text.skip(7)))
    } else if starts_with(text, "file:"@) {
        Some(RangeView::Tarball(text.skip(5)))
    } else if starts_with(text, "folder:"@) {
        Some(RangeView::Folder(text.skip(7)))
    } else if starts_with(text, "workspace:"@) {
        Some(spec_workspace_range(text.skip(10)))
    } else if starts_with(text, "patch:"@) {
        spec_patch_range(text.skip(6))
    } else if starts_with(text, "git:"@) {
        match GitRange::spec_from_file_string(text.skip(4)) {
            Ok(range) => Some(RangeView::Git(range)),
            Err(_) => None,
        }
    } else if spec_is_git_url(text) {
        match GitRange::spec_from_file_string(text) {
            Ok(range) => Some(RangeView::Git(range)),
            Err(_) => None,
        }
    } else if starts_with(text, "https://"@) || starts_with(text, "http://"@) {
        Some(RangeView::Url(text))
    } else {
        Some(spec_registry_range(text))
    }
}

fn rest_of(text: &Vec<char>, from: usize) -> (rest: Vec<char>)
    requires
        from <= text.len(),
    ensures
        rest@ == text@.skip(from as int),
{
    let rest = slice(text, from, text.len());
    assert(rest@ =~= text@.skip(from as int));
    rest
}

fn registry_range(text: &Vec<char>) -> (r: Range)
    ensures
        r@ == spec_registry_range(text@),
{
    match semver::Range::parse_chars(text) {
        Some(range) => Range::Semver(range),
        None => match at_sign(text) {
            Some(at) => {
                let tail = rest_of(text, at + 1);
                match semver::Range::parse_chars(&tail) {
                    Some(range) => {
                        let name = slice(text, 0, at);
                        assert(name@ =~= text@.take(at as int));
                        Range::SemverAlias(Ident { name: string_of(&name) }, range)
                    },
                    None => Range::SemverTag(string_of(text)),
                }
            },
            None => Range::SemverTag(string_of(text)),
        },
    }
}

fn patch_range(text: &Vec<char>) -> (r: Option<Range>)
    ensures
        crate::keyed::option_view(r) == spec_patch_range(text@),
{
    let hash = match find(text, '#') {
        Some(hash) => hash,
        None => {
            return None;
        },
    };
    let target = slice(text, 0, hash);
    assert(target@ =~= text@.take(hash as int));
    let at = match at_sign(&target) {
        Some(at) => at,
        None => {
            return None;
        },
    };
    let behind = rest_of(&target, at + 1);
    if !has_prefix(&behind, "npm:") {
        return None;
    }
    proof {
        reveal_strlit("npm:");
    }
    let range_text = rest_of(&behind, 4);
    match semver::Range::parse_chars(&range_text) {
        Some(range) => {
            let name = slice(&target, 0, at);
            assert(name@ =~= target@.take(at as int));
            let path = rest_of(text, hash + 1);
            Some(Range::Patch(Ident { name: string_of(&name) }, range, string_of(&path)))
        },
        None => None,
    }
}

fn git_range(text: &Vec<char>) -> (r: Option<Range>)
    ensures
        crate::keyed::option_view(r) == (match GitRange::spec_from_file_string(text@) {
            Ok(range) => Some(RangeView::Git(range)),
            Err(_) => None,
        }),
{
    let s = string_of(text);
    match GitRange::from_file_string(s.as_str()) {
        Ok(range) => Some(Range::Git(range)),
        Err(_) => None,
    }
}

impl Range {
    /// Reads the range of a requirement as a manifest writes it.
    pub fn from_file_string(text: &str) -> (r: Option<Range>)
        ensures
            crate::keyed::option_view(r) == spec_parse_range(text@),
    {
        let chars = chars_of(text);
        proof {
            reveal_strlit("npm:");
            reveal_strlit("link:");
            reveal_strlit("portal:");
            reveal_strlit("file:");
            reveal_strlit("folder:");
            reveal_strlit("workspace:");
            reveal_strlit("patch:");
            reveal_strlit("git:");
        }
        if has_prefix(&chars, "npm:") {
            Some(registry_range(&rest_of(&chars, 4)))
        } else if has_prefix(&chars, "link:") {
            Some(Range::Link(string_of(&rest_of(&chars, 5))))
        } else if has_prefix(&chars, "portal:") {
            Some(Range::Portal(string_of(&rest_of(&chars, 7))))
        } else if has_prefix(&chars, "file:") {
            Some(Range::Tarball(string_of(&rest_of(&chars, 5))))
        } else if has_prefix(&chars, "folder:") {
            Some(Range::Folder(string_of(&rest_of(&chars, 7))))
        } else if has_prefix(&chars, "workspace:") {
            let rest = rest_of(&chars, 10);
            let named = (rest.len() > 0 && rest[0] == '@') || find(&rest, '/').is_none();
            if named {
                Some(Range::WorkspaceIdent(Ident { name: string_of(&rest) }))
            } else {
                Some(Range::WorkspacePath(string_of(&rest)))
            }
        } else if has_prefix(&chars, "patch:") {
            patch_range(&rest_of(&chars, 6))
        } else if has_prefix(&chars, "git:") {
            git_range(&rest_of(&chars, 4))
        } else if is_git_url(text) {
            git_range(&chars)
        } else if has_prefix(&chars, "https://") || has_prefix(&chars, "http://") {
            Some(Range::Url(string_of(&chars)))
        } else {
            Some(registry_range(&chars))
        }
    }
}

impl Descriptor {
    /// The requirement on the package `name` that a text of a manifest
    /// writes.
    pub fn from_file_string(name: &str, range: &str) -> (r: Option<Descriptor>)
        ensures
            crate::keyed::option_view(r) == (match spec_parse_range(range@) {
                Some(range) => Some(DescriptorView { ident: name@, range, parent: None }),
                None => None,
            }),
    {
        match Range::from_file_string(range) {
            Some(range) => Some(Descriptor { ident: Ident::new(name), range, parent: None }),
            None => None,
        }
    }
}

} // verus!

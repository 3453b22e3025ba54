//! Requirements and references that point into git repositories: telling a
//! git address from other text, bringing the many spellings of a GitHub address
//! to one, reading and writing selectors, and choosing the commit that a
//! selector names among the references a repository lists.
use crate::encoding::{decode, encode, url_decoded, url_encoded};
use crate::error::{result_view, text_result_view, Error, ErrorKind};
use crate::keyed::{Duplicate, Key};
use crate::patterns::{
    captures, group_views, is_match, pattern_groups, pattern_matches, pattern_replaced,
    replace_first,
};
use crate::semver::{best_match, spec_best, Range, Version};
use crate::text::{
    append_str, chars_of, ends_with, find, first_index, has_prefix, has_suffix, is_text, slice,
    split, split_on, starts_with, string_of, views,
};
use vstd::prelude::*;

verus! {

/// A selector in the newer form starts with a key and `=`.
pub const NEW_STYLE_GIT_SELECTOR: &'static str = "^[a-z]+=";

/// The spellings of a GitHub repository address.
pub const GH_URL: &'static str =
    "^(?:github:|(?:https):\\/\\/github\\.com\\/|git(?:\\+ssh)?:\\/\\/(?:git@)?github\\.com\\/|git@github\\.com:)?(?!\\.{1,2}\\/)([a-zA-Z0-9._-]+)\\/(?!\\.{1,2}(?:#|$))([a-zA-Z0-9._-]+?)(?:\\.git)?(#.*)?$";

/// The address of a tarball that GitHub serves for a repository.
pub const GH_TARBALL_URL: &'static str =
    "^https?:\\/\\/github\\.com\\/(?!\\.{1,2}\\/)([a-zA-Z0-9._-]+)\\/(?!\\.{1,2}(?:#|$))([a-zA-Z0-9._-]+?)\\/tarball\\/(.+)?$";

pub const GIT_SSH: &'static str = "^ssh:";

pub const GIT_PROTOCOL: &'static str = "^git(?:\\+[^:]+)?:";

/// `git+` is optional, `.git` is required.
pub const GIT_HTTP: &'static str = "^(?:git\\+)?https?:[^#]+\\/[^#]+(?:\\.git)(?:#.*)?$";

pub const GIT_SCP: &'static str = "^git@[^#]+\\/[^#]+\\.git(?:#.*)?$";

/// `git@github.com:user/repo`, with a colon.
pub const GIT_SCP_GITHUB: &'static str = "^git@github\\.com:[^/]+/[^/]+(?:\\.git)?(?:#.*)?$";

pub const GIT_GITHUB: &'static str =
    "^(?:github:|https:\\/\\/github\\.com\\/)?(?!\\.{1,2}\\/)([a-zA-Z._0-9-]+)\\/(?!\\.{1,2}(?:#|$))([a-zA-Z._0-9-]+?)(?:\\.git)?(?:#.*)?$";

/// Whether the pattern is found in the text. A pattern that cannot be
/// evaluated on the text counts as not found.
pub open spec fn found(pattern: Seq<char>, text: Seq<char>) -> bool {
    pattern_matches(pattern, text) == Some(true)
}

/// A text is the address of a git repository when one of seven patterns is
/// found in it.
pub open spec fn spec_is_git_url(url: Seq<char>) -> bool {
    ||| found(GIT_SSH@, url)
    ||| found(GIT_PROTOCOL@, url)
    ||| found(GIT_HTTP@, url)
    ||| found(GIT_SCP@, url)
    ||| found(GIT_SCP_GITHUB@, url)
    ||| found(GIT_GITHUB@, url)
    ||| found(GH_TARBALL_URL@, url)
}

fn is_found(pattern: &str, text: &str) -> (r: bool)
    ensures
        r == found(pattern@, text@),
{
    match is_match(pattern, text) {
        Some(found) => found,
        None => false,
    }
}

/// Whether `url` is the address of a git repository.
pub fn is_git_url(url: &str) -> (r: bool)
    ensures
        r == spec_is_git_url(url@),
{
    is_found(GIT_SSH, url) || is_found(GIT_PROTOCOL, url) || is_found(GIT_HTTP, url) || is_found(
        GIT_SCP,
        url,
    ) || is_found(GIT_SCP_GITHUB, url) || is_found(GIT_GITHUB, url) || is_found(
        GH_TARBALL_URL,
        url,
    )
}

pub const GH_TEMPLATE: &'static str = "https://github.com/$1/$2.git$3";

pub const GH_TARBALL_TEMPLATE: &'static str = "https://github.com/$1/$2.git#$3";

/// The text with the first match of the pattern replaced; the text itself
/// where the pattern cannot be evaluated on it.
pub open spec fn replaced(pattern: Seq<char>, text: Seq<char>, replacement: Seq<char>) -> Seq<char> {
    match pattern_replaced(pattern, text, replacement) {
        Some(t) => t,
        None => text,
    }
}

/// The one spelling that every spelling of a GitHub address is brought to:
/// a leading `git+` before `https:` is dropped, then the address of the
/// repository, and then that of a tarball, is rewritten to
/// `https://github.com/<owner>/<repository>.git`.
pub open spec fn spec_normalize_git_url(url: Seq<char>) -> Seq<char> {
    let bare = if starts_with(url, "git+https:"@) {
        url.skip(4)
    } else {
        url
    };
    let first = replaced(GH_URL@, bare, GH_TEMPLATE@);
    replaced(GH_TARBALL_URL@, first, GH_TARBALL_TEMPLATE@)
}

fn replace_or_keep(pattern: &str, text: String, replacement: &str) -> (r: String)
    ensures
        r@ == replaced(pattern@, text@, replacement@),
{
    match replace_first(pattern, text.as_str(), replacement) {
        Some(t) => t,
        None => text,
    }
}

/// Brings the address of a repository to its one spelling.
pub fn normalize_git_url(url: &str) -> (normalized: String)
    ensures
        normalized@ == spec_normalize_git_url(url@),
{
    let chars = chars_of(url);
    let bare = if has_prefix(&chars, "git+https:") {
        proof {
            reveal_strlit("git+https:");
        }
        let rest = slice(&chars, 4, chars.len());
        assert(rest@ =~= url@.skip(4));
        string_of(&rest)
    } else {
        string_of(&chars)
    };
    let first = replace_or_keep(GH_URL, bare, GH_TEMPLATE);
    replace_or_keep(GH_TARBALL_URL, first, GH_TARBALL_TEMPLATE)
}

/// Where a repository lives.
#[derive(Debug)]
pub enum GitSource {
    GitHub { owner: String, repository: String },
    Url(String),
}

pub enum GitSourceView {
    GitHub { owner: Seq<char>, repository: Seq<char> },
    Url(Seq<char>),
}

impl View for GitSource {
    type V = GitSourceView;

    open spec fn view(&self) -> GitSourceView {
        match self {
            GitSource::GitHub { owner, repository } => GitSourceView::GitHub {
                owner: owner@,
                repository: repository@,
            },
            GitSource::Url(url) => GitSourceView::Url(url@),
        }
    }
}

impl Duplicate for GitSource {
    fn duplicate(&self) -> (copy: Self) {
        match self {
            GitSource::GitHub { owner, repository } => GitSource::GitHub {
                owner: owner.clone(),
                repository: repository.clone(),
            },
            GitSource::Url(url) => GitSource::Url(url.clone()),
        }
    }
}

impl Key for GitSource {
    fn same(&self, other: &Self) -> (same: bool) {
        match (self, other) {
            (
                GitSource::GitHub { owner, repository },
                GitSource::GitHub { owner: o, repository: r },
            ) => *owner == *o && *repository == *r,
            (GitSource::Url(a), GitSource::Url(b)) => *a == *b,
            _ => false,
        }
    }
}

/// The owner and the repository that a pattern captured, when both groups
/// took part in the match.
pub open spec fn captured_repository(groups: Option<Seq<Option<Seq<char>>>>) -> Option<
    GitSourceView,
> {
    match groups {
        Some(g) => if g.len() > 2 && g[1] is Some && g[2] is Some {
            Some(GitSourceView::GitHub { owner: g[1]->0, repository: g[2]->0 })
        } else {
            None
        },
        None => None,
    }
}

/// The repository that the groups of a match name: the owner is the first
/// group and the repository the second, where both took part in the match.
pub fn repository_of_groups(groups: &Vec<Option<String>>) -> (r: Option<GitSource>)
    ensures
        crate::keyed::option_view(r) == captured_repository(Some(group_views(groups@))),
{
    if groups.len() > 2 {
        assert(group_views(groups@)[1] == crate::patterns::text_view(groups@[1]));
        assert(group_views(groups@)[2] == crate::patterns::text_view(groups@[2]));
        match (&groups[1], &groups[2]) {
            (Some(owner), Some(repository)) => Some(
                GitSource::GitHub { owner: owner.clone(), repository: repository.clone() },
            ),
            _ => None,
        }
    } else {
        None
    }
}

fn capture_repository(pattern: &str, text: &str) -> (r: Option<GitSource>)
    ensures
        crate::keyed::option_view(r) == captured_repository(pattern_groups(pattern@, text@)),
{
    match captures(pattern, text) {
        Some(groups) => repository_of_groups(&groups),
        None => None,
    }
}

impl GitSource {
    /// A GitHub repository where the address, brought to its one spelling,
    /// is that of one, or where the address as given is that of a GitHub
    /// tarball; the address itself otherwise.
    pub open spec fn spec_from_url(url: Seq<char>) -> GitSourceView {
        match captured_repository(pattern_groups(GH_URL@, spec_normalize_git_url(url))) {
            Some(source) => source,
            None => match captured_repository(pattern_groups(GH_TARBALL_URL@, url)) {
                Some(source) => source,
                None => GitSourceView::Url(url),
            },
        }
    }

    /// Reads the address of a repository.
    pub fn from_url(url: &str) -> (source: GitSource)
        ensures
            source@ == Self::spec_from_url(url@),
    {
        let normalized = normalize_git_url(url);
        match capture_repository(GH_URL, normalized.as_str()) {
            Some(source) => source,
            None => match capture_repository(GH_TARBALL_URL, url) {
                Some(source) => source,
                None => {
                    let chars = chars_of(url);
                    GitSource::Url(string_of(&chars))
                },
            },
        }
    }

    pub open spec fn spec_to_url(source: GitSourceView) -> Seq<char> {
        match source {
            GitSourceView::GitHub { owner, repository } => "https://github.com/"@ + owner + "/"@
                + repository + ".git"@,
            GitSourceView::Url(url) => url,
        }
    }

    fn push_url(&self, out: &mut Vec<char>)
        ensures
            final(out)@ == old(out)@ + Self::spec_to_url(self@),
    {
        match self {
            GitSource::GitHub { owner, repository } => {
                append_str(out, "https://github.com/");
                append_str(out, owner.as_str());
                append_str(out, "/");
                append_str(out, repository.as_str());
                append_str(out, ".git");
                assert(out@ =~= old(out)@ + Self::spec_to_url(self@));
            },
            GitSource::Url(url) => {
                append_str(out, url.as_str());
            },
        }
    }

    /// The address of the repository.
    pub fn to_url(&self) -> (url: String)
        ensures
            url@ == Self::spec_to_url(self@),
    {
        let mut out: Vec<char> = Vec::new();
        self.push_url(&mut out);
        assert(out@ =~= Self::spec_to_url(self@));
        string_of(&out)
    }
}

/// What to take from a repository.
#[derive(Debug)]
pub enum GitTreeish {
    /// A commit, a tag or a branch, whichever there is.
    AnythingGoes(String),
    Head(String),
    Commit(String),
    Semver(Range),
    Tag(String),
}

pub enum GitTreeishView {
    AnythingGoes(Seq<char>),
    Head(Seq<char>),
    Commit(Seq<char>),
    Semver(Range),
    Tag(Seq<char>),
}

impl View for GitTreeish {
    type V = GitTreeishView;

    open spec fn view(&self) -> GitTreeishView {
        match self {
            GitTreeish::AnythingGoes(t) => GitTreeishView::AnythingGoes(t@),
            GitTreeish::Head(t) => GitTreeishView::Head(t@),
            GitTreeish::Commit(t) => GitTreeishView::Commit(t@),
            GitTreeish::Semver(r) => GitTreeishView::Semver(*r),
            GitTreeish::Tag(t) => GitTreeishView::Tag(t@),
        }
    }
}

impl Duplicate for GitTreeish {
    fn duplicate(&self) -> (copy: Self) {
        match self {
            GitTreeish::AnythingGoes(t) => GitTreeish::AnythingGoes(t.clone()),
            GitTreeish::Head(t) => GitTreeish::Head(t.clone()),
            GitTreeish::Commit(t) => GitTreeish::Commit(t.clone()),
            GitTreeish::Semver(r) => GitTreeish::Semver(*r),
            GitTreeish::Tag(t) => GitTreeish::Tag(t.clone()),
        }
    }
}

impl Key for GitTreeish {
    fn same(&self, other: &Self) -> (same: bool) {
        match (self, other) {
            (GitTreeish::AnythingGoes(a), GitTreeish::AnythingGoes(b)) => *a == *b,
            (GitTreeish::Head(a), GitTreeish::Head(b)) => *a == *b,
            (GitTreeish::Commit(a), GitTreeish::Commit(b)) => *a == *b,
            (GitTreeish::Semver(a), GitTreeish::Semver(b)) => *a == *b,
            (GitTreeish::Tag(a), GitTreeish::Tag(b)) => *a == *b,
            _ => false,
        }
    }
}

impl GitTreeish {
    /// The selector as it is written behind the `#` of an address.
    pub open spec fn spec_text(treeish: GitTreeishView) -> Seq<char> {
        match treeish {
            GitTreeishView::AnythingGoes(t) => t,
            GitTreeishView::Head(t) => "head="@ + t,
            GitTreeishView::Commit(t) => "commit="@ + t,
            GitTreeishView::Semver(r) => "semver="@ + r.spec_text(),
            GitTreeishView::Tag(t) => "tag="@ + t,
        }
    }

    fn push_text(&self, out: &mut Vec<char>)
        ensures
            final(out)@ == old(out)@ + Self::spec_text(self@),
    {
        match self {
            GitTreeish::AnythingGoes(t) => {
                append_str(out, t.as_str());
            },
            GitTreeish::Head(t) => {
                append_str(out, "head=");
                append_str(out, t.as_str());
                assert(out@ =~= old(out)@ + Self::spec_text(self@));
            },
            GitTreeish::Commit(t) => {
                append_str(out, "commit=");
                append_str(out, t.as_str());
                assert(out@ =~= old(out)@ + Self::spec_text(self@));
            },
            GitTreeish::Semver(r) => {
                append_str(out, "semver=");
                r.push_to(out);
                assert(out@ =~= old(out)@ + Self::spec_text(self@));
            },
            GitTreeish::Tag(t) => {
                append_str(out, "tag=");
                append_str(out, t.as_str());
                assert(out@ =~= old(out)@ + Self::spec_text(self@));
            },
        }
    }

    pub fn to_file_string(&self) -> (text: String)
        ensures
            text@ == Self::spec_text(self@),
    {
        let mut out: Vec<char> = Vec::new();
        self.push_text(&mut out);
        assert(out@ =~= Self::spec_text(self@));
        string_of(&out)
    }
}

/// How a checked-out repository is to be prepared.
#[derive(Debug)]
pub struct PrepareParams {
    pub cwd: Option<String>,
    pub workspace: Option<String>,
}

pub struct PrepareParamsView {
    pub cwd: Option<Seq<char>>,
    pub workspace: Option<Seq<char>>,
}

impl View for PrepareParams {
    type V = PrepareParamsView;

    open spec fn view(&self) -> PrepareParamsView {
        PrepareParamsView {
            cwd: crate::patterns::text_view(self.cwd),
            workspace: crate::patterns::text_view(self.workspace),
        }
    }
}

fn copy_text(text: &Option<String>) -> (copy: Option<String>)
    ensures
        crate::patterns::text_view(copy) == crate::patterns::text_view(*text),
{
    match text {
        Some(t) => Some(t.clone()),
        None => None,
    }
}

fn same_text(a: &Option<String>, b: &Option<String>) -> (same: bool)
    ensures
        same == (crate::patterns::text_view(*a) == crate::patterns::text_view(*b)),
{
    match (a, b) {
        (Some(x), Some(y)) => *x == *y,
        (None, None) => true,
        _ => false,
    }
}

impl Duplicate for PrepareParams {
    fn duplicate(&self) -> (copy: Self) {
        PrepareParams { cwd: copy_text(&self.cwd), workspace: copy_text(&self.workspace) }
    }
}

impl Key for PrepareParams {
    fn same(&self, other: &Self) -> (same: bool) {
        same_text(&self.cwd, &other.cwd) && same_text(&self.workspace, &other.workspace)
    }
}

impl PrepareParams {
    pub open spec fn spec_default() -> PrepareParamsView {
        PrepareParamsView { cwd: None, workspace: None }
    }

    pub fn default() -> (params: PrepareParams)
        ensures
            params@ == Self::spec_default(),
    {
        PrepareParams { cwd: None, workspace: None }
    }

    /// The parameters as they follow the selector: `&cwd=..` and
    /// `&workspace=..`, each percent-encoded and only where set.
    pub open spec fn spec_text(params: PrepareParamsView) -> Seq<char> {
        (match params.cwd {
            Some(cwd) => "&cwd="@ + url_encoded(cwd),
            None => Seq::<char>::empty(),
        }) + (match params.workspace {
            Some(workspace) => "&workspace="@ + url_encoded(workspace),
            None => Seq::<char>::empty(),
        })
    }

    fn push_text(&self, out: &mut Vec<char>)
        ensures
            final(out)@ == old(out)@ + Self::spec_text(self@),
    {
        match &self.cwd {
            Some(cwd) => {
                append_str(out, "&cwd=");
                let encoded = encode(cwd.as_str());
                append_str(out, encoded.as_str());
            },
            None => {},
        }
        match &self.workspace {
            Some(workspace) => {
                append_str(out, "&workspace=");
                let encoded = encode(workspace.as_str());
                append_str(out, encoded.as_str());
            },
            None => {},
        }
        assert(out@ =~= old(out)@ + Self::spec_text(self@));
    }
}

/// A requirement on a repository: where it is, what to take from it, and how
/// to prepare it.
#[derive(Debug)]
pub struct GitRange {
    pub repo: GitSource,
    pub treeish: GitTreeish,
    pub prepare_params: PrepareParams,
}

pub struct GitRangeView {
    pub repo: GitSourceView,
    pub treeish: GitTreeishView,
    pub prepare_params: PrepareParamsView,
}

impl View for GitRange {
    type V = GitRangeView;

    open spec fn view(&self) -> GitRangeView {
        GitRangeView {
            repo: self.repo@,
            treeish: self.treeish@,
            prepare_params: self.prepare_params@,
        }
    }
}

impl Duplicate for GitRange {
    fn duplicate(&self) -> (copy: Self) {
        GitRange {
            repo: self.repo.duplicate(),
            treeish: self.treeish.duplicate(),
            prepare_params: self.prepare_params.duplicate(),
        }
    }
}

impl Key for GitRange {
    fn same(&self, other: &Self) -> (same: bool) {
        self.repo.same(&other.repo) && self.treeish.same(&other.treeish)
            && self.prepare_params.same(&other.prepare_params)
    }
}

/// One commit of a repository.
#[derive(Debug)]
pub struct GitReference {
    pub repo: GitSource,
    pub commit: String,
    pub prepare_params: PrepareParams,
}

pub struct GitReferenceView {
    pub repo: GitSourceView,
    pub commit: Seq<char>,
    pub prepare_params: PrepareParamsView,
}

impl View for GitReference {
    type V = GitReferenceView;

    open spec fn view(&self) -> GitReferenceView {
        GitReferenceView {
            repo: self.repo@,
            commit: self.commit@,
            prepare_params: self.prepare_params@,
        }
    }
}

impl Duplicate for GitReference {
    fn duplicate(&self) -> (copy: Self) {
        GitReference {
            repo: self.repo.duplicate(),
            commit: self.commit.clone(),
            prepare_params: self.prepare_params.duplicate(),
        }
    }
}

impl Key for GitReference {
    fn same(&self, other: &Self) -> (same: bool) {
        self.repo.same(&other.repo) && self.commit == other.commit && self.prepare_params.same(
            &other.prepare_params,
        )
    }
}

impl GitRange {
    /// The requirement as text: the address, `#`, the selector and the
    /// parameters.
    pub open spec fn spec_text(range: GitRangeView) -> Seq<char> {
        GitSource::spec_to_url(range.repo) + "#"@ + GitTreeish::spec_text(range.treeish)
            + PrepareParams::spec_text(range.prepare_params)
    }

    pub fn push_text(&self, out: &mut Vec<char>)
        ensures
            final(out)@ == old(out)@ + Self::spec_text(self@),
    {
        self.repo.push_url(out);
        append_str(out, "#");
        self.treeish.push_text(out);
        self.prepare_params.push_text(out);
        assert(out@ =~= old(out)@ + Self::spec_text(self@));
    }

    pub fn to_file_string(&self) -> (text: String)
        ensures
            text@ == Self::spec_text(self@),
    {
        let mut out: Vec<char> = Vec::new();
        self.push_text(&mut out);
        assert(out@ =~= Self::spec_text(self@));
        string_of(&out)
    }
}

impl GitReference {
    /// The reference as text: the address, `#commit=` with the commit
    /// percent-encoded, and the parameters.
    pub open spec fn spec_text(reference: GitReferenceView) -> Seq<char> {
        GitSource::spec_to_url(reference.repo) + "#commit="@ + url_encoded(reference.commit)
            + PrepareParams::spec_text(reference.prepare_params)
    }

    pub fn push_text(&self, out: &mut Vec<char>)
        ensures
            final(out)@ == old(out)@ + Self::spec_text(self@),
    {
        self.repo.push_url(out);
        append_str(out, "#commit=");
        let encoded = encode(self.commit.as_str());
        append_str(out, encoded.as_str());
        self.prepare_params.push_text(out);
        assert(out@ =~= old(out)@ + Self::spec_text(self@));
    }

    pub fn to_file_string(&self) -> (text: String)
        ensures
            text@ == Self::spec_text(self@),
    {
        let mut out: Vec<char> = Vec::new();
        self.push_text(&mut out);
        assert(out@ =~= Self::spec_text(self@));
        string_of(&out)
    }
}

/// What has been read of a selector so far.
pub type SelectorView = (GitTreeishView, PrepareParamsView);

/// The selector to start from: the head of the default branch, with nothing
/// to prepare.
pub open spec fn spec_default_selector() -> SelectorView {
    (GitTreeishView::Head("HEAD"@), PrepareParams::spec_default())
}

/// What a key and its decoded value say, on top of what was read before:
/// `head`, `commit`, `semver` and `tag` name what to take, `cwd` and
/// `workspace` how to prepare it, and any other key says nothing. A
/// `semver` range that cannot be read is an error.
pub open spec fn spec_apply_decoded(state: SelectorView, key: Seq<char>, value: Seq<char>) -> Result<
    SelectorView,
    (ErrorKind, Seq<char>),
> {
    if key == "head"@ {
        Ok((GitTreeishView::Head(value), state.1))
    } else if key == "commit"@ {
        Ok((GitTreeishView::Commit(value), state.1))
    } else if key == "semver"@ {
        match Range::spec_parse(value) {
            Some(range) => Ok((GitTreeishView::Semver(range), state.1)),
            None => Err((ErrorKind::InvalidSemverRange, value)),
        }
    } else if key == "tag"@ {
        Ok((GitTreeishView::Tag(value), state.1))
    } else if key == "cwd"@ {
        Ok((state.0, PrepareParamsView { cwd: Some(value), ..state.1 }))
    } else if key == "workspace"@ {
        Ok((state.0, PrepareParamsView { workspace: Some(value), ..state.1 }))
    } else {
        Ok(state)
    }
}

/// One `key=value` of a selector in the newer form, applied to what was read
/// before it. A part without `=` and an unknown key change nothing; a value
/// is percent-decoded first, and one that cannot be decoded, or a `semver`
/// range that cannot be read, is an error.
pub open spec fn spec_apply_pair(state: SelectorView, part: Seq<char>) -> Result<
    SelectorView,
    (ErrorKind, Seq<char>),
> {
    match first_index(part, '=') {
        None => Ok(state),
        Some(eq) => {
            let key = part.take(eq);
            match url_decoded(part.skip(eq + 1)) {
                None => Err((ErrorKind::InvalidGitUrl, part)),
                Some(value) => spec_apply_decoded(state, key, value),
            }
        },
    }
}

/// The first `n` parts of a selector in the newer form, read from left to
/// right; the first error ends the reading.
pub open spec fn spec_new_style(parts: Seq<Seq<char>>, n: nat) -> Result<
    SelectorView,
    (ErrorKind, Seq<char>),
>
    decreases n,
{
    if n == 0 {
        Ok(spec_default_selector())
    } else {
        match spec_new_style(parts, (n - 1) as nat) {
            Ok(state) => spec_apply_pair(state, parts[n - 1]),
            Err(e) => Err(e),
        }
    }
}

/// A selector in the older form: `kind:value`, where an unknown kind reads
/// as a commit, and a text without a colon goes for anything.
pub open spec fn spec_old_style(selector: Seq<char>) -> Result<
    GitTreeishView,
    (ErrorKind, Seq<char>),
> {
    match first_index(selector, ':') {
        None => Ok(GitTreeishView::AnythingGoes(selector)),
        Some(colon) => {
            let kind = selector.take(colon);
            let value = selector.skip(colon + 1);
            if kind == "head"@ {
                Ok(GitTreeishView::Head(value))
            } else if kind == "semver"@ {
                match Range::spec_parse(value) {
                    Some(range) => Ok(GitTreeishView::Semver(range)),
                    None => Err((ErrorKind::InvalidSemverRange, value)),
                }
            } else if kind == "tag"@ {
                Ok(GitTreeishView::Tag(value))
            } else {
                Ok(GitTreeishView::Commit(value))
            }
        },
    }
}

/// The requirement that an address with its selector writes. Without `#`
/// it is the head of the default branch.
pub open spec fn spec_extract_git_range(url: Seq<char>) -> Result<
    GitRangeView,
    (ErrorKind, Seq<char>),
> {
    match first_index(url, '#') {
        None => Ok(
            GitRangeView {
                repo: GitSource::spec_from_url(url),
                treeish: GitTreeishView::Head("HEAD"@),
                prepare_params: PrepareParams::spec_default(),
            },
        ),
        Some(hash) => {
            let repo = GitSource::spec_from_url(url.take(hash));
            let selector = url.skip(hash + 1);
            if found(NEW_STYLE_GIT_SELECTOR@, selector) {
                let parts = split(selector, '&');
                match spec_new_style(parts, parts.len()) {
                    Ok(state) => Ok(
                        GitRangeView { repo, treeish: state.0, prepare_params: state.1 },
                    ),
                    Err(e) => Err(e),
                }
            } else {
                match spec_old_style(selector) {
                    Ok(treeish) => Ok(
                        GitRangeView {
                            repo,
                            treeish,
                            prepare_params: PrepareParams::spec_default(),
                        },
                    ),
                    Err(e) => Err(e),
                }
            }
        },
    }
}

/// The key and the decoded value of a part that holds `=`.
enum Pair {
    /// The part holds no `=`.
    Absent,
    /// The value cannot be decoded.
    Broken,
    Found(Vec<char>, String),
}

/// The key and the value of a part that holds `=`: what stands before the
/// first `=`, and what stands behind it, not yet decoded.
pub fn split_pair(part: &Vec<char>) -> (r: Option<(Vec<char>, Vec<char>)>)
    ensures
        match r {
            None => first_index(part@, '=') is None,
            Some((key, raw)) => first_index(part@, '=') is Some && key@ == part@.take(
                first_index(part@, '=')->0,
            ) && raw@ == part@.skip(first_index(part@, '=')->0 + 1),
        },
{
    match find(part, '=') {
        None => None,
        Some(eq) => {
            let key = slice(part, 0, eq);
            assert(key@ =~= part@.take(eq as int));
            let raw = slice(part, eq + 1, part.len());
            assert(raw@ =~= part@.skip(eq + 1));
            Some((key, raw))
        },
    }
}

fn read_pair(part: &Vec<char>) -> (pair: Pair)
    ensures
        match pair {
            Pair::Absent => first_index(part@, '=') is None,
            Pair::Broken => first_index(part@, '=') is Some && url_decoded(
                part@.skip(first_index(part@, '=')->0 + 1),
            ) is None,
            Pair::Found(key, value) => first_index(part@, '=') is Some && key@ == part@.take(
                first_index(part@, '=')->0,
            ) && url_decoded(part@.skip(first_index(part@, '=')->0 + 1)) == Some(value@),
        },
{
    match split_pair(part) {
        None => Pair::Absent,
        Some((key, raw)) => {
            let raw_text = string_of(&raw);
            match decode(raw_text.as_str()) {
                Some(value) => Pair::Found(key, value),
                None => Pair::Broken,
            }
        },
    }
}

fn read_range(value: &String) -> (r: Result<Range, Error>)
    ensures
        match r {
            Ok(range) => Range::spec_parse(value@) == Some(range),
            Err(e) => Range::spec_parse(value@) is None && e@ == (
                ErrorKind::InvalidSemverRange,
                value@,
            ),
        },
{
    match Range::from_file_string(value.as_str()) {
        Some(range) => Ok(range),
        None => Err(Error::new(ErrorKind::InvalidSemverRange, value.as_str())),
    }
}

/// Takes note of a key and its decoded value, on top of what was read
/// before.
pub fn apply_decoded(
    treeish: GitTreeish,
    params: PrepareParams,
    key: &Vec<char>,
    value: String,
) -> (r: Result<(GitTreeish, PrepareParams), Error>)
    ensures
        match r {
            Ok(state) => spec_apply_decoded((treeish@, params@), key@, value@) == Ok::<
                SelectorView,
                (ErrorKind, Seq<char>),
            >((state.0@, state.1@)),
            Err(e) => spec_apply_decoded((treeish@, params@), key@, value@) == Err::<
                SelectorView,
                (ErrorKind, Seq<char>),
            >(e@),
        },
{
    let mut treeish = treeish;
    let mut params = params;
    if is_text(key, "head") {
        treeish = GitTreeish::Head(value);
    } else if is_text(key, "commit") {
        treeish = GitTreeish::Commit(value);
    } else if is_text(key, "semver") {
        match read_range(&value) {
            Ok(range) => {
                treeish = GitTreeish::Semver(range);
            },
            Err(e) => {
                return Err(e);
            },
        }
    } else if is_text(key, "tag") {
        treeish = GitTreeish::Tag(value);
    } else if is_text(key, "cwd") {
        params.cwd = Some(value);
    } else if is_text(key, "workspace") {
        params.workspace = Some(value);
    }
    Ok((treeish, params))
}

fn extract_new_style(selector: &Vec<char>) -> (r: Result<(GitTreeish, PrepareParams), Error>)
    ensures
        match r {
            Ok(state) => spec_new_style(split(selector@, '&'), split(selector@, '&').len()) == Ok::<
                SelectorView,
                (ErrorKind, Seq<char>),
            >((state.0@, state.1@)),
            Err(e) => spec_new_style(split(selector@, '&'), split(selector@, '&').len()) == Err::<
                SelectorView,
                (ErrorKind, Seq<char>),
            >(e@),
        },
{
    let parts = split_on(selector, '&');
    let mut treeish = GitTreeish::Head(string_of(&chars_of("HEAD")));
    let mut params = PrepareParams::default();
    let mut i: usize = 0;
    while i < parts.len()
        invariant
            i <= parts.len(),
            views(parts@) == split(selector@, '&'),
            spec_new_style(views(parts@), i as nat) == Ok::<SelectorView, (ErrorKind, Seq<char>)>(
                (treeish@, params@),
            ),
        decreases parts.len() - i,
    {
        assert(views(parts@)[i as int] == parts@[i as int]@);
        let ghost n = (i + 1) as nat;
        let ghost state = (treeish@, params@);
        assert(spec_new_style(views(parts@), n) == spec_apply_pair(state, parts@[i as int]@));
        match read_pair(&parts[i]) {
            Pair::Absent => {},
            Pair::Broken => {
                let e = Error::of_chars(ErrorKind::InvalidGitUrl, &parts[i]);
                proof {
                    lemma_new_style_fails(views(parts@), n, parts.len() as nat);
                }
                return Err(e);
            },
            Pair::Found(key, value) => {
                match apply_decoded(treeish, params, &key, value) {
                    Ok(state) => {
                        treeish = state.0;
                        params = state.1;
                    },
                    Err(e) => {
                        proof {
                            lemma_new_style_fails(views(parts@), n, parts.len() as nat);
                        }
                        return Err(e);
                    },
                }
            },
        }
        i += 1;
    }
    Ok((treeish, params))
}

proof fn lemma_new_style_fails(parts: Seq<Seq<char>>, n: nat, m: nat)
    requires
        spec_new_style(parts, n) is Err,
        n <= m,
    ensures
        spec_new_style(parts, m) == spec_new_style(parts, n),
    decreases m - n,
{
    if n < m {
        lemma_new_style_fails(parts, n, (m - 1) as nat);
    }
}

fn extract_old_style(selector: &Vec<char>) -> (r: Result<GitTreeish, Error>)
    ensures
        result_view(r) == spec_old_style(selector@),
{
    match find(selector, ':') {
        None => Ok(GitTreeish::AnythingGoes(string_of(selector))),
        Some(colon) => {
            let kind = slice(selector, 0, colon);
            assert(kind@ =~= selector@.take(colon as int));
            let rest = slice(selector, colon + 1, selector.len());
            assert(rest@ =~= selector@.skip(colon + 1));
            let value = string_of(&rest);
            if is_text(&kind, "head") {
                Ok(GitTreeish::Head(value))
            } else if is_text(&kind, "semver") {
                match read_range(&value) {
                    Ok(range) => Ok(GitTreeish::Semver(range)),
                    Err(e) => Err(e),
                }
            } else if is_text(&kind, "tag") {
                Ok(GitTreeish::Tag(value))
            } else {
                Ok(GitTreeish::Commit(value))
            }
        },
    }
}

/// Reads the address of a repository together with its selector.
pub fn extract_git_range(url: &str) -> (r: Result<GitRange, Error>)
    ensures
        result_view(r) == spec_extract_git_range(url@),
{
    let chars = chars_of(url);
    match find(&chars, '#') {
        None => Ok(
            GitRange {
                repo: GitSource::from_url(url),
                treeish: GitTreeish::Head(string_of(&chars_of("HEAD"))),
                prepare_params: PrepareParams::default(),
            },
        ),
        Some(hash) => {
            let repo_chars = slice(&chars, 0, hash);
            assert(repo_chars@ =~= url@.take(hash as int));
            let repo_text = string_of(&repo_chars);
            let selector = slice(&chars, hash + 1, chars.len());
            assert(selector@ =~= url@.skip(hash + 1));
            let selector_text = string_of(&selector);
            if is_found(NEW_STYLE_GIT_SELECTOR, selector_text.as_str()) {
                match extract_new_style(&selector) {
                    Ok(state) => Ok(
                        GitRange {
                            repo: GitSource::from_url(repo_text.as_str()),
                            treeish: state.0,
                            prepare_params: state.1,
                        },
                    ),
                    Err(e) => Err(e),
                }
            } else {
                match extract_old_style(&selector) {
                    Ok(treeish) => Ok(
                        GitRange {
                            repo: GitSource::from_url(repo_text.as_str()),
                            treeish,
                            prepare_params: PrepareParams::default(),
                        },
                    ),
                    Err(e) => Err(e),
                }
            }
        },
    }
}

impl GitRange {
    /// A text that is no git address is refused; any other is brought to
    /// its one spelling and read with its selector.
    pub open spec fn spec_from_file_string(src: Seq<char>) -> Result<
        GitRangeView,
        (ErrorKind, Seq<char>),
    > {
        if !spec_is_git_url(src) {
            Err((ErrorKind::InvalidGitUrl, src))
        } else {
            spec_extract_git_range(spec_normalize_git_url(src))
        }
    }

    pub fn from_file_string(src: &str) -> (r: Result<GitRange, Error>)
        ensures
            result_view(r) == Self::spec_from_file_string(src@),
    {
        if !is_git_url(src) {
            return Err(Error::new(ErrorKind::InvalidGitUrl, src));
        }
        let normalized = normalize_git_url(src);
        extract_git_range(normalized.as_str())
    }
}

/// What has been read of a reference so far: the commit, if one was named,
/// and the parameters.
pub type ReferencePartsView = (Option<Seq<char>>, PrepareParamsView);

/// One `key=value` of a reference applied to what was read before it;
/// `None` where the value cannot be decoded.
pub open spec fn spec_apply_reference_pair(state: ReferencePartsView, part: Seq<char>) -> Option<
    ReferencePartsView,
> {
    match first_index(part, '=') {
        None => Some(state),
        Some(eq) => {
            let key = part.take(eq);
            match url_decoded(part.skip(eq + 1)) {
                None => None,
                Some(value) => if key == "commit"@ {
                    Some((Some(value), state.1))
                } else if key == "cwd"@ {
                    Some((state.0, PrepareParamsView { cwd: Some(value), ..state.1 }))
                } else if key == "workspace"@ {
                    Some((state.0, PrepareParamsView { workspace: Some(value), ..state.1 }))
                } else {
                    Some(state)
                },
            }
        },
    }
}

pub open spec fn spec_reference_parts(parts: Seq<Seq<char>>, n: nat) -> Option<ReferencePartsView>
    decreases n,
{
    if n == 0 {
        Some((None, PrepareParams::spec_default()))
    } else {
        match spec_reference_parts(parts, (n - 1) as nat) {
            Some(state) => spec_apply_reference_pair(state, parts[n - 1]),
            None => None,
        }
    }
}

proof fn lemma_reference_parts_fail(parts: Seq<Seq<char>>, n: nat, m: nat)
    requires
        spec_reference_parts(parts, n) is None,
        n <= m,
    ensures
        spec_reference_parts(parts, m) is None,
    decreases m - n,
{
    if n < m {
        lemma_reference_parts_fail(parts, n, (m - 1) as nat);
    }
}

impl GitReference {
    /// The reference that a text writes: an address, `#`, and `key=value`
    /// parts among which `commit` must occur. Anything else is refused.
    pub open spec fn spec_from_file_string(src: Seq<char>) -> Result<
        GitReferenceView,
        (ErrorKind, Seq<char>),
    > {
        match first_index(src, '#') {
            None => Err((ErrorKind::InvalidGitUrl, src)),
            Some(hash) => {
                let parts = split(src.skip(hash + 1), '&');
                match spec_reference_parts(parts, parts.len()) {
                    Some((Some(commit), prepare_params)) => Ok(
                        GitReferenceView {
                            repo: GitSource::spec_from_url(src.take(hash)),
                            commit,
                            prepare_params,
                        },
                    ),
                    _ => Err((ErrorKind::InvalidGitUrl, src)),
                }
            },
        }
    }

    pub fn from_file_string(src: &str) -> (r: Result<GitReference, Error>)
        ensures
            result_view(r) == Self::spec_from_file_string(src@),
    {
        let chars = chars_of(src);
        match find(&chars, '#') {
            None => Err(Error::new(ErrorKind::InvalidGitUrl, src)),
            Some(hash) => {
                let repo_chars = slice(&chars, 0, hash);
                assert(repo_chars@ =~= src@.take(hash as int));
                let repo_text = string_of(&repo_chars);
                let query = slice(&chars, hash + 1, chars.len());
                assert(query@ =~= src@.skip(hash + 1));
                let parts = split_on(&query, '&');
                let mut commit: Option<String> = None;
                let mut params = PrepareParams::default();
                let mut i: usize = 0;
                while i < parts.len()
                    invariant
                        i <= parts.len(),
                        first_index(src@, '#') == Some(hash as int),
                        views(parts@) == split(src@.skip(hash + 1), '&'),
                        spec_reference_parts(views(parts@), i as nat) == Some(
                            (crate::patterns::text_view(commit), params@),
                        ),
                    decreases parts.len() - i,
                {
                    assert(views(parts@)[i as int] == parts@[i as int]@);
                    let ghost n = (i + 1) as nat;
                    let ghost state = (crate::patterns::text_view(commit), params@);
                    assert(spec_reference_parts(views(parts@), n) == spec_apply_reference_pair(
                        state,
                        parts@[i as int]@,
                    ));
                    match read_pair(&parts[i]) {
                        Pair::Absent => {},
                        Pair::Broken => {
                            proof {
                                lemma_reference_parts_fail(views(parts@), n, parts.len() as nat);
                            }
                            return Err(Error::new(ErrorKind::InvalidGitUrl, src));
                        },
                        Pair::Found(key, value) => {
                            if is_text(&key, "commit") {
                                commit = Some(value);
                            } else if is_text(&key, "cwd") {
                                params.cwd = Some(value);
                            } else if is_text(&key, "workspace") {
                                params.workspace = Some(value);
                            }
                        },
                    }
                    i += 1;
                }
                match commit {
                    Some(commit) => Ok(
                        GitReference {
                            repo: GitSource::from_url(repo_text.as_str()),
                            commit,
                            prepare_params: params,
                        },
                    ),
                    None => Err(Error::new(ErrorKind::InvalidGitUrl, src)),
                }
            },
        }
    }
}

/// One line of what a repository lists: the name of a reference and the
/// commit it points to.
#[derive(Debug)]
pub struct RemoteRef {
    pub name: String,
    pub hash: String,
}

impl View for RemoteRef {
    type V = (Seq<char>, Seq<char>);

    open spec fn view(&self) -> (Seq<char>, Seq<char>) {
        (self.name@, self.hash@)
    }
}

pub open spec fn ref_views(refs: Seq<RemoteRef>) -> Seq<(Seq<char>, Seq<char>)> {
    refs.map_values(|r: RemoteRef| r@)
}

/// Blank, tab and carriage return separate the fields of a line.
pub open spec fn is_space(c: char) -> bool {
    c == ' ' || c == '\t' || c == '\r'
}

/// A separator is read as a blank.
pub open spec fn blanked(c: char) -> char {
    if is_space(c) {
        ' '
    } else {
        c
    }
}

/// The fields of a line: its pieces between separators, without the empty
/// ones.
pub open spec fn spec_fields(line: Seq<char>) -> Seq<Seq<char>> {
    split(line.map_values(|c: char| blanked(c)), ' ').filter(|p: Seq<char>| p.len() > 0)
}

fn fields_of(line: &Vec<char>) -> (fields: Vec<Vec<char>>)
    ensures
        views(fields@) == spec_fields(line@),
{
    let mut flat: Vec<char> = Vec::new();
    let mut i: usize = 0;
    while i < line.len()
        invariant
            i <= line.len(),
            flat.len() == i,
            forall|j: int| 0 <= j < i ==> flat@[j] == blanked(line@[j]),
        decreases line.len() - i,
    {
        let c = line[i];
        if c == ' ' || c == '\t' || c == '\r' {
            flat.push(' ');
        } else {
            flat.push(c);
        }
        i += 1;
    }
    assert(flat@ =~= line@.map_values(|c: char| blanked(c)));
    let pieces = split_on(&flat, ' ');
    let ghost kept = |p: Seq<char>| p.len() > 0;
    let mut fields: Vec<Vec<char>> = Vec::new();
    let mut k: usize = 0;
    proof {
        reveal(Seq::filter);
        assert(views(pieces@).take(0) =~= Seq::empty());
    }
    assert(views(fields@) =~= views(pieces@).take(0).filter(kept));
    while k < pieces.len()
        invariant
            k <= pieces.len(),
            kept == (|p: Seq<char>| p.len() > 0),
            views(fields@) == views(pieces@).take(k as int).filter(kept),
        decreases pieces.len() - k,
    {
        proof {
            reveal(Seq::filter);
            let next = views(pieces@).take(k + 1);
            assert(next.drop_last() =~= views(pieces@).take(k as int));
            assert(next.last() == pieces@[k as int]@);
        }
        if pieces[k].len() > 0 {
            let ghost before = views(fields@);
            let piece = slice(&pieces[k], 0, pieces[k].len());
            assert(piece@ =~= pieces@[k as int]@);
            fields.push(piece);
            assert(views(fields@) =~= before.push(pieces@[k as int]@));
        }
        k += 1;
    }
    assert(views(pieces@).take(pieces.len() as int) =~= views(pieces@));
    fields
}

/// The references that the first `n` lines of a listing name: a line with a
/// commit and a name, in that order, gives one; any other line gives none.
pub open spec fn spec_listing(lines: Seq<Seq<char>>, n: nat) -> Seq<(Seq<char>, Seq<char>)>
    decreases n,
{
    if n == 0 {
        Seq::empty()
    } else {
        let before = spec_listing(lines, (n - 1) as nat);
        let fields = spec_fields(lines[n - 1]);
        if fields.len() >= 2 {
            before.push((fields[1], fields[0]))
        } else {
            before
        }
    }
}

/// The references that the output of `git ls-remote` names.
pub open spec fn spec_parse_ls_remote(output: Seq<char>) -> Seq<(Seq<char>, Seq<char>)> {
    spec_listing(split(output, '\n'), split(output, '\n').len())
}

/// Reads the output of `git ls-remote`.
pub fn parse_ls_remote(output: &str) -> (refs: Vec<RemoteRef>)
    ensures
        ref_views(refs@) == spec_parse_ls_remote(output@),
{
    let chars = chars_of(output);
    let lines = split_on(&chars, '\n');
    let mut refs: Vec<RemoteRef> = Vec::new();
    let mut i: usize = 0;
    assert(ref_views(refs@) =~= spec_listing(views(lines@), 0));
    while i < lines.len()
        invariant
            i <= lines.len(),
            ref_views(refs@) == spec_listing(views(lines@), i as nat),
        decreases lines.len() - i,
    {
        assert(views(lines@)[i as int] == lines@[i as int]@);
        let fields = fields_of(&lines[i]);
        if fields.len() >= 2 {
            assert(views(fields@)[0] == fields@[0]@);
            assert(views(fields@)[1] == fields@[1]@);
            let ghost before = ref_views(refs@);
            refs.push(RemoteRef { name: string_of(&fields[1]), hash: string_of(&fields[0]) });
            assert(ref_views(refs@) =~= before.push((fields@[1]@, fields@[0]@)));
        }
        i += 1;
    }
    refs
}

/// The commit that the last line of the listing with this name gives.
pub open spec fn spec_lookup(refs: Seq<(Seq<char>, Seq<char>)>, name: Seq<char>) -> Option<
    Seq<char>,
>
    decreases refs.len(),
{
    if refs.len() == 0 {
        None
    } else if refs.last().0 == name {
        Some(refs.last().1)
    } else {
        spec_lookup(refs.drop_last(), name)
    }
}

fn lookup(refs: &Vec<RemoteRef>, name: &Vec<char>) -> (hash: Option<String>)
    ensures
        crate::patterns::text_view(hash) == spec_lookup(ref_views(refs@), name@),
{
    let mut i: usize = refs.len();
    assert(ref_views(refs@).take(refs.len() as int) =~= ref_views(refs@));
    while i > 0
        invariant
            i <= refs.len(),
            spec_lookup(ref_views(refs@), name@) == spec_lookup(
                ref_views(refs@).take(i as int),
                name@,
            ),
        decreases i,
    {
        let ghost head = ref_views(refs@).take(i as int);
        assert(head.last() == refs@[i - 1]@);
        assert(head.drop_last() =~= ref_views(refs@).take(i - 1));
        let current = chars_of(refs[i - 1].name.as_str());
        if crate::text::same_chars(&current, name) {
            return Some(refs[i - 1].hash.clone());
        }
        i -= 1;
    }
    None
}

pub open spec fn is_hex_digit(c: char) -> bool {
    ('0' <= c && c <= '9') || ('a' <= c && c <= 'f') || ('A' <= c && c <= 'F')
}

/// A commit is written as forty hexadecimal digits.
pub open spec fn is_commit_hash(text: Seq<char>) -> bool {
    text.len() == 40 && forall|i: int| 0 <= i < text.len() ==> is_hex_digit(#[trigger] text[i])
}

fn check_commit_hash(text: &Vec<char>) -> (r: bool)
    ensures
        r == is_commit_hash(text@),
{
    if text.len() != 40 {
        return false;
    }
    let mut i: usize = 0;
    while i < text.len()
        invariant
            i <= text.len(),
            text.len() == 40,
            forall|j: int| 0 <= j < i ==> is_hex_digit(#[trigger] text@[j]),
        decreases text.len() - i,
    {
        let c = text[i];
        let hex = ('0' <= c && c <= '9') || ('a' <= c && c <= 'f') || ('A' <= c && c <= 'F');
        if !hex {
            assert(!is_hex_digit(text@[i as int]));
            return false;
        }
        i += 1;
    }
    true
}

/// The version that a reference offers to a `semver` selector: the name of
/// a tag, without the `^{}` that marks a peeled tag, read as a version.
pub open spec fn tag_version(name: Seq<char>) -> Option<Version> {
    if starts_with(name, "refs/tags/"@) && !ends_with(name, "^{}"@) {
        Version::spec_parse(name.skip(10))
    } else {
        None
    }
}

pub open spec fn tag_versions(refs: Seq<(Seq<char>, Seq<char>)>) -> Seq<Option<Version>> {
    refs.map_values(|r: (Seq<char>, Seq<char>)| tag_version(r.0))
}

fn read_tag_versions(refs: &Vec<RemoteRef>) -> (versions: Vec<Option<Version>>)
    ensures
        versions@ == tag_versions(ref_views(refs@)),
{
    let mut versions: Vec<Option<Version>> = Vec::new();
    let mut i: usize = 0;
    while i < refs.len()
        invariant
            i <= refs.len(),
            versions.len() == i,
            forall|j: int| 0 <= j < i ==> versions@[j] == tag_version(refs@[j].name@),
        decreases refs.len() - i,
    {
        let name = chars_of(refs[i].name.as_str());
        let version = if has_prefix(&name, "refs/tags/") && !has_suffix(&name, "^{}") {
            proof {
                reveal_strlit("refs/tags/");
            }
            let rest = slice(&name, 10, name.len());
            assert(rest@ =~= name@.skip(10));
            Version::parse_chars(&rest)
        } else {
            None
        };
        versions.push(version);
        i += 1;
    }
    assert(versions@ =~= tag_versions(ref_views(refs@)));
    versions
}

/// The name of the reference behind a branch.
pub open spec fn head_ref(head: Seq<char>) -> Seq<char> {
    if head == "HEAD"@ {
        "HEAD"@
    } else {
        "refs/heads/"@ + head
    }
}

/// What a selector names among the references of a repository.
///
/// A commit must be forty hexadecimal digits and is taken as it is written.
/// A branch is looked up as `refs/heads/<name>` (or `HEAD` itself), a tag as
/// `refs/tags/<name>`. A `semver` selector picks, among the tags that read as
/// versions in its range, the highest, and gives the commit listed for it.
pub open spec fn spec_resolve_stricter(
    refs: Seq<(Seq<char>, Seq<char>)>,
    treeish: GitTreeishView,
) -> Result<Seq<char>, (ErrorKind, Seq<char>)> {
    match treeish {
        GitTreeishView::AnythingGoes(t) => Err((ErrorKind::InvalidGitSpecifier, Seq::empty())),
        GitTreeishView::Head(head) => match spec_lookup(refs, head_ref(head)) {
            Some(commit) => Ok(commit),
            None => Err((ErrorKind::InvalidGitBranch, head)),
        },
        GitTreeishView::Commit(commit) => if is_commit_hash(commit) {
            Ok(commit)
        } else {
            Err((ErrorKind::InvalidGitCommit, commit))
        },
        GitTreeishView::Semver(range) => match spec_best(
            tag_versions(refs),
            range,
            refs.len(),
        ) {
            Some(best) => Ok(refs[best].1),
            None => Err((ErrorKind::NoCandidatesFound, range.spec_text())),
        },
        GitTreeishView::Tag(tag) => match spec_lookup(refs, "refs/tags/"@ + tag) {
            Some(commit) => Ok(commit),
            None => Err((ErrorKind::InvalidGitBranch, tag)),
        },
    }
}

/// Resolves a selector that says what it is against the references that the
/// repository lists.
pub fn resolve_git_treeish_stricter(refs: &Vec<RemoteRef>, treeish: &GitTreeish) -> (r: Result<
    String,
    Error,
>)
    requires
        !(treeish is AnythingGoes),
    ensures
        text_result_view(r) == spec_resolve_stricter(ref_views(refs@), treeish@),
{
    match treeish {
        GitTreeish::AnythingGoes(_) => Err(Error::bare(ErrorKind::InvalidGitSpecifier)),
        GitTreeish::Head(head) => {
            let chars = chars_of(head.as_str());
            let name = if is_text(&chars, "HEAD") {
                chars_of("HEAD")
            } else {
                let mut name = chars_of("refs/heads/");
                crate::text::append(&mut name, &chars);
                name
            };
            match lookup(refs, &name) {
                Some(commit) => Ok(commit),
                None => Err(Error::new(ErrorKind::InvalidGitBranch, head.as_str())),
            }
        },
        GitTreeish::Commit(commit) => {
            let chars = chars_of(commit.as_str());
            if check_commit_hash(&chars) {
                Ok(commit.clone())
            } else {
                Err(Error::new(ErrorKind::InvalidGitCommit, commit.as_str()))
            }
        },
        GitTreeish::Semver(range) => {
            let versions = read_tag_versions(refs);
            match best_match(&versions, range) {
                Some(best) => {
                    proof {
                        crate::semver::lemma_best_is_highest(
                            versions@,
                            *range,
                            versions.len() as nat,
                        );
                    }
                    Ok(refs[best].hash.clone())
                },
                None => {
                    let text = range.to_file_string();
                    Err(Error::new(ErrorKind::NoCandidatesFound, text.as_str()))
                },
            }
        },
        GitTreeish::Tag(tag) => {
            let mut name = chars_of("refs/tags/");
            crate::text::append_str(&mut name, tag.as_str());
            match lookup(refs, &name) {
                Some(commit) => Ok(commit),
                None => Err(Error::new(ErrorKind::InvalidGitBranch, tag.as_str())),
            }
        },
    }
}

/// An error of the transport is kept as an error; anything else, success or
/// not, is handed on as it is.
pub fn tolerate_non_git_errors<T>(result: Result<T, Error>) -> (r: Result<Result<T, Error>, Error>)
    ensures
        match result {
            Err(e) => if e.kind == ErrorKind::GitError {
                r matches Err(fatal) && fatal@ == (ErrorKind::GitError, Seq::<char>::empty())
            } else {
                r == Ok::<Result<T, Error>, Error>(result)
            },
            Ok(_) => r == Ok::<Result<T, Error>, Error>(result),
        },
{
    match result {
        Err(e) => {
            if e.kind == ErrorKind::GitError {
                Err(Error::bare(ErrorKind::GitError))
            } else {
                Ok(Err(e))
            }
        },
        Ok(value) => Ok(Ok(value)),
    }
}

/// Whether resolving the selector takes the references of the repository: a
/// commit is resolved without them.
pub open spec fn spec_needs_remote_refs(treeish: GitTreeishView) -> bool {
    match treeish {
        GitTreeishView::Commit(_) => false,
        GitTreeishView::AnythingGoes(t) => !is_commit_hash(t),
        _ => true,
    }
}

pub fn needs_remote_refs(treeish: &GitTreeish) -> (r: bool)
    ensures
        r == spec_needs_remote_refs(treeish@),
{
    match treeish {
        GitTreeish::Commit(_) => false,
        GitTreeish::AnythingGoes(t) => {
            let chars = chars_of(t.as_str());
            !check_commit_hash(&chars)
        },
        _ => true,
    }
}

/// One reading of a selector against the outcome of listing the repository.
pub open spec fn spec_attempt(
    listing: Result<Seq<(Seq<char>, Seq<char>)>, (ErrorKind, Seq<char>)>,
    treeish: GitTreeishView,
) -> Result<Seq<char>, (ErrorKind, Seq<char>)> {
    match listing {
        Ok(refs) => spec_resolve_stricter(refs, treeish),
        Err(e) => Err(e),
    }
}

/// The commit that a selector names, given the outcome of listing the
/// repository.
///
/// A selector that says what it is is read that way. One that does not is
/// taken as a commit where it is written as one; else as a tag, then as a
/// branch, whichever the repository has. That the repository could not be
/// reached ends the search at once; that one reading names nothing does not.
pub open spec fn spec_resolve_git_treeish(
    treeish: GitTreeishView,
    listing: Result<Seq<(Seq<char>, Seq<char>)>, (ErrorKind, Seq<char>)>,
) -> Result<Seq<char>, (ErrorKind, Seq<char>)> {
    match treeish {
        GitTreeishView::Commit(commit) => spec_resolve_stricter(Seq::empty(), treeish),
        GitTreeishView::AnythingGoes(t) => if is_commit_hash(t) {
            Ok(t)
        } else {
            match spec_attempt(listing, GitTreeishView::Tag(t)) {
                Ok(commit) => Ok(commit),
                Err(e) => if e.0 == ErrorKind::GitError {
                    Err((ErrorKind::GitError, Seq::empty()))
                } else {
                    match spec_attempt(listing, GitTreeishView::Head(t)) {
                        Ok(commit) => Ok(commit),
                        Err(e) => if e.0 == ErrorKind::GitError {
                            Err((ErrorKind::GitError, Seq::empty()))
                        } else {
                            Err((ErrorKind::InvalidGitSpecifier, Seq::empty()))
                        },
                    }
                },
            }
        },
        _ => spec_attempt(listing, treeish),
    }
}

pub open spec fn listing_view(listing: Result<Vec<RemoteRef>, Error>) -> Result<
    Seq<(Seq<char>, Seq<char>)>,
    (ErrorKind, Seq<char>),
> {
    match listing {
        Ok(refs) => Ok(ref_views(refs@)),
        Err(e) => Err(e@),
    }
}

fn attempt(listing: &Result<Vec<RemoteRef>, Error>, treeish: &GitTreeish) -> (r: Result<
    String,
    Error,
>)
    requires
        !(treeish is AnythingGoes),
    ensures
        text_result_view(r) == spec_attempt(listing_view(*listing), treeish@),
{
    match listing {
        Ok(refs) => resolve_git_treeish_stricter(refs, treeish),
        Err(e) => Err(e.duplicate()),
    }
}

/// Resolves the selector of a requirement. `listing` is what listing the
/// references of the repository gave; it is not looked at where
/// `needs_remote_refs` says that it is not needed.
pub fn resolve_git_treeish(git_range: &GitRange, listing: Result<Vec<RemoteRef>, Error>) -> (r:
    Result<String, Error>)
    ensures
        text_result_view(r) == spec_resolve_git_treeish(
            git_range@.treeish,
            listing_view(listing),
        ),
{
    match &git_range.treeish {
        GitTreeish::Commit(_) => {
            let none: Vec<RemoteRef> = Vec::new();
            assert(ref_views(none@) =~= Seq::empty());
            resolve_git_treeish_stricter(&none, &git_range.treeish)
        },
        GitTreeish::AnythingGoes(t) => {
            let chars = chars_of(t.as_str());
            if check_commit_hash(&chars) {
                return Ok(t.clone());
            }
            let as_tag = GitTreeish::Tag(t.clone());
            match tolerate_non_git_errors(attempt(&listing, &as_tag)) {
                Err(fatal) => Err(fatal),
                Ok(Ok(commit)) => Ok(commit),
                Ok(Err(_)) => {
                    let as_head = GitTreeish::Head(t.clone());
                    match tolerate_non_git_errors(attempt(&listing, &as_head)) {
                        Err(fatal) => Err(fatal),
                        Ok(Ok(commit)) => Ok(commit),
                        Ok(Err(_)) => Err(Error::bare(ErrorKind::InvalidGitSpecifier)),
                    }
                },
            }
        },
        _ => attempt(&listing, &git_range.treeish),
    }
}

} // verus!

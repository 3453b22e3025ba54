//! Paths: slash-separated, kept in their shortest spelling.
use crate::path_resolve::{join_path, resolve_path, spec_join_path, spec_resolve_path};
use crate::text::{chars_of, string_of};
use vstd::prelude::*;

verus! {

/// A path.
#[derive(Debug)]
pub struct Path {
    pub path: String,
}

impl View for Path {
    type V = Seq<char>;

    open spec fn view(&self) -> Seq<char> {
        self.path@
    }
}

impl Path {
    /// The empty path.
    pub fn new() -> (p: Path)
        ensures
            p@ == Seq::<char>::empty(),
    {
        Path { path: String::new() }
    }

    /// The root.
    pub fn root() -> (p: Path)
        ensures
            p@ == "/"@,
    {
        Path { path: string_of(&chars_of("/")) }
    }

    /// The path that a text writes, in its shortest spelling.
    pub fn from_str(text: &str) -> (p: Path)
        ensures
            p@ == spec_resolve_path(text@),
    {
        Path { path: resolve_path(text) }
    }

    pub fn as_str(&self) -> (text: &str)
        ensures
            text@ == self@,
    {
        self.path.as_str()
    }

    /// The path `rel` as seen from this one.
    pub fn with_join(&self, rel: &Path) -> (p: Path)
        ensures
            p@ == spec_join_path(self@, rel@),
    {
        Path { path: join_path(self.path.as_str(), rel.path.as_str()) }
    }

    /// The path that `rel` writes, as seen from this one.
    pub fn with_join_str(&self, rel: &str) -> (p: Path)
        ensures
            p@ == spec_join_path(self@, rel@),
    {
        Path { path: join_path(self.path.as_str(), rel) }
    }
}

/// What can go wrong with a path.
#[derive(Debug)]
pub enum PathError {
    /// The path must not be changed.
    Immutable,
    /// Reading or writing failed, with this message.
    Io(String),
    /// The path is not UTF-8, as this message says.
    FromUtf8Error(String),
}

impl PathError {
    pub open spec fn spec_text(self) -> Seq<char> {
        match self {
            PathError::Immutable => "Immutable paths cannot be modified"@,
            PathError::Io(message) => "I/O error: "@ + message@,
            PathError::FromUtf8Error(message) => "UTF-8 path error: "@ + message@,
        }
    }

    /// The error in words.
    pub fn to_file_string(&self) -> (text: String)
        ensures
            text@ == self.spec_text(),
    {
        match self {
            PathError::Immutable => string_of(&chars_of("Immutable paths cannot be modified")),
            PathError::Io(message) => {
                let mut out = chars_of("I/O error: ");
                crate::text::append_str(&mut out, message.as_str());
                string_of(&out)
            },
            PathError::FromUtf8Error(message) => {
                let mut out = chars_of("UTF-8 path error: ");
                crate::text::append_str(&mut out, message.as_str());
                string_of(&out)
            },
        }
    }
}

/// The directory that stands in for the current one, where one was set: a
/// caller passes the directory to work in ahead of its arguments, and is
/// not moved there.
#[derive(Debug)]
pub struct FakeCwd {
    pub cwd: Option<Path>,
}

impl FakeCwd {
    pub fn new() -> (state: FakeCwd)
        ensures
            state.cwd is None,
    {
        FakeCwd { cwd: None }
    }
}

/// Sets the directory that stands in for the current one.
pub fn set_fake_cwd(state: &mut FakeCwd, cwd: Path)
    ensures
        final(state).cwd == Some(cwd),
{
    state.cwd = Some(cwd);
}

/// The directory that stands in for the current one, if one was set.
pub fn get_fake_cwd(state: &FakeCwd) -> (cwd: Option<Path>)
    ensures
        crate::keyed::option_view(cwd) == crate::keyed::option_view(state.cwd),
{
    match &state.cwd {
        Some(p) => Some(Path { path: p.path.clone() }),
        None => None,
    }
}

/// The directory to work in: the one that was set, and else the current
/// one, as the caller found it.
pub fn get_final_cwd(state: &FakeCwd, current_dir: Result<Path, PathError>) -> (r: Result<
    Path,
    PathError,
>)
    ensures
        match state.cwd {
            Some(fake) => r matches Ok(p) && p@ == fake@,
            None => r == current_dir,
        },
{
    match get_fake_cwd(state) {
        Some(cwd) => Ok(cwd),
        None => current_dir,
    }
}

} // verus!

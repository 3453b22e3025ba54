//! The errors of the engine.
use crate::keyed::Duplicate;
use crate::text::{chars_of, string_of};
use vstd::prelude::*;

verus! {

/// What went wrong.
#[derive(Clone, Copy, Debug, PartialEq, Eq, Structural)]
pub enum ErrorKind {
    /// The text is not the address of a git repository.
    InvalidGitUrl,
    /// The repository could not be reached.
    GitError,
    /// No reading of the selector names anything in the repository.
    InvalidGitSpecifier,
    /// The repository has no such branch or tag.
    InvalidGitBranch,
    /// The commit is not forty hexadecimal digits.
    InvalidGitCommit,
    /// No version satisfies the range.
    NoCandidatesFound,
    /// The registry does not know the package.
    PackageNotFound,
    /// The package has no such tag.
    MissingSemverTag,
    /// The registry could not be reached, or answered with an error.
    RemoteRegistryError,
    /// The project has no such workspace.
    WorkspaceNotFound,
    /// The archive holds no manifest.
    MissingPackageManifest,
    /// The kind of requirement or reference is not handled.
    Unsupported,
    /// A version range could not be read.
    InvalidSemverRange,
    /// A resolution selector could not be read.
    InvalidResolution,
    /// Reading or writing a file failed.
    IoError,
    /// Stored data could not be decoded.
    SerializationError,
}

/// An error: its kind, and the text it is about (a name, an address, a
/// selector), empty where the kind says it all.
#[derive(Debug)]
pub struct Error {
    pub kind: ErrorKind,
    pub detail: String,
}

impl View for Error {
    type V = (ErrorKind, Seq<char>);

    open spec fn view(&self) -> (ErrorKind, Seq<char>) {
        (self.kind, self.detail@)
    }
}

impl Duplicate for Error {
    fn duplicate(&self) -> (copy: Self) {
        Error { kind: self.kind, detail: self.detail.clone() }
    }
}

impl Error {
    pub fn new(kind: ErrorKind, detail: &str) -> (e: Error)
        ensures
            e@ == (kind, detail@),
    {
        let v = chars_of(detail);
        Error { kind, detail: string_of(&v) }
    }

    pub fn of_chars(kind: ErrorKind, detail: &Vec<char>) -> (e: Error)
        ensures
            e@ == (kind, detail@),
    {
        Error { kind, detail: string_of(detail) }
    }

    /// An error that needs no detail.
    pub fn bare(kind: ErrorKind) -> (e: Error)
        ensures
            e@ == (kind, Seq::<char>::empty()),
    {
        Error { kind, detail: String::new() }
    }

    /// Whether the error says that something asked for does not exist.
    pub open spec fn spec_is_not_found(kind: ErrorKind) -> bool {
        kind == ErrorKind::NoCandidatesFound || kind == ErrorKind::PackageNotFound || kind
            == ErrorKind::MissingSemverTag || kind == ErrorKind::WorkspaceNotFound
    }

    pub fn is_not_found(&self) -> (r: bool)
        ensures
            r == Self::spec_is_not_found(self.kind),
    {
        self.kind == ErrorKind::NoCandidatesFound || self.kind == ErrorKind::PackageNotFound
            || self.kind == ErrorKind::MissingSemverTag || self.kind
            == ErrorKind::WorkspaceNotFound
    }
}

/// The view of a result whose error is an `Error`.
pub open spec fn result_view<T: View>(r: Result<T, Error>) -> Result<T::V, (ErrorKind, Seq<char>)> {
    match r {
        Ok(value) => Ok(value@),
        Err(e) => Err(e@),
    }
}

/// The view of a result that holds text.
pub open spec fn text_result_view(r: Result<String, Error>) -> Result<
    Seq<char>,
    (ErrorKind, Seq<char>),
> {
    match r {
        Ok(value) => Ok(value@),
        Err(e) => Err(e@),
    }
}

} // verus!

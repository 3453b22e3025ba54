//! The content of a package, and how it is come by for each kind of
//! reference.
pub mod portal;
pub mod workspace;

use crate::archive::{
    archive_root, craft_zip, entry_named, entry_views, gunzip, gunzipped, prefix_entries,
    prepare_entries, spec_archive_root, spec_entry_named, spec_prefix_entries,
    spec_prepare_entries, spec_zip_makes, text_of_bytes, zip_entry, zip_entry_of, zip_packed,
    Entry,
};
use crate::tar::{entries_from_tar, spec_named, spec_tar_files};
use crate::cache::{copy_bytes, spec_fresh_blob, Blob, BlobView, CompositeCache};
use crate::config::Config;
use crate::error::{Error, ErrorKind};
use crate::git::{GitReference, GitReferenceView};
use crate::keyed::{option_view, Duplicate};
use crate::path_resolve::{join_path, spec_join_path};
use crate::primitives::{Ident, Locator, LocatorView, Reference, ReferenceView};
use crate::project::{spec_by_ident, Project};
use crate::semver::Version;
use crate::install::{FetchResult, FetchResultView};
use crate::resolution::{
    RemoteManifest, RemoteManifestView, Requirements, RequirementsView, Resolution,
    ResolutionView,
};
use crate::text::{append_str, chars_of, string_of};
use vstd::prelude::*;

verus! {

/// The content of a package: a directory that is used where it lies, or an
/// archive in the one stored form together with its digest.
#[derive(Debug)]
pub enum PackageData {
    Local { path: String, discard_from_lookup: bool },
    Zip { path: String, data: Vec<u8>, checksum: String },
}

pub enum PackageDataView {
    Local { path: Seq<char>, discard_from_lookup: bool },
    Zip { path: Seq<char>, data: Seq<u8>, checksum: Seq<char> },
}

impl View for PackageData {
    type V = PackageDataView;

    open spec fn view(&self) -> PackageDataView {
        match self {
            PackageData::Local { path, discard_from_lookup } => PackageDataView::Local {
                path: path@,
                discard_from_lookup: *discard_from_lookup,
            },
            PackageData::Zip { path, data, checksum } => PackageDataView::Zip {
                path: path@,
                data: data@,
                checksum: checksum@,
            },
        }
    }
}

impl Duplicate for PackageData {
    fn duplicate(&self) -> (copy: Self) {
        match self {
            PackageData::Local { path, discard_from_lookup } => PackageData::Local {
                path: path.clone(),
                discard_from_lookup: *discard_from_lookup,
            },
            PackageData::Zip { path, data, checksum } => PackageData::Zip {
                path: path.clone(),
                data: copy_bytes(data),
                checksum: checksum.clone(),
            },
        }
    }
}

/// How a package is put in place: copied, or pointed at.
#[derive(Clone, Copy, Debug, PartialEq, Eq, Structural)]
pub enum PackageLinking {
    Hard,
    Soft,
}

impl PackageLinking {
    pub open spec fn spec_text(self) -> Seq<char> {
        match self {
            PackageLinking::Hard => "hard"@,
            PackageLinking::Soft => "soft"@,
        }
    }

    pub fn to_file_string(&self) -> (text: String)
        ensures
            text@ == self.spec_text(),
    {
        match self {
            PackageLinking::Hard => string_of(&chars_of("hard")),
            PackageLinking::Soft => string_of(&chars_of("soft")),
        }
    }
}

/// A text to be read: at hand, or in a file that the caller has to read.
#[derive(Debug)]
pub enum TextSource {
    Text(String),
    File(String),
}

pub open spec fn spec_path(data: PackageDataView) -> Seq<char> {
    match data {
        PackageDataView::Local { path, .. } => path,
        PackageDataView::Zip { path, .. } => path,
    }
}

/// Where the package lies inside its content: at the top of a directory,
/// below `node_modules/<ident>` in an archive.
pub open spec fn spec_source_dir(data: PackageDataView, ident: Seq<char>) -> Seq<char> {
    match data {
        PackageDataView::Local { .. } => "."@,
        PackageDataView::Zip { .. } => spec_archive_root(ident),
    }
}

/// The directory of the package: where its content is, and in it where the
/// package lies.
pub open spec fn spec_context_directory(data: PackageDataView, ident: Seq<char>) -> Seq<char> {
    spec_join_path(spec_path(data), spec_source_dir(data, ident))
}

/// The text of the entry `name` of an archive, given what the archive
/// holds under that name: the bytes read as UTF-8. A missing entry, and
/// one that is no text, is an error of reading that names the entry.
pub fn text_of_entry(name: &str, entry: Option<Vec<u8>>) -> (r: Result<TextSource, Error>)
    ensures
        match entry {
            Some(bytes) => if vstd::utf8::valid_utf8(bytes@) {
                r matches Ok(TextSource::Text(text)) && vstd::utf8::encode_utf8(text@) == bytes@
            } else {
                r matches Err(e) && e@ == (ErrorKind::IoError, name@)
            },
            None => r matches Err(e) && e@ == (ErrorKind::IoError, name@),
        },
{
    match entry {
        Some(bytes) => match text_of_bytes(bytes) {
            Some(text) => Ok(TextSource::Text(text)),
            None => Err(Error::new(ErrorKind::IoError, name)),
        },
        None => Err(Error::new(ErrorKind::IoError, name)),
    }
}

impl PackageData {
    /// Where the content is.
    pub fn path(&self) -> (path: &String)
        ensures
            path@ == spec_path(self@),
    {
        match self {
            PackageData::Local { path, .. } => path,
            PackageData::Zip { path, .. } => path,
        }
    }

    pub fn source_dir(&self, locator: &Locator) -> (dir: String)
        ensures
            dir@ == spec_source_dir(self@, locator@.ident),
    {
        match self {
            PackageData::Local { .. } => string_of(&chars_of(".")),
            PackageData::Zip { .. } => archive_root(&locator.ident),
        }
    }

    pub fn context_directory(&self, locator: &Locator) -> (dir: String)
        ensures
            dir@ == spec_context_directory(self@, locator@.ident),
    {
        let inner = self.source_dir(locator);
        join_path(self.path().as_str(), inner.as_str())
    }

    /// The digest of an archive; a directory has none.
    pub fn checksum(&self) -> (checksum: Option<String>)
        ensures
            match self@ {
                PackageDataView::Local { .. } => checksum is None,
                PackageDataView::Zip { checksum: c, .. } => checksum is Some && checksum->0@ == c,
            },
    {
        match self {
            PackageData::Local { .. } => None,
            PackageData::Zip { checksum, .. } => Some(checksum.clone()),
        }
    }

    /// A directory is pointed at, an archive is copied.
    pub fn link_type(&self) -> (linking: PackageLinking)
        ensures
            linking == (if self@ is Local {
                PackageLinking::Soft
            } else {
                PackageLinking::Hard
            }),
    {
        match self {
            PackageData::Local { .. } => PackageLinking::Soft,
            PackageData::Zip { .. } => PackageLinking::Hard,
        }
    }

    /// The text of the file at `p`. In a directory it is for the caller to
    /// read, at the path given; in an archive it is the entry of that
    /// name, which must be there and be text.
    pub fn read_text(&self, p: &str) -> (r: Result<TextSource, Error>)
        ensures
            match self@ {
                PackageDataView::Local { path, .. } => r matches Ok(TextSource::File(file))
                    && file@ == spec_join_path(path, p@),
                PackageDataView::Zip { data, .. } => match zip_entry_of(data, p@) {
                    Some(bytes) => if vstd::utf8::valid_utf8(bytes) {
                        r matches Ok(TextSource::Text(text)) && vstd::utf8::encode_utf8(text@)
                            == bytes
                    } else {
                        r matches Err(e) && e@ == (ErrorKind::IoError, p@)
                    },
                    None => r matches Err(e) && e@ == (ErrorKind::IoError, p@),
                },
            },
    {
        match self {
            PackageData::Local { path, .. } => Ok(TextSource::File(join_path(path.as_str(), p))),
            PackageData::Zip { data, .. } => text_of_entry(p, zip_entry(data, p)),
        }
    }

    /// The content that an archive of the cache is.
    pub fn from_blob(blob: Blob) -> (data: PackageData)
        ensures
            data@ == (PackageDataView::Zip {
                path: blob@.path,
                data: blob@.data,
                checksum: blob@.checksum,
            }),
    {
        PackageData::Zip { path: blob.path, data: blob.data, checksum: blob.checksum }
    }
}

/// The path `path` as seen from the package `parent` with the content
/// `parent_data`.
pub open spec fn spec_relative_path(
    path: Seq<char>,
    parent: LocatorView,
    parent_data: PackageDataView,
) -> Seq<char> {
    spec_join_path(spec_context_directory(parent_data, parent.ident), path)
}

fn relative_path(path: &str, parent: &Locator, parent_data: &PackageData) -> (joined: String)
    ensures
        joined@ == spec_relative_path(path@, parent@, parent_data@),
{
    let directory = parent_data.context_directory(parent);
    join_path(directory.as_str(), path)
}

/// The content of a linked package: the directory at `path`, seen from the
/// parent, which is not looked into.
pub fn fetch_link(path: &str, parent: &Option<Locator>, parent_data: Option<PackageData>) -> (r:
    Result<PackageData, Error>)
    requires
        parent is Some,
        parent_data is Some,
    ensures
        r matches Ok(data) && data@ == (PackageDataView::Local {
            path: spec_relative_path(path@, parent->0@, parent_data->0@),
            discard_from_lookup: true,
        }),
{
    match (parent, &parent_data) {
        (Some(parent), Some(parent_data)) => Ok(
            PackageData::Local {
                path: relative_path(path, parent, parent_data),
                discard_from_lookup: true,
            },
        ),
        _ => Err(Error::bare(ErrorKind::Unsupported)),
    }
}

/// The content of a portal: the directory at `path`, seen from the parent.
pub fn fetch_portal(path: &str, parent: &Option<Locator>, parent_data: Option<PackageData>) -> (r:
    Result<PackageData, Error>)
    requires
        parent is Some,
        parent_data is Some,
    ensures
        r matches Ok(data) && data@ == (PackageDataView::Local {
            path: spec_relative_path(path@, parent->0@, parent_data->0@),
            discard_from_lookup: false,
        }),
{
    match (parent, &parent_data) {
        (Some(parent), Some(parent_data)) => Ok(
            PackageData::Local {
                path: relative_path(path, parent, parent_data),
                discard_from_lookup: false,
            },
        ),
        _ => Err(Error::bare(ErrorKind::Unsupported)),
    }
}

/// The content of a workspace: the directory it lies in.
pub fn fetch_workspace(project: &Project, ident: &Ident) -> (r: Result<PackageData, Error>)
    ensures
        match spec_by_ident(project.workspaces@, ident@, project.workspaces@.len()) {
            Some(i) => r matches Ok(data) && data@ == (PackageDataView::Local {
                path: project.workspaces@[i].path@,
                discard_from_lookup: false,
            }),
            None => r matches Err(e) && e@ == (ErrorKind::WorkspaceNotFound, ident@),
        },
{
    match project.workspace_by_ident(ident) {
        Ok(workspace) => Ok(
            PackageData::Local { path: workspace.path.clone(), discard_from_lookup: false },
        ),
        Err(e) => Err(e),
    }
}

/// What has to be done to come by the archive of a package.
#[derive(Debug)]
pub enum Production {
    /// Download the archive from this address and repack it.
    Download { url: String },
    /// Repack the archive at this path.
    Tarball { path: String },
    /// Pack the directory at this path.
    Folder { path: String },
    /// Check out this commit and pack it.
    Clone { reference: GitReference },
    /// Apply the patch file at this path to the package named by `inner`.
    Patch { inner: String, path: String },
}

pub enum ProductionView {
    Download { url: Seq<char> },
    Tarball { path: Seq<char> },
    Folder { path: Seq<char> },
    Clone { reference: GitReferenceView },
    Patch { inner: Seq<char>, path: Seq<char> },
}

impl View for Production {
    type V = ProductionView;

    open spec fn view(&self) -> ProductionView {
        match self {
            Production::Download { url } => ProductionView::Download { url: url@ },
            Production::Tarball { path } => ProductionView::Tarball { path: path@ },
            Production::Folder { path } => ProductionView::Folder { path: path@ },
            Production::Clone { reference } => ProductionView::Clone { reference: reference@ },
            Production::Patch { inner, path } => ProductionView::Patch {
                inner: inner@,
                path: path@,
            },
        }
    }
}

/// The next step of fetching a package: its content, where that is a
/// directory; or what the cache has to be asked for, and how to produce it
/// where the cache does not have it.
#[derive(Debug)]
pub enum FetchStep {
    Done(PackageData),
    Produce(Production),
}

pub enum FetchStepView {
    Done(PackageDataView),
    Produce(ProductionView),
}

impl View for FetchStep {
    type V = FetchStepView;

    open spec fn view(&self) -> FetchStepView {
        match self {
            FetchStep::Done(data) => FetchStepView::Done(data@),
            FetchStep::Produce(production) => FetchStepView::Produce(production@),
        }
    }
}

/// How each kind of reference is fetched. What lies in a directory is
/// there at once; everything else comes through the cache. A relative
/// reference is seen from its parent, of which both the locator and the
/// content must be given.
pub open spec fn spec_fetch(
    project: Project,
    locator: LocatorView,
    parent_data: Option<PackageDataView>,
) -> Result<FetchStepView, (ErrorKind, Seq<char>)> {
    let registry = project.config.project.npm_registry_server.value@;
    match locator.reference {
        ReferenceView::Link(path) => match (locator.parent, parent_data) {
            (Some(parent), Some(data)) => Ok(
                FetchStepView::Done(
                    PackageDataView::Local {
                        path: spec_relative_path(path, *parent, data),
                        discard_from_lookup: true,
                    },
                ),
            ),
            _ => Err((ErrorKind::Unsupported, Seq::empty())),
        },
        ReferenceView::Portal(path) => match (locator.parent, parent_data) {
            (Some(parent), Some(data)) => Ok(
                FetchStepView::Done(
                    PackageDataView::Local {
                        path: spec_relative_path(path, *parent, data),
                        discard_from_lookup: false,
                    },
                ),
            ),
            _ => Err((ErrorKind::Unsupported, Seq::empty())),
        },
        ReferenceView::Tarball(path) => match (locator.parent, parent_data) {
            (Some(parent), Some(data)) => Ok(
                FetchStepView::Produce(
                    ProductionView::Tarball { path: spec_relative_path(path, *parent, data) },
                ),
            ),
            _ => Err((ErrorKind::Unsupported, Seq::empty())),
        },
        ReferenceView::Folder(path) => match (locator.parent, parent_data) {
            (Some(parent), Some(data)) => Ok(
                FetchStepView::Produce(
                    ProductionView::Folder { path: spec_relative_path(path, *parent, data) },
                ),
            ),
            _ => Err((ErrorKind::Unsupported, Seq::empty())),
        },
        ReferenceView::Semver(version) => Ok(
            FetchStepView::Produce(
                ProductionView::Download {
                    url: Config::spec_registry_url_for_package_data(
                        registry,
                        locator.ident,
                        version,
                    ),
                },
            ),
        ),
        ReferenceView::SemverAlias(ident, version) => Ok(
            FetchStepView::Produce(
                ProductionView::Download {
                    url: Config::spec_registry_url_for_package_data(registry, ident, version),
                },
            ),
        ),
        ReferenceView::Url(url) => Ok(FetchStepView::Produce(ProductionView::Download { url })),
        ReferenceView::Git(reference) => Ok(
            FetchStepView::Produce(ProductionView::Clone { reference }),
        ),
        ReferenceView::Patch(inner, path) => match (locator.parent, parent_data) {
            (Some(parent), Some(data)) => Ok(
                FetchStepView::Produce(
                    ProductionView::Patch {
                        inner,
                        path: spec_relative_path(path, *parent, data),
                    },
                ),
            ),
            _ => Err((ErrorKind::Unsupported, Seq::empty())),
        },
        ReferenceView::Workspace(ident) => match spec_by_ident(
            project.workspaces@,
            ident,
            project.workspaces@.len(),
        ) {
            Some(i) => Ok(
                FetchStepView::Done(
                    PackageDataView::Local {
                        path: project.workspaces@[i].path@,
                        discard_from_lookup: false,
                    },
                ),
            ),
            None => Err((ErrorKind::WorkspaceNotFound, ident)),
        },
    }
}

/// Where fetching succeeds, the content is there at once exactly for the
/// references to a directory that is used where it lies; every other
/// reference goes through the cache.
pub proof fn law_only_directories_skip_the_cache(
    project: Project,
    locator: LocatorView,
    parent_data: Option<PackageDataView>,
)
    ensures
        spec_fetch(project, locator, parent_data) matches Ok(step) ==> (step is Done
            <==> Reference::spec_is_local(locator.reference)),
        spec_fetch(project, locator, parent_data) matches Ok(FetchStepView::Done(data))
            ==> data is Local,
{
}

/// The first step of fetching the package at `locator`.
pub fn fetch(project: &Project, locator: &Locator, parent_data: Option<PackageData>) -> (r: Result<
    FetchStep,
    Error,
>)
    ensures
        crate::error::result_view(r) == spec_fetch(*project, locator@, option_view(parent_data)),
{
    let parent = locator.parent();
    match &locator.reference {
        Reference::Link(path) => {
            if parent.is_some() && parent_data.is_some() {
                match fetch_link(path.as_str(), &parent, parent_data) {
                    Ok(data) => Ok(FetchStep::Done(data)),
                    Err(e) => Err(e),
                }
            } else {
                Err(Error::bare(ErrorKind::Unsupported))
            }
        },
        Reference::Portal(path) => {
            if parent.is_some() && parent_data.is_some() {
                match fetch_portal(path.as_str(), &parent, parent_data) {
                    Ok(data) => Ok(FetchStep::Done(data)),
                    Err(e) => Err(e),
                }
            } else {
                Err(Error::bare(ErrorKind::Unsupported))
            }
        },
        Reference::Tarball(path) => match (&parent, &parent_data) {
            (Some(parent), Some(data)) => Ok(
                FetchStep::Produce(
                    Production::Tarball { path: relative_path(path.as_str(), parent, data) },
                ),
            ),
            _ => Err(Error::bare(ErrorKind::Unsupported)),
        },
        Reference::Folder(path) => match (&parent, &parent_data) {
            (Some(parent), Some(data)) => Ok(
                FetchStep::Produce(
                    Production::Folder { path: relative_path(path.as_str(), parent, data) },
                ),
            ),
            _ => Err(Error::bare(ErrorKind::Unsupported)),
        },
        Reference::Semver(version) => Ok(
            FetchStep::Produce(
                Production::Download {
                    url: project.config.registry_url_for_package_data(&locator.ident, version),
                },
            ),
        ),
        Reference::SemverAlias(ident, version) => Ok(
            FetchStep::Produce(
                Production::Download {
                    url: project.config.registry_url_for_package_data(ident, version),
                },
            ),
        ),
        Reference::Url(url) => Ok(FetchStep::Produce(Production::Download { url: url.clone() })),
        Reference::Git(reference) => Ok(
            FetchStep::Produce(Production::Clone { reference: reference.duplicate() }),
        ),
        Reference::Patch(inner, path) => match (&parent, &parent_data) {
            (Some(parent), Some(data)) => Ok(
                FetchStep::Produce(
                    Production::Patch {
                        inner: inner.clone(),
                        path: relative_path(path.as_str(), parent, data),
                    },
                ),
            ),
            _ => Err(Error::bare(ErrorKind::Unsupported)),
        },
        Reference::Workspace(ident) => match fetch_workspace(project, ident) {
            Ok(data) => Ok(FetchStep::Done(data)),
            Err(e) => Err(e),
        },
    }
}

/// The address from which the registry serves a version of a package.
pub fn fetch_semver(project: &Project, ident: &Ident, version: &Version) -> (production: Production)
    ensures
        production@ == (ProductionView::Download {
            url: Config::spec_registry_url_for_package_data(
                project.config.project.npm_registry_server.value@,
                ident@,
                *version,
            ),
        }),
{
    Production::Download { url: project.config.registry_url_for_package_data(ident, version) }
}

/// Repacks a gzipped tar archive of a package into the stored form: the
/// files, without the directory that wraps them, below
/// `node_modules/<ident>` in a zip archive.
///
/// Bytes that do not unpack, an archive that cannot be read, and a package
/// without a manifest are refused.
pub fn convert_tar_gz_to_zip(ident: &Ident, tar_gz_data: &Vec<u8>) -> (r: Result<Vec<u8>, Error>)
    ensures
        r matches Ok(bytes) ==> spec_repacked(ident@, tar_gz_data@, bytes@),
        r matches Err(e) ==> spec_repack_refused(ident@, tar_gz_data@, e@),
{
    let decompressed = match gunzip(tar_gz_data) {
        Some(bytes) => bytes,
        None => {
            return Err(Error::bare(ErrorKind::IoError));
        },
    };
    let ghost files = spec_tar_files(decompressed@, 0);
    let entries = match entries_from_tar(&decompressed) {
        Ok(entries) => entries,
        Err(e) => {
            return Err(e);
        },
    };
    let ghost listed = entry_views(entries@);
    proof {
        assert forall|i: int| 0 <= i < files->0.len() implies vstd::utf8::valid_utf8(
            (#[trigger] files->0[i]).0,
        ) by {
            vstd::utf8::encode_utf8_valid_utf8(listed[i].0);
        }
    }
    let prepared = match prepare_entries(ident, entries) {
        Ok(prepared) => prepared,
        Err(e) => {
            assert(spec_prepare_entries(ident@, listed) == Err::<
                Seq<(Seq<char>, Seq<u8>)>,
                (ErrorKind, Seq<char>),
            >(e@));
            return Err(e);
        },
    };
    assert(spec_prepare_entries(ident@, listed) == Ok::<
        Seq<(Seq<char>, Seq<u8>)>,
        (ErrorKind, Seq<char>),
    >(entry_views(prepared@)));
    craft_zip(&prepared)
}

/// Packs the files of a directory into the stored form: below
/// `node_modules/<ident>` in a zip archive. A directory without a manifest
/// is refused.
pub fn convert_folder_to_zip(ident: &Ident, entries: Vec<Entry>) -> (r: Result<Vec<u8>, Error>)
    ensures
        r matches Ok(bytes) ==> {
            &&& spec_entry_named(entry_views(entries@), "package.json"@, entries@.len()) is Some
            &&& spec_zip_makes(
                spec_prefix_entries(entry_views(entries@), spec_archive_root(ident@)),
            )
            &&& zip_packed(spec_prefix_entries(entry_views(entries@), spec_archive_root(ident@)))
                == Some(bytes@)
        },
        r matches Err(e) ==> spec_pack_refused(ident@, entry_views(entries@), e@),
{
    match entry_named(&entries, "package.json") {
        None => Err(Error::new(ErrorKind::MissingPackageManifest, ident.as_str())),
        Some(_) => {
            let root = archive_root(ident);
            let prefixed = prefix_entries(entries, root.as_str());
            craft_zip(&prefixed)
        },
    }
}

/// The result of a resolution that read its manifest from the archive it
/// fetched: the dependencies and the peers are those of the manifest.
pub open spec fn spec_resolution_from_archive(
    locator: LocatorView,
    manifest: RemoteManifestView,
    data: PackageDataView,
) -> FetchResultView {
    FetchResultView {
        resolution: Some(
            ResolutionView {
                locator,
                version: manifest.version,
                requirements: RequirementsView { os: Seq::empty(), cpu: Seq::empty() },
                dependencies: manifest.dependencies,
                peer_dependencies: manifest.peer_dependencies,
                optional_dependencies: Seq::empty(),
                missing_peer_dependencies: Seq::empty(),
            },
        ),
        package_data: data,
    }
}

/// What fetching a tarball or a folder yields, given the manifest that was
/// read from the archive.
pub fn fetch_with_manifest(locator: &Locator, manifest: RemoteManifest, data: PackageData) -> (r:
    FetchResult)
    requires
        manifest.wf(),
    ensures
        r@ == spec_resolution_from_archive(locator@, manifest@, data@),
        r.resolution is Some,
        r.resolution->0.wf(),
{
    let resolution = Resolution {
        locator: locator.duplicate(),
        version: manifest.version,
        requirements: Requirements::default(),
        dependencies: manifest.dependencies,
        peer_dependencies: manifest.peer_dependencies,
        optional_dependencies: Vec::new(),
        missing_peer_dependencies: Vec::new(),
    };
    assert(resolution@.optional_dependencies =~= Seq::empty());
    assert(resolution@.missing_peer_dependencies =~= Seq::empty());
    FetchResult { resolution: Some(resolution), package_data: data }
}

/// The name of the manifest of a package inside its archive in the stored
/// form.
pub open spec fn spec_manifest_name(ident: Seq<char>) -> Seq<char> {
    spec_archive_root(ident) + "/package.json"@
}

/// Whether `text` is what the manifest inside the archive `data` says.
pub open spec fn spec_is_manifest_text(data: Seq<u8>, ident: Seq<char>, text: Seq<char>) -> bool {
    zip_entry_of(data, spec_manifest_name(ident)) matches Some(bytes) && vstd::utf8::valid_utf8(
        bytes,
    ) && vstd::utf8::encode_utf8(text) == bytes
}

/// The content that an archive of the cache is.
pub open spec fn spec_blob_data(blob: BlobView) -> PackageDataView {
    PackageDataView::Zip { path: blob.path, data: blob.data, checksum: blob.checksum }
}

/// Reads the resolution of a package from its archive: the manifest in it
/// is handed to `parse`, and what comes back is taken for the package at
/// `locator`.
pub fn resolution_of_archive<P: FnOnce(String) -> Result<RemoteManifest, Error>>(
    locator: &Locator,
    blob: Blob,
    parse: P,
) -> (r: Result<(Resolution, PackageData), Error>)
    requires
        forall|text: String| parse.requires((text,)),
        forall|text: String, manifest: RemoteManifest|
            parse.ensures((text,), Ok::<RemoteManifest, Error>(manifest)) ==> manifest.wf(),
    ensures
        match r {
            Ok((resolution, data)) => {
                &&& data@ == spec_blob_data(blob@)
                &&& resolution.wf()
                &&& exists|text: String, manifest: RemoteManifest|
                    spec_is_manifest_text(blob@.data, locator@.ident, text@) && parse.ensures(
                        (text,),
                        Ok::<RemoteManifest, Error>(manifest),
                    ) && Some(resolution@) == spec_resolution_from_archive(
                        locator@,
                        manifest@,
                        data@,
                    ).resolution
            },
            Err(e) => spec_manifest_refused(blob@.data, locator@.ident, parse, e),
        },
{
    let data = PackageData::from_blob(blob);
    let mut name = chars_of("node_modules/");
    append_str(&mut name, locator.ident.as_str());
    append_str(&mut name, "/package.json");
    let name = string_of(&name);
    assert(name@ =~= spec_manifest_name(locator@.ident));
    match data.read_text(name.as_str()) {
        Ok(TextSource::Text(text)) => {
            let ghost said = text;
            assert(spec_is_manifest_text(blob@.data, locator@.ident, said@));
            match parse(text) {
                Ok(manifest) => {
                    let ghost read = manifest;
                    let fetched = fetch_with_manifest(locator, manifest, data);
                    match fetched.resolution {
                        Some(resolution) => {
                            assert(parse.ensures((said,), Ok::<RemoteManifest, Error>(read)));
                            Ok((resolution, fetched.package_data))
                        },
                        None => Err(Error::bare(ErrorKind::Unsupported)),
                    }
                },
                Err(e) => {
                    assert(parse.ensures((said,), Err::<RemoteManifest, Error>(e)));
                    Err(e)
                },
            }
        },
        Ok(TextSource::File(_)) => Err(Error::new(ErrorKind::IoError, name.as_str())),
        Err(e) => Err(e),
    }
}

/// Whether every file of an archive has a name that is text.
pub open spec fn spec_names_are_text(files: Seq<(Seq<u8>, Seq<u8>)>) -> bool {
    forall|i: int| 0 <= i < files.len() ==> vstd::utf8::valid_utf8((#[trigger] files[i]).0)
}

/// Why a gzipped tar archive is not repacked, cause by cause. The bytes do
/// not unpack, the archive cannot be read, or the name of a file is no
/// text: an error of reading and writing. The package has no manifest at
/// its top: that is said with the name of the package. Or, with all of
/// that in order, the archive in the stored form cannot be made: again an
/// error of reading and writing.
pub open spec fn spec_repack_refused(
    ident: Seq<char>,
    archive: Seq<u8>,
    e: (ErrorKind, Seq<char>),
) -> bool {
    match gunzipped(archive) {
        None => e == (ErrorKind::IoError, Seq::<char>::empty()),
        Some(tar) => match spec_tar_files(tar, 0) {
            None => e == (ErrorKind::IoError, Seq::<char>::empty()),
            Some(files) => if !spec_names_are_text(files) {
                e == (ErrorKind::IoError, Seq::<char>::empty())
            } else {
                exists|entries: Seq<(Seq<char>, Seq<u8>)>|
                    #![trigger spec_prepare_entries(ident, entries)]
                    spec_named(files, entries) && match spec_prepare_entries(ident, entries) {
                        Err(refused) => e == refused,
                        Ok(prepared) => e == (ErrorKind::IoError, Seq::<char>::empty())
                            && !spec_zip_makes(prepared),
                    }
            },
        },
    }
}

/// Why the files of a directory are not packed: there is no manifest among
/// them, which is said with the name of the package; or, with a manifest,
/// the archive cannot be made.
pub open spec fn spec_pack_refused(
    ident: Seq<char>,
    entries: Seq<(Seq<char>, Seq<u8>)>,
    e: (ErrorKind, Seq<char>),
) -> bool {
    if spec_entry_named(entries, "package.json"@, entries.len()) is None {
        e == (ErrorKind::MissingPackageManifest, ident)
    } else {
        e == (ErrorKind::IoError, Seq::<char>::empty()) && !spec_zip_makes(
            spec_prefix_entries(entries, spec_archive_root(ident)),
        )
    }
}

/// Why the resolution of a package cannot be read from its archive `data`:
/// the archive holds no manifest that is text, which is an error of
/// reading that names the manifest; or `parse` refused the manifest, with
/// the error given.
pub open spec fn spec_manifest_refused<P: FnOnce(String) -> Result<RemoteManifest, Error>>(
    data: Seq<u8>,
    ident: Seq<char>,
    parse: P,
    e: Error,
) -> bool {
    ||| (e@ == (ErrorKind::IoError, spec_manifest_name(ident)) && forall|text: Seq<char>|
        !spec_is_manifest_text(data, ident, text))
    ||| exists|text: String|
        spec_is_manifest_text(data, ident, text@) && parse.ensures(
            (text,),
            Err::<RemoteManifest, Error>(e),
        )
}

/// Whether `bytes` is the gzipped tar archive `archive` in the stored form:
/// its files, without the directory that wraps them, below
/// `node_modules/<ident>` in a zip archive.
pub open spec fn spec_repacked(ident: Seq<char>, archive: Seq<u8>, bytes: Seq<u8>) -> bool {
    gunzipped(archive) is Some && spec_tar_files(gunzipped(archive)->0, 0) is Some && exists|
        entries: Seq<(Seq<char>, Seq<u8>)>,
    |
        #![trigger spec_prepare_entries(ident, entries)]
        spec_named(spec_tar_files(gunzipped(archive)->0, 0)->0, entries) && spec_prepare_entries(
            ident,
            entries,
        ) is Ok && spec_zip_makes(spec_prepare_entries(ident, entries)->Ok_0) && zip_packed(
            spec_prepare_entries(ident, entries)->Ok_0,
        ) == Some(bytes)
}

/// Why no archive is made of the tarball at `file`: `read` did not hand
/// out its bytes, with the error given; or the bytes it handed out are not
/// repacked.
pub open spec fn spec_tarball_refused<F: FnOnce(String) -> Result<Vec<u8>, Error>>(
    ident: Seq<char>,
    file: String,
    read: F,
    e: Error,
) -> bool {
    ||| read.ensures((file,), Err::<Vec<u8>, Error>(e))
    ||| exists|archive: Vec<u8>|
        read.ensures((file,), Ok::<Vec<u8>, Error>(archive)) && spec_repack_refused(
            ident,
            archive@,
            e@,
        )
}

/// Why no archive is made of the directory at `directory`: `list` did not
/// hand out its files, with the error given; or the files it handed out
/// are not packed.
pub open spec fn spec_folder_refused<F: FnOnce(String) -> Result<Vec<Entry>, Error>>(
    ident: Seq<char>,
    directory: String,
    list: F,
    e: Error,
) -> bool {
    ||| list.ensures((directory,), Err::<Vec<Entry>, Error>(e))
    ||| exists|entries: Vec<Entry>|
        list.ensures((directory,), Ok::<Vec<Entry>, Error>(entries)) && spec_pack_refused(
            ident,
            entry_views(entries@),
            e@,
        )
}

/// Fetches the archive at `path`, seen from the parent, and reads the
/// resolution of the package from it.
///
/// The archive of the package is asked of the cache. Only where the cache
/// does not know it, `read` is called for the bytes of the file, which are
/// repacked into the stored form and recorded. The manifest inside the
/// archive goes through `parse`.
pub fn fetch_tarball_with_manifest<F, P>(
    cache: &mut CompositeCache,
    locator: &Locator,
    path: &str,
    parent: &Option<Locator>,
    parent_data: Option<PackageData>,
    read: F,
    parse: P,
) -> (r: Result<(Resolution, PackageData), Error>) where
    F: FnOnce(String) -> Result<Vec<u8>, Error>,
    P: FnOnce(String) -> Result<RemoteManifest, Error>,

    requires
        old(cache).wf(),
        parent is Some,
        parent_data is Some,
        !old(cache).blobs().contains_key((locator@, ".zip"@)) ==> forall|file: String|
            file@ == spec_relative_path(path@, parent->0@, parent_data->0@) ==> read.requires(
                (file,),
            ),
        forall|text: String| parse.requires((text,)),
        forall|text: String, manifest: RemoteManifest|
            parse.ensures((text,), Ok::<RemoteManifest, Error>(manifest)) ==> manifest.wf(),
    ensures
        final(cache).wf(),
        final(cache).root == old(cache).root,
        old(cache).blobs().contains_key((locator@, ".zip"@)) ==> final(cache).blobs() == old(
            cache,
        ).blobs(),
        !old(cache).blobs().contains_key((locator@, ".zip"@)) ==> {
            ||| r is Err && final(cache).blobs() == old(cache).blobs()
            ||| exists|file: String, archive: Vec<u8>, bytes: Seq<u8>|
                file@ == spec_relative_path(path@, parent->0@, parent_data->0@) && read.ensures(
                    (file,),
                    Ok::<Vec<u8>, Error>(archive),
                ) && spec_repacked(locator@.ident, archive@, bytes) && final(cache).blobs() == old(
                    cache,
                ).blobs().insert(
                    (locator@, ".zip"@),
                    spec_fresh_blob(old(cache).root@, (locator@, ".zip"@), bytes),
                )
        },
        r matches Err(e) ==> {
            ||| !old(cache).blobs().contains_key((locator@, ".zip"@)) && final(cache).blobs()
                == old(cache).blobs() && exists|file: String|
                file@ == spec_relative_path(path@, parent->0@, parent_data->0@) && spec_tarball_refused(
                    locator@.ident,
                    file,
                    read,
                    e,
                )
            ||| final(cache).blobs().contains_key((locator@, ".zip"@)) && spec_manifest_refused(
                final(cache).blobs()[(locator@, ".zip"@)].data,
                locator@.ident,
                parse,
                e,
            )
        },
        r matches Ok((resolution, data)) ==> {
            &&& final(cache).blobs().contains_key((locator@, ".zip"@))
            &&& data@ == spec_blob_data(final(cache).blobs()[(locator@, ".zip"@)])
            &&& resolution.wf()
            &&& exists|text: String, manifest: RemoteManifest|
                spec_is_manifest_text(data@->Zip_data, locator@.ident, text@) && parse.ensures(
                    (text,),
                    Ok::<RemoteManifest, Error>(manifest),
                ) && Some(resolution@) == spec_resolution_from_archive(
                    locator@,
                    manifest@,
                    data@,
                ).resolution
        },
{
    let tarball_path = match (parent, &parent_data) {
        (Some(parent), Some(parent_data)) => relative_path(path, parent, parent_data),
        _ => {
            return Err(Error::bare(ErrorKind::Unsupported));
        },
    };
    let ghost file = tarball_path;
    let ident = locator.ident.duplicate();
    let producer = move || -> (made: Result<Vec<u8>, Error>)
        requires
            read.requires((tarball_path,)),
        ensures
            made matches Ok(bytes) ==> exists|archive: Vec<u8>|
                read.ensures((tarball_path,), Ok::<Vec<u8>, Error>(archive)) && spec_repacked(
                    ident@,
                    archive@,
                    bytes@,
                ),
            made matches Err(e) ==> spec_tarball_refused(ident@, tarball_path, read, e),
        {
            match read(tarball_path) {
                Ok(archive) => {
                    let made = convert_tar_gz_to_zip(&ident, &archive);
                    proof {
                        if made is Err {
                            assert(read.ensures((tarball_path,), Ok::<Vec<u8>, Error>(archive))
                                && spec_repack_refused(ident@, archive@, made->Err_0@));
                        }
                    }
                    made
                },
                Err(e) => Err(e),
            }
        };
    let blob = match cache.upsert_blob(locator, ".zip", producer) {
        Ok(blob) => blob,
        Err(e) => {
            assert(spec_tarball_refused(locator@.ident, file, read, e));
            return Err(e);
        },
    };
    resolution_of_archive(locator, blob, parse)
}

/// Fetches the directory at `path`, seen from the parent, and reads the
/// resolution of the package from it.
///
/// The archive of the package is asked of the cache. Only where the cache
/// does not know it, `list` is called for the files of the directory,
/// which are packed into the stored form and recorded. The manifest inside
/// the archive goes through `parse`.
pub fn fetch_folder_with_manifest<F, P>(
    cache: &mut CompositeCache,
    locator: &Locator,
    path: &str,
    parent: &Option<Locator>,
    parent_data: Option<PackageData>,
    list: F,
    parse: P,
) -> (r: Result<(Resolution, PackageData), Error>) where
    F: FnOnce(String) -> Result<Vec<Entry>, Error>,
    P: FnOnce(String) -> Result<RemoteManifest, Error>,

    requires
        old(cache).wf(),
        parent is Some,
        parent_data is Some,
        !old(cache).blobs().contains_key((locator@, ".zip"@)) ==> forall|directory: String|
            directory@ == spec_relative_path(path@, parent->0@, parent_data->0@)
                ==> list.requires((directory,)),
        forall|text: String| parse.requires((text,)),
        forall|text: String, manifest: RemoteManifest|
            parse.ensures((text,), Ok::<RemoteManifest, Error>(manifest)) ==> manifest.wf(),
    ensures
        final(cache).wf(),
        final(cache).root == old(cache).root,
        old(cache).blobs().contains_key((locator@, ".zip"@)) ==> final(cache).blobs() == old(
            cache,
        ).blobs(),
        !old(cache).blobs().contains_key((locator@, ".zip"@)) ==> {
            ||| r is Err && final(cache).blobs() == old(cache).blobs()
            ||| exists|directory: String, entries: Vec<Entry>, bytes: Seq<u8>|
                directory@ == spec_relative_path(path@, parent->0@, parent_data->0@)
                    && list.ensures((directory,), Ok::<Vec<Entry>, Error>(entries)) && zip_packed(
                    spec_prefix_entries(entry_views(entries@), spec_archive_root(locator@.ident)),
                ) == Some(bytes) && final(cache).blobs() == old(cache).blobs().insert(
                    (locator@, ".zip"@),
                    spec_fresh_blob(old(cache).root@, (locator@, ".zip"@), bytes),
                )
        },
        r matches Err(e) ==> {
            ||| !old(cache).blobs().contains_key((locator@, ".zip"@)) && final(cache).blobs()
                == old(cache).blobs() && exists|file: String|
                file@ == spec_relative_path(path@, parent->0@, parent_data->0@) && spec_folder_refused(
                    locator@.ident,
                    file,
                    list,
                    e,
                )
            ||| final(cache).blobs().contains_key((locator@, ".zip"@)) && spec_manifest_refused(
                final(cache).blobs()[(locator@, ".zip"@)].data,
                locator@.ident,
                parse,
                e,
            )
        },
        r matches Ok((resolution, data)) ==> {
            &&& final(cache).blobs().contains_key((locator@, ".zip"@))
            &&& data@ == spec_blob_data(final(cache).blobs()[(locator@, ".zip"@)])
            &&& resolution.wf()
            &&& exists|text: String, manifest: RemoteManifest|
                spec_is_manifest_text(data@->Zip_data, locator@.ident, text@) && parse.ensures(
                    (text,),
                    Ok::<RemoteManifest, Error>(manifest),
                ) && Some(resolution@) == spec_resolution_from_archive(
                    locator@,
                    manifest@,
                    data@,
                ).resolution
        },
{
    let folder_path = match (parent, &parent_data) {
        (Some(parent), Some(parent_data)) => relative_path(path, parent, parent_data),
        _ => {
            return Err(Error::bare(ErrorKind::Unsupported));
        },
    };
    let ghost file = folder_path;
    let ident = locator.ident.duplicate();
    let producer = move || -> (made: Result<Vec<u8>, Error>)
        requires
            list.requires((folder_path,)),
        ensures
            made matches Ok(bytes) ==> exists|entries: Vec<Entry>|
                list.ensures((folder_path,), Ok::<Vec<Entry>, Error>(entries)) && zip_packed(
                    spec_prefix_entries(entry_views(entries@), spec_archive_root(ident@)),
                ) == Some(bytes@),
            made matches Err(e) ==> spec_folder_refused(ident@, folder_path, list, e),
        {
            match list(folder_path) {
                Ok(entries) => {
                    let ghost listed = entries;
                    let made = convert_folder_to_zip(&ident, entries);
                    proof {
                        if made is Err {
                            assert(list.ensures((folder_path,), Ok::<Vec<Entry>, Error>(listed))
                                && spec_pack_refused(
                                ident@,
                                entry_views(listed@),
                                made->Err_0@,
                            ));
                        }
                    }
                    made
                },
                Err(e) => Err(e),
            }
        };
    let blob = match cache.upsert_blob(locator, ".zip", producer) {
        Ok(blob) => blob,
        Err(e) => {
            assert(spec_folder_refused(locator@.ident, file, list, e));
            return Err(e);
        },
    };
    resolution_of_archive(locator, blob, parse)
}

} // verus!

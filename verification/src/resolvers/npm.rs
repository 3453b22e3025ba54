//! Resolving against a registry: the highest version of a range, and the
//! version that a tag names.
use crate::config::Config;
use crate::error::{result_view, Error, ErrorKind};
use crate::install::{ResolutionResult, ResolutionResultView};
use crate::keyed::{has_key, put, Duplicate, KeyedList};
use crate::patterns::{plain_is_match, plain_pattern_matches};
use crate::primitives::{
    Descriptor, DescriptorView, Ident, Locator, LocatorView, Range, RangeView, Reference,
    ReferenceView,
};
use crate::project::Project;
use crate::resolution::{spec_normalize, RemoteManifest, RemoteManifestView, Resolution};
use crate::semver;
use crate::semver::{best_match, spec_best, Version};
use crate::text::{append_str, chars_of, string_of};
use vstd::prelude::*;

verus! {

/// A script that mentions one of these words builds native code.
pub const NODE_GYP_MATCH: &'static str = "\\b(node-gyp|prebuild-install)\\b";

/// The package that builds native code.
pub const NODE_GYP_IDENT: &'static str = "node-gyp";

/// One version of a package as the index of a registry lists it: the text
/// it is listed under, its manifest, and the bodies of its scripts.
#[derive(Debug)]
pub struct IndexEntry {
    pub version: String,
    pub manifest: RemoteManifest,
    pub scripts: Vec<String>,
}

pub struct IndexEntryView {
    pub version: Seq<char>,
    pub manifest: RemoteManifestView,
    pub scripts: Seq<Seq<char>>,
}

impl View for IndexEntry {
    type V = IndexEntryView;

    open spec fn view(&self) -> IndexEntryView {
        IndexEntryView {
            version: self.version@,
            manifest: self.manifest@,
            scripts: crate::text::string_views(self.scripts@),
        }
    }
}

/// What a registry answered when asked for the index of a package.
#[derive(Debug)]
pub struct RegistryResponse {
    pub status: u16,
    pub versions: Vec<IndexEntry>,
}

pub open spec fn index_views(entries: Seq<IndexEntry>) -> Seq<IndexEntryView> {
    entries.map_values(|e: IndexEntry| e@)
}

/// The versions that the entries are listed under; an entry whose text is
/// no version offers none.
pub open spec fn spec_index_versions(entries: Seq<IndexEntryView>) -> Seq<Option<Version>> {
    entries.map_values(|e: IndexEntryView| Version::spec_parse(e.version))
}

/// Whether one of the scripts builds native code.
pub open spec fn spec_uses_node_gyp(scripts: Seq<Seq<char>>) -> bool {
    exists|i: int|
        0 <= i < scripts.len() && plain_pattern_matches(NODE_GYP_MATCH@, #[trigger] scripts[i])
            == Some(true)
}

/// The requirement on the package that builds native code: any version.
pub open spec fn spec_node_gyp() -> DescriptorView {
    DescriptorView {
        ident: NODE_GYP_IDENT@,
        range: RangeView::Semver(semver::Range::spec_any()),
        parent: None,
    }
}

/// A package that builds native code depends on the package that does the
/// building, also where its manifest does not say so.
pub open spec fn spec_add_node_gyp(manifest: RemoteManifestView, builds: bool) -> RemoteManifestView {
    if !has_key(manifest.dependencies, NODE_GYP_IDENT@) && !has_key(
        manifest.peer_dependencies,
        NODE_GYP_IDENT@,
    ) && builds {
        RemoteManifestView {
            dependencies: put(manifest.dependencies, NODE_GYP_IDENT@, spec_node_gyp()),
            ..manifest
        }
    } else {
        manifest
    }
}

/// A package whose scripts build native code depends on the package that
/// does the building.
pub open spec fn spec_with_node_gyp(
    manifest: RemoteManifestView,
    scripts: Seq<Seq<char>>,
) -> RemoteManifestView {
    spec_add_node_gyp(manifest, spec_uses_node_gyp(scripts))
}

/// Where the index of a package is asked for.
pub open spec fn spec_index_url(registry: Seq<char>, ident: Seq<char>) -> Seq<char> {
    registry + "/"@ + ident
}

pub fn index_url(project: &Project, ident: &Ident) -> (url: String)
    ensures
        url@ == spec_index_url(project.config.project.npm_registry_server.value@, ident@),
{
    let mut out = chars_of(project.config.project.npm_registry_server.value.as_str());
    append_str(&mut out, "/");
    append_str(&mut out, ident.as_str());
    assert(out@ =~= spec_index_url(project.config.project.npm_registry_server.value@, ident@));
    string_of(&out)
}

/// A version that the registry serves from where it serves all versions is
/// referred to by its number; one that it serves from elsewhere, by that
/// address.
pub open spec fn spec_registry_reference(
    registry: Seq<char>,
    ident: Seq<char>,
    version: Version,
    tarball: Seq<char>,
) -> ReferenceView {
    if Config::spec_registry_url_for_package_data(registry, ident, version) == tarball {
        ReferenceView::Semver(version)
    } else {
        ReferenceView::Url(tarball)
    }
}

/// The result of resolving a manifest at a locator.
pub open spec fn spec_resolved(locator: LocatorView, manifest: RemoteManifestView) -> ResolutionResultView {
    ResolutionResultView {
        resolution: spec_normalize(Resolution::spec_from_remote_manifest(locator, manifest)),
        package_data: None,
    }
}

/// Resolving a range of versions against the index of a registry.
///
/// A registry that does not know the package answers 404. Else the highest
/// listed version in the range is taken, the earliest listed where it is
/// listed twice; its manifest must say where its archive is.
pub open spec fn spec_resolve_semver(
    registry: Seq<char>,
    ident: Seq<char>,
    range: semver::Range,
    status: u16,
    entries: Seq<IndexEntryView>,
) -> Result<ResolutionResultView, (ErrorKind, Seq<char>)> {
    if status == 404 {
        Err((ErrorKind::PackageNotFound, spec_index_url(registry, ident)))
    } else {
        match spec_best(spec_index_versions(entries), range, entries.len()) {
            None => Err((ErrorKind::NoCandidatesFound, range.spec_text())),
            Some(best) => {
                let version = spec_index_versions(entries)[best]->0;
                let manifest = spec_with_node_gyp(entries[best].manifest, entries[best].scripts);
                match manifest.dist {
                    None => Err((ErrorKind::RemoteRegistryError, spec_index_url(registry, ident))),
                    Some(tarball) => Ok(
                        spec_resolved(
                            LocatorView {
                                ident,
                                reference: spec_registry_reference(
                                    registry,
                                    ident,
                                    version,
                                    tarball,
                                ),
                                parent: None,
                            },
                            manifest,
                        ),
                    ),
                }
            },
        }
    }
}

fn uses_node_gyp(scripts: &Vec<String>) -> (r: bool)
    ensures
        r == spec_uses_node_gyp(crate::text::string_views(scripts@)),
{
    let mut i: usize = 0;
    while i < scripts.len()
        invariant
            i <= scripts.len(),
            forall|j: int|
                0 <= j < i ==> plain_pattern_matches(
                    NODE_GYP_MATCH@,
                    #[trigger] crate::text::string_views(scripts@)[j],
                ) != Some(true),
        decreases scripts.len() - i,
    {
        assert(crate::text::string_views(scripts@)[i as int] == scripts@[i as int]@);
        match plain_is_match(NODE_GYP_MATCH, scripts[i].as_str()) {
            Some(true) => {
                return true;
            },
            _ => {},
        }
        i += 1;
    }
    false
}

/// Adds the package that builds native code to the dependencies of a
/// package that builds (`builds`), unless the package names it already
/// among its dependencies or its peers.
pub fn add_node_gyp(manifest: RemoteManifest, builds: bool) -> (r: RemoteManifest)
    requires
        manifest.wf(),
    ensures
        r.wf(),
        r@ == spec_add_node_gyp(manifest@, builds),
{
    let mut manifest = manifest;
    let node_gyp = Ident::new(NODE_GYP_IDENT);
    proof {
        manifest.dependencies.lemma_deep();
        manifest.peer_dependencies.lemma_deep();
    }
    if !manifest.dependencies.contains(&node_gyp) && !manifest.peer_dependencies.contains(
        &node_gyp,
    ) && builds {
        let requirement = Descriptor {
            ident: Ident::new(NODE_GYP_IDENT),
            range: Range::Semver(semver::Range::any()),
            parent: None,
        };
        manifest.dependencies.put(node_gyp, requirement);
    }
    manifest
}

fn index_versions(entries: &Vec<IndexEntry>) -> (versions: Vec<Option<Version>>)
    ensures
        versions@ == spec_index_versions(index_views(entries@)),
{
    let mut versions: Vec<Option<Version>> = Vec::new();
    let mut i: usize = 0;
    while i < entries.len()
        invariant
            i <= entries.len(),
            versions.len() == i,
            forall|j: int| 0 <= j < i ==> versions@[j] == Version::spec_parse(entries@[j].version@),
        decreases entries.len() - i,
    {
        versions.push(Version::from_file_string(entries[i].version.as_str()));
        i += 1;
    }
    assert(versions@ =~= spec_index_versions(index_views(entries@)));
    versions
}

fn registry_reference(project: &Project, ident: &Ident, version: Version, tarball: &String) -> (r:
    Reference)
    ensures
        r@ == spec_registry_reference(
            project.config.project.npm_registry_server.value@,
            ident@,
            version,
            tarball@,
        ),
{
    let expected = project.config.registry_url_for_package_data(ident, &version);
    if expected == *tarball {
        Reference::Semver(version)
    } else {
        Reference::Url(tarball.clone())
    }
}

/// Resolves a requirement on a range of versions, given what the registry
/// answered.
pub fn resolve_semver_descriptor(
    project: &Project,
    ident: &Ident,
    range: &semver::Range,
    response: RegistryResponse,
) -> (r: Result<ResolutionResult, Error>)
    requires
        forall|i: int|
            0 <= i < response.versions@.len() ==> (#[trigger] response.versions@[i]).manifest.wf(),
    ensures
        result_view(r) == spec_resolve_semver(
            project.config.project.npm_registry_server.value@,
            ident@,
            *range,
            response.status,
            index_views(response.versions@),
        ),
        r matches Ok(result) ==> result.resolution.wf(),
{
    let url = index_url(project, ident);
    if response.status == 404 {
        return Err(Error::new(ErrorKind::PackageNotFound, url.as_str()));
    }
    let versions = index_versions(&response.versions);
    let mut entries = response.versions;
    let ghost all = index_views(entries@);
    match best_match(&versions, range) {
        None => {
            let text = range.to_file_string();
            Err(Error::new(ErrorKind::NoCandidatesFound, text.as_str()))
        },
        Some(best) => {
            proof {
                semver::lemma_best_is_highest(versions@, *range, versions.len() as nat);
            }
            let version = match versions[best] {
                Some(version) => version,
                None => vstd::pervasive::unreached(),
            };
            let entry = entries.swap_remove(best);
            assert(entry@ == all[best as int]);
            let ghost listed = entry.manifest@;
            let builds = uses_node_gyp(&entry.scripts);
            let manifest = add_node_gyp(entry.manifest, builds);
            assert(manifest@ == spec_with_node_gyp(listed, all[best as int].scripts));
            let tarball = match &manifest.dist {
                None => {
                    return Err(Error::new(ErrorKind::RemoteRegistryError, url.as_str()));
                },
                Some(dist) => dist.tarball.clone(),
            };
            let reference = registry_reference(project, ident, version, &tarball);
            let locator = Locator::new(ident.duplicate(), reference);
            let resolution = Resolution::from_remote_manifest(locator, manifest);
            Ok(resolution.into_resolution_result())
        },
    }
}

/// The tags and the versions that a registry lists for a package.
#[derive(Debug)]
pub struct RegistryMetadata {
    pub dist_tags: KeyedList<String, Version>,
    pub versions: KeyedList<Version, RemoteManifest>,
}

impl RegistryMetadata {
    pub open spec fn wf(&self) -> bool {
        &&& self.dist_tags.wf()
        &&& self.versions.wf()
        &&& forall|v: Version| #[trigger]
            self.versions.map().contains_key(v) ==> self.versions.map()[v].wf()
    }
}

/// Resolving a tag against what a registry lists.
///
/// The tag must be listed, and so must the version it stands for, with a
/// manifest that says where its archive is. A version that the registry
/// serves from where it serves all versions is referred to by name and
/// number.
pub open spec fn spec_resolve_tag(
    registry: Seq<char>,
    ident: Seq<char>,
    tag: Seq<char>,
    metadata: RegistryMetadata,
) -> Result<ResolutionResultView, (ErrorKind, Seq<char>)> {
    if !metadata.dist_tags.map().contains_key(tag) {
        Err((ErrorKind::MissingSemverTag, tag))
    } else {
        let version = metadata.dist_tags.map()[tag];
        if !metadata.versions.map().contains_key(version) {
            Err((ErrorKind::NoCandidatesFound, version.spec_text()))
        } else {
            let manifest = metadata.versions.map()[version]@;
            match manifest.dist {
                None => Err((ErrorKind::RemoteRegistryError, spec_index_url(registry, ident))),
                Some(tarball) => Ok(
                    spec_resolved(
                        LocatorView {
                            ident,
                            reference: if Config::spec_registry_url_for_package_data(
                                registry,
                                ident,
                                version,
                            ) == tarball {
                                ReferenceView::SemverAlias(ident, version)
                            } else {
                                ReferenceView::Url(tarball)
                            },
                            parent: None,
                        },
                        manifest,
                    ),
                ),
            }
        }
    }
}

/// Resolves a requirement on a tag, given what the registry lists.
pub fn resolve_tag_descriptor(
    project: &Project,
    ident: &Ident,
    tag: &str,
    metadata: &RegistryMetadata,
) -> (r: Result<ResolutionResult, Error>)
    requires
        metadata.wf(),
    ensures
        result_view(r) == spec_resolve_tag(
            project.config.project.npm_registry_server.value@,
            ident@,
            tag@,
            *metadata,
        ),
        r matches Ok(result) ==> result.resolution.wf(),
{
    let name = string_of(&chars_of(tag));
    let version = match metadata.dist_tags.get(&name) {
        Some(version) => *version,
        None => {
            return Err(Error::new(ErrorKind::MissingSemverTag, tag));
        },
    };
    let manifest = match metadata.versions.get(&version) {
        Some(manifest) => manifest.duplicate(),
        None => {
            let text = version.to_file_string();
            return Err(Error::new(ErrorKind::NoCandidatesFound, text.as_str()));
        },
    };
    let tarball = match &manifest.dist {
        None => {
            let url = index_url(project, ident);
            return Err(Error::new(ErrorKind::RemoteRegistryError, url.as_str()));
        },
        Some(dist) => dist.tarball.clone(),
    };
    let expected = project.config.registry_url_for_package_data(ident, &version);
    let reference = if expected == tarball {
        Reference::SemverAlias(ident.duplicate(), version)
    } else {
        Reference::Url(tarball)
    };
    let locator = Locator::new(ident.duplicate(), reference);
    proof {
        manifest.dependencies.lemma_deep();
        manifest.optional_dependencies.lemma_deep();
        manifest.peer_dependencies.lemma_deep();
        metadata.versions.map()[version].dependencies.lemma_deep();
        metadata.versions.map()[version].optional_dependencies.lemma_deep();
        metadata.versions.map()[version].peer_dependencies.lemma_deep();
    }
    let resolution = Resolution::from_remote_manifest(locator, manifest);
    Ok(resolution.into_resolution_result())
}

} // verus!

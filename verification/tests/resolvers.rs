use zpm::keyed::{Duplicate, Key, KeyedList};
use zpm::config::Config;
use zpm::error::{Error, ErrorKind};
use zpm::fetcher::{fetch, fetch_link, fetch_portal, fetch_semver, fetch_workspace, FetchStep, PackageData, Production};
use zpm::git::{GitRange, GitReference, GitSource, GitTreeish, PrepareParams, RemoteRef};
use zpm::install::{FetchResult, InstallOp, InstallOpResult, ResolutionResult};
use zpm::graph::GraphIn;
use zpm::primitives::{Descriptor, Ident, Locator, Range, Reference};
use zpm::project::{Manifest, Project, Workspace};
use zpm::resolution::{Dist, PeerRange, RemoteManifest, Requirements, Resolution};
use zpm::resolvers::git::git_locator;
use zpm::resolvers::npm::{
    index_url, resolve_semver_descriptor, resolve_tag_descriptor, IndexEntry, RegistryMetadata,
    RegistryResponse,
};
use zpm::resolvers::portal::portal_manifest_path;
use zpm::resolvers::workspace::{resolve_locator, resolve_name_descriptor, resolve_path_descriptor};
use zpm::fetcher::fetch_with_manifest;
use zpm::resolvers::{resolve, ResolveStep};
use zpm::resolvers::{folder, link, patch, portal, tarball, url};
use zpm::semver;
use zpm::semver::Version;

fn v(major: u64, minor: u64, patch: u64) -> Version {
    Version { major, minor, patch }
}

fn project() -> Project {
    Project { project_cwd: "/project".to_string(), config: Config::default(), workspaces: vec![] }
}

fn canonical(name: &str, short: &str, version: &str) -> String {
    format!("https://registry.npmjs.org/{}/-/{}-{}.tgz", name, short, version)
}

fn entry(name: &str, version: &str, tarball: Option<String>) -> IndexEntry {
    let parsed = Version::from_file_string(version).unwrap_or(v(0, 0, 0));
    let mut manifest = RemoteManifest::empty(parsed);
    manifest.dist = tarball.or(Some(canonical(name, name, version))).map(|t| Dist { tarball: t });
    IndexEntry { version: version.to_string(), manifest, scripts: vec![] }
}

fn ok(r: Result<ResolutionResult, Error>) -> ResolutionResult {
    match r {
        Ok(result) => result,
        Err(e) => panic!("unexpected {:?}", e),
    }
}

fn err(r: Result<ResolutionResult, Error>) -> Error {
    match r {
        Ok(result) => panic!("unexpected {:?}", result),
        Err(e) => e,
    }
}

#[test]
fn registry_urls() {
    let project = project();
    assert_eq!(index_url(&project, &Ident::new("lodash")), "https://registry.npmjs.org/lodash");
    assert_eq!(
        project.config.registry_url_for_package_data(&Ident::new("@babel/core"), &v(7, 1, 0)),
        "https://registry.npmjs.org/@babel/core/-/core-7.1.0.tgz"
    );
    assert_eq!(project.config.registry_url_for(&Ident::new("x")), "https://registry.npmjs.org");
    assert_eq!(Ident::new("@babel/core").name(), "core");
    assert_eq!(Ident::new("lodash").name(), "lodash");
}

#[test]
fn semver_takes_highest_in_range() {
    let project = project();
    let response = RegistryResponse {
        status: 200,
        versions: vec![
            entry("pkg", "1.0.0", None),
            entry("pkg", "2.0.0", None),
            entry("pkg", "not-a-version", None),
            entry("pkg", "1.2.0", None),
            entry("pkg", "1.1.0", None),
        ],
    };
    let range = semver::Range::caret(v(1, 0, 0));
    let result = ok(resolve_semver_descriptor(&project, &Ident::new("pkg"), &range, response));
    assert_eq!(result.resolution.version, v(1, 2, 0));
    assert!(matches!(result.resolution.locator.reference, Reference::Semver(x) if x == v(1, 2, 0)));
    assert_eq!(result.resolution.locator.ident.as_str(), "pkg");
    assert!(result.resolution.locator.parent.is_none());
    assert!(result.package_data.is_none());
    assert_eq!(result.resolution.dependencies.len(), 0);
}

#[test]
fn semver_errors() {
    let project = project();
    let range = semver::Range::caret(v(1, 0, 0));
    let e = err(resolve_semver_descriptor(
        &project,
        &Ident::new("pkg"),
        &range,
        RegistryResponse { status: 404, versions: vec![] },
    ));
    assert_eq!(e.kind, ErrorKind::PackageNotFound);
    assert_eq!(e.detail, "https://registry.npmjs.org/pkg");
    let e = err(resolve_semver_descriptor(
        &project,
        &Ident::new("pkg"),
        &range,
        RegistryResponse { status: 200, versions: vec![entry("pkg", "2.0.0", None)] },
    ));
    assert_eq!(e.kind, ErrorKind::NoCandidatesFound);
    assert_eq!(e.detail, ">=1.0.0 <2.0.0");
    let mut no_dist = entry("pkg", "1.0.0", None);
    no_dist.manifest.dist = None;
    let e = err(resolve_semver_descriptor(
        &project,
        &Ident::new("pkg"),
        &range,
        RegistryResponse { status: 200, versions: vec![no_dist] },
    ));
    assert_eq!(e.kind, ErrorKind::RemoteRegistryError);
}

#[test]
fn archive_served_from_elsewhere_is_a_url() {
    let project = project();
    let elsewhere = "https://cdn.example.com/pkg-1.0.0.tgz".to_string();
    let response = RegistryResponse {
        status: 200,
        versions: vec![entry("pkg", "1.0.0", Some(elsewhere.clone()))],
    };
    let result = ok(resolve_semver_descriptor(
        &project,
        &Ident::new("pkg"),
        &semver::Range::any(),
        response,
    ));
    assert!(matches!(result.resolution.locator.reference, Reference::Url(ref u) if *u == elsewhere));
    // a scoped package is served under its short name
    let response = RegistryResponse {
        status: 200,
        versions: vec![entry("@s/p", "1.0.0", Some(canonical("@s/p", "p", "1.0.0")))],
    };
    let result = ok(resolve_semver_descriptor(
        &project,
        &Ident::new("@s/p"),
        &semver::Range::any(),
        response,
    ));
    assert!(matches!(result.resolution.locator.reference, Reference::Semver(_)));
}

#[test]
fn native_builds_depend_on_node_gyp() {
    let project = project();
    let with_scripts = |scripts: Vec<&str>| {
        let mut e = entry("native", "1.0.0", None);
        e.scripts = scripts.into_iter().map(|s| s.to_string()).collect();
        RegistryResponse { status: 200, versions: vec![e] }
    };
    let any = semver::Range::any();
    let ident = Ident::new("native");
    let gyp = Ident::new("node-gyp");

    let result = ok(resolve_semver_descriptor(&project, &ident, &any, with_scripts(vec!["node-gyp rebuild"])));
    let dep = result.resolution.dependencies.get(&gyp).expect("added");
    assert!(matches!(dep.range, Range::Semver(r) if r == semver::Range::any()));
    assert_eq!(dep.ident.as_str(), "node-gyp");

    let result = ok(resolve_semver_descriptor(
        &project,
        &ident,
        &any,
        with_scripts(vec!["echo hi", "prebuild-install || exit 0"]),
    ));
    assert!(result.resolution.dependencies.contains(&gyp));

    // a word inside another word does not count, nor do other scripts
    let result = ok(resolve_semver_descriptor(
        &project,
        &ident,
        &any,
        with_scripts(vec!["my-node-gypsy", "tsc"]),
    ));
    assert!(!result.resolution.dependencies.contains(&gyp));

    // a package that names it already keeps what it names
    let mut e = entry("native", "1.0.0", None);
    e.scripts = vec!["node-gyp rebuild".to_string()];
    e.manifest.peer_dependencies.insert(Ident::new("node-gyp"), PeerRange::Unconstrained);
    let result = ok(resolve_semver_descriptor(
        &project,
        &ident,
        &any,
        RegistryResponse { status: 200, versions: vec![e] },
    ));
    assert!(!result.resolution.dependencies.contains(&gyp));
}

#[test]
fn tags() {
    let project = project();
    let mut metadata = RegistryMetadata { dist_tags: KeyedList::new(), versions: KeyedList::new() };
    metadata.dist_tags.insert("latest".to_string(), v(2, 0, 0));
    metadata.dist_tags.insert("next".to_string(), v(3, 0, 0));
    metadata.dist_tags.insert("mirror".to_string(), v(1, 0, 0));
    metadata.versions.insert(v(2, 0, 0), entry("pkg", "2.0.0", None).manifest);
    metadata
        .versions
        .insert(v(1, 0, 0), entry("pkg", "1.0.0", Some("https://m.example/p.tgz".into())).manifest);
    let ident = Ident::new("pkg");
    let result = ok(resolve_tag_descriptor(&project, &ident, "latest", &metadata));
    assert!(matches!(
        result.resolution.locator.reference,
        Reference::SemverAlias(ref i, x) if i.as_str() == "pkg" && x == v(2, 0, 0)
    ));
    let result = ok(resolve_tag_descriptor(&project, &ident, "mirror", &metadata));
    assert!(matches!(result.resolution.locator.reference, Reference::Url(ref u) if u == "https://m.example/p.tgz"));
    let e = err(resolve_tag_descriptor(&project, &ident, "beta", &metadata));
    assert_eq!(e.kind, ErrorKind::MissingSemverTag);
    assert_eq!(e.detail, "beta");
    let e = err(resolve_tag_descriptor(&project, &ident, "next", &metadata));
    assert_eq!(e.kind, ErrorKind::NoCandidatesFound);
    assert_eq!(e.detail, "3.0.0");
}

fn workspace(name: &str, rel: &str, version: Version) -> Workspace {
    let mut remote = RemoteManifest::empty(version);
    remote.dependencies.insert(
        Ident::new("dep"),
        Descriptor::new(Ident::new("dep"), Range::Semver(semver::Range::any())),
    );
    remote.dependencies.insert(
        Ident::new("sibling"),
        Descriptor::new(Ident::new("sibling"), Range::Portal("../sibling".to_string())),
    );
    remote.optional_dependencies.insert(
        Ident::new("opt"),
        Descriptor::new(Ident::new("opt"), Range::Semver(semver::Range::any())),
    );
    remote.peer_dependencies.insert(Ident::new("peer"), PeerRange::Unconstrained);
    remote.peer_dependencies.insert(
        Ident::new("dep"),
        PeerRange::Semver(semver::Range::caret(v(1, 0, 0))),
    );
    let mut dev = KeyedList::new();
    dev.insert(
        Ident::new("dev"),
        Descriptor::new(Ident::new("dev"), Range::Semver(semver::Range::any())),
    );
    dev.insert(
        Ident::new("dep"),
        Descriptor::new(Ident::new("dep"), Range::Semver(semver::Range::exact(v(9, 9, 9)))),
    );
    Workspace {
        name: Ident::new(name),
        path: format!("/project/{}", rel),
        rel_path: rel.to_string(),
        manifest: Manifest { remote, dev_dependencies: dev },
    }
}

fn with_workspaces() -> Project {
    Project {
        project_cwd: "/project".to_string(),
        config: Config::default(),
        workspaces: vec![workspace("a", "packages/a", v(1, 5, 0)), workspace("b", "packages/b", v(2, 0, 0))],
    }
}

#[test]
fn workspaces_resolve_by_name_and_path() {
    let project = with_workspaces();
    let result = ok(resolve_name_descriptor(&project, &Ident::new("a")));
    let r = &result.resolution;
    assert!(matches!(r.locator.reference, Reference::Workspace(ref i) if i.as_str() == "a"));
    assert_eq!(r.version, v(1, 5, 0));
    // dependencies, then the optional ones, then those for development, which win
    let names: Vec<&str> = r.dependencies.entries.iter().map(|e| e.0.as_str()).collect();
    assert_eq!(names, vec!["dep", "sibling", "opt", "dev"]);
    let dep = r.dependencies.get(&Ident::new("dep")).expect("dep");
    assert!(matches!(dep.range, Range::Semver(x) if x == semver::Range::exact(v(9, 9, 9))));
    // the relative requirement is bound to the workspace, the others are not
    let sibling = r.dependencies.get(&Ident::new("sibling")).expect("sibling");
    assert!(sibling.parent.as_ref().expect("bound").same(&r.locator));
    assert!(dep.parent.is_none());
    // the optional ones are listed
    assert_eq!(r.optional_dependencies.len(), 1);
    assert_eq!(r.optional_dependencies[0].as_str(), "opt");
    // peers without versions accept all, and those not depended on are missing
    assert!(matches!(
        r.peer_dependencies.get(&Ident::new("peer")),
        Some(PeerRange::Semver(x)) if *x == semver::Range::any()
    ));
    assert_eq!(r.missing_peer_dependencies.len(), 1);
    assert_eq!(r.missing_peer_dependencies[0].as_str(), "peer");

    let by_path = ok(resolve_path_descriptor(&project, "packages/b"));
    assert_eq!(by_path.resolution.locator.ident.as_str(), "b");
    let e = err(resolve_name_descriptor(&project, &Ident::new("zzz")));
    assert_eq!(e.kind, ErrorKind::WorkspaceNotFound);
    assert_eq!(e.detail, "zzz");
    let e = err(resolve_path_descriptor(&project, "packages/zzz"));
    assert_eq!(e.kind, ErrorKind::WorkspaceNotFound);
    assert_eq!(e.detail, "packages/zzz");
    let at = Locator::new(Ident::new("alias"), Reference::Workspace(Ident::new("a")));
    let located = ok(resolve_locator(&project, &at, &Ident::new("a")));
    assert!(located.resolution.locator.same(&at));
}

#[test]
fn workspaces_stand_in_only_where_allowed() {
    let mut project = with_workspaces();
    let ident = Ident::new("a");
    let fits = semver::Range::caret(v(1, 0, 0));
    assert!(zpm::resolvers::semver::resolve_descriptor(&project, &ident, &fits).is_none());
    project.config.project.enable_transparent_workspaces.value = true;
    assert!(zpm::resolvers::semver::resolve_descriptor(&project, &ident, &fits).is_some());
    assert!(zpm::resolvers::semver::resolve_descriptor(&project, &ident, &semver::Range::caret(v(2, 0, 0))).is_none());
    assert!(zpm::resolvers::semver::resolve_descriptor(&project, &Ident::new("zzz"), &fits).is_none());
    let d = Descriptor::new(Ident::new("a"), Range::Semver(fits));
    assert!(matches!(resolve(&project, &d, &vec![]), Ok(ResolveStep::Done(_))));
    project.config.project.enable_transparent_workspaces.value = false;
    assert!(matches!(
        resolve(&project, &d, &vec![]),
        Ok(ResolveStep::Registry { ident, url }) if ident.as_str() == "a" && url == "https://registry.npmjs.org/a"
    ));
}

#[test]
fn links_and_portals() {
    let parent = Locator::new(Ident::new("x"), Reference::Workspace(Ident::new("x")));
    let result = ok(link::resolve_descriptor(&Ident::new("lib"), "../lib", &Some(parent.duplicate())));
    let r = &result.resolution;
    assert_eq!(r.version, v(0, 0, 0));
    assert!(matches!(r.locator.reference, Reference::Link(ref p) if p == "../lib"));
    assert!(r.locator.parent().expect("bound").same(&parent));
    assert_eq!(r.dependencies.len(), 0);
    assert!(!r.requirements.is_conditional());

    let data = PackageData::Local { path: "/project/packages/x".to_string(), discard_from_lookup: false };
    assert_eq!(portal_manifest_path("../lib", &parent, &data), "/project/packages/lib/package.json");
    let mut manifest = RemoteManifest::empty(v(3, 0, 0));
    manifest.dependencies.insert(
        Ident::new("d"),
        Descriptor::new(Ident::new("d"), Range::Link("./d".to_string())),
    );
    let result = ok(portal::resolve_descriptor(&Ident::new("lib"), "../lib", &parent, manifest));
    assert_eq!(result.resolution.version, v(3, 0, 0));
    assert!(matches!(result.resolution.locator.reference, Reference::Portal(ref p) if p == "../lib"));
    let d = result.resolution.dependencies.get(&Ident::new("d")).expect("d");
    assert!(d.parent.as_ref().expect("bound").same(&result.resolution.locator));

    assert!(matches!(
        fetch_link("../lib", &Some(parent.duplicate()), Some(data.duplicate())),
        Ok(PackageData::Local { ref path, discard_from_lookup: true }) if path == "/project/packages/lib"
    ));
    assert!(matches!(
        fetch_portal("../lib", &Some(parent.duplicate()), Some(data.duplicate())),
        Ok(PackageData::Local { ref path, discard_from_lookup: false }) if path == "/project/packages/lib"
    ));
    // seen from an archive, a path starts inside the package
    let zip = PackageData::Zip { path: "/cache/k.zip".to_string(), data: vec![], checksum: String::new() };
    assert!(matches!(
        fetch_link("./sub", &Some(parent.duplicate()), Some(zip)),
        Ok(PackageData::Local { ref path, .. }) if path == "/cache/k.zip/node_modules/x/sub"
    ));
}

fn step(r: Result<ResolveStep, Error>) -> ResolveStep {
    match r {
        Ok(s) => s,
        Err(e) => panic!("unexpected {:?}", e),
    }
}

#[test]
fn dispatch_by_kind_of_range() {
    let project = with_workspaces();
    let parent = Locator::new(Ident::new("a"), Reference::Workspace(Ident::new("a")));
    let bound = |range: Range| Descriptor::new_bound(Ident::new("p"), range, Some(parent.duplicate()));
    let free = |range: Range| Descriptor::new(Ident::new("p"), range);
    let none: Vec<InstallOpResult> = vec![];
    let parent_data = || {
        InstallOpResult::Fetched(FetchResult::new(PackageData::Local {
            path: "/project/packages/a".to_string(),
            discard_from_lookup: false,
        }))
    };

    assert!(matches!(
        step(resolve(&project, &free(Range::SemverAlias(Ident::new("real"), semver::Range::any())), &none)),
        ResolveStep::Registry { ident, url } if ident.as_str() == "real" && url.ends_with("/real")
    ));
    assert!(matches!(
        step(resolve(&project, &free(Range::SemverTag("latest".into())), &none)),
        ResolveStep::Registry { ident, .. } if ident.as_str() == "p"
    ));
    assert!(matches!(
        step(resolve(&project, &bound(Range::Link("./l".into())), &vec![parent_data()])),
        ResolveStep::Done(r) if matches!(r.resolution.locator.reference, Reference::Link(_))
    ));
    assert!(matches!(
        step(resolve(&project, &bound(Range::Portal("../b".into())), &vec![parent_data()])),
        ResolveStep::Manifest { path } if path == "/project/packages/b/package.json"
    ));
    assert!(matches!(
        resolve(&project, &bound(Range::Portal("../b".into())), &none),
        Err(e) if e.kind == ErrorKind::Unsupported
    ));
    assert!(matches!(
        resolve(&project, &free(Range::Portal("../b".into())), &vec![parent_data()]),
        Err(e) if e.kind == ErrorKind::Unsupported
    ));
    match step(resolve(&project, &bound(Range::Tarball("./t.tgz".into())), &vec![parent_data()])) {
        ResolveStep::Fetch { locator } => {
            assert!(matches!(locator.reference, Reference::Tarball(ref p) if p == "./t.tgz"));
            assert!(locator.parent().expect("bound").same(&parent));
        }
        other => panic!("unexpected {:?}", other),
    }
    assert!(matches!(
        step(resolve(&project, &bound(Range::Folder("./f".into())), &vec![parent_data()])),
        ResolveStep::Fetch { locator } if matches!(locator.reference, Reference::Folder(_))
    ));
    assert!(matches!(
        step(resolve(&project, &free(Range::Url("https://e.com/a.tgz".into())), &none)),
        ResolveStep::Fetch { locator } if matches!(locator.reference, Reference::Url(ref u) if u == "https://e.com/a.tgz")
    ));
    assert!(matches!(
        step(resolve(&project, &free(Range::WorkspaceIdent(Ident::new("b"))), &none)),
        ResolveStep::Done(r) if r.resolution.locator.ident.as_str() == "b"
    ));
    assert!(matches!(
        step(resolve(&project, &free(Range::WorkspacePath("packages/a".into())), &none)),
        ResolveStep::Done(r) if r.resolution.locator.ident.as_str() == "a"
    ));
    assert!(matches!(
        resolve(&project, &free(Range::WorkspaceIdent(Ident::new("zzz"))), &none),
        Err(e) if e.kind == ErrorKind::WorkspaceNotFound
    ));
}

#[test]
fn dispatch_git() {
    let project = project();
    let range = |treeish| GitRange {
        repo: GitSource::GitHub { owner: "o".into(), repository: "r".into() },
        treeish,
        prepare_params: PrepareParams { cwd: Some("sub".into()), workspace: None },
    };
    let commit = "0123456789abcdef0123456789abcdef01234567".to_string();
    let d = Descriptor::new(Ident::new("g"), Range::Git(range(GitTreeish::Commit(commit.clone()))));
    match step(resolve(&project, &d, &vec![])) {
        ResolveStep::Fetch { locator } => match locator.reference {
            Reference::Git(reference) => {
                assert_eq!(reference.commit, commit);
                assert!(matches!(reference.repo, GitSource::GitHub { .. }));
                assert_eq!(reference.prepare_params.cwd.as_deref(), Some("sub"));
            }
            other => panic!("unexpected {:?}", other),
        },
        other => panic!("unexpected {:?}", other),
    }
    let d = Descriptor::new(Ident::new("g"), Range::Git(range(GitTreeish::Commit("short".into()))));
    assert!(matches!(resolve(&project, &d, &vec![]), Err(e) if e.kind == ErrorKind::InvalidGitCommit));
    let d = Descriptor::new(Ident::new("g"), Range::Git(range(GitTreeish::Tag("v1.0.0".into()))));
    assert!(matches!(
        step(resolve(&project, &d, &vec![])),
        ResolveStep::Remote { url } if url == "https://github.com/o/r.git"
    ));
    let located = git_locator(&Ident::new("g"), &range(GitTreeish::Head("main".into())), commit.clone());
    assert!(matches!(located.reference, Reference::Git(GitReference { commit: ref c, .. }) if *c == commit));
}

#[test]
fn patches_wait_for_what_they_patch() {
    let project = with_workspaces();
    let parent = Locator::new(Ident::new("a"), Reference::Workspace(Ident::new("a")));
    let patch = Descriptor::new_bound(
        Ident::new("lodash"),
        Range::Patch(Ident::new("lodash"), semver::Range::caret(v(4, 0, 0)), "./fix.patch".into()),
        Some(parent.duplicate()),
    );
    let op = InstallOp::Resolve { descriptor: patch.duplicate() };
    let deps = op.graph_dependencies();
    assert_eq!(deps.len(), 2);
    assert!(deps[0].same(&InstallOp::Fetch { locator: parent.duplicate() }));
    let inner = Descriptor::new(Ident::new("lodash"), Range::Semver(semver::Range::caret(v(4, 0, 0))));
    assert!(deps[1].same(&InstallOp::Resolve { descriptor: inner }));

    let inner_locator = Locator::new(Ident::new("lodash"), Reference::Semver(v(4, 17, 21)));
    let resolved = InstallOpResult::Resolved(ResolutionResult::new(Resolution {
        locator: inner_locator,
        version: v(4, 17, 21),
        requirements: Requirements::default(),
        dependencies: KeyedList::new(),
        peer_dependencies: KeyedList::new(),
        optional_dependencies: vec![],
        missing_peer_dependencies: vec![],
    }));
    let fetched = InstallOpResult::Fetched(FetchResult::new(PackageData::Local {
        path: "/project/packages/a".into(),
        discard_from_lookup: false,
    }));
    match step(resolve(&project, &patch, &vec![fetched.duplicate(), resolved])) {
        ResolveStep::Fetch { locator } => {
            assert!(matches!(
                locator.reference,
                Reference::Patch(ref inner, ref path) if inner == "lodash%40npm%3A4.17.21" && path == "./fix.patch"
            ));
            // fetching it applies the patch file next to the parent
            let data = PackageData::Local { path: "/project/packages/a".into(), discard_from_lookup: false };
            assert!(matches!(
                fetch(&project, &locator, Some(data)),
                Ok(FetchStep::Produce(Production::Patch { ref inner, ref path }))
                    if inner == "lodash%40npm%3A4.17.21" && path == "/project/packages/a/fix.patch"
            ));
        }
        other => panic!("unexpected {:?}", other),
    }
    assert!(matches!(
        resolve(&project, &patch, &vec![fetched]),
        Err(e) if e.kind == ErrorKind::Unsupported
    ));
}

#[test]
fn fetch_by_kind_of_reference() {
    let project = with_workspaces();
    let parent = Locator::new(Ident::new("a"), Reference::Workspace(Ident::new("a")));
    let data = || Some(PackageData::Local { path: "/project/packages/a".into(), discard_from_lookup: false });
    let bound = |reference| Locator::new_bound(Ident::new("p"), reference, Some(parent.duplicate()));
    let free = |reference| Locator::new(Ident::new("p"), reference);
    assert!(matches!(
        fetch(&project, &free(Reference::Semver(v(1, 0, 0))), None),
        Ok(FetchStep::Produce(Production::Download { ref url })) if url == "https://registry.npmjs.org/p/-/p-1.0.0.tgz"
    ));
    assert!(matches!(
        fetch(&project, &free(Reference::SemverAlias(Ident::new("@x/real"), v(2, 0, 0))), None),
        Ok(FetchStep::Produce(Production::Download { ref url })) if url == "https://registry.npmjs.org/@x/real/-/real-2.0.0.tgz"
    ));
    assert!(matches!(
        fetch_semver(&project, &Ident::new("p"), &v(1, 0, 0)),
        Production::Download { ref url } if url == "https://registry.npmjs.org/p/-/p-1.0.0.tgz"
    ));
    assert!(matches!(
        fetch(&project, &free(Reference::Url("https://e.com/x.tgz".into())), None),
        Ok(FetchStep::Produce(Production::Download { ref url })) if url == "https://e.com/x.tgz"
    ));
    assert!(matches!(
        fetch(&project, &bound(Reference::Tarball("./t.tgz".into())), data()),
        Ok(FetchStep::Produce(Production::Tarball { ref path })) if path == "/project/packages/a/t.tgz"
    ));
    assert!(matches!(
        fetch(&project, &bound(Reference::Folder("../f".into())), data()),
        Ok(FetchStep::Produce(Production::Folder { ref path })) if path == "/project/packages/f"
    ));
    assert!(matches!(
        fetch(&project, &bound(Reference::Link("../l".into())), data()),
        Ok(FetchStep::Done(PackageData::Local { ref path, discard_from_lookup: true })) if path == "/project/packages/l"
    ));
    assert!(matches!(
        fetch(&project, &bound(Reference::Portal("../l".into())), data()),
        Ok(FetchStep::Done(PackageData::Local { discard_from_lookup: false, .. }))
    ));
    // a relative reference without its parent cannot be fetched
    assert!(matches!(
        fetch(&project, &bound(Reference::Link("../l".into())), None),
        Err(e) if e.kind == ErrorKind::Unsupported
    ));
    assert!(matches!(
        fetch(&project, &free(Reference::Tarball("./t".into())), data()),
        Err(e) if e.kind == ErrorKind::Unsupported
    ));
    assert!(matches!(
        fetch(&project, &free(Reference::Workspace(Ident::new("b"))), None),
        Ok(FetchStep::Done(PackageData::Local { ref path, discard_from_lookup: false })) if path == "/project/packages/b"
    ));
    assert!(matches!(
        fetch_workspace(&project, &Ident::new("zzz")),
        Err(e) if e.kind == ErrorKind::WorkspaceNotFound && e.detail == "zzz"
    ));
    let reference = GitReference {
        repo: GitSource::Url("https://e.com/r.git".into()),
        commit: "c".into(),
        prepare_params: PrepareParams { cwd: None, workspace: None },
    };
    assert!(matches!(
        fetch(&project, &free(Reference::Git(reference)), None),
        Ok(FetchStep::Produce(Production::Clone { reference })) if reference.commit == "c"
    ));
}

#[test]
fn archive_brings_its_resolution() {
    let locator = Locator::new(Ident::new("t"), Reference::Tarball("./t.tgz".into()));
    let mut manifest = RemoteManifest::empty(v(1, 2, 3));
    manifest.dependencies.insert(
        Ident::new("d"),
        Descriptor::new(Ident::new("d"), Range::Semver(semver::Range::any())),
    );
    manifest.optional_dependencies.insert(
        Ident::new("o"),
        Descriptor::new(Ident::new("o"), Range::Semver(semver::Range::any())),
    );
    let data = PackageData::Zip { path: "/c".into(), data: vec![1], checksum: "x".into() };
    let result = fetch_with_manifest(&locator, manifest, data);
    let resolution = result.resolution.as_ref().expect("a resolution");
    assert_eq!(resolution.version, v(1, 2, 3));
    assert!(resolution.locator.same(&locator));
    assert_eq!(resolution.dependencies.len(), 1);
    assert!(resolution.optional_dependencies.is_empty());
    assert!(matches!(result.package_data, PackageData::Zip { .. }));
}

#[test]
fn texts_of_requirements_and_locators() {
    let parent = Locator::new(Ident::new("@s/a"), Reference::Workspace(Ident::new("@s/a")));
    assert_eq!(parent.to_file_string(), "@s/a@workspace:@s/a");
    let child = Locator::new_bound(
        Ident::new("lib"),
        Reference::Link("../lib".into()),
        Some(parent.duplicate()),
    );
    assert_eq!(child.to_file_string(), "lib@link:../lib::parent=%40s%2Fa%40workspace%3A%40s%2Fa");
    assert_eq!(
        Locator::new(Ident::new("p"), Reference::Semver(v(1, 2, 3))).to_file_string(),
        "p@npm:1.2.3"
    );
    assert_eq!(
        Locator::new(Ident::new("p"), Reference::SemverAlias(Ident::new("q"), v(1, 2, 3))).to_file_string(),
        "p@npm:q@1.2.3"
    );
    assert_eq!(
        Descriptor::new(Ident::new("p"), Range::Semver(semver::Range::caret(v(1, 0, 0)))).to_file_string(),
        "p@npm:>=1.0.0 <2.0.0"
    );
    assert_eq!(
        Descriptor::new_bound(Ident::new("p"), Range::Tarball("./p.tgz".into()), Some(parent.duplicate()))
            .to_file_string(),
        "p@file:./p.tgz::parent=%40s%2Fa%40workspace%3A%40s%2Fa"
    );
    assert_eq!(Range::SemverTag("latest".into()).to_file_string(), "npm:latest");
    assert_eq!(Range::WorkspacePath("packages/a".into()).to_file_string(), "workspace:packages/a");
    assert_eq!(
        Range::Patch(Ident::new("l"), semver::Range::any(), "./f.patch".into()).to_file_string(),
        "patch:l@npm:*#./f.patch"
    );
    assert!(Range::Link("x".into()).must_bind());
    assert!(Range::Patch(Ident::new("l"), semver::Range::any(), "p".into()).must_bind());
    assert!(!Range::Url("x".into()).must_bind());
    assert!(!Range::Semver(semver::Range::any()).must_bind());
    assert!(Descriptor::new_semver(Ident::new("node-gyp"), "*").is_some());
    assert!(Descriptor::new_semver(Ident::new("node-gyp"), "what").is_none());
}

#[test]
fn each_kind_names_what_is_fetched() {
    let parent = Locator::new(Ident::new("a"), Reference::Workspace(Ident::new("a")));
    let ident = Ident::new("pkg");

    let located = tarball::resolve_descriptor(&ident, "./pkg.tgz", &Some(parent.duplicate()));
    assert_eq!(located.ident.as_str(), "pkg");
    assert!(matches!(located.reference, Reference::Tarball(ref path) if path == "./pkg.tgz"));
    assert!(located.parent.as_deref().is_some_and(|p| p.same(&parent)));

    let located = folder::resolve_descriptor(&ident, "./pkg", &None);
    assert!(matches!(located.reference, Reference::Folder(ref path) if path == "./pkg"));
    assert!(located.parent.is_none());

    let located = url::resolve_descriptor(&ident, "https://e.com/pkg.tgz");
    assert!(matches!(located.reference, Reference::Url(ref u) if u == "https://e.com/pkg.tgz"));
    assert!(located.parent.is_none());

    let inner = Locator::new(Ident::new("pkg"), Reference::Semver(v(1, 0, 0)));
    let resolved = InstallOpResult::Resolved(ResolutionResult::new(Resolution {
        locator: inner,
        version: v(1, 0, 0),
        requirements: Requirements::default(),
        dependencies: KeyedList::new(),
        peer_dependencies: KeyedList::new(),
        optional_dependencies: vec![],
        missing_peer_dependencies: vec![],
    }));
    let located = patch::resolve_descriptor(&ident, "./fix.patch", &Some(parent.duplicate()), &vec![resolved])
        .expect("a locator");
    assert!(matches!(
        located.reference,
        Reference::Patch(ref inner, ref path) if inner == "pkg%40npm%3A1.0.0" && path == "./fix.patch"
    ));
    assert!(located.parent.as_deref().is_some_and(|p| p.same(&parent)));
    assert!(matches!(
        patch::resolve_descriptor(&ident, "./fix.patch", &None, &vec![]),
        Err(e) if e.kind == ErrorKind::Unsupported
    ));
}

#[test]
fn repository_requirement_is_located_at_its_commit() {
    let source = |treeish| GitRange {
        repo: GitSource::Url("https://e.com/r.git".into()),
        treeish,
        prepare_params: PrepareParams { cwd: None, workspace: Some("w".into()) },
    };
    let main = "1111111111111111111111111111111111111111";
    let tagged = "2222222222222222222222222222222222222222";
    let listing = || {
        Ok(vec![
            RemoteRef { name: "refs/heads/main".into(), hash: main.into() },
            RemoteRef { name: "refs/tags/v1.2.0".into(), hash: tagged.into() },
        ])
    };
    let ident = Ident::new("g");
    let located = zpm::resolvers::git::resolve_descriptor(&ident, &source(GitTreeish::Head("main".into())), listing())
        .expect("a locator");
    assert_eq!(located.ident.as_str(), "g");
    assert!(located.parent.is_none());
    match located.reference {
        Reference::Git(reference) => {
            assert_eq!(reference.commit, main);
            assert!(matches!(reference.repo, GitSource::Url(ref u) if u == "https://e.com/r.git"));
            assert_eq!(reference.prepare_params.workspace.as_deref(), Some("w"));
        }
        other => panic!("unexpected {:?}", other),
    }
    let located = zpm::resolvers::git::resolve_descriptor(&ident, &source(GitTreeish::Tag("v1.2.0".into())), listing())
        .expect("a locator");
    assert!(matches!(located.reference, Reference::Git(GitReference { ref commit, .. }) if commit == tagged));
    assert!(matches!(
        zpm::resolvers::git::resolve_descriptor(&ident, &source(GitTreeish::Head("next".into())), listing()),
        Err(e) if e.kind == ErrorKind::InvalidGitBranch && e.detail == "next"
    ));
    assert!(matches!(
        zpm::resolvers::git::resolve_descriptor(
            &ident,
            &source(GitTreeish::Head("main".into())),
            Err(Error::new(ErrorKind::GitError, "unreachable")),
        ),
        Err(e) if e.kind == ErrorKind::GitError
    ));
}

#[test]
fn portal_and_workspace_are_fetched_in_place() {
    let project = with_workspaces();
    let parent = Locator::new(Ident::new("a"), Reference::Workspace(Ident::new("a")));
    let parent_data = InstallOpResult::Fetched(FetchResult::new(PackageData::Local {
        path: "/project/packages/a".into(),
        discard_from_lookup: false,
    }));
    let fetched = zpm::fetcher::portal::fetch_locator("../lib", &parent, &vec![parent_data])
        .expect("a portal");
    assert!(fetched.resolution.is_none());
    assert!(matches!(
        fetched.package_data,
        PackageData::Local { ref path, discard_from_lookup: false } if path == "/project/packages/lib"
    ));

    let fetched = zpm::fetcher::workspace::fetch_locator(&project, &Ident::new("b")).expect("a workspace");
    assert!(fetched.resolution.is_none());
    assert!(matches!(
        fetched.package_data,
        PackageData::Local { ref path, discard_from_lookup: false } if path == "/project/packages/b"
    ));
    assert!(matches!(
        zpm::fetcher::workspace::fetch_locator(&project, &Ident::new("zzz")),
        Err(e) if e.kind == ErrorKind::WorkspaceNotFound && e.detail == "zzz"
    ));
}

#[test]
fn builder_of_native_code_is_added_once() {
    let gyp = Ident::new("node-gyp");
    let manifest = || RemoteManifest::empty(v(1, 0, 0));

    let added = zpm::resolvers::npm::add_node_gyp(manifest(), true);
    assert_eq!(added.dependencies.len(), 1);
    match added.dependencies.get(&gyp) {
        Some(requirement) => {
            assert_eq!(requirement.ident.as_str(), "node-gyp");
            assert!(matches!(requirement.range, Range::Semver(r) if r == semver::Range::any()));
            assert!(requirement.parent.is_none());
        }
        None => panic!("node-gyp is missing"),
    }

    // a package that does not build is left as it is
    assert_eq!(zpm::resolvers::npm::add_node_gyp(manifest(), false).dependencies.len(), 0);

    // so is one that names the builder itself, as a dependency or as a peer
    let mut named = manifest();
    let pinned = Descriptor::new(Ident::new("node-gyp"), Range::Semver(semver::Range::caret(v(9, 0, 0))));
    named.dependencies.insert(Ident::new("node-gyp"), pinned);
    let kept = zpm::resolvers::npm::add_node_gyp(named, true);
    assert_eq!(kept.dependencies.len(), 1);
    assert!(matches!(
        kept.dependencies.get(&gyp).map(|d| &d.range),
        Some(Range::Semver(r)) if *r == semver::Range::caret(v(9, 0, 0))
    ));
    let mut peer = manifest();
    peer.peer_dependencies.insert(Ident::new("node-gyp"), PeerRange::Unconstrained);
    assert_eq!(zpm::resolvers::npm::add_node_gyp(peer, true).dependencies.len(), 0);
}

#[test]
fn patched_package_is_named_by_its_encoded_locator() {
    let inner = Locator::new(Ident::new("@scope/pkg"), Reference::Semver(v(1, 0, 0)));
    let resolved = InstallOpResult::Resolved(ResolutionResult::new(Resolution {
        locator: inner,
        version: v(1, 0, 0),
        requirements: Requirements::default(),
        dependencies: KeyedList::new(),
        peer_dependencies: KeyedList::new(),
        optional_dependencies: vec![],
        missing_peer_dependencies: vec![],
    }));
    let located = patch::resolve_descriptor(&Ident::new("@scope/pkg"), "./a b~é.patch", &None, &vec![resolved])
        .expect("a locator");
    // letters, digits and `-._~` stay; every other byte is `%` and two
    // upper-case hexadecimal digits
    assert!(matches!(
        located.reference,
        Reference::Patch(ref inner, _) if inner == "%40scope%2Fpkg%40npm%3A1.0.0"
    ));
    let parent = Locator::new(Ident::new("a-b_c.d~e"), Reference::Link("é /x".into()));
    let child = Locator::new_bound(Ident::new("k"), Reference::Link("./k".into()), Some(parent));
    assert_eq!(child.to_file_string(), "k@link:./k::parent=a-b_c.d~e%40link%3A%C3%A9%20%2Fx");
}

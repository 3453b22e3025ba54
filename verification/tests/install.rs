use zpm::graph::GraphCache;
use zpm::graph::GraphOut;
use zpm::graph::GraphIn;
use zpm::keyed::{Duplicate, Key, KeyedList};
use zpm::cache::CompositeCache;
use zpm::config::Config;
use zpm::error::{Error, ErrorKind};
use zpm::fetcher::{fetch, FetchStep, PackageData, Production};
use zpm::graph::{GraphTaskResults, GraphTasks, Step};
use zpm::install::{
    FetchResult, Install, InstallCache, InstallManager, InstallOp, InstallOpResult, Lockfile,
    ResolutionResult,
};
use zpm::primitives::{Descriptor, Ident, Locator, Range, Reference};
use zpm::project::{Manifest, Project, Workspace};
use zpm::resolution::{Description, Dist, PeerRange, RemoteManifest, Requirements, Resolution};
use zpm::resolvers::npm::{resolve_semver_descriptor, IndexEntry, RegistryResponse};
use zpm::resolvers::{resolve, ResolveStep};
use zpm::semver;
use zpm::semver::Version;

fn version(major: u64, minor: u64, patch: u64) -> Version {
    Version { major, minor, patch }
}

fn machine() -> Description {
    Description { os: "linux".to_string(), arch: "x64".to_string() }
}

fn project() -> Project {
    Project { project_cwd: "/project".to_string(), config: Config::default(), workspaces: vec![] }
}

fn requirement(name: &str, range: semver::Range) -> Descriptor {
    Descriptor::new(Ident::new(name), Range::Semver(range))
}

fn manifest(name: &str, v: Version, dependencies: Vec<Descriptor>) -> RemoteManifest {
    let mut m = RemoteManifest::empty(v);
    for d in dependencies {
        m.dependencies.insert(d.ident.duplicate(), d);
    }
    m.dist = Some(Dist {
        tarball: format!(
            "https://registry.npmjs.org/{}/-/{}-{}.tgz",
            name,
            name,
            v.to_file_string()
        ),
    });
    m
}

/// A registry that knows some packages, and counts how often it is asked.
struct Registry {
    packages: Vec<(String, Vec<(Version, Vec<Descriptor>)>)>,
    asked: Vec<String>,
}

impl Registry {
    fn answer(&mut self, ident: &Ident) -> RegistryResponse {
        self.asked.push(ident.as_str().to_string());
        for (name, versions) in &self.packages {
            if name == ident.as_str() {
                let mut entries = vec![];
                for (v, deps) in versions {
                    let deps = deps.iter().map(|d| d.duplicate()).collect();
                    entries.push(IndexEntry {
                        version: v.to_file_string(),
                        manifest: manifest(name, *v, deps),
                        scripts: vec![],
                    });
                }
                return RegistryResponse { status: 200, versions: entries };
            }
        }
        RegistryResponse { status: 404, versions: vec![] }
    }
}

struct Run {
    results: GraphTaskResults<InstallOp, InstallOpResult, Error>,
    /// The operations in the order in which they were run.
    order: Vec<InstallOp>,
    /// The operations that the cache served.
    served: Vec<InstallOp>,
    blocked: Vec<InstallOp>,
}

fn run_one(
    project: &Project,
    registry: &mut Registry,
    cache: &mut CompositeCache,
    op: &InstallOp,
    dependencies: Vec<InstallOpResult>,
) -> Result<InstallOpResult, Error> {
    match op {
        InstallOp::Resolve { descriptor } => match resolve(project, descriptor, &dependencies)? {
            ResolveStep::Done(result) => Ok(InstallOpResult::Resolved(result)),
            ResolveStep::Registry { ident, .. } => {
                let range = match &descriptor.range {
                    Range::Semver(range) => *range,
                    Range::SemverAlias(_, range) => *range,
                    _ => panic!("only ranges are asked of the registry here"),
                };
                let response = registry.answer(&ident);
                let result = resolve_semver_descriptor(project, &ident, &range, response)?;
                Ok(InstallOpResult::Resolved(result))
            }
            other => panic!("unexpected step {:?}", other),
        },
        InstallOp::Fetch { locator } => {
            let parent_data = match dependencies.into_iter().next() {
                Some(InstallOpResult::Fetched(parent)) => Some(parent.package_data),
                _ => None,
            };
            match fetch(project, locator, parent_data)? {
                FetchStep::Done(data) => Ok(InstallOpResult::Fetched(FetchResult::new(data))),
                FetchStep::Produce(Production::Download { url }) => {
                    let blob = cache.store(locator, ".zip", url.into_bytes());
                    Ok(InstallOpResult::Fetched(FetchResult::new(PackageData::from_blob(blob))))
                }
                FetchStep::Produce(other) => panic!("unexpected production {:?}", other),
            }
        }
    }
}

fn drive(
    project: &Project,
    registry: &mut Registry,
    mut graph: GraphTasks<InstallOp, InstallOpResult, Error, InstallCache>,
) -> Run {
    let mut cache = CompositeCache::new("/cache");
    let mut order = vec![];
    let mut served = vec![];
    loop {
        match graph.step() {
            Step::Launch { op, dependencies } => {
                // everything the operation depends on has succeeded
                for dependency in op.graph_dependencies() {
                    assert!(graph.results.success.contains(&dependency));
                }
                order.push(op.duplicate());
                let result = run_one(project, registry, &mut cache, &op, dependencies);
                assert!(graph.complete(op, result));
            }
            Step::Served { op } => served.push(op),
            Step::Idle => break,
        }
    }
    assert!(graph.is_done());
    let blocked = graph.blocked();
    Run { results: graph.finish(), order, served, blocked }
}

fn is_resolve(op: &InstallOp, name: &str) -> bool {
    matches!(op, InstallOp::Resolve { descriptor } if descriptor.ident.as_str() == name)
}

fn is_fetch(op: &InstallOp, name: &str) -> bool {
    matches!(op, InstallOp::Fetch { locator } if locator.ident.as_str() == name)
}

fn finished(manager: InstallManager, run: Run) -> Install {
    match manager.finish(run.results) {
        Ok(install) => install,
        Err(e) => panic!("unexpected error {:?}", e),
    }
}

#[test]
fn highest_version_in_range_is_installed() {
    let project = project();
    let mut registry = Registry {
        packages: vec![(
            "pkg".to_string(),
            vec![
                (version(1, 0, 0), vec![]),
                (version(1, 2, 0), vec![]),
                (version(2, 0, 0), vec![]),
            ],
        )],
        asked: vec![],
    };
    let root = requirement("pkg", semver::Range::caret(version(1, 0, 0)));
    let manager = InstallManager::new(machine()).with_roots(vec![root.duplicate()]);
    let run = drive(&project, &mut registry, manager.start());
    assert!(run.results.failed.is_empty());
    assert!(run.blocked.is_empty());
    let install = finished(manager, run);
    let lockfile = &install.install_state.lockfile;
    assert_eq!(lockfile.resolutions.len(), 1);
    assert_eq!(lockfile.entries.len(), 1);
    let locator = lockfile.resolutions.get(&root).expect("the root is resolved");
    assert_eq!(locator.ident.as_str(), "pkg");
    assert!(matches!(locator.reference, Reference::Semver(v) if v == version(1, 2, 0)));
    let entry = lockfile.entries.get(locator).expect("the package has its entry");
    assert_eq!(entry.resolution.version, version(1, 2, 0));
    assert!(entry.checksum.is_none());
    // the package was fetched, through the cache
    assert_eq!(install.package_data.len(), 1);
    assert!(matches!(install.package_data.get(locator), Some(PackageData::Zip { .. })));
    // the tree maps the requirement as the lockfile does
    let tree = &install.install_state.resolution_tree.descriptor_to_locator;
    assert!(tree.get(&root).expect("in the tree").same(locator));
}

#[test]
fn packages_that_need_each_other_resolve_once() {
    let project = project();
    let a = requirement("a", semver::Range::caret(version(1, 0, 0)));
    let b = requirement("b", semver::Range::caret(version(1, 0, 0)));
    let mut registry = Registry {
        packages: vec![
            ("a".to_string(), vec![(version(1, 0, 0), vec![b.duplicate()])]),
            ("b".to_string(), vec![(version(1, 1, 0), vec![a.duplicate()])]),
        ],
        asked: vec![],
    };
    let manager = InstallManager::new(machine()).with_roots(vec![a.duplicate()]);
    let run = drive(&project, &mut registry, manager.start());
    assert!(run.results.failed.is_empty());
    assert_eq!(registry.asked, vec!["a".to_string(), "b".to_string()]);
    assert_eq!(run.order.iter().filter(|op| is_resolve(op, "a")).count(), 1);
    assert_eq!(run.order.iter().filter(|op| is_resolve(op, "b")).count(), 1);
    assert_eq!(run.order.iter().filter(|op| is_fetch(op, "a")).count(), 1);
    assert_eq!(run.order.iter().filter(|op| is_fetch(op, "b")).count(), 1);
    assert_eq!(run.order.len(), 4);
    let install = finished(manager, run);
    assert_eq!(install.install_state.lockfile.resolutions.len(), 2);
    assert_eq!(install.install_state.lockfile.entries.len(), 2);
}

#[test]
fn failure_does_not_stop_others() {
    let project = project();
    let good = requirement("good", semver::Range::caret(version(1, 0, 0)));
    let missing = requirement("missing", semver::Range::caret(version(1, 0, 0)));
    let too_new = requirement("good", semver::Range::caret(version(5, 0, 0)));
    let mut registry = Registry {
        packages: vec![("good".to_string(), vec![(version(1, 0, 0), vec![])])],
        asked: vec![],
    };
    let manager = InstallManager::new(machine()).with_roots(vec![
        missing.duplicate(),
        good.duplicate(),
        too_new.duplicate(),
    ]);
    let run = drive(&project, &mut registry, manager.start());
    assert_eq!(run.results.failed.len(), 2);
    for (op, error) in &run.results.failed {
        assert!(error.is_not_found());
        match op {
            InstallOp::Resolve { descriptor } if descriptor.same(&missing) => {
                assert_eq!(error.kind, ErrorKind::PackageNotFound);
                assert_eq!(error.detail, "https://registry.npmjs.org/missing");
            }
            InstallOp::Resolve { descriptor } if descriptor.same(&too_new) => {
                assert_eq!(error.kind, ErrorKind::NoCandidatesFound);
                assert_eq!(error.detail, ">=5.0.0 <6.0.0");
            }
            other => panic!("unexpected failure of {:?}", other),
        }
    }
    // the sibling resolved and was fetched all the same
    let op = InstallOp::Resolve { descriptor: good.duplicate() };
    assert!(run.results.success.contains(&op));
    assert!(run.order.iter().any(|op| is_fetch(op, "good")));
    // and a run with failures hands out no lockfile
    match manager.finish(run.results) {
        Err(e) => assert!(e.is_not_found()),
        Ok(_) => panic!("a failed run has no outcome"),
    }
}

#[test]
fn linked_dependency_of_a_workspace() {
    let mut workspace_manifest = RemoteManifest::empty(version(1, 0, 0));
    let lib = Descriptor::new(Ident::new("lib"), Range::Link("../lib".to_string()));
    workspace_manifest.dependencies.insert(Ident::new("lib"), lib);
    let project = Project {
        project_cwd: "/project".to_string(),
        config: Config::default(),
        workspaces: vec![Workspace {
            name: Ident::new("x"),
            path: "/project/packages/x".to_string(),
            rel_path: "packages/x".to_string(),
            manifest: Manifest { remote: workspace_manifest, dev_dependencies: KeyedList::new() },
        }],
    };
    let mut registry = Registry { packages: vec![], asked: vec![] };
    let root = Descriptor::new(Ident::new("x"), Range::WorkspaceIdent(Ident::new("x")));
    let manager = InstallManager::new(machine()).with_roots(vec![root.duplicate()]);
    let run = drive(&project, &mut registry, manager.start());
    assert!(run.results.failed.is_empty());
    assert!(registry.asked.is_empty());

    let x = Locator::new(Ident::new("x"), Reference::Workspace(Ident::new("x")));
    // the link was bound to the workspace that declares it
    let bound =
        Descriptor::new_bound(Ident::new("lib"), Range::Link("../lib".to_string()), Some(x.duplicate()));
    let resolve_lib = InstallOp::Resolve { descriptor: bound.duplicate() };
    assert!(run.results.success.contains(&resolve_lib));
    // and resolving it waited for the workspace to be fetched
    let deps = resolve_lib.graph_dependencies();
    assert_eq!(deps.len(), 1);
    assert!(deps[0].same(&InstallOp::Fetch { locator: x.duplicate() }));
    let fetched_x = run.order.iter().position(|op| is_fetch(op, "x")).expect("x is fetched");
    let resolved_lib =
        run.order.iter().position(|op| is_resolve(op, "lib")).expect("lib is resolved");
    let fetched_lib = run.order.iter().position(|op| is_fetch(op, "lib")).expect("lib is fetched");
    assert!(fetched_x < resolved_lib);
    assert!(fetched_x < fetched_lib);

    let install = finished(manager, run);
    let lib = install.install_state.lockfile.resolutions.get(&bound).expect("lib is resolved");
    assert!(matches!(lib.reference, Reference::Link(ref p) if p == "../lib"));
    match install.package_data.get(lib) {
        Some(PackageData::Local { path, discard_from_lookup }) => {
            assert_eq!(path, "/project/packages/lib");
            assert!(*discard_from_lookup);
        }
        other => panic!("unexpected content {:?}", other),
    }
    match install.package_data.get(&x) {
        Some(PackageData::Local { path, discard_from_lookup }) => {
            assert_eq!(path, "/project/packages/x");
            assert!(!*discard_from_lookup);
        }
        other => panic!("unexpected content {:?}", other),
    }
}

#[test]
fn empty_roots_register_nothing() {
    let project = project();
    let mut registry = Registry { packages: vec![], asked: vec![] };
    let manager = InstallManager::new(machine());
    let graph = manager.start();
    assert_eq!(graph.tasks.len(), 0);
    assert!(graph.is_done());
    let run = drive(&project, &mut registry, graph);
    assert_eq!(run.results.success.len(), 0);
    assert!(run.results.failed.is_empty());
    assert!(run.order.is_empty());
    let install = finished(manager, run);
    assert_eq!(install.install_state.lockfile.resolutions.len(), 0);
    assert_eq!(install.install_state.lockfile.entries.len(), 0);
    assert_eq!(install.package_data.len(), 0);
}

#[test]
fn registering_twice_is_registering_once() {
    let root = requirement("pkg", semver::Range::any());
    let mut graph: GraphTasks<InstallOp, InstallOpResult, Error, InstallCache> =
        GraphTasks::new(InstallCache::new(Lockfile::new()));
    graph.register(InstallOp::Resolve { descriptor: root.duplicate() });
    graph.register(InstallOp::Resolve { descriptor: root.duplicate() });
    assert_eq!(graph.tasks.len(), 1);
    assert_eq!(graph.ready.len(), 1);
    // a locator with a parent brings the parent along, once
    let parent = Locator::new(Ident::new("p"), Reference::Semver(version(1, 0, 0)));
    let child = Locator::new_bound(
        Ident::new("c"),
        Reference::Link("./c".to_string()),
        Some(parent.duplicate()),
    );
    graph.register(InstallOp::Fetch { locator: child.duplicate() });
    graph.register(InstallOp::Fetch { locator: child.duplicate() });
    graph.register(InstallOp::Fetch { locator: parent.duplicate() });
    assert_eq!(graph.tasks.len(), 3);
    // the child waits; the parent is ready
    assert_eq!(graph.ready.len(), 2);
    assert!(graph.ready.iter().all(|op| !op.same(&InstallOp::Fetch { locator: child.duplicate() })));
    assert_eq!(graph.dependents.len(), 1);
}

#[test]
fn lockfile_serves_before_any_resolver() {
    let project = project();
    let root = requirement("pkg", semver::Range::caret(version(1, 0, 0)));
    // a lockfile that resolved the root to a version the registry does not even list
    let locator = Locator::new(Ident::new("pkg"), Reference::Semver(version(1, 1, 1)));
    let mut lockfile = Lockfile::new();
    lockfile.record(
        root.duplicate(),
        Resolution {
            locator: locator.duplicate(),
            version: version(1, 1, 1),
            requirements: Requirements::default(),
            dependencies: KeyedList::new(),
            peer_dependencies: KeyedList::new(),
            optional_dependencies: vec![],
            missing_peer_dependencies: vec![],
        },
    );
    let mut registry = Registry {
        packages: vec![("pkg".to_string(), vec![(version(1, 2, 0), vec![])])],
        asked: vec![],
    };
    let manager =
        InstallManager::new(machine()).with_lockfile(lockfile).with_roots(vec![root.duplicate()]);
    let run = drive(&project, &mut registry, manager.start());
    assert!(registry.asked.is_empty());
    assert_eq!(run.served.len(), 1);
    assert!(is_resolve(&run.served[0], "pkg"));
    assert!(run.order.iter().all(|op| !is_resolve(op, "pkg")));
    // the package of the lockfile is what gets fetched
    assert_eq!(run.order.len(), 1);
    assert!(run.order[0].same(&InstallOp::Fetch { locator: locator.duplicate() }));
    let install = finished(manager, run);
    let resolved = install.install_state.lockfile.resolutions.get(&root).expect("resolved");
    assert!(resolved.same(&locator));
}

#[test]
fn lockfile_cache_knows_resolutions_only() {
    let root = requirement("pkg", semver::Range::any());
    let locator = Locator::new(Ident::new("pkg"), Reference::Semver(version(1, 0, 0)));
    let mut lockfile = Lockfile::new();
    lockfile.record(
        root.duplicate(),
        Resolution {
            locator: locator.duplicate(),
            version: version(1, 0, 0),
            requirements: Requirements::default(),
            dependencies: KeyedList::new(),
            peer_dependencies: KeyedList::new(),
            optional_dependencies: vec![],
            missing_peer_dependencies: vec![],
        },
    );
    let cache = InstallCache::new(lockfile);
    assert!(cache.is_sound());
    match cache.graph_cache(&InstallOp::Resolve { descriptor: root.duplicate() }) {
        Some(InstallOpResult::Resolved(result)) => {
            assert!(result.resolution.locator.same(&locator));
            assert!(result.package_data.is_none());
        }
        other => panic!("unexpected {:?}", other),
    }
    assert!(cache.graph_cache(&InstallOp::Fetch { locator: locator.duplicate() }).is_none());
    let other = requirement("other", semver::Range::any());
    assert!(cache.graph_cache(&InstallOp::Resolve { descriptor: other }).is_none());
}

#[test]
fn follow_ups_of_outputs() {
    let dep = requirement("dep", semver::Range::any());
    let locator = Locator::new(Ident::new("pkg"), Reference::Semver(version(1, 0, 0)));
    let mut dependencies = KeyedList::new();
    dependencies.insert(Ident::new("dep"), dep.duplicate());
    let resolution = || Resolution {
        locator: locator.duplicate(),
        version: version(1, 0, 0),
        requirements: Requirements::default(),
        dependencies: dependencies.duplicate_list(),
        peer_dependencies: KeyedList::new(),
        optional_dependencies: vec![],
        missing_peer_dependencies: vec![],
    };
    let resolved = InstallOpResult::Resolved(ResolutionResult::new(resolution()));
    let ups = resolved.graph_follow_ups();
    assert_eq!(ups.len(), 2);
    assert!(ups[0].same(&InstallOp::Fetch { locator: locator.duplicate() }));
    assert!(ups[1].same(&InstallOp::Resolve { descriptor: dep.duplicate() }));

    let data = || PackageData::Local { path: "/p".to_string(), discard_from_lookup: false };
    let fetched = InstallOpResult::Fetched(FetchResult::new(data()));
    assert!(fetched.graph_follow_ups().is_empty());
    let fetched = InstallOpResult::Fetched(FetchResult {
        resolution: Some(resolution()),
        package_data: data(),
    });
    let ups = fetched.graph_follow_ups();
    assert_eq!(ups.len(), 1);
    assert!(ups[0].same(&InstallOp::Resolve { descriptor: dep.duplicate() }));
    // and such a result turns into that of a resolution
    match fetched {
        InstallOpResult::Fetched(f) => {
            let r = f.into_resolution_result();
            assert!(r.package_data.is_some());
            assert!(r.resolution.locator.same(&locator));
        }
        _ => unreachable!(),
    }
}

#[test]
fn dependents_of_a_failure_are_reported_as_blocked() {
    let project = project();
    // fetching the child waits for its parent, whose archive cannot be produced here
    let parent = Locator::new(Ident::new("p"), Reference::Workspace(Ident::new("nowhere")));
    let child = Locator::new_bound(
        Ident::new("c"),
        Reference::Link("./c".to_string()),
        Some(parent.duplicate()),
    );
    let mut graph: GraphTasks<InstallOp, InstallOpResult, Error, InstallCache> =
        GraphTasks::new(InstallCache::new(Lockfile::new()));
    graph.register(InstallOp::Fetch { locator: child.duplicate() });
    let mut registry = Registry { packages: vec![], asked: vec![] };
    let run = drive(&project, &mut registry, graph);
    assert_eq!(run.results.success.len(), 0);
    assert_eq!(run.results.failed.len(), 1);
    assert_eq!(run.results.failed[0].1.kind, ErrorKind::WorkspaceNotFound);
    assert!(run.results.failed[0].0.same(&InstallOp::Fetch { locator: parent.duplicate() }));
    assert_eq!(run.blocked.len(), 1);
    assert!(run.blocked[0].same(&InstallOp::Fetch { locator: child.duplicate() }));
}

#[test]
fn the_cap_holds_flights_back() {
    let mut graph: GraphTasks<InstallOp, InstallOpResult, Error, InstallCache> =
        GraphTasks::new(InstallCache::new(Lockfile::new())).with_limit(2);
    assert_eq!(zpm::graph::CONCURRENCY_CAP, 100);
    for name in ["a", "b", "c"] {
        graph.register(InstallOp::Resolve { descriptor: requirement(name, semver::Range::any()) });
    }
    let mut flying = vec![];
    loop {
        match graph.step() {
            Step::Launch { op, .. } => flying.push(op),
            Step::Served { .. } => panic!("nothing is cached"),
            Step::Idle => break,
        }
    }
    // the ready stack hands out the last registered first
    assert_eq!(flying.len(), 2);
    assert!(is_resolve(&flying[0], "c"));
    assert!(is_resolve(&flying[1], "b"));
    assert!(!graph.is_done());
    // an operation that is not in flight is refused
    let stranger = InstallOp::Resolve { descriptor: requirement("z", semver::Range::any()) };
    assert!(!graph.complete(stranger, Err(Error::bare(ErrorKind::Unsupported))));
    let first = flying.remove(0);
    assert!(graph.complete(first.duplicate(), Err(Error::bare(ErrorKind::Unsupported))));
    // and not twice
    assert!(!graph.complete(first, Err(Error::bare(ErrorKind::Unsupported))));
    assert!(matches!(graph.step(), Step::Launch { op, .. } if is_resolve(&op, "a")));
}

#[test]
fn results_helpers() {
    let mut results: GraphTaskResults<InstallOp, InstallOpResult, Error> = GraphTaskResults::new();
    assert_eq!(GraphTaskResults::<InstallOp, InstallOpResult, Error>::new().unwrap().len(), 0);
    assert!(GraphTaskResults::<InstallOp, InstallOpResult, Error>::new().ok_or(1u8).is_ok());
    results.failed.push((
        InstallOp::Resolve { descriptor: requirement("a", semver::Range::any()) },
        Error::bare(ErrorKind::GitError),
    ));
    let failures = results.ok_or_else(|failed| failed.len());
    assert!(matches!(failures, Err(1)));
    let mut results: GraphTaskResults<InstallOp, InstallOpResult, Error> = GraphTaskResults::new();
    results.failed.push((
        InstallOp::Resolve { descriptor: requirement("a", semver::Range::any()) },
        Error::bare(ErrorKind::GitError),
    ));
    assert!(matches!(results.ok_or(7u8), Err(7)));
}

#[test]
fn conditional_packages_are_noted_and_kept() {
    let mut manager = InstallManager::new(machine());
    let root = requirement("native", semver::Range::any());
    let locator = Locator::new(Ident::new("native"), Reference::Semver(version(1, 0, 0)));
    let resolution = Resolution {
        locator: locator.duplicate(),
        version: version(1, 0, 0),
        requirements: Requirements { os: vec!["darwin".to_string()], cpu: vec![] },
        dependencies: KeyedList::new(),
        peer_dependencies: KeyedList::new(),
        optional_dependencies: vec![],
        missing_peer_dependencies: vec![],
    };
    manager.record_resolution(root.duplicate(), resolution, None);
    let state = &manager.result.install_state;
    assert_eq!(state.conditional_locators.len(), 1);
    assert_eq!(state.disabled_locators.len(), 1);
    assert!(state.disabled_locators[0].same(&locator));
    // it stays in the lockfile
    assert!(state.lockfile.resolutions.contains(&root));
    assert!(state.lockfile.entries.contains(&locator));

    let here = Locator::new(Ident::new("here"), Reference::Semver(version(1, 0, 0)));
    let resolution = Resolution {
        locator: here.duplicate(),
        version: version(1, 0, 0),
        requirements: Requirements { os: vec!["linux".to_string()], cpu: vec!["x64".to_string()] },
        dependencies: KeyedList::new(),
        peer_dependencies: KeyedList::new(),
        optional_dependencies: vec![],
        missing_peer_dependencies: vec![],
    };
    let data = PackageData::Local { path: "/here".to_string(), discard_from_lookup: false };
    manager.record_resolution(requirement("here", semver::Range::any()), resolution, Some(data));
    let state = &manager.result.install_state;
    assert_eq!(state.conditional_locators.len(), 2);
    assert_eq!(state.disabled_locators.len(), 1);
    assert!(manager.result.package_data.contains(&here));
    let _ = PeerRange::Unconstrained;
}

#[test]
fn results_are_told_apart() {
    let locator = Locator::new(Ident::new("pkg"), Reference::Semver(version(1, 0, 0)));
    let resolved = InstallOpResult::Resolved(ResolutionResult::new(Resolution {
        locator: locator.duplicate(),
        version: version(1, 0, 0),
        requirements: Requirements::default(),
        dependencies: KeyedList::new(),
        peer_dependencies: KeyedList::new(),
        optional_dependencies: vec![],
        missing_peer_dependencies: vec![],
    }));
    assert!(resolved.expect_resolved().resolution.locator.same(&locator));
    let fetched = InstallOpResult::Fetched(FetchResult::new(PackageData::Local {
        path: "/p".to_string(),
        discard_from_lookup: true,
    }));
    assert!(matches!(
        fetched.expect_fetched().package_data,
        PackageData::Local { discard_from_lookup: true, .. }
    ));
}

#[test]
fn context_is_built_up() {
    let cache = CompositeCache::new("/cache");
    let project = project();
    let context = zpm::install::InstallContext::default();
    assert!(context.package_cache.is_none() && context.project.is_none());
    let context = context.with_package_cache(Some(&cache)).with_project(Some(&project));
    assert_eq!(context.package_cache.map(|c| c.root.as_str()), Some("/cache"));
    assert_eq!(context.project.map(|p| p.project_cwd.as_str()), Some("/project"));
    let manager = InstallManager::new(machine()).with_context(context);
    assert!(manager.context.project.is_some());
    let manager = manager.with_context(zpm::install::InstallContext::default());
    assert!(manager.context.package_cache.is_none());
}

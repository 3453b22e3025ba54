use zpm::keyed::{Duplicate, Key, KeyedList};
use zpm::colors::{DataType, JsonPath, Rgb};
use zpm::commands::{
    add_dependencies, apply_install_flags, node_options, printed_workspace_path,
    remove_dependencies_from_manifest, remove_dependencies_from_set,
};
use zpm::config::{Config, Glob, HydrateSetting, Setting, SettingSource};
use zpm::constraints::structs::{Caller, ConstraintsOutput, WorkspaceError, WorkspaceOperation};
use zpm::constraints::{
    display_report, max_loops, should_stop, to_constraints_package, to_constraints_workspace,
};
use zpm::error::{Error, ErrorKind};
use zpm::install::InstallState;
use zpm::manifest::resolutions::ResolutionSelector;
use zpm::manifest_finder::{poll, CachedManifestFinder, DirEntry, PollResult, SaveState};
use zpm::primitives::{Descriptor, Ident, Locator, Range, Reference};
use zpm::project::{Manifest, Project, Workspace};
use zpm::resolution::{Description, PeerRange, RemoteManifest, Requirements, Resolution};
use zpm::semver;
use zpm::semver::Version;
use zpm::settings::{PnpFallbackMode, ProjectConfig};

fn v(major: u64, minor: u64, patch: u64) -> Version {
    Version { major, minor, patch }
}

fn any(name: &str) -> Descriptor {
    Descriptor::new(Ident::new(name), Range::Semver(semver::Range::any()))
}

#[test]
fn settings_defaults() {
    let config = ProjectConfig::default();
    assert!(!config.enable_global_cache.value);
    assert_eq!(config.npm_registry_server.value, "https://registry.npmjs.org");
    assert_eq!(config.global_folder.value, ".yarn/zpm");
    assert_eq!(config.pnp_fallback_mode.value, PnpFallbackMode::All);
    assert!(config.pnp_enable_inlining.value);
    assert!(config.pnp_ignore_patterns.value.is_empty());
    assert_eq!(config.pnp_shebang.value, "#!/usr/bin/env node");
    assert_eq!(config.npm_registry_server.source, SettingSource::Default);
    let mut setting = Setting::new(3u8);
    assert_eq!(setting.source, SettingSource::Default);
    setting.set(4, SettingSource::Env);
    assert_eq!(setting.value, 4);
    assert_eq!(setting.source, SettingSource::Env);
    let mut config = Config::default();
    config.project.npm_registry_server.set("https://r.example".to_string(), SettingSource::Project);
    assert_eq!(config.registry_url_for(&Ident::new("x")), "https://r.example");
}

#[test]
fn settings_from_the_environment() {
    assert!(matches!(<bool as HydrateSetting<bool>>::hydrate_setting_from_env("true"), Ok(true)));
    assert!(matches!(<bool as HydrateSetting<bool>>::hydrate_setting_from_env("false"), Ok(false)));
    match <bool as HydrateSetting<bool>>::hydrate_setting_from_env("yes") {
        Err(e) => {
            assert_eq!(e.kind, ErrorKind::SerializationError);
            assert_eq!(e.detail, "yes");
        }
        Ok(_) => panic!("only true and false are booleans"),
    }
    assert!(matches!(
        <String as HydrateSetting<String>>::hydrate_setting_from_env("text"),
        Ok(s) if s == "text"
    ));
    assert!(matches!(
        <Glob as HydrateSetting<Glob>>::hydrate_setting_from_env("*.js"),
        Ok(g) if g.pattern == "*.js"
    ));
}

#[test]
fn globs_match() {
    let glob = Glob { pattern: "@babel/*".to_string() };
    assert!(glob.is_match("@babel/core"));
    assert!(!glob.is_match("lodash"));
    assert!(Glob { pattern: "lodash".to_string() }.is_match("lodash"));
    assert!(!Glob { pattern: "lodash".to_string() }.is_match("lodash.merge"));
    // a pattern that cannot be read matches nothing
    assert!(!Glob { pattern: "{".to_string() }.is_match("{"));
}

#[test]
fn colours() {
    assert_eq!(DataType::String.color(), Rgb { r: 50, g: 170, b: 80 });
    assert_eq!(DataType::Number.color(), Rgb { r: 255, g: 215, b: 0 });
    assert_eq!(DataType::Boolean.color(), Rgb { r: 250, g: 160, b: 35 });
    assert_eq!(DataType::Null.color(), Rgb { r: 160, g: 80, b: 180 });
    assert_eq!(DataType::Code.color(), Rgb { r: 135, g: 175, b: 255 });
    assert_eq!(DataType::Path.color(), DataType::Url.color());
    // with or without colours, the text is in what comes out
    assert!(DataType::Code.colorize("hello").contains("hello"));
}

#[test]
fn json_paths() {
    let path = JsonPath::new(vec!["dependencies".to_string(), "lodash".to_string()]);
    assert_eq!(path.segments().len(), 2);
    assert_eq!(path.to_file_string(), "dependencies.lodash");
    let path = JsonPath::new(vec!["scripts".to_string(), "a\"b".to_string(), "x".to_string()]);
    assert_eq!(path.to_file_string(), "scripts.[\"a\\\"b\"].x");
    assert_eq!(JsonPath::new(vec![]).to_file_string(), "");
    assert_eq!(JsonPath::new(vec!["a\nb".to_string()]).to_file_string(), "[\"a\\nb\"]");
    assert_eq!(JsonPath::new(vec!["é".to_string()]).to_file_string(), "é");
    assert!(path.to_print_string().contains("scripts"));
}

fn workspace() -> Workspace {
    let mut remote = RemoteManifest::empty(v(1, 0, 0));
    for name in ["lodash", "@babel/core", "@babel/parser", "react"] {
        remote.dependencies.insert(Ident::new(name), any(name));
    }
    remote.optional_dependencies.insert(Ident::new("@babel/opt"), any("@babel/opt"));
    remote.peer_dependencies.insert(Ident::new("react"), PeerRange::Unconstrained);
    let mut dev = KeyedList::new();
    dev.insert(Ident::new("@babel/cli"), any("@babel/cli"));
    dev.insert(Ident::new("jest"), any("jest"));
    Workspace {
        name: Ident::new("w"),
        path: "/p/w".into(),
        rel_path: "w".into(),
        manifest: Manifest { remote, dev_dependencies: dev },
    }
}

fn names<T>(list: &KeyedList<Ident, T>) -> Vec<&str> {
    list.entries.iter().map(|e| e.0.as_str()).collect()
}

#[test]
fn remove_takes_what_the_patterns_match() {
    let mut w = workspace();
    let globs = vec![Glob { pattern: "@babel/*".into() }, Glob { pattern: "react".into() }];
    remove_dependencies_from_manifest(&mut w, &globs);
    assert_eq!(names(&w.manifest.remote.dependencies), vec!["lodash"]);
    assert!(names(&w.manifest.remote.optional_dependencies).is_empty());
    assert!(names(&w.manifest.remote.peer_dependencies).is_empty());
    assert_eq!(names(&w.manifest.dev_dependencies), vec!["jest"]);
    let mut w = workspace();
    remove_dependencies_from_set(&mut w.manifest.remote.dependencies, &vec![]);
    assert_eq!(names(&w.manifest.remote.dependencies).len(), 4);
    remove_dependencies_from_set(
        &mut w.manifest.remote.dependencies,
        &vec![Glob { pattern: "*".into() }],
    );
    assert_eq!(names(&w.manifest.remote.dependencies), vec!["@babel/core", "@babel/parser"]);
}

#[test]
fn add_puts_requirements_in() {
    let mut w = workspace();
    let pinned =
        Descriptor::new(Ident::new("lodash"), Range::Semver(semver::Range::exact(v(4, 0, 0))));
    add_dependencies(&mut w, &vec![pinned.duplicate(), any("new")]);
    assert_eq!(
        names(&w.manifest.remote.dependencies),
        vec!["lodash", "@babel/core", "@babel/parser", "react", "new"]
    );
    assert!(w.manifest.remote.dependencies.get(&Ident::new("lodash")).expect("there").same(&pinned));
}

#[test]
fn small_decisions_of_commands() {
    assert_eq!(printed_workspace_path(""), ".");
    assert_eq!(printed_workspace_path("packages/a"), "packages/a");
    assert_eq!(node_options("", None, None), "");
    assert_eq!(node_options("--x", Some("/p/.pnp.cjs"), None), "--x --require /p/.pnp.cjs");
    assert_eq!(
        node_options("", Some("/p/.pnp.cjs"), Some("/p/.pnp.loader.mjs")),
        " --require /p/.pnp.cjs --experimental-loader /p/.pnp.loader.mjs"
    );
    let mut config = Config::default();
    apply_install_flags(&mut config, true, false);
    assert!(config.project.enable_immutable_installs.value);
    assert!(!config.project.enable_immutable_cache.value);
    apply_install_flags(&mut config, false, true);
    assert!(config.project.enable_immutable_installs.value);
    assert!(config.project.enable_immutable_cache.value);
    assert_eq!(max_loops(true), 10);
    assert_eq!(max_loops(false), 1);
    assert!(should_stop(0, 3, 1, true));
    assert!(should_stop(3, 0, 1, true));
    assert!(!should_stop(3, 3, 1, true));
    assert!(should_stop(3, 3, 10, true));
    assert!(should_stop(3, 3, 1, false));
}

#[test]
fn selectors_apply() {
    let parent = Locator::new(Ident::new("app"), Reference::Semver(v(2, 1, 0)));
    let replacement = Range::Semver(semver::Range::exact(v(9, 0, 0)));
    let wanted = any("lodash");
    let other = any("react");
    let applies = |selector: &ResolutionSelector, d: &Descriptor| {
        selector.apply(&parent, &v(2, 1, 0), d, &replacement).is_some()
    };

    let by_descriptor = ResolutionSelector::Descriptor { descriptor: wanted.duplicate() };
    assert!(applies(&by_descriptor, &wanted));
    assert!(!applies(&by_descriptor, &other));
    let narrower =
        Descriptor::new(Ident::new("lodash"), Range::Semver(semver::Range::caret(v(1, 0, 0))));
    assert!(!applies(&by_descriptor, &narrower));
    assert_eq!(by_descriptor.target_ident().as_str(), "lodash");
    assert_eq!(by_descriptor.to_file_string(), "lodash@npm:*");

    let by_ident = ResolutionSelector::Ident { ident: Ident::new("lodash") };
    assert!(applies(&by_ident, &wanted));
    assert!(applies(&by_ident, &narrower));
    assert!(!applies(&by_ident, &other));
    assert_eq!(by_ident.to_file_string(), "lodash");
    assert!(matches!(
        by_ident.apply(&parent, &v(2, 1, 0), &wanted, &replacement),
        Some(Range::Semver(r)) if r == semver::Range::exact(v(9, 0, 0))
    ));

    let below_version = ResolutionSelector::DescriptorIdent {
        parent_descriptor: Descriptor::new(
            Ident::new("app"),
            Range::Semver(semver::Range::caret(v(2, 0, 0))),
        ),
        ident: Ident::new("lodash"),
    };
    assert!(applies(&below_version, &wanted));
    assert!(!applies(&below_version, &other));
    assert!(below_version.apply(&parent, &v(3, 0, 0), &wanted, &replacement).is_none());
    assert_eq!(below_version.to_file_string(), "app@npm:>=2.0.0 <3.0.0/lodash");
    assert_eq!(below_version.target_ident().as_str(), "lodash");
    let below_tag = ResolutionSelector::DescriptorIdent {
        parent_descriptor: Descriptor::new(Ident::new("app"), Range::SemverTag("latest".into())),
        ident: Ident::new("lodash"),
    };
    assert!(!applies(&below_tag, &wanted));

    let below_name = ResolutionSelector::IdentIdent {
        parent_ident: Ident::new("app"),
        ident: Ident::new("lodash"),
    };
    assert!(applies(&below_name, &wanted));
    assert!(!applies(&below_name, &other));
    let elsewhere = ResolutionSelector::IdentIdent {
        parent_ident: Ident::new("lib"),
        ident: Ident::new("lodash"),
    };
    assert!(!applies(&elsewhere, &wanted));
    assert_eq!(elsewhere.to_file_string(), "lib/lodash");
    assert_eq!(elsewhere.to_print_string(), "lib/lodash");
}

#[test]
fn constraints_views() {
    let w = workspace();
    match to_constraints_workspace(&w) {
        Ok(c) => {
            assert_eq!(c.cwd, "w");
            assert_eq!(c.ident.as_str(), "w");
        }
        Err(e) => panic!("unexpected {:?}", e),
    }
    let project = Project { project_cwd: "/p".into(), config: Config::default(), workspaces: vec![w] };
    let lodash = Locator::new(Ident::new("lodash"), Reference::Semver(v(4, 0, 0)));
    let mut state = InstallState::new();
    state.resolution_tree.descriptor_to_locator.insert(any("lodash"), lodash.duplicate());
    let mut dependencies = KeyedList::new();
    dependencies.insert(Ident::new("lodash"), any("lodash"));
    let resolution = |name: &str, dependencies: KeyedList<Ident, Descriptor>| Resolution {
        locator: Locator::new(Ident::new(name), Reference::Workspace(Ident::new(name))),
        version: v(1, 0, 0),
        requirements: Requirements::default(),
        dependencies,
        peer_dependencies: KeyedList::new(),
        optional_dependencies: vec![],
        missing_peer_dependencies: vec![],
    };
    let package = to_constraints_package(&project, &state, &resolution("w", dependencies.duplicate_list()))
        .expect("a package");
    assert_eq!(package.ident.as_str(), "w");
    assert_eq!(package.workspace.as_deref(), Some("w"));
    assert_eq!(package.version, v(1, 0, 0));
    assert_eq!(package.dependencies.len(), 1);
    assert_eq!(package.dependencies[0].0.as_str(), "lodash");
    assert!(package.dependencies[0].1.same(&lodash));
    assert!(package.peer_dependencies.is_empty());
    // a workspace the project does not have, or a requirement the tree does not hold
    assert!(to_constraints_package(&project, &state, &resolution("zzz", dependencies.duplicate_list())).is_none());
    let mut unknown = KeyedList::new();
    unknown.insert(Ident::new("react"), any("react"));
    assert!(to_constraints_package(&project, &state, &resolution("w", unknown)).is_none());
    let output = ConstraintsOutput {
        all_workspace_operations: vec![(
            "w".into(),
            vec![WorkspaceOperation::Unset { path: vec!["a".into()] }],
        )],
        all_workspace_errors: vec![],
    };
    assert!(!output.is_settled());
    assert!(output.is_clean());
}

#[test]
fn polling_directories() {
    assert_eq!(poll(10, None), Some(PollResult::NotFound));
    assert_eq!(poll(10, Some(10)), None);
    assert_eq!(poll(10, Some(9)), None);
    assert_eq!(poll(10, Some(11)), Some(PollResult::Changed));
    assert_eq!(poll(0, Some(0)), None);
}

#[test]
fn manifests_are_found() {
    let mut finder = CachedManifestFinder::new("/project", None);
    assert_eq!(finder.save_state_path, "/project/.yarn/ignore/manifests");
    assert_eq!(finder.save_state.roots, vec![String::new()]);
    assert_eq!(finder.save_state.cache.get(&String::new()), Some(&0));
    assert!(finder.settle("", PollResult::Changed));
    let entries = vec![
        DirEntry { name: "package.json".into(), is_dir: false },
        DirEntry { name: "packages".into(), is_dir: true },
        DirEntry { name: "README.md".into(), is_dir: false },
        DirEntry { name: "docs".into(), is_dir: true },
    ];
    let next = finder.refresh_directory("", 100, &entries);
    assert_eq!(next, vec!["packages".to_string(), "docs".to_string()]);
    assert_eq!(finder.manifests(), &vec![String::new()]);
    assert_eq!(finder.save_state.cache.get(&String::new()), Some(&100));
    let next = finder.refresh_directory(
        "packages/a",
        100,
        &vec![DirEntry { name: "package.json".into(), is_dir: false }],
    );
    assert!(next.is_empty());
    assert_eq!(finder.manifests(), &vec![String::new(), "packages/a".to_string()]);
    // read again, nothing is there twice; without its manifest it is dropped
    finder.refresh_directory(
        "packages/a",
        200,
        &vec![DirEntry { name: "package.json".into(), is_dir: false }],
    );
    assert_eq!(finder.manifests().len(), 2);
    assert_eq!(finder.save_state.cache.get(&"packages/a".to_string()), Some(&200));
    finder.refresh_directory("", 300, &vec![]);
    assert_eq!(finder.manifests(), &vec!["packages/a".to_string()]);
    // a directory that is gone is forgotten
    assert!(!finder.settle("packages/a", PollResult::NotFound));
    assert!(finder.manifests().is_empty());
    assert!(finder.save_state.cache.get(&"packages/a".to_string()).is_none());

    // what was saved for the same starting points is taken up, anything else is not
    let saved = finder.save_state;
    let again = CachedManifestFinder::new("/project", Some(saved));
    assert_eq!(again.save_state.cache.get(&String::new()), Some(&300));
    let elsewhere = SaveState::new(vec!["other".to_string()]);
    assert_eq!(elsewhere.cache.get(&"other".to_string()), Some(&0));
    let fresh = CachedManifestFinder::new("/project", Some(elsewhere));
    assert_eq!(fresh.save_state.roots, vec![String::new()]);
    assert_eq!(fresh.save_state.cache.len(), 1);
    assert!(SaveState::default().roots.is_empty());
}

#[test]
fn requirements_of_machines() {
    let linux = Description { os: "linux".into(), arch: "x64".into() };
    assert!(!Requirements::default().is_conditional());
    assert!(Requirements::default().validate(&linux));
    let r = Requirements { os: vec!["darwin".into(), "linux".into()], cpu: vec![] };
    assert!(r.is_conditional());
    assert!(r.validate(&linux));
    let r = Requirements { os: vec![], cpu: vec!["arm64".into()] };
    assert!(r.is_conditional());
    assert!(!r.validate(&linux));
    let r = Requirements { os: vec!["linux".into()], cpu: vec!["arm64".into()] };
    assert!(!r.validate(&linux));
}

#[test]
fn normalizing_twice_is_normalizing_once() {
    let locator = Locator::new(Ident::new("p"), Reference::Semver(v(1, 0, 0)));
    let mut manifest = RemoteManifest::empty(v(1, 0, 0));
    manifest.dependencies.insert(Ident::new("l"), Descriptor::new(Ident::new("l"), Range::Link("./l".into())));
    manifest.dependencies.insert(Ident::new("d"), any("d"));
    manifest.peer_dependencies.insert(Ident::new("d"), PeerRange::Unconstrained);
    manifest.peer_dependencies.insert(Ident::new("m"), PeerRange::Unconstrained);
    let once = Resolution::from_remote_manifest(locator.duplicate(), manifest).normalize();
    let twice = once.duplicate().normalize();
    assert_eq!(once.dependencies.len(), twice.dependencies.len());
    for (a, b) in once.dependencies.entries.iter().zip(twice.dependencies.entries.iter()) {
        assert!(a.0.same(&b.0) && a.1.same(&b.1));
    }
    assert_eq!(once.peer_dependencies.entries.len(), twice.peer_dependencies.entries.len());
    for (a, b) in once.peer_dependencies.entries.iter().zip(twice.peer_dependencies.entries.iter()) {
        assert!(a.0.same(&b.0) && a.1 == b.1);
    }
    let missing = |r: &Resolution| r.missing_peer_dependencies.iter().map(|i| i.as_str().to_string()).collect::<Vec<_>>();
    assert_eq!(missing(&once), vec!["m"]);
    assert_eq!(missing(&twice), vec!["m"]);
    let l = once.dependencies.get(&Ident::new("l")).expect("l");
    assert!(l.parent.as_ref().expect("bound").same(&locator));
    let _ = Error::bare(ErrorKind::Unsupported);
}

#[test]
fn findings_are_reported() {
    let project =
        Project { project_cwd: "/p".into(), config: Config::default(), workspaces: vec![workspace()] };
    let path = |segments: &[&str]| JsonPath::new(segments.iter().map(|s| s.to_string()).collect());
    let caller = |method: &str, arguments: &[&str]| Caller {
        file: None,
        method_name: method.to_string(),
        arguments: arguments.iter().map(|s| s.to_string()).collect(),
        line: None,
        column: None,
    };
    let output = ConstraintsOutput {
        all_workspace_operations: vec![],
        all_workspace_errors: vec![(
            "w".to_string(),
            vec![
                WorkspaceError::MissingField {
                    field_path: path(&["license"]),
                    expected: "\"MIT\"".into(),
                },
                WorkspaceError::ExtraneousField {
                    field_path: path(&["scripts", "a.b"]),
                    current_value: "1".into(),
                },
                WorkspaceError::InvalidField {
                    field_path: path(&["version"]),
                    expected: "\"2\"".into(),
                    current_value: "\"1\"".into(),
                },
                WorkspaceError::ConflictingValues {
                    field_path: path(&["name"]),
                    values: vec![
                        ("\"a\"".into(), vec![caller("set", &["name", "a"]), caller("f", &[])]),
                        ("\"b\"".into(), vec![caller("set", &["name", "b"])]),
                    ],
                },
                WorkspaceError::UserError { message: "nope".into() },
            ],
        )],
    };
    assert!(!output.is_clean());
    let reports = display_report(&project, &output).expect("a report");
    assert_eq!(reports.len(), 1);
    assert_eq!(reports[0].name, "w");
    let labels: Vec<&str> = reports[0].lines.iter().map(|l| l.label.as_str()).collect();
    assert_eq!(
        labels,
        vec![
            "\u{2699} Missing field at license; expected \"MIT\"",
            "\u{2699} Extraneous field at scripts.a.b; current value 1",
            "\u{2699} Invalid field at version; expected \"2\", but got \"1\"",
            "Conflicting values at name; expected values are:",
            "nope",
        ]
    );
    assert!(reports[0].lines[0].options.is_empty());
    assert_eq!(
        reports[0].lines[3].options,
        vec!["\"a\" as set(name, a)", "\"a\" as f()", "\"b\" as set(name, b)"]
    );
    let elsewhere = ConstraintsOutput {
        all_workspace_operations: vec![],
        all_workspace_errors: vec![("zzz".to_string(), vec![])],
    };
    assert!(matches!(
        display_report(&project, &elsewhere),
        Err(e) if e.kind == ErrorKind::WorkspaceNotFound && e.detail == "zzz"
    ));
}

#[test]
fn colours_wrap_the_text_whole() {
    let path = JsonPath::new(vec!["scripts".to_string(), "a\"b".to_string()]);

    // without colours a path is printed as it is written
    colored::control::set_override(false);
    assert_eq!(DataType::Code.colorize("hello"), "hello");
    assert_eq!(path.to_print_string(), path.to_file_string());
    assert_eq!(path.to_print_string(), "scripts.[\"a\\\"b\"]");

    // with colours every part stands between the codes of a colour and the
    // codes that end it
    colored::control::set_override(true);
    let shown = DataType::Code.colorize("hello");
    assert!(shown.starts_with("\u{1b}["));
    assert!(shown.ends_with("hello\u{1b}[0m"));
    assert_eq!(shown.matches("hello").count(), 1);
    let printed = path.to_print_string();
    assert_eq!(printed.matches("\u{1b}[0m").count(), 5);
    for part in ["scripts\u{1b}[0m", ".\u{1b}[0m", "[\u{1b}[0m", "\"a\\\"b\"\u{1b}[0m", "]\u{1b}[0m"] {
        assert!(printed.contains(part), "{:?} lacks {:?}", printed, part);
    }
    assert!(printed.ends_with("]\u{1b}[0m"));
    assert_eq!(JsonPath::new(vec![]).to_print_string(), "");

    colored::control::unset_override();
}

#[test]
fn json_form_that_only_adds_quotes() {
    assert!(zpm::colors::only_quotes("lodash", "\"lodash\""));
    assert!(zpm::colors::only_quotes("", "\"\""));
    assert!(zpm::colors::only_quotes("é", "\"é\""));
    assert!(!zpm::colors::only_quotes("a\"b", "\"a\\\"b\""));
    assert!(!zpm::colors::only_quotes("a\nb", "\"a\\nb\""));
    assert!(!zpm::colors::only_quotes("lodash", "lodash"));
}

use zpm::keyed::{Duplicate, Key, KeyedList};
use zpm::document::{copy_node, Node};
use zpm::error::ErrorKind;
use zpm::git::{GitRange, GitReference, GitSource, GitTreeish, PrepareParams};
use zpm::install::{Lockfile, LockfileEntry};
use zpm::lockfile::{decode_lockfile, encode_lockfile, reread};
use zpm::primitives::{Descriptor, Ident, Locator, Range, Reference};
use zpm::resolution::{PeerRange, Requirements, Resolution};
use zpm::semver;
use zpm::semver::Version;

fn v(major: u64, minor: u64, patch: u64) -> Version {
    Version { major, minor, patch }
}

fn resolution(locator: &Locator, dependencies: Vec<Descriptor>) -> Resolution {
    let mut deps = KeyedList::new();
    for d in dependencies {
        deps.insert(d.ident.duplicate(), d);
    }
    let mut peers = KeyedList::new();
    peers.insert(Ident::new("react"), PeerRange::Semver(semver::Range::caret(v(18, 0, 0))));
    peers.insert(Ident::new("vue"), PeerRange::Unconstrained);
    Resolution {
        locator: locator.duplicate(),
        version: v(1, 2, 3),
        requirements: Requirements { os: vec!["linux".into(), "darwin".into()], cpu: vec![] },
        dependencies: deps,
        peer_dependencies: peers,
        optional_dependencies: vec![Ident::new("fsevents")],
        missing_peer_dependencies: vec![Ident::new("vue")],
    }
}

fn every_kind() -> Lockfile {
    let root = Locator::new(Ident::new("@s/app"), Reference::Workspace(Ident::new("@s/app")));
    let bound = |reference| Locator::new_bound(Ident::new("p"), reference, Some(root.duplicate()));
    let deep = Locator::new_bound(
        Ident::new("deep"),
        Reference::Portal("./deep".into()),
        Some(bound(Reference::Link("../l".into()))),
    );
    let params = || PrepareParams { cwd: Some("a b".into()), workspace: None };
    let github = || GitSource::GitHub { owner: "o".into(), repository: "r".into() };
    let locators = vec![
        root.duplicate(),
        deep,
        bound(Reference::Tarball("./t.tgz".into())),
        bound(Reference::Folder("./f".into())),
        bound(Reference::Patch("lodash%40npm%3A1.0.0".into(), "./x.patch".into())),
        Locator::new(Ident::new("a"), Reference::Semver(v(1, 0, 0))),
        Locator::new(Ident::new("b"), Reference::SemverAlias(Ident::new("real"), v(u64::MAX, 0, 1))),
        Locator::new(Ident::new("c"), Reference::Url("https://e.com/c.tgz".into())),
        Locator::new(
            Ident::new("g"),
            Reference::Git(GitReference { repo: github(), commit: "abc".into(), prepare_params: params() }),
        ),
    ];
    let git = |treeish| {
        Range::Git(GitRange {
            repo: GitSource::Url("https://e.com/r.git".into()),
            treeish,
            prepare_params: PrepareParams { cwd: None, workspace: Some("w".into()) },
        })
    };
    let ranges = vec![
        Range::Semver(semver::Range::caret(v(1, 0, 0))),
        Range::SemverAlias(Ident::new("real"), semver::Range::any()),
        Range::SemverTag("latest".into()),
        git(GitTreeish::AnythingGoes("x".into())),
        git(GitTreeish::Head("main".into())),
        git(GitTreeish::Commit("abc".into())),
        git(GitTreeish::Semver(semver::Range::tilde(v(1, 2, 0)))),
        git(GitTreeish::Tag("v1".into())),
        Range::Link("./l".into()),
        Range::Portal("./p".into()),
        Range::Tarball("./t.tgz".into()),
        Range::Folder("./f".into()),
        Range::Patch(Ident::new("lodash"), semver::Range::exact(v(1, 0, 0)), "./x.patch".into()),
        Range::Url("https://e.com/u.tgz".into()),
        Range::WorkspaceIdent(Ident::new("@s/app")),
        Range::WorkspacePath("packages/app".into()),
    ];
    let mut lockfile = Lockfile::new();
    for (i, range) in ranges.into_iter().enumerate() {
        let locator = &locators[i % locators.len()];
        let parent = if i % 2 == 0 { Some(root.duplicate()) } else { None };
        let descriptor = Descriptor::new_bound(Ident::new(&format!("d{}", i)), range, parent);
        let dependencies = vec![descriptor.duplicate()];
        lockfile.record(descriptor, resolution(locator, dependencies));
    }
    // one entry carries a checksum
    lockfile.entries.entries[0].1.checksum = Some("0123abcd".into());
    lockfile
}

fn same_lockfile(a: &Lockfile, b: &Lockfile) {
    assert_eq!(a.resolutions.len(), b.resolutions.len());
    for (x, y) in a.resolutions.entries.iter().zip(b.resolutions.entries.iter()) {
        assert!(x.0.same(&y.0), "{:?} vs {:?}", x.0, y.0);
        assert!(x.1.same(&y.1), "{:?} vs {:?}", x.1, y.1);
    }
    assert_eq!(a.entries.len(), b.entries.len());
    for (x, y) in a.entries.entries.iter().zip(b.entries.entries.iter()) {
        assert!(x.0.same(&y.0));
        assert_eq!(x.1.checksum, y.1.checksum);
        assert_eq!(format!("{:?}", x.1.resolution), format!("{:?}", y.1.resolution));
    }
}

#[test]
fn lockfile_round_trip() {
    let lockfile = every_kind();
    assert_eq!(lockfile.resolutions.len(), 16);
    assert_eq!(lockfile.entries.len(), 9);
    let node = encode_lockfile(&lockfile);
    let back = decode_lockfile(&node).expect("read back");
    same_lockfile(&lockfile, &back);
    same_lockfile(&lockfile, &reread(&lockfile).expect("read back"));
    // writing what was read gives the same document
    assert_eq!(format!("{:?}", encode_lockfile(&back)), format!("{:?}", node));
    let empty = Lockfile::new();
    let back = decode_lockfile(&encode_lockfile(&empty)).expect("read back");
    assert_eq!(back.resolutions.len(), 0);
    assert_eq!(back.entries.len(), 0);
}

#[test]
fn shape_of_the_document() {
    let mut lockfile = Lockfile::new();
    let locator = Locator::new(Ident::new("a"), Reference::Semver(v(1, 2, 3)));
    let descriptor = Descriptor::new(Ident::new("a"), Range::SemverTag("latest".into()));
    lockfile.record(
        descriptor,
        Resolution {
            locator: locator.duplicate(),
            version: v(1, 2, 3),
            requirements: Requirements::default(),
            dependencies: KeyedList::new(),
            peer_dependencies: KeyedList::new(),
            optional_dependencies: vec![],
            missing_peer_dependencies: vec![],
        },
    );
    let node = encode_lockfile(&lockfile);
    let text = format!("{:?}", node);
    let locator_text = "List([List([Text(\"a\"), List([Number(0), List([Number(1), Number(2), Number(3)])])])])";
    let expected = format!(
        "List([List([List([List([Text(\"a\"), List([Number(2), Text(\"latest\")]), List([])]), {l}])]), \
         List([List([{l}, List([]), List([{l}, List([Number(1), Number(2), Number(3)]), \
         List([List([]), List([])]), List([]), List([]), List([]), List([])])])])])",
        l = locator_text
    );
    assert_eq!(text, expected);
    assert_eq!(format!("{:?}", copy_node(&node)), text);
}

fn corrupt(node: Node) {
    match decode_lockfile(&node) {
        Err(e) => {
            assert_eq!(e.kind, ErrorKind::SerializationError);
            assert!(e.detail.is_empty());
        }
        Ok(_) => panic!("a corrupt document was read"),
    }
}

#[test]
fn corrupt_documents_are_refused() {
    corrupt(Node::Number(3));
    corrupt(Node::Text("lockfile".into()));
    corrupt(Node::List(vec![]));
    corrupt(Node::List(vec![Node::List(vec![])]));
    corrupt(Node::List(vec![Node::List(vec![Node::Number(1)]), Node::List(vec![])]));
    corrupt(Node::List(vec![Node::List(vec![]), Node::List(vec![]), Node::List(vec![])]));
    let good = every_kind();
    // a requirement without the entry of its package
    let mut node = encode_lockfile(&good);
    if let Node::List(parts) = &mut node {
        parts[1] = Node::List(vec![]);
    }
    corrupt(node);
    // a requirement named twice
    let mut node = encode_lockfile(&good);
    if let Node::List(parts) = &mut node {
        if let Node::List(resolutions) = &mut parts[0] {
            let again = copy_node(&resolutions[0]);
            resolutions.push(again);
        }
    }
    corrupt(node);
    // a tag that names no kind of range
    let mut node = encode_lockfile(&good);
    if let Node::List(parts) = &mut node {
        if let Node::List(resolutions) = &mut parts[0] {
            if let Node::List(pair) = &mut resolutions[0] {
                if let Node::List(descriptor) = &mut pair[0] {
                    descriptor[1] = Node::List(vec![Node::Number(99), Node::Text("x".into())]);
                }
            }
        }
    }
    corrupt(node);
    // a flag that is neither 0 nor 1
    let mut node = encode_lockfile(&good);
    if let Node::List(parts) = &mut node {
        if let Node::List(resolutions) = &mut parts[0] {
            if let Node::List(pair) = &mut resolutions[0] {
                if let Node::List(descriptor) = &mut pair[0] {
                    if let Node::List(range) = &mut descriptor[1] {
                        if let Node::List(interval) = &mut range[1] {
                            interval[0] = Node::Number(2);
                        }
                    }
                }
            }
        }
    }
    corrupt(node);
    // a locator without links
    let mut node = encode_lockfile(&good);
    if let Node::List(parts) = &mut node {
        if let Node::List(resolutions) = &mut parts[0] {
            if let Node::List(pair) = &mut resolutions[0] {
                pair[1] = Node::List(vec![]);
            }
        }
    }
    corrupt(node);
    let _ = LockfileEntry {
        checksum: None,
        resolution: resolution(&Locator::new(Ident::new("a"), Reference::Semver(v(1, 0, 0))), vec![]),
    };
}

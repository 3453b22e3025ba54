use zpm::path::{get_fake_cwd, get_final_cwd, set_fake_cwd, FakeCwd, Path, PathError};
use zpm::path_iterators::PathIterator;
use zpm::path_resolve::{join_path, resolve_path};

#[test]
fn resolve_path_cases() {
    assert_eq!(resolve_path(""), "");
    assert_eq!(resolve_path("/"), "/");
    assert_eq!(resolve_path("a/b/c"), "a/b/c");
    assert_eq!(resolve_path("a/./b"), "a/b");
    assert_eq!(resolve_path("a/b/../c"), "a/c");
    assert_eq!(resolve_path("a//b"), "a/b");
    assert_eq!(resolve_path("/a/../.."), "/");
    assert_eq!(resolve_path("/.."), "/");
    assert_eq!(resolve_path("../a"), "../a");
    assert_eq!(resolve_path("../../a"), "../../a");
    assert_eq!(resolve_path("a/../.."), "..");
    assert_eq!(resolve_path("a/.."), "");
    assert_eq!(resolve_path("a/b/"), "a/b/");
    assert_eq!(resolve_path("/a/b/"), "/a/b/");
    assert_eq!(resolve_path("./a"), "a");
    assert_eq!(resolve_path("/a/./b/../../c"), "/c");
    assert_eq!(resolve_path("//"), "/");
}

#[test]
fn resolve_path_is_idempotent_on_samples() {
    for p in ["a/b/../c", "/x/./y/", "../../q", "/", "", "a//b/c/.."] {
        let once = resolve_path(p);
        assert_eq!(resolve_path(&once), once);
    }
}

#[test]
fn join_path_cases() {
    assert_eq!(join_path("/project/packages/x", "../lib"), "/project/packages/lib");
    assert_eq!(join_path("/project", "."), "/project");
    assert_eq!(join_path("/project", "/etc/hosts"), "/etc/hosts");
    assert_eq!(join_path("/project", "a/b"), "/project/a/b");
    assert_eq!(join_path("rel", "x"), "rel/x");
    assert_eq!(join_path("", "packages"), "packages");
    assert_eq!(join_path("", "../up"), "../up");
    assert_eq!(join_path("/cache/abc.zip", "node_modules/pkg"), "/cache/abc.zip/node_modules/pkg");
}

#[test]
fn path_type() {
    assert_eq!(Path::new().as_str(), "");
    assert_eq!(Path::root().as_str(), "/");
    assert_eq!(Path::from_str("/a/../b").as_str(), "/b");
    assert_eq!(Path::from_str("/a").with_join_str("b/c").as_str(), "/a/b/c");
    assert_eq!(Path::from_str("/a").with_join(&Path::from_str("../z")).as_str(), "/z");
}

fn forward(path: &str) -> Vec<String> {
    let mut it = PathIterator::new(&Path { path: path.to_string() });
    let mut out = vec![];
    while let Some(p) = it.next() {
        out.push(p.as_str().to_string());
    }
    assert!(it.next().is_none());
    out
}

fn backward(path: &str) -> Vec<String> {
    let mut it = PathIterator::new(&Path { path: path.to_string() });
    let mut out = vec![];
    while let Some(p) = it.next_back() {
        out.push(p.as_str().to_string());
    }
    assert!(it.next_back().is_none());
    out
}

#[test]
fn path_iterator_walks_down() {
    assert_eq!(forward("/a/b/c"), vec!["/", "/a", "/a/b", "/a/b/c"]);
    assert_eq!(forward("/"), vec!["/"]);
    assert_eq!(forward(""), Vec::<String>::new());
    assert_eq!(forward("/a/b/"), vec!["/", "/a/", "/a/b/"]);
}

#[test]
fn path_iterator_walks_up() {
    assert_eq!(backward("/a/b/c"), vec!["/a/b/c", "/a/b", "/a", "/"]);
    assert_eq!(backward("/"), vec!["/"]);
    assert_eq!(backward("/a/b/"), vec!["/a/b", "/a", "/"]);
}

#[test]
fn path_iterator_meets_in_the_middle() {
    let mut it = PathIterator::new(&Path { path: "/a/b/c".to_string() });
    assert_eq!(it.components, vec!["", "a", "b", "c"]);
    assert_eq!(it.next().map(|p| p.path), Some("/".to_string()));
    assert_eq!(it.next_back().map(|p| p.path), Some("/a/b/c".to_string()));
    assert_eq!(it.next().map(|p| p.path), Some("/a".to_string()));
    assert_eq!(it.next_back().map(|p| p.path), Some("/a/b".to_string()));
    assert!(it.next().is_none());
    assert!(it.next_back().is_none());
}

#[test]
fn fake_cwd_stands_in() {
    let mut state = FakeCwd::new();
    assert!(get_fake_cwd(&state).is_none());
    match get_final_cwd(&state, Ok(Path::from_str("/real"))) {
        Ok(p) => assert_eq!(p.as_str(), "/real"),
        Err(e) => panic!("unexpected {:?}", e),
    }
    assert!(matches!(
        get_final_cwd(&state, Err(PathError::Io("gone".to_string()))),
        Err(PathError::Io(m)) if m == "gone"
    ));
    set_fake_cwd(&mut state, Path::from_str("/fake"));
    assert_eq!(get_fake_cwd(&state).map(|p| p.path), Some("/fake".to_string()));
    match get_final_cwd(&state, Err(PathError::Immutable)) {
        Ok(p) => assert_eq!(p.as_str(), "/fake"),
        Err(e) => panic!("unexpected {:?}", e),
    }
}

#[test]
fn path_errors_in_words() {
    assert_eq!(PathError::Immutable.to_file_string(), "Immutable paths cannot be modified");
    assert_eq!(PathError::Io("x".to_string()).to_file_string(), "I/O error: x");
    assert_eq!(PathError::FromUtf8Error("y".to_string()).to_file_string(), "UTF-8 path error: y");
}

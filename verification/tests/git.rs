use zpm::error::ErrorKind;
use zpm::git::{
    extract_git_range, is_git_url, needs_remote_refs, normalize_git_url, parse_ls_remote,
    resolve_git_treeish, resolve_git_treeish_stricter, tolerate_non_git_errors, GitRange,
    GitReference, GitSource, GitTreeish, PrepareParams, RemoteRef,
};
use zpm::error::Error;
use zpm::semver::{Range, Version};

#[test]
fn test_git_source_from_github_urls() {
    // Test various GitHub URL formats
    let test_cases = vec![
        ("https://github.com/rust-lang/cargo.git", "rust-lang", "cargo"),
        ("git@github.com:rust-lang/cargo.git", "rust-lang", "cargo"),
        ("github:rust-lang/cargo", "rust-lang", "cargo"),
        ("https://github.com/rust-lang/cargo", "rust-lang", "cargo"),
    ];

    for (url, expected_owner, expected_repo) in test_cases {
        match GitSource::from_url(url) {
            GitSource::GitHub { owner, repository } => {
                assert_eq!(owner, expected_owner, "Owner mismatch for URL: {}", url);
                assert_eq!(repository, expected_repo, "Repository mismatch for URL: {}", url);
            }
            _ => panic!("Expected GitHub variant for URL: {}", url),
        }
    }
}

#[test]
fn test_git_source_from_non_github_urls() {
    // Test non-GitHub URLs
    let test_cases = vec![
        "https://gitlab.com/user/repo.git",
        "git@bitbucket.org:user/repo.git",
        "https://example.com/git/repo.git",
    ];

    for url in test_cases {
        match GitSource::from_url(url) {
            GitSource::Url(parsed_url) => {
                assert_eq!(parsed_url, url, "URL mismatch");
            }
            _ => panic!("Expected Url variant for URL: {}", url),
        }
    }
}

#[test]
fn test_git_source_to_url() {
    // Test GitHub variant
    let github_source = GitSource::GitHub {
        owner: "rust-lang".to_string(),
        repository: "cargo".to_string(),
    };
    assert_eq!(github_source.to_url(), "https://github.com/rust-lang/cargo.git");

    // Test Url variant
    let url_source = GitSource::Url("https://example.com/repo.git".to_string());
    assert_eq!(url_source.to_url(), "https://example.com/repo.git");
}

#[test]
fn git_urls_are_told_from_other_text() {
    assert!(is_git_url("ssh://git@example.com/repo"));
    assert!(is_git_url("git://example.com/repo"));
    assert!(is_git_url("git+ssh://git@example.com/repo"));
    assert!(is_git_url("https://example.com/user/repo.git"));
    assert!(is_git_url("git+https://example.com/user/repo.git#main"));
    assert!(is_git_url("git@example.com/user/repo.git"));
    assert!(is_git_url("git@github.com:user/repo"));
    assert!(is_git_url("user/repo"));
    assert!(is_git_url("https://github.com/user/repo/tarball/abcdef"));
    assert!(!is_git_url("https://example.com/archive.tgz"));
    assert!(!is_git_url("^1.2.3"));
    assert!(!is_git_url("./local/path"));
}

#[test]
fn github_spellings_come_to_one() {
    let expected = "https://github.com/rust-lang/cargo.git";
    assert_eq!(normalize_git_url("github:rust-lang/cargo"), expected);
    assert_eq!(normalize_git_url("rust-lang/cargo"), expected);
    assert_eq!(normalize_git_url("git@github.com:rust-lang/cargo.git"), expected);
    assert_eq!(normalize_git_url("git+https://github.com/rust-lang/cargo.git"), expected);
    assert_eq!(normalize_git_url("https://github.com/rust-lang/cargo"), expected);
    assert_eq!(
        normalize_git_url("https://github.com/rust-lang/cargo#v1"),
        "https://github.com/rust-lang/cargo.git#v1"
    );
    assert_eq!(
        normalize_git_url("https://github.com/rust-lang/cargo/tarball/abc"),
        "https://github.com/rust-lang/cargo.git#abc"
    );
    assert_eq!(
        normalize_git_url("https://gitlab.com/user/repo.git"),
        "https://gitlab.com/user/repo.git"
    );
}

fn unwrap_range(r: Result<GitRange, Error>) -> GitRange {
    match r {
        Ok(range) => range,
        Err(e) => panic!("unexpected error {:?}", e),
    }
}

#[test]
fn selector_without_hash_is_head() {
    let range = unwrap_range(extract_git_range("https://example.com/repo.git"));
    assert!(matches!(range.repo, GitSource::Url(ref u) if u == "https://example.com/repo.git"));
    assert!(matches!(range.treeish, GitTreeish::Head(ref h) if h == "HEAD"));
    assert!(range.prepare_params.cwd.is_none());
    assert!(range.prepare_params.workspace.is_none());
}

#[test]
fn selector_new_style() {
    let range = unwrap_range(extract_git_range(
        "https://example.com/repo.git#commit=abcdef&workspace=foo%20bar&cwd=packages%2Fa",
    ));
    assert!(matches!(range.treeish, GitTreeish::Commit(ref c) if c == "abcdef"));
    assert_eq!(range.prepare_params.workspace.as_deref(), Some("foo bar"));
    assert_eq!(range.prepare_params.cwd.as_deref(), Some("packages/a"));

    let range = unwrap_range(extract_git_range("https://example.com/repo.git#tag=v1.0.0"));
    assert!(matches!(range.treeish, GitTreeish::Tag(ref t) if t == "v1.0.0"));

    let range = unwrap_range(extract_git_range("https://example.com/repo.git#head=main"));
    assert!(matches!(range.treeish, GitTreeish::Head(ref t) if t == "main"));

    let range = unwrap_range(extract_git_range("https://example.com/repo.git#semver=%5E1.2.0"));
    match range.treeish {
        GitTreeish::Semver(r) => {
            assert_eq!(r, Range::caret(Version { major: 1, minor: 2, patch: 0 }))
        }
        _ => panic!("expected a semver selector"),
    }

    // an unknown key is passed over, the last of two wins
    let range =
        unwrap_range(extract_git_range("https://example.com/repo.git#x=1&tag=a&tag=b&noequals"));
    assert!(matches!(range.treeish, GitTreeish::Tag(ref t) if t == "b"));
}

#[test]
fn selector_new_style_errors() {
    match extract_git_range("https://example.com/repo.git#semver=not-a-range") {
        Err(e) => {
            assert_eq!(e.kind, ErrorKind::InvalidSemverRange);
            assert_eq!(e.detail, "not-a-range");
        }
        Ok(_) => panic!("expected an error"),
    }
    // bytes that are not UTF-8 once decoded
    match extract_git_range("https://example.com/repo.git#tag=%FF") {
        Err(e) => {
            assert_eq!(e.kind, ErrorKind::InvalidGitUrl);
            assert_eq!(e.detail, "tag=%FF");
        }
        Ok(_) => panic!("expected an error"),
    }
}

#[test]
fn selector_old_style() {
    let range = unwrap_range(extract_git_range("https://example.com/repo.git#commit:abcdef"));
    assert!(matches!(range.treeish, GitTreeish::Commit(ref c) if c == "abcdef"));
    let range = unwrap_range(extract_git_range("https://example.com/repo.git#head:main"));
    assert!(matches!(range.treeish, GitTreeish::Head(ref c) if c == "main"));
    let range = unwrap_range(extract_git_range("https://example.com/repo.git#tag:v2"));
    assert!(matches!(range.treeish, GitTreeish::Tag(ref c) if c == "v2"));
    let range = unwrap_range(extract_git_range("https://example.com/repo.git#other:thing"));
    assert!(matches!(range.treeish, GitTreeish::Commit(ref c) if c == "thing"));
    let range = unwrap_range(extract_git_range("https://example.com/repo.git#main"));
    assert!(matches!(range.treeish, GitTreeish::AnythingGoes(ref c) if c == "main"));
    let range = unwrap_range(extract_git_range("https://example.com/repo.git#semver:~1.4.0"));
    match range.treeish {
        GitTreeish::Semver(r) => {
            assert_eq!(r, Range::tilde(Version { major: 1, minor: 4, patch: 0 }))
        }
        _ => panic!("expected a semver selector"),
    }
}

#[test]
fn range_from_file_string_refuses_other_text() {
    match GitRange::from_file_string("^1.0.0") {
        Err(e) => {
            assert_eq!(e.kind, ErrorKind::InvalidGitUrl);
            assert_eq!(e.detail, "^1.0.0");
        }
        Ok(_) => panic!("expected an error"),
    }
    let range = unwrap_range(GitRange::from_file_string("github:rust-lang/cargo#tag=v1"));
    match range.repo {
        GitSource::GitHub { owner, repository } => {
            assert_eq!(owner, "rust-lang");
            assert_eq!(repository, "cargo");
        }
        _ => panic!("expected a GitHub source"),
    }
    assert!(matches!(range.treeish, GitTreeish::Tag(ref c) if c == "v1"));
}

#[test]
fn range_to_file_string() {
    let range = GitRange {
        repo: GitSource::GitHub { owner: "o".to_string(), repository: "r".to_string() },
        treeish: GitTreeish::Tag("v1.0.0".to_string()),
        prepare_params: PrepareParams {
            cwd: Some("packages/a b".to_string()),
            workspace: Some("w".to_string()),
        },
    };
    assert_eq!(
        range.to_file_string(),
        "https://github.com/o/r.git#tag=v1.0.0&cwd=packages%2Fa%20b&workspace=w"
    );
    let range = GitRange {
        repo: GitSource::Url("https://example.com/r.git".to_string()),
        treeish: GitTreeish::AnythingGoes("main".to_string()),
        prepare_params: PrepareParams { cwd: None, workspace: None },
    };
    assert_eq!(range.to_file_string(), "https://example.com/r.git#main");
    assert_eq!(GitTreeish::Head("x".to_string()).to_file_string(), "head=x");
    assert_eq!(GitTreeish::Commit("x".to_string()).to_file_string(), "commit=x");
    assert_eq!(
        GitTreeish::Semver(Range::caret(Version { major: 1, minor: 0, patch: 0 }))
            .to_file_string(),
        "semver=>=1.0.0 <2.0.0"
    );
}

#[test]
fn reference_round_trip() {
    let reference = GitReference {
        repo: GitSource::Url("https://example.com/r.git".to_string()),
        commit: "0123456789abcdef0123456789abcdef01234567".to_string(),
        prepare_params: PrepareParams { cwd: Some("a/b".to_string()), workspace: None },
    };
    let text = reference.to_file_string();
    assert_eq!(
        text,
        "https://example.com/r.git#commit=0123456789abcdef0123456789abcdef01234567&cwd=a%2Fb"
    );
    match GitReference::from_file_string(&text) {
        Ok(back) => {
            assert!(matches!(back.repo, GitSource::Url(ref u) if u == "https://example.com/r.git"));
            assert_eq!(back.commit, reference.commit);
            assert_eq!(back.prepare_params.cwd.as_deref(), Some("a/b"));
            assert!(back.prepare_params.workspace.is_none());
        }
        Err(e) => panic!("unexpected error {:?}", e),
    }
}

#[test]
fn reference_without_commit_is_refused() {
    for text in ["https://example.com/r.git", "https://example.com/r.git#cwd=a", "x#commit=%FF"] {
        match GitReference::from_file_string(text) {
            Err(e) => {
                assert_eq!(e.kind, ErrorKind::InvalidGitUrl);
                assert_eq!(e.detail, text);
            }
            Ok(_) => panic!("expected an error for {}", text),
        }
    }
}

fn listing() -> Vec<RemoteRef> {
    parse_ls_remote(
        "1111111111111111111111111111111111111111\tHEAD\n\
         2222222222222222222222222222222222222222\trefs/heads/main\n\
         3333333333333333333333333333333333333333\trefs/tags/v1.0.0\n\
         4444444444444444444444444444444444444444\trefs/tags/v1.0.0^{}\n\
         5555555555555555555555555555555555555555\trefs/tags/v1.2.0\n\
         6666666666666666666666666666666666666666\trefs/tags/v2.0.0\n\
         7777777777777777777777777777777777777777\trefs/tags/nightly\n\
         malformed\n",
    )
}

#[test]
fn ls_remote_is_parsed() {
    let refs = listing();
    assert_eq!(refs.len(), 7);
    assert_eq!(refs[0].name, "HEAD");
    assert_eq!(refs[0].hash, "1111111111111111111111111111111111111111");
    assert_eq!(refs[3].name, "refs/tags/v1.0.0^{}");
    assert!(parse_ls_remote("").is_empty());
    let spaced = parse_ls_remote("abc   refs/heads/x\r\n");
    assert_eq!(spaced.len(), 1);
    assert_eq!(spaced[0].name, "refs/heads/x");
    assert_eq!(spaced[0].hash, "abc");
}

fn resolved(r: Result<String, Error>) -> String {
    match r {
        Ok(commit) => commit,
        Err(e) => panic!("unexpected error {:?}", e),
    }
}

fn failed(r: Result<String, Error>) -> Error {
    match r {
        Ok(commit) => panic!("unexpected success {}", commit),
        Err(e) => e,
    }
}

#[test]
fn stricter_resolution() {
    let refs = listing();
    assert_eq!(
        resolved(resolve_git_treeish_stricter(&refs, &GitTreeish::Head("HEAD".to_string()))),
        "1111111111111111111111111111111111111111"
    );
    assert_eq!(
        resolved(resolve_git_treeish_stricter(&refs, &GitTreeish::Head("main".to_string()))),
        "2222222222222222222222222222222222222222"
    );
    assert_eq!(
        resolved(resolve_git_treeish_stricter(&refs, &GitTreeish::Tag("v1.0.0".to_string()))),
        "3333333333333333333333333333333333333333"
    );
    let e = failed(resolve_git_treeish_stricter(&refs, &GitTreeish::Head("dev".to_string())));
    assert_eq!(e.kind, ErrorKind::InvalidGitBranch);
    assert_eq!(e.detail, "dev");
    let e = failed(resolve_git_treeish_stricter(&refs, &GitTreeish::Tag("v9".to_string())));
    assert_eq!(e.kind, ErrorKind::InvalidGitBranch);
    assert_eq!(e.detail, "v9");
    let commit = "0123456789abcdefABCDEF0123456789abcdef01".to_string();
    assert_eq!(
        resolved(resolve_git_treeish_stricter(&refs, &GitTreeish::Commit(commit.clone()))),
        commit
    );
    let e = failed(resolve_git_treeish_stricter(&refs, &GitTreeish::Commit("abc".to_string())));
    assert_eq!(e.kind, ErrorKind::InvalidGitCommit);
    assert_eq!(e.detail, "abc");
    let e = failed(resolve_git_treeish_stricter(
        &refs,
        &GitTreeish::Commit("g123456789abcdefABCDEF0123456789abcdef01".to_string()),
    ));
    assert_eq!(e.kind, ErrorKind::InvalidGitCommit);
}

#[test]
fn semver_selector_picks_highest_tag_in_range() {
    let refs = listing();
    let caret = Range::caret(Version { major: 1, minor: 0, patch: 0 });
    assert_eq!(
        resolved(resolve_git_treeish_stricter(&refs, &GitTreeish::Semver(caret))),
        "5555555555555555555555555555555555555555"
    );
    assert_eq!(
        resolved(resolve_git_treeish_stricter(&refs, &GitTreeish::Semver(Range::any()))),
        "6666666666666666666666666666666666666666"
    );
    let none = Range::caret(Version { major: 3, minor: 0, patch: 0 });
    let e = failed(resolve_git_treeish_stricter(&refs, &GitTreeish::Semver(none)));
    assert_eq!(e.kind, ErrorKind::NoCandidatesFound);
    assert_eq!(e.detail, ">=3.0.0 <4.0.0");
}

fn range_with(treeish: GitTreeish) -> GitRange {
    GitRange {
        repo: GitSource::Url("https://example.com/r.git".to_string()),
        treeish,
        prepare_params: PrepareParams { cwd: None, workspace: None },
    }
}

#[test]
fn commit_selector_needs_no_listing() {
    let commit = "0123456789abcdef0123456789abcdef01234567".to_string();
    let range = range_with(GitTreeish::Commit(commit.clone()));
    assert!(!needs_remote_refs(&range.treeish));
    // even a listing that failed does not matter
    let unreachable = Err(Error { kind: ErrorKind::GitError, detail: String::new() });
    assert_eq!(resolved(resolve_git_treeish(&range, unreachable)), commit);

    let range = range_with(GitTreeish::AnythingGoes(commit.clone()));
    assert!(!needs_remote_refs(&range.treeish));
    let unreachable = Err(Error { kind: ErrorKind::GitError, detail: String::new() });
    assert_eq!(resolved(resolve_git_treeish(&range, unreachable)), commit);
}

#[test]
fn tag_selector_resolves_through_refs_tags() {
    let range = range_with(GitTreeish::Tag("v1.0.0".to_string()));
    assert!(needs_remote_refs(&range.treeish));
    assert_eq!(
        resolved(resolve_git_treeish(&range, Ok(listing()))),
        "3333333333333333333333333333333333333333"
    );
}

#[test]
fn anything_goes_falls_through() {
    // a tag of that name wins over a branch
    let range = range_with(GitTreeish::AnythingGoes("nightly".to_string()));
    assert!(needs_remote_refs(&range.treeish));
    assert_eq!(
        resolved(resolve_git_treeish(&range, Ok(listing()))),
        "7777777777777777777777777777777777777777"
    );
    // no tag: the branch
    let range = range_with(GitTreeish::AnythingGoes("main".to_string()));
    assert_eq!(
        resolved(resolve_git_treeish(&range, Ok(listing()))),
        "2222222222222222222222222222222222222222"
    );
    // neither
    let range = range_with(GitTreeish::AnythingGoes("nothing".to_string()));
    let e = failed(resolve_git_treeish(&range, Ok(listing())));
    assert_eq!(e.kind, ErrorKind::InvalidGitSpecifier);
    // the repository cannot be reached: that ends the search
    let e = failed(resolve_git_treeish(
        &range,
        Err(Error { kind: ErrorKind::GitError, detail: String::new() }),
    ));
    assert_eq!(e.kind, ErrorKind::GitError);
    // another failure of the listing does not, and nothing is found
    let e = failed(resolve_git_treeish(
        &range,
        Err(Error { kind: ErrorKind::IoError, detail: "spawn".to_string() }),
    ));
    assert_eq!(e.kind, ErrorKind::InvalidGitSpecifier);
}

#[test]
fn transport_errors_are_kept() {
    let fatal: Result<u8, Error> = Err(Error { kind: ErrorKind::GitError, detail: String::new() });
    assert!(matches!(tolerate_non_git_errors(fatal), Err(e) if e.kind == ErrorKind::GitError));
    let other: Result<u8, Error> =
        Err(Error { kind: ErrorKind::InvalidGitBranch, detail: "x".to_string() });
    assert!(matches!(
        tolerate_non_git_errors(other),
        Ok(Err(e)) if e.kind == ErrorKind::InvalidGitBranch && e.detail == "x"
    ));
    assert!(matches!(tolerate_non_git_errors(Ok::<u8, Error>(3)), Ok(Ok(3))));
}

#[test]
fn groups_name_a_repository() {
    let groups = vec![
        Some("https://github.com/o/r.git".to_string()),
        Some("o".to_string()),
        Some("r".to_string()),
        None,
    ];
    match zpm::git::repository_of_groups(&groups) {
        Some(GitSource::GitHub { owner, repository }) => {
            assert_eq!(owner, "o");
            assert_eq!(repository, "r");
        }
        other => panic!("unexpected {:?}", other),
    }
    // a group that took no part, and too few groups
    let groups = vec![Some("x".to_string()), None, Some("r".to_string())];
    assert!(zpm::git::repository_of_groups(&groups).is_none());
    let groups = vec![Some("x".to_string()), Some("o".to_string())];
    assert!(zpm::git::repository_of_groups(&groups).is_none());
    assert!(zpm::git::repository_of_groups(&vec![]).is_none());
}

#[test]
fn pairs_are_split_at_the_first_equals_sign() {
    let chars = |text: &str| text.chars().collect::<Vec<char>>();
    assert_eq!(zpm::git::split_pair(&chars("tag=v1=2")), Some((chars("tag"), chars("v1=2"))));
    assert_eq!(zpm::git::split_pair(&chars("commit=")), Some((chars("commit"), chars(""))));
    assert_eq!(zpm::git::split_pair(&chars("=x")), Some((chars(""), chars("x"))));
    assert_eq!(zpm::git::split_pair(&chars("main")), None);
    assert_eq!(zpm::git::split_pair(&chars("")), None);
}

#[test]
fn decoded_pairs_say_what_to_take_and_how() {
    let chars = |text: &str| text.chars().collect::<Vec<char>>();
    let start = || (GitTreeish::Head("HEAD".to_string()), PrepareParams { cwd: None, workspace: None });
    let apply = |key: &str, value: &str| {
        let (treeish, params) = start();
        zpm::git::apply_decoded(treeish, params, &chars(key), value.to_string())
    };

    assert!(matches!(apply("head", "main"), Ok((GitTreeish::Head(ref h), _)) if h == "main"));
    assert!(matches!(apply("commit", "abc"), Ok((GitTreeish::Commit(ref c), _)) if c == "abc"));
    assert!(matches!(apply("tag", "v1 beta"), Ok((GitTreeish::Tag(ref t), _)) if t == "v1 beta"));
    assert!(matches!(
        apply("semver", "^1.2.0"),
        Ok((GitTreeish::Semver(r), _)) if r == Range::caret(Version { major: 1, minor: 2, patch: 0 })
    ));
    assert!(matches!(
        apply("semver", "nonsense"),
        Err(e) if e.kind == ErrorKind::InvalidSemverRange && e.detail == "nonsense"
    ));
    match apply("cwd", "packages/a") {
        Ok((GitTreeish::Head(head), params)) => {
            assert_eq!(head, "HEAD");
            assert_eq!(params.cwd.as_deref(), Some("packages/a"));
            assert!(params.workspace.is_none());
        }
        other => panic!("unexpected {:?}", other),
    }
    match apply("workspace", "@s/a") {
        Ok((_, params)) => {
            assert_eq!(params.workspace.as_deref(), Some("@s/a"));
            assert!(params.cwd.is_none());
        }
        other => panic!("unexpected {:?}", other),
    }
    // a key that is none of these says nothing
    match apply("depth", "1") {
        Ok((GitTreeish::Head(head), params)) => {
            assert_eq!(head, "HEAD");
            assert!(params.cwd.is_none() && params.workspace.is_none());
        }
        other => panic!("unexpected {:?}", other),
    }
}

use zpm::semver::{best_match, parse_number, Range, Version};

fn v(major: u64, minor: u64, patch: u64) -> Version {
    Version { major, minor, patch }
}

#[test]
fn version_text() {
    assert_eq!(v(1, 2, 3).to_file_string(), "1.2.3");
    assert_eq!(v(0, 0, 0).to_file_string(), "0.0.0");
    assert_eq!(v(10, 200, 3000).to_file_string(), "10.200.3000");
    assert_eq!(v(u64::MAX, 0, 7).to_file_string(), "18446744073709551615.0.7");
    assert_eq!(Version::new(), v(0, 0, 0));
}

#[test]
fn version_parse() {
    assert_eq!(Version::from_file_string("1.2.3"), Some(v(1, 2, 3)));
    assert_eq!(Version::from_file_string("v1.2.3"), Some(v(1, 2, 3)));
    assert_eq!(Version::from_file_string("10.0.12"), Some(v(10, 0, 12)));
    assert_eq!(Version::from_file_string("18446744073709551615.0.0"), Some(v(u64::MAX, 0, 0)));
    assert_eq!(Version::from_file_string("18446744073709551616.0.0"), None);
    assert_eq!(Version::from_file_string("1.2"), None);
    assert_eq!(Version::from_file_string("1.2.3.4"), None);
    assert_eq!(Version::from_file_string("1.2.x"), None);
    assert_eq!(Version::from_file_string("1..3"), None);
    assert_eq!(Version::from_file_string(""), None);
    assert_eq!(Version::from_file_string("nightly"), None);
    for text in ["0.0.0", "1.2.3", "999.1000.1"] {
        assert_eq!(Version::from_file_string(text).map(|x| x.to_file_string()), Some(text.into()));
    }
}

#[test]
fn numbers() {
    let chars = |s: &str| s.chars().collect::<Vec<char>>();
    assert_eq!(parse_number(&chars("0")), Some(0));
    assert_eq!(parse_number(&chars("007")), Some(7));
    assert_eq!(parse_number(&chars("1603014861")), Some(1603014861));
    assert_eq!(parse_number(&chars("")), None);
    assert_eq!(parse_number(&chars("12a")), None);
    assert_eq!(parse_number(&chars("-1")), None);
    assert_eq!(parse_number(&chars("99999999999999999999")), None);
}

#[test]
fn version_order() {
    assert!(v(1, 2, 3).less_than(&v(1, 2, 4)));
    assert!(v(1, 2, 3).less_than(&v(1, 3, 0)));
    assert!(v(1, 2, 3).less_than(&v(2, 0, 0)));
    assert!(!v(1, 2, 3).less_than(&v(1, 2, 3)));
    assert!(!v(2, 0, 0).less_than(&v(1, 9, 9)));
}

#[test]
fn range_check() {
    let caret = Range::caret(v(1, 0, 0));
    assert!(caret.check(&v(1, 0, 0)));
    assert!(caret.check(&v(1, 2, 0)));
    assert!(!caret.check(&v(2, 0, 0)));
    assert!(!caret.check(&v(0, 9, 9)));
    let caret0 = Range::caret(v(0, 2, 3));
    assert!(caret0.check(&v(0, 2, 9)));
    assert!(!caret0.check(&v(0, 3, 0)));
    let caret00 = Range::caret(v(0, 0, 3));
    assert!(caret00.check(&v(0, 0, 3)));
    assert!(!caret00.check(&v(0, 0, 4)));
    let tilde = Range::tilde(v(1, 4, 2));
    assert!(tilde.check(&v(1, 4, 9)));
    assert!(!tilde.check(&v(1, 5, 0)));
    assert!(!tilde.check(&v(1, 4, 1)));
    assert!(Range::any().check(&v(0, 0, 0)));
    assert!(Range::any().check(&v(u64::MAX, u64::MAX, u64::MAX)));
    assert!(Range::exact(v(1, 1, 1)).check(&v(1, 1, 1)));
    assert!(!Range::exact(v(1, 1, 1)).check(&v(1, 1, 2)));
    // at the top of the numbers nothing overflows
    assert!(Range::caret(v(u64::MAX, 0, 0)).check(&v(u64::MAX, 5, 5)));
    assert!(Range::tilde(v(u64::MAX, u64::MAX, 0)).check(&v(u64::MAX, u64::MAX, 9)));
}

#[test]
fn range_parse() {
    assert_eq!(Range::from_file_string("*"), Some(Range::any()));
    assert_eq!(Range::from_file_string("^1.2.3"), Some(Range::caret(v(1, 2, 3))));
    assert_eq!(Range::from_file_string("~1.2.3"), Some(Range::tilde(v(1, 2, 3))));
    assert_eq!(Range::from_file_string("1.2.3"), Some(Range::exact(v(1, 2, 3))));
    assert_eq!(Range::from_file_string("=1.2.3"), Some(Range::exact(v(1, 2, 3))));
    let between = Range::from_file_string(">=1.0.0 <2.0.0").expect("a range");
    assert_eq!(between, Range::caret(v(1, 0, 0)));
    let open = Range::from_file_string(">1.0.0 <=2.0.0").expect("a range");
    assert!(!open.check(&v(1, 0, 0)));
    assert!(open.check(&v(1, 0, 1)));
    assert!(open.check(&v(2, 0, 0)));
    assert!(!open.check(&v(2, 0, 1)));
    assert_eq!(Range::from_file_string(""), None);
    assert_eq!(Range::from_file_string("^"), None);
    assert_eq!(Range::from_file_string("latest"), None);
    assert_eq!(Range::from_file_string(">=1.0.0  <2.0.0"), None);
}

#[test]
fn range_text() {
    assert_eq!(Range::any().to_file_string(), "*");
    assert_eq!(Range::exact(v(1, 2, 3)).to_file_string(), "1.2.3");
    assert_eq!(Range::caret(v(1, 2, 3)).to_file_string(), ">=1.2.3 <2.0.0");
    assert_eq!(Range::tilde(v(1, 2, 3)).to_file_string(), ">=1.2.3 <1.3.0");
    for text in ["*", "1.2.3", ">=1.2.3 <2.0.0", ">1.0.0", "<=3.0.0", ">1.0.0 <=2.0.0"] {
        let range = Range::from_file_string(text).expect("a range");
        assert_eq!(range.to_file_string(), text);
    }
}

#[test]
fn intersection() {
    let a = Range::caret(v(1, 0, 0));
    let b = Range::from_file_string(">=1.5.0").expect("a range");
    let both = a.both(&b);
    for x in [v(1, 0, 0), v(1, 4, 9), v(1, 5, 0), v(1, 9, 0), v(2, 0, 0)] {
        assert_eq!(both.check(&x), a.check(&x) && b.check(&x));
    }
}

#[test]
fn best_match_is_highest_and_earliest() {
    let range = Range::caret(v(1, 0, 0));
    let versions = vec![
        Some(v(1, 0, 0)),
        None,
        Some(v(1, 2, 0)),
        Some(v(2, 0, 0)),
        Some(v(1, 2, 0)),
        Some(v(1, 1, 0)),
    ];
    assert_eq!(best_match(&versions, &range), Some(2));
    assert_eq!(best_match(&versions, &Range::any()), Some(3));
    assert_eq!(best_match(&versions, &Range::caret(v(3, 0, 0))), None);
    assert_eq!(best_match(&vec![], &range), None);
    assert_eq!(best_match(&vec![None, None], &Range::any()), None);
}

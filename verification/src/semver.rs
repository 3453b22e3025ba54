//! Versions and version ranges, as far as the engine needs them: a version is
//! a triple of numbers, a range is an interval of versions.
use crate::keyed::{Duplicate, Key};
use crate::text::{chars_of, slice, split_on, string_of, views};
use vstd::prelude::*;

verus! {

/// A version: `major.minor.patch`.
#[derive(Clone, Copy, Debug, PartialEq, Eq, Structural)]
pub struct Version {
    pub major: u64,
    pub minor: u64,
    pub patch: u64,
}

/// An interval of versions. A missing bound leaves that side open.
#[derive(Clone, Copy, Debug, PartialEq, Eq, Structural)]
pub struct Range {
    pub has_min: bool,
    pub min: Version,
    pub min_inclusive: bool,
    pub has_max: bool,
    pub max: Version,
    pub max_inclusive: bool,
}

impl View for Version {
    type V = Version;

    open spec fn view(&self) -> Version {
        *self
    }
}

impl Duplicate for Version {
    fn duplicate(&self) -> (copy: Self) {
        *self
    }
}

impl Key for Version {
    fn same(&self, other: &Self) -> (same: bool) {
        *self == *other
    }
}

pub open spec fn digit_char(d: nat) -> char {
    if d == 0 {
        '0'
    } else if d == 1 {
        '1'
    } else if d == 2 {
        '2'
    } else if d == 3 {
        '3'
    } else if d == 4 {
        '4'
    } else if d == 5 {
        '5'
    } else if d == 6 {
        '6'
    } else if d == 7 {
        '7'
    } else if d == 8 {
        '8'
    } else {
        '9'
    }
}

pub open spec fn digit_value(c: char) -> Option<nat> {
    if c == '0' {
        Some(0)
    } else if c == '1' {
        Some(1)
    } else if c == '2' {
        Some(2)
    } else if c == '3' {
        Some(3)
    } else if c == '4' {
        Some(4)
    } else if c == '5' {
        Some(5)
    } else if c == '6' {
        Some(6)
    } else if c == '7' {
        Some(7)
    } else if c == '8' {
        Some(8)
    } else if c == '9' {
        Some(9)
    } else {
        None
    }
}

/// The decimal digits of `n`, most significant first.
pub open spec fn decimal(n: nat) -> Seq<char>
    decreases n,
{
    if n < 10 {
        seq![digit_char(n)]
    } else {
        decimal(n / 10).push(digit_char(n % 10))
    }
}

/// The number that a non-empty run of decimal digits writes.
pub open spec fn number_value(s: Seq<char>) -> Option<nat>
    decreases s.len(),
{
    if s.len() == 0 {
        None
    } else if s.len() == 1 {
        digit_value(s[0])
    } else {
        match (number_value(s.drop_last()), digit_value(s.last())) {
            (Some(n), Some(d)) => Some(n * 10 + d),
            _ => None,
        }
    }
}

/// The number that the digits write, if it fits 64 bits.
pub open spec fn number_of(s: Seq<char>) -> Option<u64> {
    match number_value(s) {
        Some(n) => if n <= u64::MAX {
            Some(n as u64)
        } else {
            None
        },
        None => None,
    }
}

fn digit_of(c: char) -> (d: Option<u64>)
    ensures
        match d {
            Some(d) => d < 10 && digit_value(c) == Some(d as nat),
            None => digit_value(c) is None,
        },
{
    match c {
        '0' => Some(0),
        '1' => Some(1),
        '2' => Some(2),
        '3' => Some(3),
        '4' => Some(4),
        '5' => Some(5),
        '6' => Some(6),
        '7' => Some(7),
        '8' => Some(8),
        '9' => Some(9),
        _ => None,
    }
}

fn char_of_digit(d: u64) -> (c: char)
    requires
        d < 10,
    ensures
        c == digit_char(d as nat),
{
    if d == 0 {
        '0'
    } else if d == 1 {
        '1'
    } else if d == 2 {
        '2'
    } else if d == 3 {
        '3'
    } else if d == 4 {
        '4'
    } else if d == 5 {
        '5'
    } else if d == 6 {
        '6'
    } else if d == 7 {
        '7'
    } else if d == 8 {
        '8'
    } else {
        '9'
    }
}

/// The digits of a number are digits, and write the number.
pub proof fn lemma_decimal(n: nat)
    ensures
        decimal(n).len() >= 1,
        forall|i: int| 0 <= i < decimal(n).len() ==> digit_value(#[trigger] decimal(n)[i]) is Some,
        number_value(decimal(n)) == Some(n),
    decreases n,
{
    if n >= 10 {
        lemma_decimal(n / 10);
        let front = decimal(n / 10);
        let all = decimal(n);
        assert(all.drop_last() =~= front);
        assert(all.last() == digit_char(n % 10));
        assert forall|i: int| 0 <= i < all.len() implies digit_value(#[trigger] all[i]) is Some by {
            if i < front.len() {
                assert(all[i] == front[i]);
            }
        }
    }
}

/// Reads a number from decimal digits.
pub fn parse_number(v: &Vec<char>) -> (r: Option<u64>)
    ensures
        r == number_of(v@),
{
    if v.len() == 0 {
        return None;
    }
    let mut acc: u64 = match digit_of(v[0]) {
        Some(d) => d,
        None => {
            proof {
                lemma_prefix_invalid(v@, 1);
            }
            return None;
        },
    };
    let mut i: usize = 1;
    assert(v@.take(1) =~= seq![v@[0]]);
    while i < v.len()
        invariant
            1 <= i <= v.len(),
            number_value(v@.take(i as int)) == Some(acc as nat),
        decreases v.len() - i,
    {
        let ghost next = v@.take(i + 1);
        assert(next.drop_last() =~= v@.take(i as int));
        assert(next.last() == v@[i as int]);
        match digit_of(v[i]) {
            Some(d) => {
                if acc > (u64::MAX - d) / 10 {
                    proof {
                        assert(number_value(next) == Some((acc * 10 + d) as nat));
                        assert(acc * 10 + d > u64::MAX);
                        lemma_prefix_large(v@, i + 1);
                    }
                    return None;
                }
                acc = acc * 10 + d;
            },
            None => {
                proof {
                    assert(number_value(next) is None);
                    lemma_prefix_invalid(v@, i + 1);
                }
                return None;
            },
        }
        i += 1;
    }
    assert(v@.take(v.len() as int) =~= v@);
    Some(acc)
}

proof fn lemma_prefix_invalid(s: Seq<char>, n: int)
    requires
        1 <= n <= s.len(),
        number_value(s.take(n)) is None,
    ensures
        number_value(s) is None,
    decreases s.len() - n,
{
    if n < s.len() {
        assert(s.take(n + 1).drop_last() =~= s.take(n));
        lemma_prefix_invalid(s, n + 1);
    } else {
        assert(s.take(n) =~= s);
    }
}

proof fn lemma_prefix_large(s: Seq<char>, n: int)
    requires
        1 <= n <= s.len(),
        number_value(s.take(n)) is Some,
        number_value(s.take(n))->0 > u64::MAX,
    ensures
        number_of(s) is None,
    decreases s.len() - n,
{
    if n < s.len() {
        assert(s.take(n + 1).drop_last() =~= s.take(n));
        if number_value(s.take(n + 1)) is Some {
            lemma_prefix_large(s, n + 1);
        } else {
            lemma_prefix_invalid(s, n + 1);
        }
    } else {
        assert(s.take(n) =~= s);
    }
}

/// Appends the decimal digits of `n`.
pub fn push_number(out: &mut Vec<char>, n: u64)
    ensures
        final(out)@ == old(out)@ + decimal(n as nat),
    decreases n,
{
    if n >= 10 {
        push_number(out, n / 10);
    }
    let ghost before = out@;
    out.push(char_of_digit(n % 10));
    proof {
        if n >= 10 {
            assert(out@ =~= old(out)@ + decimal(n as nat));
        } else {
            assert(out@ =~= old(out)@ + decimal(n as nat));
        }
    }
}

impl Version {
    /// The version `0.0.0`.
    pub fn new() -> (v: Version)
        ensures
            v == (Version { major: 0, minor: 0, patch: 0 }),
    {
        Version { major: 0, minor: 0, patch: 0 }
    }

    /// `self` comes before `other`.
    pub open spec fn lt(self, other: Version) -> bool {
        self.major < other.major || (self.major == other.major && (self.minor < other.minor || (
        self.minor == other.minor && self.patch < other.patch)))
    }

    pub open spec fn le(self, other: Version) -> bool {
        self.lt(other) || self == other
    }

    pub fn less_than(&self, other: &Version) -> (r: bool)
        ensures
            r == self.lt(*other),
    {
        self.major < other.major || (self.major == other.major && (self.minor < other.minor || (
        self.minor == other.minor && self.patch < other.patch)))
    }

    /// What `to_file_string` writes.
    pub open spec fn spec_text(self) -> Seq<char> {
        decimal(self.major as nat) + seq!['.'] + decimal(self.minor as nat) + seq!['.'] + decimal(
            self.patch as nat,
        )
    }

    pub fn push_to(&self, out: &mut Vec<char>)
        ensures
            final(out)@ == old(out)@ + self.spec_text(),
    {
        push_number(out, self.major);
        out.push('.');
        push_number(out, self.minor);
        out.push('.');
        push_number(out, self.patch);
        assert(out@ =~= old(out)@ + self.spec_text());
    }

    /// The version as text, such as `1.2.3`.
    pub fn to_file_string(&self) -> (s: String)
        ensures
            s@ == self.spec_text(),
    {
        let mut out: Vec<char> = Vec::new();
        self.push_to(&mut out);
        assert(out@ =~= self.spec_text());
        string_of(&out)
    }

    /// The version that a text writes: three dot-separated numbers, with an
    /// optional `v` in front.
    pub open spec fn spec_parse(s: Seq<char>) -> Option<Version> {
        let body = if s.len() > 0 && s[0] == 'v' {
            s.skip(1)
        } else {
            s
        };
        let parts = crate::text::split(body, '.');
        if parts.len() != 3 {
            None
        } else {
            match (number_of(parts[0]), number_of(parts[1]), number_of(parts[2])) {
                (Some(major), Some(minor), Some(patch)) => Some(Version { major, minor, patch }),
                _ => None,
            }
        }
    }

    pub fn parse_chars(v: &Vec<char>) -> (r: Option<Version>)
        ensures
            r == Self::spec_parse(v@),
    {
        let body = if v.len() > 0 && v[0] == 'v' {
            let b = slice(v, 1, v.len());
            assert(b@ =~= v@.skip(1));
            b
        } else {
            let b = slice(v, 0, v.len());
            assert(b@ =~= v@);
            b
        };
        let parts = split_on(&body, '.');
        if parts.len() != 3 {
            return None;
        }
        assert(views(parts@)[0] == parts@[0]@);
        assert(views(parts@)[1] == parts@[1]@);
        assert(views(parts@)[2] == parts@[2]@);
        let major = parse_number(&parts[0]);
        let minor = parse_number(&parts[1]);
        let patch = parse_number(&parts[2]);
        match (major, minor, patch) {
            (Some(major), Some(minor), Some(patch)) => Some(Version { major, minor, patch }),
            _ => None,
        }
    }

    /// Reads a version such as `1.2.3` or `v1.2.3`.
    pub fn from_file_string(s: &str) -> (r: Option<Version>)
        ensures
            r == Self::spec_parse(s@),
    {
        let v = chars_of(s);
        Self::parse_chars(&v)
    }
}

impl Range {
    /// The range that every version satisfies.
    pub open spec fn spec_any() -> Range {
        Range {
            has_min: false,
            min: Version { major: 0, minor: 0, patch: 0 },
            min_inclusive: true,
            has_max: false,
            max: Version { major: 0, minor: 0, patch: 0 },
            max_inclusive: true,
        }
    }

    pub fn any() -> (r: Range)
        ensures
            r == Self::spec_any(),
    {
        Range {
            has_min: false,
            min: Version { major: 0, minor: 0, patch: 0 },
            min_inclusive: true,
            has_max: false,
            max: Version { major: 0, minor: 0, patch: 0 },
            max_inclusive: true,
        }
    }

    /// Whether `v` lies in the interval.
    pub open spec fn accepts(self, v: Version) -> bool {
        &&& (self.has_min ==> if self.min_inclusive {
            self.min.le(v)
        } else {
            self.min.lt(v)
        })
        &&& (self.has_max ==> if self.max_inclusive {
            v.le(self.max)
        } else {
            v.lt(self.max)
        })
    }

    pub fn check(&self, v: &Version) -> (r: bool)
        ensures
            r == self.accepts(*v),
    {
        let low = !self.has_min || self.min.less_than(v) || (self.min_inclusive && self.min == *v);
        let high = !self.has_max || v.less_than(&self.max) || (self.max_inclusive && self.max
            == *v);
        low && high
    }

    /// The versions from `min` on.
    pub open spec fn spec_at_least(min: Version) -> Range {
        Range { has_min: true, min, min_inclusive: true, ..Self::spec_any() }
    }

    /// The versions from `min` up to, but without, `max`.
    pub open spec fn spec_between(min: Version, max: Version) -> Range {
        Range { has_min: true, min, min_inclusive: true, has_max: true, max, max_inclusive: false }
    }

    /// `min` and nothing else.
    pub open spec fn spec_exact(v: Version) -> Range {
        Range { has_min: true, min: v, min_inclusive: true, has_max: true, max: v, max_inclusive: true }
    }

    pub fn exact(v: Version) -> (r: Range)
        ensures
            r == Self::spec_exact(v),
    {
        Range { has_min: true, min: v, min_inclusive: true, has_max: true, max: v, max_inclusive: true }
    }

    /// The versions compatible with `v`: from `v` up to the next change of
    /// its leftmost component that is not zero.
    pub open spec fn spec_caret(v: Version) -> Range {
        if v.major > 0 {
            if v.major < u64::MAX {
                Self::spec_between(v, Version { major: (v.major + 1) as u64, minor: 0, patch: 0 })
            } else {
                Self::spec_at_least(v)
            }
        } else if v.minor > 0 {
            if v.minor < u64::MAX {
                Self::spec_between(v, Version { major: 0, minor: (v.minor + 1) as u64, patch: 0 })
            } else {
                Self::spec_between(v, Version { major: 1, minor: 0, patch: 0 })
            }
        } else {
            if v.patch < u64::MAX {
                Self::spec_between(v, Version { major: 0, minor: 0, patch: (v.patch + 1) as u64 })
            } else {
                Self::spec_between(v, Version { major: 0, minor: 1, patch: 0 })
            }
        }
    }

    pub fn caret(v: Version) -> (r: Range)
        ensures
            r == Self::spec_caret(v),
    {
        let max = if v.major > 0 {
            if v.major < u64::MAX {
                Version { major: v.major + 1, minor: 0, patch: 0 }
            } else {
                return Range { has_min: true, min: v, min_inclusive: true, ..Self::any() };
            }
        } else if v.minor > 0 {
            if v.minor < u64::MAX {
                Version { major: 0, minor: v.minor + 1, patch: 0 }
            } else {
                Version { major: 1, minor: 0, patch: 0 }
            }
        } else {
            if v.patch < u64::MAX {
                Version { major: 0, minor: 0, patch: v.patch + 1 }
            } else {
                Version { major: 0, minor: 1, patch: 0 }
            }
        };
        Range { has_min: true, min: v, min_inclusive: true, has_max: true, max, max_inclusive: false }
    }

    /// The versions from `v` up to the next minor version.
    pub open spec fn spec_tilde(v: Version) -> Range {
        if v.minor < u64::MAX {
            Self::spec_between(
                v,
                Version { major: v.major, minor: (v.minor + 1) as u64, patch: 0 },
            )
        } else if v.major < u64::MAX {
            Self::spec_between(v, Version { major: (v.major + 1) as u64, minor: 0, patch: 0 })
        } else {
            Self::spec_at_least(v)
        }
    }

    pub fn tilde(v: Version) -> (r: Range)
        ensures
            r == Self::spec_tilde(v),
    {
        if v.minor < u64::MAX {
            Range {
                has_min: true,
                min: v,
                min_inclusive: true,
                has_max: true,
                max: Version { major: v.major, minor: v.minor + 1, patch: 0 },
                max_inclusive: false,
            }
        } else if v.major < u64::MAX {
            Range {
                has_min: true,
                min: v,
                min_inclusive: true,
                has_max: true,
                max: Version { major: v.major + 1, minor: 0, patch: 0 },
                max_inclusive: false,
            }
        } else {
            Range { has_min: true, min: v, min_inclusive: true, ..Self::any() }
        }
    }

    /// The interval of the versions that lie in both.
    pub open spec fn spec_both(self, other: Range) -> Range {
        let low_other = other.has_min && (!self.has_min || self.min.lt(other.min) || (self.min
            == other.min && !other.min_inclusive));
        let high_other = other.has_max && (!self.has_max || other.max.lt(self.max) || (self.max
            == other.max && !other.max_inclusive));
        Range {
            has_min: self.has_min || other.has_min,
            min: if low_other {
                other.min
            } else {
                self.min
            },
            min_inclusive: if low_other {
                other.min_inclusive
            } else {
                self.min_inclusive
            },
            has_max: self.has_max || other.has_max,
            max: if high_other {
                other.max
            } else {
                self.max
            },
            max_inclusive: if high_other {
                other.max_inclusive
            } else {
                self.max_inclusive
            },
        }
    }

    pub fn both(&self, other: &Range) -> (r: Range)
        ensures
            r == self.spec_both(*other),
    {
        let low_other = other.has_min && (!self.has_min || self.min.less_than(&other.min) || (
        self.min == other.min && !other.min_inclusive));
        let high_other = other.has_max && (!self.has_max || other.max.less_than(&self.max) || (
        self.max == other.max && !other.max_inclusive));
        Range {
            has_min: self.has_min || other.has_min,
            min: if low_other {
                other.min
            } else {
                self.min
            },
            min_inclusive: if low_other {
                other.min_inclusive
            } else {
                self.min_inclusive
            },
            has_max: self.has_max || other.has_max,
            max: if high_other {
                other.max
            } else {
                self.max
            },
            max_inclusive: if high_other {
                other.max_inclusive
            } else {
                self.max_inclusive
            },
        }
    }

    /// A version lies in the intersection exactly when it lies in both.
    pub proof fn law_both(self, other: Range, v: Version)
        ensures
            self.spec_both(other).accepts(v) <==> self.accepts(v) && other.accepts(v),
    {
    }

    /// What one comparator writes: `*`, or a version behind one of `^`, `~`,
    /// `>=`, `>`, `<=`, `<`, `=` or nothing.
    pub open spec fn spec_comparator(s: Seq<char>) -> Option<Range> {
        if s =~= seq!['*'] {
            Some(Self::spec_any())
        } else if s.len() >= 1 && s[0] == '^' {
            match Version::spec_parse(s.skip(1)) {
                Some(v) => Some(Self::spec_caret(v)),
                None => None,
            }
        } else if s.len() >= 1 && s[0] == '~' {
            match Version::spec_parse(s.skip(1)) {
                Some(v) => Some(Self::spec_tilde(v)),
                None => None,
            }
        } else if s.len() >= 2 && s[0] == '>' && s[1] == '=' {
            match Version::spec_parse(s.skip(2)) {
                Some(v) => Some(Self::spec_at_least(v)),
                None => None,
            }
        } else if s.len() >= 1 && s[0] == '>' {
            match Version::spec_parse(s.skip(1)) {
                Some(v) => Some(Range { min_inclusive: false, ..Self::spec_at_least(v) }),
                None => None,
            }
        } else if s.len() >= 2 && s[0] == '<' && s[1] == '=' {
            match Version::spec_parse(s.skip(2)) {
                Some(v) => Some(
                    Range { has_max: true, max: v, max_inclusive: true, ..Self::spec_any() },
                ),
                None => None,
            }
        } else if s.len() >= 1 && s[0] == '<' {
            match Version::spec_parse(s.skip(1)) {
                Some(v) => Some(
                    Range { has_max: true, max: v, max_inclusive: false, ..Self::spec_any() },
                ),
                None => None,
            }
        } else if s.len() >= 1 && s[0] == '=' {
            match Version::spec_parse(s.skip(1)) {
                Some(v) => Some(Self::spec_exact(v)),
                None => None,
            }
        } else {
            match Version::spec_parse(s) {
                Some(v) => Some(Self::spec_exact(v)),
                None => None,
            }
        }
    }

    fn parse_version_from(v: &Vec<char>, from: usize) -> (r: Option<Version>)
        requires
            from <= v.len(),
        ensures
            r == Version::spec_parse(v@.skip(from as int)),
    {
        let rest = slice(v, from, v.len());
        assert(rest@ =~= v@.skip(from as int));
        Version::parse_chars(&rest)
    }

    fn parse_comparator(v: &Vec<char>) -> (r: Option<Range>)
        ensures
            r == Self::spec_comparator(v@),
    {
        if v.len() == 1 && v[0] == '*' {
            assert(v@ =~= seq!['*']);
            return Some(Self::any());
        }
        assert(!(v@ =~= seq!['*']));
        if v.len() >= 1 && v[0] == '^' {
            match Self::parse_version_from(v, 1) {
                Some(x) => Some(Self::caret(x)),
                None => None,
            }
        } else if v.len() >= 1 && v[0] == '~' {
            match Self::parse_version_from(v, 1) {
                Some(x) => Some(Self::tilde(x)),
                None => None,
            }
        } else if v.len() >= 2 && v[0] == '>' && v[1] == '=' {
            match Self::parse_version_from(v, 2) {
                Some(x) => Some(Range { has_min: true, min: x, min_inclusive: true, ..Self::any() }),
                None => None,
            }
        } else if v.len() >= 1 && v[0] == '>' {
            match Self::parse_version_from(v, 1) {
                Some(x) => Some(
                    Range { has_min: true, min: x, min_inclusive: false, ..Self::any() },
                ),
                None => None,
            }
        } else if v.len() >= 2 && v[0] == '<' && v[1] == '=' {
            match Self::parse_version_from(v, 2) {
                Some(x) => Some(Range { has_max: true, max: x, max_inclusive: true, ..Self::any() }),
                None => None,
            }
        } else if v.len() >= 1 && v[0] == '<' {
            match Self::parse_version_from(v, 1) {
                Some(x) => Some(
                    Range { has_max: true, max: x, max_inclusive: false, ..Self::any() },
                ),
                None => None,
            }
        } else if v.len() >= 1 && v[0] == '=' {
            match Self::parse_version_from(v, 1) {
                Some(x) => Some(Self::exact(x)),
                None => None,
            }
        } else {
            assert(v@.skip(0) =~= v@);
            match Self::parse_version_from(v, 0) {
                Some(x) => Some(Self::exact(x)),
                None => None,
            }
        }
    }

    /// The versions that satisfy every one of the comparators `parts[..n]`.
    pub open spec fn spec_all(parts: Seq<Seq<char>>, n: nat) -> Option<Range>
        decreases n,
    {
        if n == 0 {
            Some(Self::spec_any())
        } else {
            match (Self::spec_all(parts, (n - 1) as nat), Self::spec_comparator(parts[n - 1])) {
                (Some(before), Some(last)) => Some(before.spec_both(last)),
                _ => None,
            }
        }
    }

    /// The range that a text writes: comparators separated by single spaces,
    /// all of which a version has to satisfy.
    pub open spec fn spec_parse(s: Seq<char>) -> Option<Range> {
        let parts = crate::text::split(s, ' ');
        Self::spec_all(parts, parts.len())
    }

    pub fn parse_chars(v: &Vec<char>) -> (r: Option<Range>)
        ensures
            r == Self::spec_parse(v@),
    {
        let parts = split_on(v, ' ');
        let mut acc = Self::any();
        let mut i: usize = 0;
        while i < parts.len()
            invariant
                i <= parts.len(),
                views(parts@) == crate::text::split(v@, ' '),
                Self::spec_all(views(parts@), i as nat) == Some(acc),
            decreases parts.len() - i,
        {
            assert(views(parts@)[i as int] == parts@[i as int]@);
            match Self::parse_comparator(&parts[i]) {
                Some(c) => {
                    acc = acc.both(&c);
                },
                None => {
                    proof {
                        let ghost n = (i + 1) as nat;
                        assert(Self::spec_comparator(views(parts@)[n - 1]) is None);
                        assert(Self::spec_all(views(parts@), n) is None);
                        Self::lemma_all_fails(views(parts@), n, parts.len() as nat);
                    }
                    return None;
                },
            }
            i += 1;
        }
        Some(acc)
    }

    proof fn lemma_all_fails(parts: Seq<Seq<char>>, n: nat, m: nat)
        requires
            Self::spec_all(parts, n) is None,
            n <= m,
        ensures
            Self::spec_all(parts, m) is None,
        decreases m - n,
    {
        if n < m {
            Self::lemma_all_fails(parts, n + 1, m);
        }
    }

    /// Reads a range such as `^1.2.3` or `>=1.0.0 <2.0.0`.
    pub fn from_file_string(s: &str) -> (r: Option<Range>)
        ensures
            r == Self::spec_parse(s@),
    {
        let v = chars_of(s);
        Self::parse_chars(&v)
    }

    /// The lower bound as a comparator; nothing where there is none.
    pub open spec fn spec_low(self) -> Seq<char> {
        if self.has_min {
            (if self.min_inclusive {
                seq!['>', '=']
            } else {
                seq!['>']
            }) + self.min.spec_text()
        } else {
            Seq::<char>::empty()
        }
    }

    /// The upper bound as a comparator; nothing where there is none.
    pub open spec fn spec_high(self) -> Seq<char> {
        if self.has_max {
            (if self.max_inclusive {
                seq!['<', '=']
            } else {
                seq!['<']
            }) + self.max.spec_text()
        } else {
            Seq::<char>::empty()
        }
    }

    /// What stands between two comparators.
    pub open spec fn spec_gap(self) -> Seq<char> {
        if self.has_min && self.has_max {
            seq![' ']
        } else {
            Seq::<char>::empty()
        }
    }

    /// What `to_file_string` writes: `*` for the open interval, the version
    /// for an exact one, and else the bounds as comparators.
    pub open spec fn spec_text(self) -> Seq<char> {
        if !self.has_min && !self.has_max {
            seq!['*']
        } else if self.has_min && self.has_max && self.min == self.max && self.min_inclusive
            && self.max_inclusive {
            self.min.spec_text()
        } else {
            self.spec_low() + self.spec_gap() + self.spec_high()
        }
    }

    fn push_low(&self, out: &mut Vec<char>)
        ensures
            final(out)@ == old(out)@ + self.spec_low(),
    {
        if self.has_min {
            out.push('>');
            if self.min_inclusive {
                out.push('=');
            }
            self.min.push_to(out);
        }
        assert(out@ =~= old(out)@ + self.spec_low());
    }

    fn push_high(&self, out: &mut Vec<char>)
        ensures
            final(out)@ == old(out)@ + self.spec_high(),
    {
        if self.has_max {
            out.push('<');
            if self.max_inclusive {
                out.push('=');
            }
            self.max.push_to(out);
        }
        assert(out@ =~= old(out)@ + self.spec_high());
    }

    pub fn push_to(&self, out: &mut Vec<char>)
        ensures
            final(out)@ == old(out)@ + self.spec_text(),
    {
        if !self.has_min && !self.has_max {
            out.push('*');
            assert(out@ =~= old(out)@ + self.spec_text());
        } else if self.has_min && self.has_max && self.min == self.max && self.min_inclusive
            && self.max_inclusive {
            self.min.push_to(out);
        } else {
            self.push_low(out);
            if self.has_min && self.has_max {
                out.push(' ');
            }
            assert(out@ =~= old(out)@ + self.spec_low() + self.spec_gap());
            self.push_high(out);
            assert(out@ =~= old(out)@ + (self.spec_low() + self.spec_gap() + self.spec_high()));
        }
    }

    pub fn to_file_string(&self) -> (s: String)
        ensures
            s@ == self.spec_text(),
    {
        let mut out: Vec<char> = Vec::new();
        self.push_to(&mut out);
        assert(out@ =~= self.spec_text());
        string_of(&out)
    }
}

/// Whether the entry is a version that the range accepts.
pub open spec fn eligible(entry: Option<Version>, range: Range) -> bool {
    entry is Some && range.accepts(entry->0)
}

/// The position of the highest accepted version among the first `n`
/// entries, the earliest one where it occurs more than once.
pub open spec fn spec_best(versions: Seq<Option<Version>>, range: Range, n: nat) -> Option<int>
    decreases n,
{
    if n == 0 {
        None
    } else {
        let before = spec_best(versions, range, (n - 1) as nat);
        if eligible(versions[n - 1], range) {
            match before {
                Some(b) => if (versions[b]->0).lt(versions[n - 1]->0) {
                    Some(n - 1)
                } else {
                    before
                },
                None => Some(n - 1),
            }
        } else {
            before
        }
    }
}

/// The choice is an accepted version, no accepted version is higher, and
/// none before it is as high; there is no choice only where no version is
/// accepted.
pub proof fn lemma_best_is_highest(versions: Seq<Option<Version>>, range: Range, n: nat)
    requires
        n <= versions.len(),
    ensures
        match spec_best(versions, range, n) {
            Some(b) => {
                &&& 0 <= b < n
                &&& eligible(versions[b], range)
                &&& forall|j: int|
                    0 <= j < n && eligible(#[trigger] versions[j], range) ==> (versions[j]->0).le(
                        versions[b]->0,
                    )
                &&& forall|j: int|
                    0 <= j < b && eligible(#[trigger] versions[j], range) ==> (versions[j]->0).lt(
                        versions[b]->0,
                    )
            },
            None => forall|j: int| 0 <= j < n ==> !eligible(#[trigger] versions[j], range),
        },
    decreases n,
{
    if n > 0 {
        lemma_best_is_highest(versions, range, (n - 1) as nat);
    }
}

/// Picks the highest version that the range accepts.
pub fn best_match(versions: &Vec<Option<Version>>, range: &Range) -> (r: Option<usize>)
    ensures
        match r {
            Some(b) => spec_best(versions@, *range, versions.len() as nat) == Some(b as int),
            None => spec_best(versions@, *range, versions.len() as nat) is None,
        },
{
    let mut best: Option<usize> = None;
    let mut i: usize = 0;
    while i < versions.len()
        invariant
            i <= versions.len(),
            match best {
                Some(b) => b < i && spec_best(versions@, *range, i as nat) == Some(b as int),
                None => spec_best(versions@, *range, i as nat) is None,
            },
        decreases versions.len() - i,
    {
        proof {
            lemma_best_is_highest(versions@, *range, i as nat);
        }
        match versions[i] {
            Some(v) => {
                if range.check(&v) {
                    match best {
                        Some(b) => {
                            match versions[b] {
                                Some(current) => {
                                    if current.less_than(&v) {
                                        best = Some(i);
                                    }
                                },
                                None => {},
                            }
                        },
                        None => {
                            best = Some(i);
                        },
                    }
                }
            },
            None => {},
        }
        i += 1;
    }
    best
}

/// Reading the text of a version gives the version.
pub proof fn law_version_round_trip(v: Version)
    ensures
        Version::spec_parse(v.spec_text()) == Some(v),
{
    let a = decimal(v.major as nat);
    let b = decimal(v.minor as nat);
    let c = decimal(v.patch as nat);
    lemma_decimal(v.major as nat);
    lemma_decimal(v.minor as nat);
    lemma_decimal(v.patch as nat);
    let text = v.spec_text();
    assert(text[0] == a[0]);
    assert(digit_value(a[0]) is Some);
    assert forall|s: Seq<char>|
        (forall|i: int| 0 <= i < s.len() ==> digit_value(#[trigger] s[i]) is Some)
            implies !s.contains('.') by {
        if s.contains('.') {
            let i = choose|i: int| 0 <= i < s.len() && s[i] == '.';
            assert(digit_value(s[i]) is Some);
        }
    }
    assert(!a.contains('.'));
    assert(!b.contains('.'));
    assert(!c.contains('.'));
    crate::text::lemma_split_single(a, '.');
    crate::text::lemma_split_append(a, b, '.');
    crate::text::lemma_split_append(a + seq!['.'] + b, c, '.');
    let parts = crate::text::split(text, '.');
    assert(parts =~= seq![a, b, c]);
}

} // verus!

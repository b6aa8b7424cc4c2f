//! Version identifier grammar and classification.
//!
//! A raw version string is classified into exactly one of four shapes:
//! release (`1.20.1`), pre-release (`1.20.1-pre1`), snapshot (`23w13a`),
//! or a non-standard fallback for legacy identifiers. The variant parsers
//! are tried in that fixed order; the order is load-bearing because a
//! pre-release string begins with a valid release string.

use vstd::prelude::*;

verus! {

use vstd::string::*;

/// Decimal digit characters.
pub open spec fn is_digit_char(c: char) -> bool {
    '0' <= c && c <= '9'
}

/// Numeric value of a single decimal digit character.
pub open spec fn digit_val(c: char) -> nat {
    (c as nat - '0' as nat) as nat
}

/// Non-empty, all decimal digits.
pub open spec fn is_digits(s: Seq<char>) -> bool {
    s.len() > 0 && forall|i: int| 0 <= i < s.len() ==> is_digit_char(#[trigger] s[i])
}

/// Decimal value of a digit string (most significant digit first).
pub open spec fn dec_val(s: Seq<char>) -> nat
    decreases s.len(),
{
    if s.len() == 0 {
        0
    } else {
        10 * dec_val(s.drop_last()) + digit_val(s.last())
    }
}

/// A numeric field of the release grammar: digits whose value fits in `u8`.
pub open spec fn is_u8_field(s: Seq<char>) -> bool {
    is_digits(s) && dec_val(s) <= 255
}

/// Index of the first occurrence of `sep` in `s`, if any.
pub open spec fn find_char(s: Seq<char>, sep: char) -> Option<int>
    decreases s.len(),
{
    if s.len() == 0 {
        None
    } else if s[0] == sep {
        Some(0)
    } else {
        match find_char(s.skip(1), sep) {
            None => None,
            Some(i) => Some(i + 1),
        }
    }
}

/// `find_char` returns the least index holding `sep`, or `None` when `sep`
/// does not occur.
pub proof fn lemma_find_char(s: Seq<char>, sep: char)
    ensures
        match find_char(s, sep) {
            Some(i) => 0 <= i < s.len() && s[i] == sep && forall|j: int|
                0 <= j < i ==> s[j] != sep,
            None => forall|j: int| 0 <= j < s.len() ==> s[j] != sep,
        },
    decreases s.len(),
{
    if s.len() > 0 && s[0] != sep {
        lemma_find_char(s.skip(1), sep);
        match find_char(s.skip(1), sep) {
            Some(i) => {
                assert(s.skip(1)[i] == s[i + 1]);
                assert forall|j: int| 0 <= j < i + 1 implies s[j] != sep by {
                    if j > 0 {
                        assert(s.skip(1)[j - 1] == s[j]);
                    }
                }
            }
            None => {
                assert forall|j: int| 0 <= j < s.len() implies s[j] != sep by {
                    if j > 0 {
                        assert(s.skip(1)[j - 1] == s[j]);
                    }
                }
            }
        }
    }
}

/// Characters permitted in a non-standard identifier: ASCII alphanumerics,
/// `.`, `-`, `_` and space.
pub open spec fn is_nonstandard_char(c: char) -> bool {
    ('a' <= c && c <= 'z') || ('A' <= c && c <= 'Z') || is_digit_char(c) || c == '.' || c == '-'
        || c == '_' || c == ' '
}

/// The non-standard fallback accepts any string of at least four permitted
/// characters.
pub open spec fn is_nonstandard(s: Seq<char>) -> bool {
    s.len() >= 4 && forall|i: int| 0 <= i < s.len() ==> is_nonstandard_char(#[trigger] s[i])
}

/// A pre-release label: `pre` or `rc` followed by one or more digits.
pub open spec fn is_pre_label(s: Seq<char>) -> bool {
    (s.len() >= 4 && s[0] == 'p' && s[1] == 'r' && s[2] == 'e' && is_digits(s.skip(3))) || (s.len()
        >= 3 && s[0] == 'r' && s[1] == 'c' && is_digits(s.skip(2)))
}

/// Release grammar: `digits "." digits ["." digits]`, each field a decimal
/// number that fits in `u8`. An omitted patch field reads as zero.
pub open spec fn spec_parse_release(s: Seq<char>) -> Option<(u8, u8, u8)> {
    match find_char(s, '.') {
        None => None,
        Some(i) => {
            let a = s.take(i);
            let rest = s.skip(i + 1);
            match find_char(rest, '.') {
                None => if is_u8_field(a) && is_u8_field(rest) {
                    Some((dec_val(a) as u8, dec_val(rest) as u8, 0u8))
                } else {
                    None
                },
                Some(j) => {
                    let b = rest.take(j);
                    let c = rest.skip(j + 1);
                    if is_u8_field(a) && is_u8_field(b) && is_u8_field(c) {
                        Some((dec_val(a) as u8, dec_val(b) as u8, dec_val(c) as u8))
                    } else {
                        None
                    }
                },
            }
        },
    }
}

/// Pre-release grammar: a release version, `-`, then a pre-release label.
/// The release grammar contains no `-`, so the first `-` is the separator.
pub open spec fn spec_parse_prerelease(s: Seq<char>) -> Option<(u8, u8, u8, Seq<char>)> {
    match find_char(s, '-') {
        None => None,
        Some(i) => {
            let rel = s.take(i);
            let lab = s.skip(i + 1);
            match spec_parse_release(rel) {
                None => None,
                Some((major, minor, patch)) => if is_pre_label(lab) {
                    Some((major, minor, patch, lab))
                } else {
                    None
                },
            }
        },
    }
}

/// Snapshot grammar: exactly two digits, `w`, exactly two digits, one
/// lowercase letter, end of input.
pub open spec fn spec_parse_snapshot(s: Seq<char>) -> Option<(u8, u8, char)> {
    if s.len() == 6 && is_digit_char(s[0]) && is_digit_char(s[1]) && s[2] == 'w' && is_digit_char(
        s[3],
    ) && is_digit_char(s[4]) && 'a' <= s[5] && s[5] <= 'z' {
        Some(
            (
                (10 * digit_val(s[0]) + digit_val(s[1])) as u8,
                (10 * digit_val(s[3]) + digit_val(s[4])) as u8,
                s[5],
            ),
        )
    } else {
        None
    }
}

/// Mathematical model of a classified version identifier.
pub enum VersionView {
    Release { major: u8, minor: u8, patch: u8 },
    PreRelease { major: u8, minor: u8, patch: u8, pre: Seq<char> },
    Snapshot { year: u8, week: u8, letter: char },
    NonStandard { text: Seq<char> },
}

/// Classification of a whole string, trying the variant grammars in the
/// fixed precedence order: pre-release, release, snapshot, non-standard.
pub open spec fn spec_parse_version(s: Seq<char>) -> Option<VersionView> {
    if spec_parse_prerelease(s) is Some {
        let (major, minor, patch, pre) = spec_parse_prerelease(s)->Some_0;
        Some(VersionView::PreRelease { major, minor, patch, pre })
    } else if spec_parse_release(s) is Some {
        let (major, minor, patch) = spec_parse_release(s)->Some_0;
        Some(VersionView::Release { major, minor, patch })
    } else if spec_parse_snapshot(s) is Some {
        let (year, week, letter) = spec_parse_snapshot(s)->Some_0;
        Some(VersionView::Snapshot { year, week, letter })
    } else if is_nonstandard(s) {
        Some(VersionView::NonStandard { text: s })
    } else {
        None
    }
}

/// Digit character for a value below ten.
pub open spec fn digit_char(n: nat) -> char {
    if n == 0 {
        '0'
    } else if n == 1 {
        '1'
    } else if n == 2 {
        '2'
    } else if n == 3 {
        '3'
    } else if n == 4 {
        '4'
    } else if n == 5 {
        '5'
    } else if n == 6 {
        '6'
    } else if n == 7 {
        '7'
    } else if n == 8 {
        '8'
    } else {
        '9'
    }
}

/// Canonical decimal rendering, most significant digit first, no leading
/// zeros (`0` renders as `"0"`).
pub open spec fn dec_str(n: nat) -> Seq<char>
    decreases n,
{
    if n < 10 {
        seq![digit_char(n)]
    } else {
        dec_str(n / 10).push(digit_char(n % 10))
    }
}

/// Two-digit zero-padded rendering of a value below one hundred.
pub open spec fn two_digit_str(n: nat) -> Seq<char> {
    seq![digit_char(n / 10), digit_char(n % 10)]
}

/// Canonical display of a release version: the patch field is elided when
/// zero.
pub open spec fn release_str(major: u8, minor: u8, patch: u8) -> Seq<char> {
    if patch == 0 {
        dec_str(major as nat) + seq!['.'] + dec_str(minor as nat)
    } else {
        dec_str(major as nat) + seq!['.'] + dec_str(minor as nat) + seq!['.'] + dec_str(
            patch as nat,
        )
    }
}

/// Canonical display of a snapshot version: `{year:02}w{week:02}{letter}`.
pub open spec fn snapshot_str(year: u8, week: u8, letter: char) -> Seq<char> {
    two_digit_str(year as nat) + seq!['w'] + two_digit_str(week as nat) + seq![letter]
}

/// Canonical display of a classified identifier.
pub open spec fn spec_format(v: VersionView) -> Seq<char> {
    match v {
        VersionView::Release { major, minor, patch } => release_str(major, minor, patch),
        VersionView::PreRelease { major, minor, patch, pre } => release_str(major, minor, patch)
            + seq!['-'] + pre,
        VersionView::Snapshot { year, week, letter } => snapshot_str(year, week, letter),
        VersionView::NonStandard { text } => text,
    }
}

/// Well-formedness of a classified identifier: the invariants the parser
/// establishes and the constructors require.
pub open spec fn wf_view(v: VersionView) -> bool {
    match v {
        VersionView::Release { .. } => true,
        VersionView::PreRelease { pre, .. } => is_pre_label(pre),
        VersionView::Snapshot { year, week, letter } => year <= 99 && week <= 99 && 'a' <= letter
            && letter <= 'z',
        VersionView::NonStandard { text } => is_nonstandard(text) && spec_parse_prerelease(
            text,
        ) is None && spec_parse_release(text) is None && spec_parse_snapshot(text) is None,
    }
}

/// Version format for release versions in the form `X.Y.Z`.
///
/// Fields fit Minecraft's numbering; each is an 8-bit unsigned integer.
#[derive(Clone, Copy, Debug, PartialEq, Eq, Structural, PartialOrd, Ord, Hash)]
pub struct ReleaseVersion {
    pub major: u8,
    pub minor: u8,
    pub patch: u8,
}

impl View for ReleaseVersion {
    type V = VersionView;

    open spec fn view(&self) -> VersionView {
        VersionView::Release { major: self.major, minor: self.minor, patch: self.patch }
    }
}

impl ReleaseVersion {
    pub fn new(major: u8, minor: u8, patch: u8) -> (r: ReleaseVersion)
        ensures
            r == (ReleaseVersion { major, minor, patch }),
    {
        ReleaseVersion { major, minor, patch }
    }
}

/// Version format for pre-release versions in the form `X.Y.Z-preN` or
/// `X.Y.Z-rcN`.
#[derive(Clone, Debug, Eq, Hash)]
pub struct PreReleaseVersion {
    pub major: u8,
    pub minor: u8,
    pub patch: u8,
    pub pre: String,
}

impl View for PreReleaseVersion {
    type V = VersionView;

    open spec fn view(&self) -> VersionView {
        VersionView::PreRelease {
            major: self.major,
            minor: self.minor,
            patch: self.patch,
            pre: self.pre@,
        }
    }
}

impl PreReleaseVersion {
    pub fn new(major: u8, minor: u8, patch: u8, pre: String) -> (r: PreReleaseVersion)
        ensures
            r.major == major && r.minor == minor && r.patch == patch && r.pre@ == pre@,
    {
        PreReleaseVersion { major, minor, patch, pre }
    }
}

impl PartialEq for PreReleaseVersion {
    fn eq(&self, other: &PreReleaseVersion) -> (r: bool) {
        self.major == other.major && self.minor == other.minor && self.patch == other.patch
            && self.pre == other.pre
    }
}

impl vstd::std_specs::cmp::PartialEqSpecImpl for PreReleaseVersion {
    open spec fn obeys_eq_spec() -> bool {
        true
    }

    open spec fn eq_spec(&self, other: &PreReleaseVersion) -> bool {
        self.major == other.major && self.minor == other.minor && self.patch == other.patch
            && self.pre@ == other.pre@
    }
}

/// Version format for snapshot versions in the form `XXwYYZ`, where `XX` is
/// the year, `YY` is the week, and `Z` is the iteration letter.
#[derive(Clone, Copy, Debug, PartialEq, Eq, Structural, Hash)]
pub struct SnapshotVersion {
    pub year: u8,
    pub week: u8,
    pub letter: char,
}

impl View for SnapshotVersion {
    type V = VersionView;

    open spec fn view(&self) -> VersionView {
        VersionView::Snapshot { year: self.year, week: self.week, letter: self.letter }
    }
}

impl SnapshotVersion {
    pub fn new(year: u8, week: u8, letter: char) -> (r: SnapshotVersion)
        requires
            year <= 99,
            week <= 99,
            'a' <= letter && letter <= 'z',
        ensures
            r == (SnapshotVersion { year, week, letter }),
    {
        SnapshotVersion { year, week, letter }
    }
}

/// A version number: release, pre-release, snapshot, or the non-standard
/// fallback for identifiers that fit none of the structured grammars.
#[derive(Clone, Debug, Eq, Hash)]
pub enum VersionNumber {
    Release(ReleaseVersion),
    PreRelease(PreReleaseVersion),
    Snapshot(SnapshotVersion),
    NonStandard(String),
}

impl View for VersionNumber {
    type V = VersionView;

    open spec fn view(&self) -> VersionView {
        match self {
            VersionNumber::Release(v) => v@,
            VersionNumber::PreRelease(v) => v@,
            VersionNumber::Snapshot(v) => v@,
            VersionNumber::NonStandard(s) => VersionView::NonStandard { text: s@ },
        }
    }
}

impl PartialEq for VersionNumber {
    fn eq(&self, other: &VersionNumber) -> (r: bool) {
        match (self, other) {
            (VersionNumber::Release(a), VersionNumber::Release(b)) => *a == *b,
            (VersionNumber::PreRelease(a), VersionNumber::PreRelease(b)) => *a == *b,
            (VersionNumber::Snapshot(a), VersionNumber::Snapshot(b)) => *a == *b,
            (VersionNumber::NonStandard(a), VersionNumber::NonStandard(b)) => *a == *b,
            _ => false,
        }
    }
}

impl vstd::std_specs::cmp::PartialEqSpecImpl for VersionNumber {
    open spec fn obeys_eq_spec() -> bool {
        true
    }

    open spec fn eq_spec(&self, other: &VersionNumber) -> bool {
        match (self, other) {
            (VersionNumber::Release(a), VersionNumber::Release(b)) => a == b,
            (VersionNumber::PreRelease(a), VersionNumber::PreRelease(b)) => a.major == b.major
                && a.minor == b.minor && a.patch == b.patch && a.pre@ == b.pre@,
            (VersionNumber::Snapshot(a), VersionNumber::Snapshot(b)) => a == b,
            (VersionNumber::NonStandard(a), VersionNumber::NonStandard(b)) => a@ == b@,
            _ => false,
        }
    }
}

impl VersionNumber {
    /// The invariant every parsed or well-constructed value satisfies.
    pub open spec fn wf(&self) -> bool {
        wf_view(self@)
    }

    pub fn is_release(&self) -> (r: bool)
        ensures
            r == (self@ is Release),
    {
        matches!(self, VersionNumber::Release(_))
    }

    pub fn is_pre_release(&self) -> (r: bool)
        ensures
            r == (self@ is PreRelease),
    {
        matches!(self, VersionNumber::PreRelease(_))
    }

    pub fn is_snapshot(&self) -> (r: bool)
        ensures
            r == (self@ is Snapshot),
    {
        matches!(self, VersionNumber::Snapshot(_))
    }

    pub fn is_non_standard(&self) -> (r: bool)
        ensures
            r == (self@ is NonStandard),
    {
        matches!(self, VersionNumber::NonStandard(_))
    }
}

/// `dec_val` never shrinks when a string is extended to the right.
pub(crate) proof fn lemma_dec_val_take(s: Seq<char>, k: int)
    requires
        0 <= k <= s.len(),
    ensures
        dec_val(s) >= dec_val(s.take(k)),
    decreases s.len() - k,
{
    if k == s.len() {
        assert(s.take(k) =~= s);
    } else {
        lemma_dec_val_take(s.drop_last(), k);
        assert(s.drop_last().take(k) =~= s.take(k));
    }
}

/// Characterizes a successful bounded search as the spec-level `find_char`
/// of the corresponding subrange.
proof fn lemma_find_in_subrange(s: Seq<char>, from: int, to: int, sep: char, k: int)
    requires
        0 <= from <= to <= s.len(),
        from <= k < to,
        s[k] == sep,
        forall|j: int| from <= j < k ==> s[j] != sep,
    ensures
        find_char(s.subrange(from, to), sep) == Some(k - from),
{
    let sub = s.subrange(from, to);
    lemma_find_char(sub, sep);
    assert(sub[k - from] == sep);
    match find_char(sub, sep) {
        Some(i) => {
            if i < k - from {
                assert(s[i + from] == sep);
            }
        },
        None => {
            assert(sub[k - from] != sep);
        },
    }
}

/// Characterizes an exhausted bounded search as a spec-level `find_char`
/// miss on the corresponding subrange.
proof fn lemma_find_in_subrange_none(s: Seq<char>, from: int, to: int, sep: char)
    requires
        0 <= from <= to <= s.len(),
        forall|j: int| from <= j < to ==> s[j] != sep,
    ensures
        find_char(s.subrange(from, to), sep) is None,
{
    let sub = s.subrange(from, to);
    lemma_find_char(sub, sep);
    match find_char(sub, sep) {
        Some(i) => {
            assert(s[i + from] == sep);
        },
        None => {},
    }
}

/// Collects the characters of a string slice into a vector.
pub(crate) fn chars_of(s: &str) -> (v: Vec<char>)
    ensures
        v@ == s@,
{
    let n: usize = s.unicode_len();
    let mut v: Vec<char> = Vec::new();
    let mut i: usize = 0;
    while i < n
        invariant
            i <= n,
            n == s@.len(),
            v@ == s@.take(i as int),
        decreases n - i,
    {
        let c = s.get_char(i);
        v.push(c);
        proof {
            assert(s@.take(i as int).push(s@[i as int]) =~= s@.take(i as int + 1));
        }
        i = i + 1;
    }
    proof {
        assert(s@.take(n as int) =~= s@);
    }
    v
}

/// Finds the first occurrence of `sep` in `cs[from..to]`.
pub(crate) fn find_range(cs: &Vec<char>, from: usize, to: usize, sep: char) -> (r: Option<usize>)
    requires
        from <= to <= cs@.len(),
    ensures
        match r {
            Some(k) => from <= k < to && cs@[k as int] == sep && forall|j: int|
                from <= j < k ==> cs@[j] != sep,
            None => forall|j: int| from <= j < to ==> cs@[j] != sep,
        },
{
    let mut i: usize = from;
    while i < to
        invariant
            from <= i <= to <= cs@.len(),
            forall|j: int| from <= j < i ==> cs@[j] != sep,
        decreases to - i,
    {
        if cs[i] == sep {
            return Some(i);
        }
        i = i + 1;
    }
    None
}

/// Parses `cs[from..to]` as a decimal field that must fit in `u8`.
fn parse_field(cs: &Vec<char>, from: usize, to: usize) -> (r: Option<u8>)
    requires
        from <= to <= cs@.len(),
    ensures
        match r {
            Some(v) => is_u8_field(cs@.subrange(from as int, to as int)) && v == dec_val(
                cs@.subrange(from as int, to as int),
            ),
            None => !is_u8_field(cs@.subrange(from as int, to as int)),
        },
{
    let ghost sub = cs@.subrange(from as int, to as int);
    if to == from {
        return None;
    }
    let mut acc: u32 = 0;
    let mut i: usize = from;
    while i < to
        invariant
            from <= i <= to <= cs@.len(),
            sub == cs@.subrange(from as int, to as int),
            acc <= 255,
            acc == dec_val(sub.take(i - from)),
            forall|j: int| 0 <= j < i - from ==> is_digit_char(#[trigger] sub[j]),
        decreases to - i,
    {
        let c = cs[i];
        if !('0' <= c && c <= '9') {
            proof {
                assert(sub[i - from] == c);
            }
            return None;
        }
        let d: u32 = (c as u32) - 48;
        proof {
            assert(sub[i - from] == c);
            assert(sub.take(i - from + 1).drop_last() =~= sub.take(i - from));
            assert(sub.take(i - from + 1).last() == c);
            assert(digit_val(c) == d);
        }
        acc = acc * 10 + d;
        if acc > 255 {
            proof {
                lemma_dec_val_take(sub, i - from + 1);
            }
            return None;
        }
        i = i + 1;
    }
    proof {
        assert(sub.take(to - from) =~= sub);
    }
    Some(acc as u8)
}

/// Parses `cs[from..to]` against the release grammar.
fn parse_release_range(cs: &Vec<char>, from: usize, to: usize) -> (r: Option<(u8, u8, u8)>)
    requires
        from <= to <= cs@.len(),
    ensures
        r == spec_parse_release(cs@.subrange(from as int, to as int)),
{
    let ghost sub = cs@.subrange(from as int, to as int);
    match find_range(cs, from, to, '.') {
        None => {
            proof {
                lemma_find_in_subrange_none(cs@, from as int, to as int, '.');
            }
            None
        },
        Some(i) => {
            proof {
                lemma_find_in_subrange(cs@, from as int, to as int, '.', i as int);
                assert(sub.take(i - from) =~= cs@.subrange(from as int, i as int));
                assert(sub.skip(i - from + 1) =~= cs@.subrange(i as int + 1, to as int));
            }
            let a = parse_field(cs, from, i);
            match find_range(cs, i + 1, to, '.') {
                None => {
                    proof {
                        lemma_find_in_subrange_none(cs@, i as int + 1, to as int, '.');
                    }
                    let b = parse_field(cs, i + 1, to);
                    match (a, b) {
                        (Some(major), Some(minor)) => Some((major, minor, 0u8)),
                        _ => None,
                    }
                },
                Some(j) => {
                    proof {
                        lemma_find_in_subrange(cs@, i as int + 1, to as int, '.', j as int);
                        let rest = sub.skip(i - from + 1);
                        assert(rest.take(j - i - 1) =~= cs@.subrange(i as int + 1, j as int));
                        assert(rest.skip(j - i) =~= cs@.subrange(j as int + 1, to as int));
                    }
                    let b = parse_field(cs, i + 1, j);
                    let c = parse_field(cs, j + 1, to);
                    match (a, b, c) {
                        (Some(major), Some(minor), Some(patch)) => Some((major, minor, patch)),
                        _ => None,
                    }
                },
            }
        },
    }
}

/// Checks `cs[from..to]` against the pre-release label grammar
/// (`pre` or `rc` followed by digits).
fn check_pre_label(cs: &Vec<char>, from: usize, to: usize) -> (r: bool)
    requires
        from <= to <= cs@.len(),
    ensures
        r == is_pre_label(cs@.subrange(from as int, to as int)),
{
    let ghost sub = cs@.subrange(from as int, to as int);
    let len: usize = to - from;
    if len >= 4 && cs[from] == 'p' && cs[from + 1] == 'r' && cs[from + 2] == 'e' {
        let ghost tail = sub.skip(3);
        proof {
            assert(tail =~= cs@.subrange(from as int + 3, to as int));
        }
        let r = check_digits_range(cs, from + 3, to);
        proof {
            if !r {
                assert(!is_digits(sub.skip(3)));
                // the rc form needs sub[0] == 'r'; here sub[0] == 'p'
                assert(sub[0] == 'p');
            }
        }
        r
    } else if len >= 3 && cs[from] == 'r' && cs[from + 1] == 'c' {
        let ghost tail = sub.skip(2);
        proof {
            assert(tail =~= cs@.subrange(from as int + 2, to as int));
        }
        let r = check_digits_range(cs, from + 2, to);
        proof {
            if !r {
                assert(!is_digits(sub.skip(2)));
                assert(sub[1] == 'c');
            }
        }
        r
    } else {
        proof {
            if is_pre_label(sub) {
                assert(sub[0] == cs@[from as int]);
            }
        }
        false
    }
}

/// Checks that `cs[from..to]` is a non-empty run of decimal digits.
fn check_digits_range(cs: &Vec<char>, from: usize, to: usize) -> (r: bool)
    requires
        from <= to <= cs@.len(),
    ensures
        r == is_digits(cs@.subrange(from as int, to as int)),
{
    let ghost sub = cs@.subrange(from as int, to as int);
    if to == from {
        return false;
    }
    let mut i: usize = from;
    while i < to
        invariant
            from <= i <= to <= cs@.len(),
            sub == cs@.subrange(from as int, to as int),
            forall|j: int| 0 <= j < i - from ==> is_digit_char(#[trigger] sub[j]),
        decreases to - i,
    {
        let c = cs[i];
        if !('0' <= c && c <= '9') {
            proof {
                assert(sub[i - from] == c);
            }
            return false;
        }
        proof {
            assert(sub[i - from] == c);
        }
        i = i + 1;
    }
    true
}

/// Parses `cs[from..to]` against the pre-release grammar; a success also
/// reports where the label starts.
fn parse_prerelease_range(cs: &Vec<char>, from: usize, to: usize) -> (r: Option<(u8, u8, u8, usize)>)
    requires
        from <= to <= cs@.len(),
    ensures
        match r {
            Some((major, minor, patch, ls)) => from < ls <= to && spec_parse_prerelease(
                cs@.subrange(from as int, to as int),
            ) == Some((major, minor, patch, cs@.subrange(ls as int, to as int))),
            None => spec_parse_prerelease(cs@.subrange(from as int, to as int)) is None,
        },
{
    let ghost sub = cs@.subrange(from as int, to as int);
    match find_range(cs, from, to, '-') {
        None => {
            proof {
                lemma_find_in_subrange_none(cs@, from as int, to as int, '-');
            }
            None
        },
        Some(i) => {
            proof {
                lemma_find_in_subrange(cs@, from as int, to as int, '-', i as int);
                assert(sub.take(i - from) =~= cs@.subrange(from as int, i as int));
                assert(sub.skip(i - from + 1) =~= cs@.subrange(i as int + 1, to as int));
            }
            match parse_release_range(cs, from, i) {
                None => None,
                Some((major, minor, patch)) => {
                    if check_pre_label(cs, i + 1, to) {
                        Some((major, minor, patch, i + 1))
                    } else {
                        None
                    }
                },
            }
        },
    }
}

/// Parses `cs[from..to]` against the snapshot grammar.
fn parse_snapshot_range(cs: &Vec<char>, from: usize, to: usize) -> (r: Option<(u8, u8, char)>)
    requires
        from <= to <= cs@.len(),
    ensures
        r == spec_parse_snapshot(cs@.subrange(from as int, to as int)),
{
    let ghost sub = cs@.subrange(from as int, to as int);
    if to - from != 6 {
        return None;
    }
    let c0 = cs[from];
    let c1 = cs[from + 1];
    let c2 = cs[from + 2];
    let c3 = cs[from + 3];
    let c4 = cs[from + 4];
    let c5 = cs[from + 5];
    proof {
        assert(sub[0] == c0 && sub[1] == c1 && sub[2] == c2 && sub[3] == c3 && sub[4] == c4
            && sub[5] == c5);
    }
    if ('0' <= c0 && c0 <= '9') && ('0' <= c1 && c1 <= '9') && c2 == 'w' && ('0' <= c3 && c3 <= '9')
        && ('0' <= c4 && c4 <= '9') && ('a' <= c5 && c5 <= 'z') {
        let year: u8 = 10 * ((c0 as u8) - 48) + ((c1 as u8) - 48);
        let week: u8 = 10 * ((c3 as u8) - 48) + ((c4 as u8) - 48);
        Some((year, week, c5))
    } else {
        None
    }
}

/// Checks `cs[from..to]` against the non-standard fallback: at least four
/// characters, all from the permitted set.
fn check_nonstandard_range(cs: &Vec<char>, from: usize, to: usize) -> (r: bool)
    requires
        from <= to <= cs@.len(),
    ensures
        r == is_nonstandard(cs@.subrange(from as int, to as int)),
{
    let ghost sub = cs@.subrange(from as int, to as int);
    if to - from < 4 {
        return false;
    }
    let mut i: usize = from;
    while i < to
        invariant
            from <= i <= to <= cs@.len(),
            sub == cs@.subrange(from as int, to as int),
            forall|j: int| 0 <= j < i - from ==> is_nonstandard_char(#[trigger] sub[j]),
        decreases to - i,
    {
        let c = cs[i];
        let ok = ('a' <= c && c <= 'z') || ('A' <= c && c <= 'Z') || ('0' <= c && c <= '9') || c
            == '.' || c == '-' || c == '_' || c == ' ';
        proof {
            assert(sub[i - from] == c);
        }
        if !ok {
            return false;
        }
        i = i + 1;
    }
    true
}

/// Error for a string that fits none of the version grammars: it carries
/// the offending fragment and an expectation label for user-facing
/// messages. Never used for control flow outside the parse boundary.
#[derive(Clone, Debug)]
pub struct VersionParseError {
    pub fragment: String,
    pub expected: String,
}

impl VersionNumber {
    /// Classifies a raw version string, trying the variant grammars in
    /// the fixed precedence order: pre-release, release, snapshot, then
    /// the non-standard fallback. Fails exactly when the string fits
    /// none of them: fewer than four characters, or a character outside
    /// the permitted set.
    pub fn parse(s: &str) -> (r: Result<VersionNumber, VersionParseError>)
        ensures
            match r {
                Ok(v) => spec_parse_version(s@) == Some(v@) && v.wf(),
                Err(e) => spec_parse_version(s@) is None && e.fragment@ == s@,
            },
    {
        let cs = chars_of(s);
        let n: usize = cs.len();
        proof {
            assert(cs@.subrange(0, n as int) =~= s@);
        }
        if let Some((major, minor, patch, ls)) = parse_prerelease_range(&cs, 0, n) {
            proof {
                assert(cs@.subrange(ls as int, n as int) =~= s@.subrange(ls as int, n as int));
            }
            let pre = s.substring_char(ls, n).to_owned();
            return Ok(
                VersionNumber::PreRelease(PreReleaseVersion { major, minor, patch, pre }),
            );
        }
        if let Some((major, minor, patch)) = parse_release_range(&cs, 0, n) {
            return Ok(VersionNumber::Release(ReleaseVersion { major, minor, patch }));
        }
        if let Some((year, week, letter)) = parse_snapshot_range(&cs, 0, n) {
            return Ok(VersionNumber::Snapshot(SnapshotVersion { year, week, letter }));
        }
        if check_nonstandard_range(&cs, 0, n) {
            return Ok(VersionNumber::NonStandard(s.to_owned()));
        }
        Err(
            VersionParseError {
                fragment: s.to_owned(),
                expected: "version number (4 or more characters)".to_owned(),
            },
        )
    }
}

/// The digit characters are digits and carry their numeric value.
proof fn lemma_digit_char(n: nat)
    requires
        n < 10,
    ensures
        is_digit_char(digit_char(n)),
        digit_val(digit_char(n)) == n,
{
}

/// The canonical decimal rendering is all digits and reads back to the
/// same value.
proof fn lemma_dec_str(n: nat)
    ensures
        is_digits(dec_str(n)),
        dec_val(dec_str(n)) == n,
    decreases n,
{
    if n < 10 {
        lemma_digit_char(n);
        assert(seq![digit_char(n)].drop_last() =~= Seq::<char>::empty());
        assert(dec_val(Seq::<char>::empty()) == 0);
    } else {
        lemma_dec_str(n / 10);
        lemma_digit_char(n % 10);
        let s = dec_str(n / 10).push(digit_char(n % 10));
        assert(s.drop_last() =~= dec_str(n / 10));
        assert(s.last() == digit_char(n % 10));
        assert(dec_val(s) == 10 * dec_val(dec_str(n / 10)) + digit_val(digit_char(n % 10)));
        vstd::arithmetic::div_mod::lemma_fundamental_div_mod(n as int, 10);
    }
}

/// Single-character string for a digit value.
pub(crate) fn digit_str(d: u8) -> (r: &'static str)
    requires
        d < 10,
    ensures
        r@ == seq![digit_char(d as nat)],
{
    let r: &'static str = if d == 0 {
        "0"
    } else if d == 1 {
        "1"
    } else if d == 2 {
        "2"
    } else if d == 3 {
        "3"
    } else if d == 4 {
        "4"
    } else if d == 5 {
        "5"
    } else if d == 6 {
        "6"
    } else if d == 7 {
        "7"
    } else if d == 8 {
        "8"
    } else {
        "9"
    };
    proof {
        reveal_strlit("0");
        reveal_strlit("1");
        reveal_strlit("2");
        reveal_strlit("3");
        reveal_strlit("4");
        reveal_strlit("5");
        reveal_strlit("6");
        reveal_strlit("7");
        reveal_strlit("8");
        reveal_strlit("9");
        assert(r@ =~= seq![digit_char(d as nat)]);
    }
    r
}

/// Appends the canonical decimal rendering of `n`.
pub(crate) fn push_dec_u8(out: &mut String, n: u8)
    ensures
        final(out)@ == old(out)@ + dec_str(n as nat),
{
    if n >= 100 {
        out.append(digit_str(n / 100));
        out.append(digit_str((n / 10) % 10));
        out.append(digit_str(n % 10));
        proof {
            assert(dec_str((n / 10) as nat) == dec_str((n / 100) as nat).push(
                digit_char(((n / 10) % 10) as nat),
            ));
            assert(old(out)@ + dec_str(n as nat) =~= out@);
        }
    } else if n >= 10 {
        out.append(digit_str(n / 10));
        out.append(digit_str(n % 10));
        proof {
            assert(dec_str(n as nat) == dec_str((n / 10) as nat).push(digit_char((n % 10) as nat)));
            assert(dec_str((n / 10) as nat) == seq![digit_char((n / 10) as nat)]);
            assert(old(out)@ + dec_str(n as nat) =~= out@);
        }
    } else {
        out.append(digit_str(n));
        proof {
            assert(old(out)@ + dec_str(n as nat) =~= out@);
        }
    }
}

/// Appends the two-digit zero-padded rendering of `n`.
fn push_two_digit(out: &mut String, n: u8)
    requires
        n <= 99,
    ensures
        final(out)@ == old(out)@ + two_digit_str(n as nat),
{
    out.append(digit_str(n / 10));
    out.append(digit_str(n % 10));
    proof {
        assert(old(out)@ + two_digit_str(n as nat) =~= out@);
    }
}

/// Single-character string for a lowercase letter.
fn letter_str(c: char) -> (r: &'static str)
    requires
        'a' <= c && c <= 'z',
    ensures
        r@ == seq![c],
{
    let r: &'static str = if c == 'a' {
        "a"
    } else if c == 'b' {
        "b"
    } else if c == 'c' {
        "c"
    } else if c == 'd' {
        "d"
    } else if c == 'e' {
        "e"
    } else if c == 'f' {
        "f"
    } else if c == 'g' {
        "g"
    } else if c == 'h' {
        "h"
    } else if c == 'i' {
        "i"
    } else if c == 'j' {
        "j"
    } else if c == 'k' {
        "k"
    } else if c == 'l' {
        "l"
    } else if c == 'm' {
        "m"
    } else if c == 'n' {
        "n"
    } else if c == 'o' {
        "o"
    } else if c == 'p' {
        "p"
    } else if c == 'q' {
        "q"
    } else if c == 'r' {
        "r"
    } else if c == 's' {
        "s"
    } else if c == 't' {
        "t"
    } else if c == 'u' {
        "u"
    } else if c == 'v' {
        "v"
    } else if c == 'w' {
        "w"
    } else if c == 'x' {
        "x"
    } else if c == 'y' {
        "y"
    } else {
        "z"
    };
    proof {
        reveal_strlit("a");
        reveal_strlit("b");
        reveal_strlit("c");
        reveal_strlit("d");
        reveal_strlit("e");
        reveal_strlit("f");
        reveal_strlit("g");
        reveal_strlit("h");
        reveal_strlit("i");
        reveal_strlit("j");
        reveal_strlit("k");
        reveal_strlit("l");
        reveal_strlit("m");
        reveal_strlit("n");
        reveal_strlit("o");
        reveal_strlit("p");
        reveal_strlit("q");
        reveal_strlit("r");
        reveal_strlit("s");
        reveal_strlit("t");
        reveal_strlit("u");
        reveal_strlit("v");
        reveal_strlit("w");
        reveal_strlit("x");
        reveal_strlit("y");
        reveal_strlit("z");
        assert(r@ =~= seq![c]);
    }
    r
}

impl ReleaseVersion {
    /// Canonical display: the patch field is elided when zero.
    pub fn to_string(&self) -> (r: String)
        ensures
            r@ == spec_format(self@),
    {
        let mut out = String::new();
        push_dec_u8(&mut out, self.major);
        out.append(".");
        push_dec_u8(&mut out, self.minor);
        if self.patch != 0 {
            out.append(".");
            push_dec_u8(&mut out, self.patch);
        }
        proof {
            reveal_strlit(".");
            assert(out@ =~= release_str(self.major, self.minor, self.patch));
        }
        out
    }
}

impl PreReleaseVersion {
    /// Canonical display: `{release}-{label}`.
    pub fn to_string(&self) -> (r: String)
        ensures
            r@ == spec_format(self@),
    {
        let mut out = String::new();
        push_dec_u8(&mut out, self.major);
        out.append(".");
        push_dec_u8(&mut out, self.minor);
        if self.patch != 0 {
            out.append(".");
            push_dec_u8(&mut out, self.patch);
        }
        out.append("-");
        out.append(self.pre.as_str());
        proof {
            reveal_strlit(".");
            reveal_strlit("-");
            assert(out@ =~= release_str(self.major, self.minor, self.patch) + seq!['-']
                + self.pre@);
        }
        out
    }
}

impl SnapshotVersion {
    /// Canonical display: `{year:02}w{week:02}{letter}`.
    pub fn to_string(&self) -> (r: String)
        requires
            self.year <= 99,
            self.week <= 99,
            'a' <= self.letter && self.letter <= 'z',
        ensures
            r@ == spec_format(self@),
    {
        let mut out = String::new();
        push_two_digit(&mut out, self.year);
        out.append("w");
        push_two_digit(&mut out, self.week);
        out.append(letter_str(self.letter));
        proof {
            reveal_strlit("w");
            assert(out@ =~= snapshot_str(self.year, self.week, self.letter));
        }
        out
    }
}

impl VersionNumber {
    /// Canonical display of the classified identifier.
    pub fn to_string(&self) -> (r: String)
        requires
            self.wf(),
        ensures
            r@ == spec_format(self@),
    {
        match self {
            VersionNumber::Release(v) => v.to_string(),
            VersionNumber::PreRelease(v) => v.to_string(),
            VersionNumber::Snapshot(v) => v.to_string(),
            VersionNumber::NonStandard(s) => s.clone(),
        }
    }
}

/// Converse of `lemma_find_char`: an index holding `sep` with no earlier
/// occurrence is what `find_char` returns.
pub(crate) proof fn lemma_find_at(s: Seq<char>, sep: char, i: int)
    requires
        0 <= i < s.len(),
        s[i] == sep,
        forall|j: int| 0 <= j < i ==> s[j] != sep,
    ensures
        find_char(s, sep) == Some(i),
{
    lemma_find_char(s, sep);
}

/// Converse of `lemma_find_char` for a character that does not occur.
pub(crate) proof fn lemma_find_none(s: Seq<char>, sep: char)
    requires
        forall|j: int| 0 <= j < s.len() ==> s[j] != sep,
    ensures
        find_char(s, sep) is None,
{
    lemma_find_char(s, sep);
}

/// The canonical release display parses back to its fields, and contains
/// only digits and dots.
proof fn lemma_release_str_props(major: u8, minor: u8, patch: u8)
    ensures
        spec_parse_release(release_str(major, minor, patch)) == Some((major, minor, patch)),
        forall|i: int|
            0 <= i < release_str(major, minor, patch).len() ==> (is_digit_char(
                #[trigger] release_str(major, minor, patch)[i],
            ) || release_str(major, minor, patch)[i] == '.'),
{
    let a = dec_str(major as nat);
    let b = dec_str(minor as nat);
    let c = dec_str(patch as nat);
    let s = release_str(major, minor, patch);
    lemma_dec_str(major as nat);
    lemma_dec_str(minor as nat);
    lemma_dec_str(patch as nat);
    if patch == 0 {
        assert(s == a + seq!['.'] + b);
        assert forall|j: int| 0 <= j < a.len() implies s[j] != '.' by {
            assert(s[j] == a[j]);
        }
        assert(s[a.len() as int] == '.');
        lemma_find_at(s, '.', a.len() as int);
        assert(s.take(a.len() as int) =~= a);
        assert(s.skip(a.len() as int + 1) =~= b);
        lemma_find_none(b, '.');
        assert(is_u8_field(a) && is_u8_field(b));
    } else {
        assert(s == a + seq!['.'] + b + seq!['.'] + c);
        assert forall|j: int| 0 <= j < a.len() implies s[j] != '.' by {
            assert(s[j] == a[j]);
        }
        assert(s[a.len() as int] == '.');
        lemma_find_at(s, '.', a.len() as int);
        assert(s.take(a.len() as int) =~= a);
        let rest = s.skip(a.len() as int + 1);
        assert(rest =~= b + seq!['.'] + c);
        assert forall|j: int| 0 <= j < b.len() implies rest[j] != '.' by {
            assert(rest[j] == b[j]);
        }
        assert(rest[b.len() as int] == '.');
        lemma_find_at(rest, '.', b.len() as int);
        assert(rest.take(b.len() as int) =~= b);
        assert(rest.skip(b.len() as int + 1) =~= c);
        assert(is_u8_field(a) && is_u8_field(b) && is_u8_field(c));
    }
}

/// The canonical pre-release display parses back to its fields.
proof fn lemma_prerelease_str_props(major: u8, minor: u8, patch: u8, pre: Seq<char>)
    requires
        is_pre_label(pre),
    ensures
        spec_parse_prerelease(release_str(major, minor, patch) + seq!['-'] + pre) == Some(
            (major, minor, patch, pre),
        ),
{
    let rel = release_str(major, minor, patch);
    let s = rel + seq!['-'] + pre;
    lemma_release_str_props(major, minor, patch);
    assert forall|j: int| 0 <= j < rel.len() implies s[j] != '-' by {
        assert(s[j] == rel[j]);
    }
    assert(s[rel.len() as int] == '-');
    lemma_find_at(s, '-', rel.len() as int);
    assert(s.take(rel.len() as int) =~= rel);
    assert(s.skip(rel.len() as int + 1) =~= pre);
}

/// The canonical release display holds no `-`, so the pre-release grammar
/// rejects it.
proof fn lemma_release_str_not_prerelease(major: u8, minor: u8, patch: u8)
    ensures
        spec_parse_prerelease(release_str(major, minor, patch)) is None,
{
    lemma_release_str_props(major, minor, patch);
    let s = release_str(major, minor, patch);
    lemma_find_none(s, '-');
}

/// The canonical snapshot display parses back to its fields and is
/// rejected by the pre-release and release grammars.
proof fn lemma_snapshot_str_props(year: u8, week: u8, letter: char)
    requires
        year <= 99,
        week <= 99,
        'a' <= letter && letter <= 'z',
    ensures
        spec_parse_snapshot(snapshot_str(year, week, letter)) == Some((year, week, letter)),
        spec_parse_prerelease(snapshot_str(year, week, letter)) is None,
        spec_parse_release(snapshot_str(year, week, letter)) is None,
{
    let s = snapshot_str(year, week, letter);
    lemma_digit_char((year / 10) as nat);
    lemma_digit_char((year % 10) as nat);
    lemma_digit_char((week / 10) as nat);
    lemma_digit_char((week % 10) as nat);
    assert(s.len() == 6);
    assert(s[0] == digit_char((year / 10) as nat));
    assert(s[1] == digit_char((year % 10) as nat));
    assert(s[2] == 'w');
    assert(s[3] == digit_char((week / 10) as nat));
    assert(s[4] == digit_char((week % 10) as nat));
    assert(s[5] == letter);
    vstd::arithmetic::div_mod::lemma_fundamental_div_mod(year as int, 10);
    vstd::arithmetic::div_mod::lemma_fundamental_div_mod(week as int, 10);
    assert(10 * digit_val(s[0]) + digit_val(s[1]) == year);
    assert(10 * digit_val(s[3]) + digit_val(s[4]) == week);
    lemma_find_none(s, '-');
    lemma_find_none(s, '.');
}

impl std::str::FromStr for VersionNumber {
    type Err = VersionParseError;

    fn from_str(s: &str) -> Result<VersionNumber, VersionParseError> {
        VersionNumber::parse(s)
    }
}

/// Precedence law: the variant grammars decide in a fixed order. A
/// string the pre-release grammar accepts always classifies as a
/// pre-release, never as a release or the fallback; one only the
/// release grammar accepts classifies as a release; one only the
/// snapshot grammar accepts classifies as a snapshot; the non-standard
/// fallback applies only when all three structured grammars fail.
pub proof fn lemma_precedence(s: Seq<char>)
    ensures
        spec_parse_prerelease(s) is Some ==> (spec_parse_version(s) matches Some(v) && v
            is PreRelease),
        spec_parse_prerelease(s) is None && spec_parse_release(s) is Some ==> (spec_parse_version(
            s,
        ) matches Some(v) && v is Release),
        spec_parse_prerelease(s) is None && spec_parse_release(s) is None && spec_parse_snapshot(
            s,
        ) is Some ==> (spec_parse_version(s) matches Some(v) && v is Snapshot),
        spec_parse_version(s) matches Some(v) && v is NonStandard ==> spec_parse_prerelease(s)
            is None && spec_parse_release(s) is None && spec_parse_snapshot(s) is None,
{
}

/// Round-trip law: parsing the canonical display of any well-formed
/// identifier yields exactly that identifier. Consequently, for every
/// canonical version string `s` (the display of some well-formed
/// identifier), `format(parse(s)) == s`.
pub proof fn lemma_canonical_round_trip(v: VersionView)
    requires
        wf_view(v),
    ensures
        spec_parse_version(spec_format(v)) == Some(v),
{
    match v {
        VersionView::Release { major, minor, patch } => {
            lemma_release_str_not_prerelease(major, minor, patch);
            lemma_release_str_props(major, minor, patch);
        },
        VersionView::PreRelease { major, minor, patch, pre } => {
            lemma_prerelease_str_props(major, minor, patch, pre);
        },
        VersionView::Snapshot { year, week, letter } => {
            lemma_snapshot_str_props(year, week, letter);
        },
        VersionView::NonStandard { text } => {},
    }
}

} // verus!

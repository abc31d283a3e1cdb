//! Version tags of the form `v<major>.<minor>.<patch>` and their increment.
use vstd::prelude::*;

use crate::level::ReleaseAction;

verus! {

/// Why a string is not a version tag.
#[derive(Debug, PartialEq, Eq)]
pub enum VersionerError {
    /// The string does not have the shape `v<digits>.<digits>.<digits>`; the field names
    /// the part that was expected.
    ErrorNoMatch(String),
    /// The string has the shape, but the named number does not fit in a `u64`.
    ParsingError(String),
}

/// A version tag, `v3.2.1` being `{ major: 3, minor: 2, patch: 1 }`.
#[derive(Debug, PartialEq, Eq, Structural, Clone, Copy)]
pub struct Tag {
    /// Major number of the tag.
    pub major: u64,
    /// Minor number of the tag.
    pub minor: u64,
    /// Patch number of the tag.
    pub patch: u64,
}

/// The tag that follows `t` for a release of the given level.
pub open spec fn incremented(t: Tag, level: ReleaseAction) -> Tag {
    match level {
        ReleaseAction::Major => Tag { major: (t.major + 1) as u64, minor: 0, patch: 0 },
        ReleaseAction::Minor => Tag { major: t.major, minor: (t.minor + 1) as u64, patch: 0 },
        ReleaseAction::Patch => Tag { major: t.major, minor: t.minor, patch: (t.patch + 1) as u64 },
    }
}

/// Whether the number that a release of the given level increments is below `u64::MAX`.
pub open spec fn can_increment(t: Tag, level: ReleaseAction) -> bool {
    match level {
        ReleaseAction::Major => t.major < u64::MAX,
        ReleaseAction::Minor => t.minor < u64::MAX,
        ReleaseAction::Patch => t.patch < u64::MAX,
    }
}

/// Lexicographic order on (major, minor, patch).
pub open spec fn tag_lt(a: Tag, b: Tag) -> bool {
    ||| a.major < b.major
    ||| a.major == b.major && a.minor < b.minor
    ||| a.major == b.major && a.minor == b.minor && a.patch < b.patch
}

/// Whether `c` is an ASCII decimal digit.
pub open spec fn is_digit(c: char) -> bool {
    '0' <= c && c <= '9'
}

/// The value of an ASCII decimal digit.
pub open spec fn digit_value(c: char) -> nat {
    (c as int - '0' as int) as nat
}

/// A non-empty run of ASCII decimal digits.
pub open spec fn is_digits(s: Seq<char>) -> bool {
    s.len() > 0 && forall|i: int| 0 <= i < s.len() ==> is_digit(#[trigger] s[i])
}

/// The number that a run of decimal digits denotes.
pub open spec fn digits_value(s: Seq<char>) -> nat
    decreases s.len(),
{
    if s.len() == 0 {
        0
    } else {
        digits_value(s.drop_last()) * 10 + digit_value(s.last())
    }
}

/// The digit character for a value below ten.
pub open spec fn digit_char(d: nat) -> char {
    ('0' as int + d) as char
}

/// The decimal rendering of `n`, without leading zeros.
pub open spec fn decimal(n: nat) -> Seq<char>
    decreases n,
{
    if n < 10 {
        seq![digit_char(n)]
    } else {
        decimal(n / 10).push(digit_char(n % 10))
    }
}

/// The text `v<a>.<b>.<c>` built from three segments.
pub open spec fn tag_text(a: Seq<char>, b: Seq<char>, c: Seq<char>) -> Seq<char> {
    seq!['v'] + a + seq!['.'] + b + seq!['.'] + c
}

/// `s` is `v<a>.<b>.<c>` with three digit runs.
pub open spec fn tag_segments(s: Seq<char>, a: Seq<char>, b: Seq<char>, c: Seq<char>) -> bool {
    is_digits(a) && is_digits(b) && is_digits(c) && s == tag_text(a, b, c)
}

/// `s` has the shape of a tag, `^v[0-9]+\.[0-9]+\.[0-9]+$`.
pub open spec fn has_tag_shape(s: Seq<char>) -> bool {
    exists|a: Seq<char>, b: Seq<char>, c: Seq<char>| tag_segments(s, a, b, c)
}

/// `s` has the shape of a tag whose three numbers are those of `t`.
pub open spec fn denotes(s: Seq<char>, t: Tag) -> bool {
    exists|a: Seq<char>, b: Seq<char>, c: Seq<char>|
        #![trigger tag_segments(s, a, b, c)]
        tag_segments(s, a, b, c) && digits_value(a) == t.major && digits_value(b) == t.minor
            && digits_value(c) == t.patch
}

/// The canonical text of a tag, `v{major}.{minor}.{patch}`.
pub open spec fn render_tag(t: Tag) -> Seq<char> {
    tag_text(decimal(t.major as nat), decimal(t.minor as nat), decimal(t.patch as nat))
}

/// `s` is the canonical text of some tag: no leading zeros, each number within `u64`.
pub open spec fn is_canonical(s: Seq<char>) -> bool {
    exists|t: Tag| s == render_tag(t)
}

/// Every character of `s` in `[start, end)` is a digit.
pub open spec fn digits_between(s: Seq<char>, start: int, end: int) -> bool {
    forall|i: int| start <= i < end ==> is_digit(#[trigger] s[i])
}

/// `[start, end)` is the longest run of digits of `s` that starts at `start`.
pub open spec fn maximal_run(s: Seq<char>, start: int, end: int) -> bool {
    &&& 0 <= start <= end <= s.len()
    &&& digits_between(s, start, end)
    &&& (end == s.len() || !is_digit(s[end]))
}

proof fn lemma_maximal_run_unique(s: Seq<char>, start: int, e: int, k: int)
    requires
        maximal_run(s, start, e),
        maximal_run(s, start, k),
    ensures
        e == k,
{
    if e < k {
        assert(is_digit(s[e]));
    } else if k < e {
        assert(is_digit(s[k]));
    }
}

/// Where the segments of a tag text stand in it.
proof fn lemma_segment_runs(s: Seq<char>, a: Seq<char>, b: Seq<char>, c: Seq<char>)
    requires
        tag_segments(s, a, b, c),
    ensures
        ({
            let i1 = 1 + a.len() as int;
            let i2 = i1 + 1 + b.len() as int;
            &&& s.len() == i2 + 1 + c.len()
            &&& s[0] == 'v'
            &&& maximal_run(s, 1, i1)
            &&& s[i1] == '.'
            &&& maximal_run(s, i1 + 1, i2)
            &&& s[i2] == '.'
            &&& maximal_run(s, i2 + 1, s.len() as int)
            &&& a == s.subrange(1, i1)
            &&& b == s.subrange(i1 + 1, i2)
            &&& c == s.subrange(i2 + 1, s.len() as int)
        }),
{
    let i1 = 1 + a.len() as int;
    let i2 = i1 + 1 + b.len() as int;
    assert(s[0] == 'v');
    assert(s[i1] == '.');
    assert(s[i2] == '.');
    assert forall|i: int| 1 <= i < i1 implies is_digit(#[trigger] s[i]) by {
        assert(s[i] == a[i - 1]);
    }
    assert forall|i: int| i1 + 1 <= i < i2 implies is_digit(#[trigger] s[i]) by {
        assert(s[i] == b[i - i1 - 1]);
    }
    assert forall|i: int| i2 + 1 <= i < s.len() implies is_digit(#[trigger] s[i]) by {
        assert(s[i] == c[i - i2 - 1]);
    }
    assert(a =~= s.subrange(1, i1));
    assert(b =~= s.subrange(i1 + 1, i2));
    assert(c =~= s.subrange(i2 + 1, s.len() as int));
}

/// A tag text splits into its segments in one way only.
proof fn lemma_segments_unique(
    s: Seq<char>,
    a: Seq<char>,
    b: Seq<char>,
    c: Seq<char>,
    a2: Seq<char>,
    b2: Seq<char>,
    c2: Seq<char>,
)
    requires
        tag_segments(s, a, b, c),
        tag_segments(s, a2, b2, c2),
    ensures
        a == a2,
        b == b2,
        c == c2,
{
    lemma_segment_runs(s, a, b, c);
    lemma_segment_runs(s, a2, b2, c2);
    let i1 = 1 + a.len() as int;
    lemma_maximal_run_unique(s, 1, i1, 1 + a2.len() as int);
    lemma_maximal_run_unique(s, i1 + 1, i1 + 1 + b.len() as int, i1 + 1 + b2.len() as int);
}

/// The decimal rendering of `n` is a run of digits that denotes `n`.
proof fn lemma_decimal_digits(n: nat)
    ensures
        is_digits(decimal(n)),
        digits_value(decimal(n)) == n,
    decreases n,
{
    if n >= 10 {
        lemma_decimal_digits(n / 10);
        let d = decimal(n / 10);
        let e = d.push(digit_char(n % 10));
        assert(e.drop_last() =~= d);
        assert forall|i: int| 0 <= i < e.len() implies is_digit(#[trigger] e[i]) by {
            if i < d.len() {
                assert(e[i] == d[i]);
            }
        }
        assert(digit_value(digit_char(n % 10)) == n % 10);
        assert((n / 10) * 10 + n % 10 == n) by (nonlinear_arith);
        assert(e.last() == digit_char(n % 10));
        assert(decimal(n) == e);
        assert(digits_value(e) == digits_value(d) * 10 + digit_value(e.last()));
    } else {
        let e = seq![digit_char(n)];
        assert(e.drop_last() =~= Seq::<char>::empty());
        assert(digit_value(digit_char(n)) == n);
        assert(decimal(n) == e);
        assert(digits_value(e) == digits_value(e.drop_last()) * 10 + digit_value(e.last()));
    }
}

/// Appending a digit to a run multiplies its value by ten and adds the digit.
proof fn lemma_digits_value_push(s: Seq<char>, start: int, end: int)
    requires
        0 <= start <= end < s.len(),
    ensures
        digits_value(s.subrange(start, end + 1)) == digits_value(s.subrange(start, end)) * 10
            + digit_value(s[end]),
{
    assert(s.subrange(start, end + 1).drop_last() =~= s.subrange(start, end));
}

/// Reads the run of digits of `s` that starts at `start`. Returns where the run ends and
/// its value, or `None` for the value where it exceeds `u64::MAX`.
pub(crate) fn scan_digits(s: &str, start: usize, len: usize) -> (r: (usize, Option<u64>))
    requires
        len == s@.len(),
        start <= len,
    ensures
        maximal_run(s@, start as int, r.0 as int),
        r.1 matches Some(v) ==> v == digits_value(s@.subrange(start as int, r.0 as int)),
        r.1 is None ==> digits_value(s@.subrange(start as int, r.0 as int)) > u64::MAX,
{
    let mut i: usize = start;
    let mut value: u64 = 0;
    let mut fits = true;
    assert(s@.subrange(start as int, start as int) =~= Seq::<char>::empty());
    while i < len
        invariant_except_break
            start <= i <= len,
            len == s@.len(),
            digits_between(s@, start as int, i as int),
            fits ==> value == digits_value(s@.subrange(start as int, i as int)),
            !fits ==> digits_value(s@.subrange(start as int, i as int)) > u64::MAX,
        ensures
            maximal_run(s@, start as int, i as int),
            fits ==> value == digits_value(s@.subrange(start as int, i as int)),
            !fits ==> digits_value(s@.subrange(start as int, i as int)) > u64::MAX,
        decreases len - i,
    {
        let c = s.get_char(i);
        if !('0' <= c && c <= '9') {
            break;
        }
        let d = (c as u32 - '0' as u32) as u64;
        proof {
            lemma_digits_value_push(s@, start as int, i as int);
        }
        if fits {
            if value > (u64::MAX - d) / 10 {
                assert(value * 10 + d > u64::MAX) by (nonlinear_arith)
                    requires
                        value > (u64::MAX - d) / 10,
                        d <= 9,
                ;
                fits = false;
            } else {
                assert(value * 10 + d <= u64::MAX) by (nonlinear_arith)
                    requires
                        value <= (u64::MAX - d) / 10,
                        d <= 9,
                ;
                value = value * 10 + d;
            }
        }
        i = i + 1;
    }
    if fits {
        (i, Some(value))
    } else {
        (i, None)
    }
}

/// Appends the digit character of `d` to `out`.
fn push_digit(out: &mut String, d: u64)
    requires
        d < 10,
    ensures
        final(out)@ == old(out)@.push(digit_char(d as nat)),
{
    let text = match d {
        0 => "0",
        1 => "1",
        2 => "2",
        3 => "3",
        4 => "4",
        5 => "5",
        6 => "6",
        7 => "7",
        8 => "8",
        _ => "9",
    };
    proof {
        reveal_strlit("0");
        reveal_strlit("1");
        reveal_strlit("2");
        reveal_strlit("3");
        reveal_strlit("4");
        reveal_strlit("5");
        reveal_strlit("6");
        reveal_strlit("7");
        reveal_strlit("8");
        reveal_strlit("9");
    }
    out.append(text);
    assert(final(out)@ =~= old(out)@.push(digit_char(d as nat)));
}

/// Appends the decimal rendering of `n` to `out`.
fn push_decimal(out: &mut String, n: u64)
    ensures
        final(out)@ == old(out)@ + decimal(n as nat),
    decreases n,
{
    if n >= 10 {
        push_decimal(out, n / 10);
    }
    push_digit(out, n % 10);
    assert(final(out)@ =~= old(out)@ + decimal(n as nat));
}

/// Proves that no split of `s` is a tag text once a scan for one has failed.
proof fn lemma_no_shape(s: Seq<char>, e1: int, e2: int)
    requires
        s.len() == 0 || s[0] != 'v' || (maximal_run(s, 1, e1) && (e1 == 1 || e1 == s.len()
            || s[e1] != '.' || (maximal_run(s, e1 + 1, e2) && (e2 == e1 + 1 || e2 == s.len()
            || s[e2] != '.' || maximal_run(s, e2 + 1, e2 + 1) || !maximal_run(
            s,
            e2 + 1,
            s.len() as int,
        ))))),
    ensures
        !has_tag_shape(s),
{
    assert forall|a: Seq<char>, b: Seq<char>, c: Seq<char>| !tag_segments(s, a, b, c) by {
        if tag_segments(s, a, b, c) {
            lemma_segment_runs(s, a, b, c);
            let i1 = 1 + a.len() as int;
            let i2 = i1 + 1 + b.len() as int;
            lemma_maximal_run_unique(s, 1, e1, i1);
            lemma_maximal_run_unique(s, i1 + 1, e2, i2);
            if maximal_run(s, e2 + 1, e2 + 1) {
                lemma_maximal_run_unique(s, i2 + 1, e2 + 1, s.len() as int);
            }
        }
    }
}

impl Tag {
    /// Parses a tag written `v<major>.<minor>.<patch>`, the whole string being taken.
    ///
    /// Fails with `ErrorNoMatch` when the string does not have that shape, and with
    /// `ParsingError` when it has the shape but one of the numbers exceeds `u64::MAX`.
    pub fn parse(tag: &str) -> (r: Result<Tag, VersionerError>)
        ensures
            r matches Ok(t) ==> denotes(tag@, t),
            r is Ok <==> exists|t: Tag| denotes(tag@, t),
            r is Err ==> (r->Err_0 is ErrorNoMatch <==> !has_tag_shape(tag@)),
    {
        let ghost s = tag@;
        let len = tag.unicode_len();
        if len == 0 || tag.get_char(0) != 'v' {
            proof {
                lemma_no_shape(s, 0, 0);
            }
            return Err(VersionerError::ErrorNoMatch(String::from_str("v")));
        }
        let (e1, major) = scan_digits(tag, 1, len);
        if e1 == 1 || e1 == len || tag.get_char(e1) != '.' {
            proof {
                lemma_no_shape(s, e1 as int, 0);
            }
            return Err(VersionerError::ErrorNoMatch(String::from_str("major number")));
        }
        let (e2, minor) = scan_digits(tag, e1 + 1, len);
        if e2 == e1 + 1 || e2 == len || tag.get_char(e2) != '.' {
            proof {
                lemma_no_shape(s, e1 as int, e2 as int);
            }
            return Err(VersionerError::ErrorNoMatch(String::from_str("minor number")));
        }
        let (e3, patch) = scan_digits(tag, e2 + 1, len);
        if e3 == e2 + 1 || e3 != len {
            proof {
                lemma_no_shape(s, e1 as int, e2 as int);
            }
            return Err(VersionerError::ErrorNoMatch(String::from_str("patch number")));
        }
        let ghost a = s.subrange(1, e1 as int);
        let ghost b = s.subrange(e1 + 1, e2 as int);
        let ghost c = s.subrange(e2 + 1, len as int);
        proof {
            assert(s =~= tag_text(a, b, c));
            assert(tag_segments(s, a, b, c));
            assert forall|t: Tag| #[trigger] denotes(s, t) implies digits_value(a) == t.major
                && digits_value(b) == t.minor && digits_value(c) == t.patch by {
                let (a2, b2, c2) = choose|a2: Seq<char>, b2: Seq<char>, c2: Seq<char>|
                    tag_segments(s, a2, b2, c2) && digits_value(a2) == t.major
                        && digits_value(b2) == t.minor && digits_value(c2) == t.patch;
                lemma_segments_unique(s, a, b, c, a2, b2, c2);
            }
        }
        match (major, minor, patch) {
            (Some(major), Some(minor), Some(patch)) => {
                let t = Tag { major, minor, patch };
                assert(denotes(s, t));
                Ok(t)
            },
            (None, _, _) => Err(VersionerError::ParsingError(String::from_str("major number"))),
            (_, None, _) => Err(VersionerError::ParsingError(String::from_str("minor number"))),
            (_, _, None) => Err(VersionerError::ParsingError(String::from_str("patch number"))),
        }
    }

    /// Writes the tag as `v{major}.{minor}.{patch}`.
    pub fn render(&self) -> (r: String)
        ensures
            r@ == render_tag(*self),
    {
        let mut out = String::new();
        out.append("v");
        push_decimal(&mut out, self.major);
        out.append(".");
        push_decimal(&mut out, self.minor);
        out.append(".");
        push_decimal(&mut out, self.patch);
        proof {
            reveal_strlit("v");
            reveal_strlit(".");
        }
        assert(out@ =~= render_tag(*self));
        out
    }

    /// Increments the tag according to the release action: major adds one to the first
    /// number and resets the others, minor adds one to the second and resets the third,
    /// patch adds one to the third.
    pub fn increment(&self, release_action: &ReleaseAction) -> (r: Tag)
        requires
            can_increment(*self, *release_action),
        ensures
            r == incremented(*self, *release_action),
    {
        let mut tag = Tag { major: self.major, minor: self.minor, patch: self.patch };
        match release_action {
            ReleaseAction::Major => {
                tag.major = tag.major + 1;
                tag.minor = 0;
                tag.patch = 0;
                tag
            },
            ReleaseAction::Minor => {
                tag.minor = tag.minor + 1;
                tag.patch = 0;
                tag
            },
            ReleaseAction::Patch => {
                tag.patch = tag.patch + 1;
                tag
            },
        }
    }
}

/// Parsing the canonical text of a tag succeeds, and rendering what it gives back yields
/// the same text: every tag that such a string denotes renders to the string itself.
pub proof fn lemma_round_trip(s: Seq<char>)
    requires
        is_canonical(s),
    ensures
        exists|t: Tag| denotes(s, t),
        forall|t: Tag| denotes(s, t) ==> render_tag(t) == s,
{
    let t0 = choose|t0: Tag| s == render_tag(t0);
    let a = decimal(t0.major as nat);
    let b = decimal(t0.minor as nat);
    let c = decimal(t0.patch as nat);
    lemma_decimal_digits(t0.major as nat);
    lemma_decimal_digits(t0.minor as nat);
    lemma_decimal_digits(t0.patch as nat);
    assert(tag_segments(s, a, b, c));
    assert(denotes(s, t0));
    assert forall|t: Tag| denotes(s, t) implies render_tag(t) == s by {
        let (a2, b2, c2) = choose|a2: Seq<char>, b2: Seq<char>, c2: Seq<char>|
            tag_segments(s, a2, b2, c2) && digits_value(a2) == t.major && digits_value(b2)
                == t.minor && digits_value(c2) == t.patch;
        lemma_segments_unique(s, a, b, c, a2, b2, c2);
        assert(t == t0);
    }
}

/// An increment always yields a tag strictly greater than the one it started from, in
/// the lexicographic order of (major, minor, patch).
pub proof fn lemma_increment_increases(t: Tag, level: ReleaseAction)
    requires
        can_increment(t, level),
    ensures
        tag_lt(t, incremented(t, level)),
{
}

/// A major increment resets the minor and patch numbers, a minor increment resets the
/// patch number.
pub proof fn lemma_increment_resets(t: Tag, level: ReleaseAction)
    requires
        can_increment(t, level),
    ensures
        level is Major ==> incremented(t, level).minor == 0 && incremented(t, level).patch == 0,
        level is Minor ==> incremented(t, level).patch == 0,
{
}

impl<'a> TryFrom<&'a str> for Tag {
    type Error = VersionerError;

    /// Parses a tag written `v<major>.<minor>.<patch>`; see [`Tag::parse`].
    fn try_from(tag: &'a str) -> Result<Tag, VersionerError> {
        Tag::parse(tag)
    }
}

// What `try_from` returns is stated by the contract of `Tag::parse`, not through the trait.
impl<'a> vstd::std_specs::convert::TryFromSpecImpl<&'a str> for Tag {
    open spec fn obeys_try_from_spec() -> bool {
        false
    }

    open spec fn try_from_spec(v: &'a str) -> Result<Tag, VersionerError> {
        vstd::pervasive::arbitrary()
    }
}

impl From<Tag> for String {
    /// Writes the tag as `v{major}.{minor}.{patch}`; see [`Tag::render`].
    fn from(tag: Tag) -> String {
        tag.render()
    }
}

// What `from` returns is stated by the contract of `Tag::render`, not through the trait.
impl vstd::std_specs::convert::FromSpecImpl<Tag> for String {
    open spec fn obeys_from_spec() -> bool {
        false
    }

    open spec fn from_spec(v: Tag) -> String {
        vstd::pervasive::arbitrary()
    }
}

/// Computes new tags for one release action.
pub struct VersionerPlugin {
    /// The release action that the plugin applies.
    pub release_action: ReleaseAction,
}

impl VersionerPlugin {
    /// Calculates the tag that follows `tag` for the plugin's release action.
    pub fn run(&self, tag: Tag) -> (r: Tag)
        requires
            can_increment(tag, self.release_action),
        ensures
            r == incremented(tag, self.release_action),
    {
        tag.increment(&self.release_action)
    }
}

} // verus!

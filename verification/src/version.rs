//! The pubspec version: reading it out of the manifest text, bumping one of
//! its parts, deriving the tag name for it, and writing the bumped version
//! back into the manifest without disturbing the rest of the file.

use vstd::prelude::*;

use crate::text::{
    all_digits, dec_digits, dec_value, digit_val, is_digit, lemma_dec_value_prefix_le,
    lemma_newline_scan_pins, newline_scan, spec_lines, starts_with, str_eq, str_starts_with,
    trim, trimmed, u64_to_string,
};

verus! {

/// A semantic version as this library holds it: the three numeric parts,
/// and the pre-release and build-metadata suffixes as bare text.
pub struct Version {
    pub major: u64,
    pub minor: u64,
    pub patch: u64,
    pub pre: String,
    pub build: String,
}

/// Mathematical state of a version.
#[verifier::ext_equal]
pub struct VersionView {
    pub major: nat,
    pub minor: nat,
    pub patch: nat,
    pub pre: Seq<char>,
    pub build: Seq<char>,
}

impl View for Version {
    type V = VersionView;

    open spec fn view(&self) -> VersionView {
        VersionView {
            major: self.major as nat,
            minor: self.minor as nat,
            patch: self.patch as nat,
            pre: self.pre@,
            build: self.build@,
        }
    }
}

/// What the semantic-version grammar makes of a string: its parsed parts,
/// or nothing when the string is not a version.
pub uninterp spec fn semver_parse(s: Seq<char>) -> Option<VersionView>;

/// Relies on `semver::Version::parse` for the semantic-version grammar;
/// the result is a function of the text alone. The error carries the
/// parser's message.
#[verifier::external_body]
pub(crate) fn parse_version(s: &str) -> (r: Result<Version, String>)
    ensures
        match r {
            Ok(v) => semver_parse(s@) == Some(v@),
            Err(_) => semver_parse(s@) is None,
        },
{
    match semver::Version::parse(s) {
        Ok(v) => Ok(
            Version {
                major: v.major,
                minor: v.minor,
                patch: v.patch,
                pre: v.pre.as_str().to_string(),
                build: v.build.as_str().to_string(),
            },
        ),
        Err(e) => Err(e.to_string()),
    }
}

/// The canonical rendering of a version: the dotted numeric core, a
/// hyphenated pre-release when present, a plus-signed build suffix when
/// present.
pub open spec fn spec_format_version(v: VersionView) -> Seq<char> {
    let core = dec_digits(v.major) + seq!['.'] + dec_digits(v.minor) + seq!['.'] + dec_digits(
        v.patch,
    );
    let with_pre = if v.pre.len() > 0 {
        core + seq!['-'] + v.pre
    } else {
        core
    };
    if v.build.len() > 0 {
        with_pre + seq!['+'] + v.build
    } else {
        with_pre
    }
}

/// The tag name's base: the numeric core and the pre-release, with build
/// metadata always left out.
pub open spec fn spec_tag_base(v: VersionView) -> Seq<char> {
    spec_format_version(VersionView { build: Seq::empty(), ..v })
}

/// Renders a version canonically.
pub fn format_version(v: &Version) -> (r: String)
    ensures
        r@ == spec_format_version(v@),
{
    proof {
        reveal_strlit(".");
        reveal_strlit("-");
        reveal_strlit("+");
        assert("."@ =~= seq!['.']);
        assert("-"@ =~= seq!['-']);
        assert("+"@ =~= seq!['+']);
    }
    let mut s = u64_to_string(v.major);
    s.append(".");
    let minor = u64_to_string(v.minor);
    s.append(minor.as_str());
    s.append(".");
    let patch = u64_to_string(v.patch);
    s.append(patch.as_str());
    if v.pre.as_str().unicode_len() > 0 {
        s.append("-");
        s.append(v.pre.as_str());
    }
    if v.build.as_str().unicode_len() > 0 {
        s.append("+");
        s.append(v.build.as_str());
    }
    s
}

/// Renders the tag-name base of a version: build metadata dropped.
pub fn tag_base(v: &Version) -> (r: String)
    ensures
        r@ == spec_tag_base(v@),
{
    let bare = Version {
        major: v.major,
        minor: v.minor,
        patch: v.patch,
        pre: v.pre.clone(),
        build: String::new(),
    };
    format_version(&bare)
}

// ---------------------------------------------------------------------------
// Reading the version out of the pubspec
// ---------------------------------------------------------------------------

/// What the manifest's top-level string field `key` holds, by the grammar
/// of the manifest format; nothing when the text does not parse or the
/// field is absent or no string.
pub uninterp spec fn yaml_string_field(content: Seq<char>, key: Seq<char>) -> Option<Seq<char>>;

/// Relies on `serde_yaml::from_str` and `serde_yaml::Value::get` to read a
/// top-level string field; the result is a function of the text and the
/// key alone.
#[verifier::external_body]
fn yaml_top_string(content: &str, key: &str) -> (r: Option<String>)
    ensures
        match r {
            Some(v) => yaml_string_field(content@, key@) == Some(v@),
            None => yaml_string_field(content@, key@) is None,
        },
{
    let value: serde_yaml::Value = match serde_yaml::from_str(content) {
        Ok(v) => v,
        Err(_) => {
            return None;
        },
    };
    match value.get(key) {
        Some(field) => match field.as_str() {
            Some(s) => Some(s.to_string()),
            None => None,
        },
        None => None,
    }
}

/// Whether this line carries a version: it begins with the field name and
/// something follows it.
pub open spec fn is_version_line(l: Seq<char>) -> bool {
    starts_with(l, "version:"@) && l.len() > "version:"@.len()
}

/// Index of the first version line at or after `a`, or the number of
/// lines if none.
pub open spec fn version_line_scan(lines: Seq<Seq<char>>, a: int) -> int
    decreases lines.len() - a,
{
    if a < 0 || a >= lines.len() {
        lines.len() as int
    } else if is_version_line(lines[a]) {
        a
    } else {
        version_line_scan(lines, a + 1)
    }
}

/// The fallback read of the version: the first version line's value,
/// trimmed; nothing when there is no version line or its value is blank.
pub open spec fn spec_fallback_version(lines: Seq<Seq<char>>) -> Option<Seq<char>> {
    let j = version_line_scan(lines, 0);
    if !(0 <= j && j < lines.len()) {
        None
    } else {
        let value = trimmed(lines[j].skip("version:"@.len() as int));
        if value.len() == 0 {
            None
        } else {
            Some(value)
        }
    }
}

/// The version the manifest text declares: the manifest grammar's reading
/// of the `version` field when it is present and not blank, else the first
/// version line's trimmed value.
pub open spec fn spec_read_pubspec_version(content: Seq<char>) -> Option<Seq<char>> {
    match yaml_string_field(content, "version"@) {
        Some(v) => if trimmed(v).len() > 0 {
            Some(trimmed(v))
        } else {
            spec_fallback_version(spec_lines(content))
        },
        None => spec_fallback_version(spec_lines(content)),
    }
}

proof fn lemma_version_line_scan_pins(lines: Seq<Seq<char>>, a: int, j: int)
    requires
        0 <= a <= j <= lines.len(),
        forall|k: int| a <= k < j ==> !is_version_line(lines[k]),
        j < lines.len() ==> is_version_line(lines[j]),
    ensures
        version_line_scan(lines, a) == j,
    decreases j - a,
{
    if a < j {
        lemma_version_line_scan_pins(lines, a + 1, j);
    }
}

fn is_version_line_x(l: &String) -> (r: bool)
    ensures
        r == is_version_line(l@),
{
    let prefix_len = "version:".unicode_len();
    str_starts_with(l.as_str(), "version:") && l.as_str().unicode_len() > prefix_len
}

/// Reads the version the manifest declares: by the manifest grammar first,
/// by the first version line as a fallback.
pub fn read_pubspec_version(content: &str) -> (r: Option<String>)
    ensures
        match r {
            Some(v) => spec_read_pubspec_version(content@) == Some(v@),
            None => spec_read_pubspec_version(content@) is None,
        },
{
    match yaml_top_string(content, "version") {
        Some(v) => {
            let t = trim(v.as_str());
            if t.as_str().unicode_len() > 0 {
                return Some(t);
            }
        },
        None => {},
    }
    fallback_version(content)
}

fn fallback_version(content: &str) -> (r: Option<String>)
    ensures
        match r {
            Some(v) => spec_fallback_version(spec_lines(content@)) == Some(v@),
            None => spec_fallback_version(spec_lines(content@)) is None,
        },
{
    let lines = crate::text::split_lines(content);
    let ghost lv = lines.deep_view();
    let n = lines.len();
    let mut j: usize = 0;
    while j < n && !is_version_line_x(&lines[j])
        invariant
            0 <= j <= n,
            n == lines@.len(),
            lv == lines.deep_view(),
            forall|k: int| 0 <= k < j ==> !is_version_line(lv[k]),
        decreases n - j,
    {
        j = j + 1;
    }
    proof {
        lemma_version_line_scan_pins(lv, 0, j as int);
    }
    if j == n {
        return None;
    }
    let line = &lines[j];
    let prefix_len = "version:".unicode_len();
    let len = line.as_str().unicode_len();
    let rest = line.as_str().substring_char(prefix_len, len);
    proof {
        assert(rest@ =~= lv[j as int].skip("version:"@.len() as int));
    }
    let value = trim(rest);
    if value.as_str().unicode_len() == 0 {
        None
    } else {
        Some(value)
    }
}

// ---------------------------------------------------------------------------
// Bumping a version part
// ---------------------------------------------------------------------------

/// The part of a version a bump applies to.
#[derive(Clone, Copy, PartialEq, Eq, Structural, Debug)]
pub enum VersionPart {
    Major,
    Minor,
    Patch,
    Build,
}

/// The number a build-metadata string counts as: its decimal value when it
/// is, apart from an optional leading plus sign, a representable string of
/// digits; zero otherwise.
pub open spec fn parse_build_num(s: Seq<char>) -> nat {
    let d = if s.len() > 0 && s[0] == '+' {
        s.drop_first()
    } else {
        s
    };
    if d.len() > 0 && all_digits(d) && dec_value(d) <= u64::MAX {
        dec_value(d)
    } else {
        0
    }
}

/// The bumped version: a bumped numeric part resets the smaller parts and
/// the pre-release and restarts the build counter at one; a build bump
/// only advances the build counter.
pub open spec fn spec_bump(v: VersionView, part: VersionPart) -> VersionView {
    match part {
        VersionPart::Major => VersionView {
            major: v.major + 1,
            minor: 0,
            patch: 0,
            pre: Seq::empty(),
            build: seq!['1'],
        },
        VersionPart::Minor => VersionView {
            minor: v.minor + 1,
            patch: 0,
            pre: Seq::empty(),
            build: seq!['1'],
            ..v
        },
        VersionPart::Patch => VersionView {
            patch: v.patch + 1,
            pre: Seq::empty(),
            build: seq!['1'],
            ..v
        },
        VersionPart::Build => VersionView {
            build: dec_digits(parse_build_num(v.build) + 1),
            ..v
        },
    }
}

/// Whether the counter a bump advances has room left.
pub open spec fn bump_fits(v: VersionView, part: VersionPart) -> bool {
    match part {
        VersionPart::Major => v.major < u64::MAX,
        VersionPart::Minor => v.minor < u64::MAX,
        VersionPart::Patch => v.patch < u64::MAX,
        VersionPart::Build => parse_build_num(v.build) < u64::MAX,
    }
}

fn digit_value_of(c: char) -> (r: u64)
    ensures
        r as nat == digit_val(c),
        r < 10,
{
    if '0' as u32 <= c as u32 && c as u32 <= '9' as u32 {
        (c as u32 - '0' as u32) as u64
    } else {
        0
    }
}

/// The number the build-metadata string counts as.
pub fn build_number(s: &str) -> (r: u64)
    ensures
        r as nat == parse_build_num(s@),
{
    let len = s.unicode_len();
    let start: usize = if len > 0 && s.get_char(0) == '+' {
        1
    } else {
        0
    };
    let ghost d = if s@.len() > 0 && s@[0] == '+' {
        s@.drop_first()
    } else {
        s@
    };
    proof {
        assert(d =~= s@.skip(start as int));
    }
    if start == len {
        return 0;
    }
    let mut acc: u64 = 0;
    let mut i = start;
    while i < len
        invariant
            start <= i <= len,
            len == s@.len(),
            start < len,
            if s@.len() > 0 && s@[0] == '+' {
                start == 1
            } else {
                start == 0
            },
            d == (if s@.len() > 0 && s@[0] == '+' {
                s@.drop_first()
            } else {
                s@
            }),
            d =~= s@.skip(start as int),
            forall|k: int| start <= k < i ==> is_digit(s@[k]),
            acc as nat == dec_value(d.take(i - start)),
        decreases len - i,
    {
        let c = s.get_char(i);
        let is_d = '0' as u32 <= c as u32 && c as u32 <= '9' as u32;
        if !is_d {
            proof {
                assert(d[i - start] == s@[i as int]);
                assert(!all_digits(d));
            }
            return 0;
        }
        let dv = digit_value_of(c);
        let next = match acc.checked_mul(10) {
            Some(m) => m.checked_add(dv),
            None => None,
        };
        match next {
            Some(n) => {
                proof {
                    assert(d.take(i - start + 1).drop_last() =~= d.take(i - start));
                    assert(d.take(i - start + 1).last() == s@[i as int]);
                }
                acc = n;
            },
            None => {
                // The digits seen so far already exceed the largest
                // representable number, so the whole string does too.
                proof {
                    assert(d.take(i - start + 1).drop_last() =~= d.take(i - start));
                    assert(d.take(i - start + 1).last() == s@[i as int]);
                    assert(dec_value(d.take(i - start + 1)) > u64::MAX);
                    lemma_dec_value_prefix_le(d, i - start + 1);
                }
                return 0;
            },
        }
        i = i + 1;
    }
    proof {
        assert(d.take(i - start) =~= d);
        assert forall|k: int| 0 <= k < d.len() implies is_digit(d[k]) by {
            assert(d[k] == s@[k + start]);
        }
    }
    acc
}

/// Bumps the given part, or reports that its counter is exhausted.
pub fn bump_version(v: &Version, part: VersionPart) -> (r: Option<Version>)
    ensures
        match r {
            Some(nv) => bump_fits(v@, part) && nv@ == spec_bump(v@, part),
            None => !bump_fits(v@, part),
        },
{
    proof {
        reveal_strlit("1");
        assert("1"@ =~= seq!['1']);
    }
    match part {
        VersionPart::Major => {
            if v.major == u64::MAX {
                return None;
            }
            Some(
                Version {
                    major: v.major + 1,
                    minor: 0,
                    patch: 0,
                    pre: String::new(),
                    build: "1".to_owned(),
                },
            )
        },
        VersionPart::Minor => {
            if v.minor == u64::MAX {
                return None;
            }
            Some(
                Version {
                    major: v.major,
                    minor: v.minor + 1,
                    patch: 0,
                    pre: String::new(),
                    build: "1".to_owned(),
                },
            )
        },
        VersionPart::Patch => {
            if v.patch == u64::MAX {
                return None;
            }
            Some(
                Version {
                    major: v.major,
                    minor: v.minor,
                    patch: v.patch + 1,
                    pre: String::new(),
                    build: "1".to_owned(),
                },
            )
        },
        VersionPart::Build => {
            let n = build_number(v.build.as_str());
            if n == u64::MAX {
                return None;
            }
            Some(
                Version {
                    major: v.major,
                    minor: v.minor,
                    patch: v.patch,
                    pre: v.pre.clone(),
                    build: u64_to_string(n + 1),
                },
            )
        },
    }
}

// ---------------------------------------------------------------------------
// Bumping the version inside the manifest text
// ---------------------------------------------------------------------------

/// Whether position `p` starts a version line: it is the start of a line,
/// the field name follows, and the line holds at least one more character.
pub open spec fn is_version_pos(s: Seq<char>, p: int) -> bool {
    &&& 0 <= p <= s.len() - "version:"@.len()
    &&& (p == 0 || s[p - 1] == '\n')
    &&& s.subrange(p, p + "version:"@.len()) == "version:"@
    &&& newline_scan(s, p + "version:"@.len()) > p + "version:"@.len()
}

/// The first version-line position at or after `a`, or the text's length
/// if none.
pub open spec fn version_pos_scan(s: Seq<char>, a: int) -> int
    decreases s.len() - a,
{
    if a < 0 || a >= s.len() {
        s.len() as int
    } else if is_version_pos(s, a) {
        a
    } else {
        version_pos_scan(s, a + 1)
    }
}

/// The version value on the line at `p`: what follows the field name up to
/// the end of the line, trimmed.
pub open spec fn version_value_at(s: Seq<char>, p: int) -> Seq<char> {
    trimmed(
        s.subrange(p + "version:"@.len(), newline_scan(s, p + "version:"@.len())),
    )
}

proof fn lemma_version_pos_scan_pins(s: Seq<char>, a: int, j: int)
    requires
        0 <= a <= j <= s.len(),
        forall|k: int| a <= k < j ==> !is_version_pos(s, k),
        j < s.len() ==> is_version_pos(s, j),
    ensures
        version_pos_scan(s, a) == j,
    decreases j - a,
{
    if a < j {
        lemma_version_pos_scan_pins(s, a + 1, j);
    }
}

/// The result of bumping the manifest's version line.
pub enum BumpOutcome {
    /// The text holds no version line; nothing was changed.
    NoVersionLine,
    /// The version on the line is no semantic version; carries the value
    /// found and the parser's message.
    InvalidVersion { found: String, message: String },
    /// The version parses but the bumped counter is exhausted.
    VersionTooLarge { found: String },
    /// The line was rewritten; carries the whole new text and the new
    /// version.
    Bumped { new_content: String, new_version: String },
}

fn version_pos_candidate(s: &str, p: usize, len: usize) -> (r: bool)
    requires
        len == s@.len(),
        p < len,
    ensures
        r == is_version_pos(s@, p as int),
{
    let plen = "version:".unicode_len();
    let at_line_start = if p == 0 {
        true
    } else {
        s.get_char(p - 1) == '\n'
    };
    if at_line_start {
        if plen <= len && p <= len - plen {
            let head = s.substring_char(p, p + plen);
            proof {
                assert(head@ =~= s@.subrange(p as int, p as int + "version:"@.len()));
            }
            if str_eq(head, "version:") {
                if p + plen < len && s.get_char(p + plen) != '\n' {
                    proof {
                        crate::text::lemma_newline_scan_bounds(s@, p + "version:"@.len() + 1);
                        assert(newline_scan(s@, p + "version:"@.len()) > p
                            + "version:"@.len());
                    }
                    true
                } else {
                    proof {
                        if p + plen < len {
                            assert(newline_scan(s@, p + "version:"@.len()) == p
                                + "version:"@.len());
                        }
                    }
                    false
                }
            } else {
                false
            }
        } else {
            false
        }
    } else {
        false
    }
}

/// Rewrites the first version line of the manifest with the bumped
/// version, leaving every other character of the text as it was.
pub fn bump_pubspec_content(content: &str, part: VersionPart) -> (r: BumpOutcome)
    ensures
        ({
            let s = content@;
            let p = version_pos_scan(s, 0);
            match r {
                BumpOutcome::NoVersionLine => p >= s.len(),
                BumpOutcome::InvalidVersion { found, message } => p < s.len() && found@
                    == version_value_at(s, p) && semver_parse(found@) is None,
                BumpOutcome::VersionTooLarge { found } => p < s.len() && found@
                    == version_value_at(s, p) && (semver_parse(found@) matches Some(ov)
                    && !bump_fits(ov, part)),
                BumpOutcome::Bumped { new_content, new_version } => p < s.len() && (semver_parse(
                    version_value_at(s, p),
                ) matches Some(ov) && bump_fits(ov, part) && new_version@ == spec_format_version(
                    spec_bump(ov, part),
                ) && new_content@ == s.take(p) + "version: "@ + new_version@ + s.skip(
                    newline_scan(s, p + "version:"@.len()),
                )),
            }
        }),
{
    let len = content.unicode_len();
    let mut p: usize = 0;
    while p < len && !version_pos_candidate(content, p, len)
        invariant
            0 <= p <= len,
            len == content@.len(),
            forall|k: int| 0 <= k < p ==> !is_version_pos(content@, k),
        decreases len - p,
    {
        p = p + 1;
    }
    proof {
        lemma_version_pos_scan_pins(content@, 0, p as int);
    }
    if p == len {
        return BumpOutcome::NoVersionLine;
    }
    let plen = "version:".unicode_len();
    let mut e: usize = p + plen;
    while e < len && content.get_char(e) != '\n'
        invariant
            p + plen <= e <= len,
            len == content@.len(),
            plen == "version:"@.len(),
            forall|k: int| p + plen <= k < e ==> content@[k] != '\n',
        decreases len - e,
    {
        e = e + 1;
    }
    proof {
        lemma_newline_scan_pins(content@, p as int + "version:"@.len(), e as int);
    }
    let raw = content.substring_char(p + plen, e);
    proof {
        assert(raw@ =~= content@.subrange(
            p as int + "version:"@.len(),
            newline_scan(content@, p as int + "version:"@.len()),
        ));
    }
    let found = trim(raw);
    let parsed = match parse_version(found.as_str()) {
        Ok(v) => v,
        Err(message) => {
            return BumpOutcome::InvalidVersion { found, message };
        },
    };
    let bumped = match bump_version(&parsed, part) {
        Some(b) => b,
        None => {
            return BumpOutcome::VersionTooLarge { found };
        },
    };
    let new_version = format_version(&bumped);
    let head = content.substring_char(0, p);
    let tail = content.substring_char(e, len);
    proof {
        assert(head@ =~= content@.take(p as int));
        assert(tail@ =~= content@.skip(
            newline_scan(content@, p as int + "version:"@.len()),
        ));
    }
    let mut new_content = head.to_owned();
    new_content.append("version: ");
    new_content.append(new_version.as_str());
    new_content.append(tail);
    BumpOutcome::Bumped { new_content, new_version }
}

} // verus!

//! Character and string helpers shared by the tools: whitespace trimming,
//! line splitting and joining, and decimal formatting, each proved against a
//! direct mathematical description.

use vstd::prelude::*;

verus! {

/// The whitespace characters the tools recognize at line and value edges.
pub open spec fn is_space_char(c: char) -> bool {
    c == ' ' || c == '\t' || c == '\n' || c == '\r' || c == '\u{b}' || c == '\u{c}'
}

/// Number of leading whitespace characters of `s`.
pub open spec fn leading_spaces(s: Seq<char>) -> int
    decreases s.len(),
{
    if s.len() == 0 {
        0
    } else if is_space_char(s[0]) {
        1 + leading_spaces(s.drop_first())
    } else {
        0
    }
}

/// End of `s` once trailing whitespace is dropped.
pub open spec fn trailing_start(s: Seq<char>) -> int
    decreases s.len(),
{
    if s.len() == 0 {
        0
    } else if is_space_char(s[s.len() - 1]) {
        trailing_start(s.drop_last())
    } else {
        s.len() as int
    }
}

/// `s` with whitespace removed from both ends.
pub open spec fn trimmed(s: Seq<char>) -> Seq<char> {
    if leading_spaces(s) >= trailing_start(s) {
        Seq::empty()
    } else {
        s.subrange(leading_spaces(s), trailing_start(s))
    }
}

proof fn lemma_leading_spaces_bounds(s: Seq<char>)
    ensures
        0 <= leading_spaces(s) <= s.len(),
        forall|k: int| 0 <= k < leading_spaces(s) ==> is_space_char(s[k]),
        leading_spaces(s) < s.len() ==> !is_space_char(s[leading_spaces(s)]),
    decreases s.len(),
{
    if s.len() > 0 && is_space_char(s[0]) {
        lemma_leading_spaces_bounds(s.drop_first());
        assert forall|k: int| 0 <= k < leading_spaces(s) implies is_space_char(s[k]) by {
            if k > 0 {
                assert(s.drop_first()[k - 1] == s[k]);
            }
        }
    }
}

proof fn lemma_trailing_start_bounds(s: Seq<char>)
    ensures
        0 <= trailing_start(s) <= s.len(),
        forall|k: int| trailing_start(s) <= k < s.len() ==> is_space_char(s[k]),
        trailing_start(s) > 0 ==> !is_space_char(s[trailing_start(s) - 1]),
    decreases s.len(),
{
    if s.len() > 0 && is_space_char(s[s.len() - 1]) {
        lemma_trailing_start_bounds(s.drop_last());
        assert forall|k: int| trailing_start(s) <= k < s.len() implies is_space_char(s[k]) by {
            if k < s.len() - 1 {
                assert(s.drop_last()[k] == s[k]);
            }
        }
    }
}

/// A prefix of whitespace and the character after it pin `leading_spaces`.
proof fn lemma_leading_spaces_from_scan(s: Seq<char>, i: int)
    requires
        0 <= i <= s.len(),
        forall|k: int| 0 <= k < i ==> is_space_char(s[k]),
        i < s.len() ==> !is_space_char(s[i]),
    ensures
        leading_spaces(s) == i,
    decreases s.len(),
{
    if s.len() > 0 && is_space_char(s[0]) {
        assert(i > 0);
        assert forall|k: int| 0 <= k < i - 1 implies is_space_char(s.drop_first()[k]) by {
            assert(s.drop_first()[k] == s[k + 1]);
        }
        if i - 1 < s.drop_first().len() {
            assert(s.drop_first()[i - 1] == s[i]);
        }
        lemma_leading_spaces_from_scan(s.drop_first(), i - 1);
    }
}

/// A suffix of whitespace and the character before it pin `trailing_start`.
proof fn lemma_trailing_start_from_scan(s: Seq<char>, j: int)
    requires
        0 <= j <= s.len(),
        forall|k: int| j <= k < s.len() ==> is_space_char(s[k]),
        j > 0 ==> !is_space_char(s[j - 1]),
    ensures
        trailing_start(s) == j,
    decreases s.len(),
{
    if s.len() > 0 && is_space_char(s[s.len() - 1]) {
        assert(j < s.len());
        assert forall|k: int| j <= k < s.drop_last().len() implies is_space_char(s.drop_last()[k]) by {
            assert(s.drop_last()[k] == s[k]);
        }
        lemma_trailing_start_from_scan(s.drop_last(), j);
    }
}

/// Executable whitespace test, equal to `is_space_char`.
pub fn is_space(c: char) -> (r: bool)
    ensures
        r == is_space_char(c),
{
    c == ' ' || c == '\t' || c == '\n' || c == '\r' || c == '\u{b}' || c == '\u{c}'
}

/// Removes leading and trailing whitespace, like the trimming the original
/// tools apply to configuration values and build-file lines.
pub fn trim(s: &str) -> (r: String)
    ensures
        r@ == trimmed(s@),
{
    let len = s.unicode_len();
    let mut i: usize = 0;
    while i < len && is_space(s.get_char(i))
        invariant
            0 <= i <= len,
            len == s@.len(),
            forall|k: int| 0 <= k < i ==> is_space_char(s@[k]),
        decreases len - i,
    {
        i = i + 1;
    }
    proof {
        lemma_leading_spaces_from_scan(s@, i as int);
    }
    let mut j: usize = len;
    while j > i && is_space(s.get_char(j - 1))
        invariant
            i <= j <= len,
            len == s@.len(),
            forall|k: int| j <= k < len ==> is_space_char(s@[k]),
            forall|k: int| 0 <= k < i ==> is_space_char(s@[k]),
        decreases j,
    {
        j = j - 1;
    }
    if j <= i {
        proof {
            lemma_trailing_start_bounds(s@);
            lemma_leading_spaces_bounds(s@);
            if trailing_start(s@) > leading_spaces(s@) {
                // Then position trailing_start - 1 is not whitespace, yet it
                // lies in the all-whitespace region the scans established.
                let p = trailing_start(s@) - 1;
                if p >= j {
                } else {
                    assert(p < i);
                }
            }
        }
        String::new()
    } else {
        proof {
            lemma_trailing_start_from_scan(s@, j as int);
        }
        let t = s.substring_char(i, j);
        t.to_owned()
    }
}

/// Start of the trailing run of `c` at the end of `s`.
pub open spec fn run_start_from_end(s: Seq<char>, c: char) -> int
    decreases s.len(),
{
    if s.len() == 0 {
        0
    } else if s[s.len() - 1] == c {
        run_start_from_end(s.drop_last(), c)
    } else {
        s.len() as int
    }
}

/// `s` with every trailing occurrence of `c` removed.
pub open spec fn trimmed_end(s: Seq<char>, c: char) -> Seq<char> {
    s.take(run_start_from_end(s, c))
}

proof fn lemma_run_start_pins(s: Seq<char>, c: char, j: int)
    requires
        0 <= j <= s.len(),
        forall|k: int| j <= k < s.len() ==> s[k] == c,
        j > 0 ==> s[j - 1] != c,
    ensures
        run_start_from_end(s, c) == j,
    decreases s.len(),
{
    if s.len() > 0 && s[s.len() - 1] == c {
        assert(j < s.len());
        assert forall|k: int| j <= k < s.drop_last().len() implies s.drop_last()[k] == c by {
            assert(s.drop_last()[k] == s[k]);
        }
        lemma_run_start_pins(s.drop_last(), c, j);
    }
}

/// Removes every trailing occurrence of `c`, like dropping the dots at the
/// end of an organization name.
pub fn trim_end_char(s: &str, c: char) -> (r: String)
    ensures
        r@ == trimmed_end(s@, c),
{
    let len = s.unicode_len();
    let mut j: usize = len;
    while j > 0 && s.get_char(j - 1) == c
        invariant
            0 <= j <= len,
            len == s@.len(),
            forall|k: int| j <= k < len ==> s@[k] == c,
        decreases j,
    {
        j = j - 1;
    }
    proof {
        lemma_run_start_pins(s@, c, j as int);
    }
    let t = s.substring_char(0, j);
    proof {
        assert(t@ =~= s@.take(j as int));
    }
    t.to_owned()
}

/// Executable string equality over character sequences.
pub fn str_eq(a: &str, b: &str) -> (r: bool)
    ensures
        r == (a@ == b@),
{
    let sa = a.to_owned();
    let sb = b.to_owned();
    sa == sb
}

/// Whether `s` begins with `p`.
pub open spec fn starts_with(s: Seq<char>, p: Seq<char>) -> bool {
    s.len() >= p.len() && s.take(p.len() as int) == p
}

/// Executable prefix test.
pub fn str_starts_with(s: &str, p: &str) -> (r: bool)
    ensures
        r == starts_with(s@, p@),
{
    let slen = s.unicode_len();
    let plen = p.unicode_len();
    if slen < plen {
        proof {
            assert(!starts_with(s@, p@));
        }
        return false;
    }
    let head = s.substring_char(0, plen);
    proof {
        assert(head@ =~= s@.take(plen as int));
    }
    str_eq(head, p)
}

/// The suffix of `s` after its first `n` characters.
pub fn str_skip(s: &str, n: usize) -> (r: String)
    requires
        n <= s@.len(),
    ensures
        r@ == s@.skip(n as int),
{
    let len = s.unicode_len();
    let tail = s.substring_char(n, len);
    proof {
        assert(tail@ =~= s@.skip(n as int));
    }
    tail.to_owned()
}

/// The elements of `xs` joined with `sep` between them.
pub open spec fn joined_with(xs: Seq<Seq<char>>, sep: Seq<char>) -> Seq<char>
    decreases xs.len(),
{
    if xs.len() == 0 {
        Seq::empty()
    } else if xs.len() == 1 {
        xs[0]
    } else {
        xs[0] + sep + joined_with(xs.drop_first(), sep)
    }
}

/// Joins strings with a separator, like writing arguments one after another
/// with spaces between them.
pub fn join_with(xs: &Vec<String>, sep: &str) -> (r: String)
    ensures
        r@ == joined_with(xs.deep_view(), sep@),
{
    let ghost full = xs.deep_view();
    let mut out = String::new();
    if xs.len() == 0 {
        return out;
    }
    let mut i: usize = 0;
    proof {
        assert(full.skip(0) =~= full);
        assert(out@ + joined_with(full, sep@) =~= joined_with(full, sep@));
    }
    // Invariant: the output so far, extended by the join of the rest,
    // is the join of the whole list.
    while i + 1 < xs.len()
        invariant
            0 <= i < xs.len(),
            full == xs.deep_view(),
            full.len() == xs.len(),
            joined_with(full, sep@) == out@ + joined_with(full.skip(i as int), sep@),
        decreases xs.len() - i,
    {
        proof {
            assert(full.skip(i as int)[0] == full[i as int]);
            assert(full.skip(i as int).drop_first() =~= full.skip(i as int + 1));
        }
        out.append(xs[i].as_str());
        out.append(sep);
        i = i + 1;
        proof {
            assert(joined_with(full, sep@) =~= out@ + joined_with(full.skip(i as int), sep@));
        }
    }
    proof {
        assert(full.skip(i as int)[0] == full[i as int]);
        assert(full.skip(i as int).len() == 1);
    }
    out.append(xs[i].as_str());
    proof {
        assert(full.skip(0) =~= full);
    }
    out
}

/// `s` with leading whitespace removed.
pub open spec fn trimmed_start(s: Seq<char>) -> Seq<char> {
    s.skip(leading_spaces(s))
}

/// Removes leading whitespace.
pub fn trim_start(s: &str) -> (r: String)
    ensures
        r@ == trimmed_start(s@),
{
    let len = s.unicode_len();
    let mut i: usize = 0;
    while i < len && is_space(s.get_char(i))
        invariant
            0 <= i <= len,
            len == s@.len(),
            forall|k: int| 0 <= k < i ==> is_space_char(s@[k]),
        decreases len - i,
    {
        i = i + 1;
    }
    proof {
        lemma_leading_spaces_from_scan(s@, i as int);
    }
    let t = s.substring_char(i, len);
    proof {
        assert(t@ =~= s@.skip(i as int));
    }
    t.to_owned()
}

/// Index of the first line feed at or after `a`, or `t.len()` if none.
pub open spec fn newline_scan(t: Seq<char>, a: int) -> int
    decreases t.len() - a,
{
    if a < 0 || a >= t.len() {
        t.len() as int
    } else if t[a] == '\n' {
        a
    } else {
        newline_scan(t, a + 1)
    }
}

/// The scan never lands before its start nor past the end.
pub proof fn lemma_newline_scan_bounds(t: Seq<char>, a: int)
    requires
        0 <= a <= t.len(),
    ensures
        a <= newline_scan(t, a) <= t.len(),
    decreases t.len() - a,
{
    if a < t.len() && t[a] != '\n' {
        lemma_newline_scan_bounds(t, a + 1);
    }
}

/// The lines of `s`: split at each line feed, a carriage return directly
/// before a line feed dropped, and no empty line after a final line feed.
pub open spec fn spec_lines(s: Seq<char>) -> Seq<Seq<char>>
    decreases s.len(),
{
    if s.len() == 0 {
        Seq::empty()
    } else {
        let j = newline_scan(s, 0);
        if !(0 <= j && j < s.len()) {
            seq![s]
        } else {
            let line = s.take(j);
            let cleaned = if line.len() > 0 && line.last() == '\r' {
                line.drop_last()
            } else {
                line
            };
            seq![cleaned] + spec_lines(s.skip(j + 1))
        }
    }
}

pub proof fn lemma_newline_scan_pins(t: Seq<char>, a: int, j: int)
    requires
        0 <= a <= j <= t.len(),
        forall|k: int| a <= k < j ==> t[k] != '\n',
        j < t.len() ==> t[j] == '\n',
    ensures
        newline_scan(t, a) == j,
    decreases j - a,
{
    if a < j {
        lemma_newline_scan_pins(t, a + 1, j);
    }
}

/// Splits the suffix of `s` that starts at `i` into lines.
fn split_lines_from(s: &str, i: usize) -> (r: Vec<String>)
    requires
        i <= s@.len(),
    ensures
        r.deep_view() == spec_lines(s@.skip(i as int)),
    decreases s@.len() - i,
{
    let ghost t = s@.skip(i as int);
    let len = s.unicode_len();
    if i == len {
        let out: Vec<String> = Vec::new();
        proof {
            assert(out.deep_view() =~= Seq::<Seq<char>>::empty());
        }
        return out;
    }
    let mut j = i;
    while j < len && s.get_char(j) != '\n'
        invariant
            i <= j <= len,
            len == s@.len(),
            forall|k: int| i <= k < j ==> s@[k] != '\n',
        decreases len - j,
    {
        j = j + 1;
    }
    proof {
        assert forall|k: int| 0 <= k < j - i implies t[k] != '\n' by {
            assert(t[k] == s@[k + i]);
        }
        if j < len {
            assert(t[j - i] == s@[j as int]);
        }
        lemma_newline_scan_pins(t, 0, j - i);
    }
    if j == len {
        let whole = s.substring_char(i, len).to_owned();
        let mut out: Vec<String> = Vec::new();
        out.push(whole);
        proof {
            assert(out.deep_view() =~= seq![t]);
        }
        return out;
    }
    let line = s.substring_char(i, j);
    proof {
        assert(line@ =~= t.take(j - i));
    }
    let llen = line.unicode_len();
    let cleaned = if llen > 0 && line.get_char(llen - 1) == '\r' {
        let c = line.substring_char(0, llen - 1).to_owned();
        proof {
            assert(c@ =~= line@.drop_last());
        }
        c
    } else {
        line.to_owned()
    };
    let rest = split_lines_from(s, j + 1);
    proof {
        assert(s@.skip(j as int + 1) =~= t.skip(j - i + 1));
    }
    let ghost restv = rest.deep_view();
    let mut out = rest;
    out.insert(0, cleaned);
    proof {
        assert(out.deep_view() =~= seq![out@[0]@] + restv);
    }
    out
}

/// Splits text into lines the way the build-file rewriters read files:
/// at each line feed, dropping a carriage return before it, with no empty
/// line after a final line feed.
pub fn split_lines(s: &str) -> (r: Vec<String>)
    ensures
        r.deep_view() == spec_lines(s@),
{
    proof {
        assert(s@.skip(0) =~= s@);
    }
    split_lines_from(s, 0)
}

/// Joins lines with line feeds and ends with one, the form the build-file
/// rewriters write files back in.
pub fn render_lines(lines: &Vec<String>) -> (r: String)
    ensures
        r@ == joined_with(lines.deep_view(), seq!['\n']) + seq!['\n'],
{
    proof {
        reveal_strlit("\n");
        assert("\n"@ =~= seq!['\n']);
    }
    let mut out = join_with(lines, "\n");
    out.append("\n");
    out
}

/// The character for a single decimal digit.
pub open spec fn digit_char(d: nat) -> char {
    if d == 0 {
        '0'
    } else if d == 1 {
        '1'
    } else if d == 2 {
        '2'
    } else if d == 3 {
        '3'
    } else if d == 4 {
        '4'
    } else if d == 5 {
        '5'
    } else if d == 6 {
        '6'
    } else if d == 7 {
        '7'
    } else if d == 8 {
        '8'
    } else {
        '9'
    }
}

/// Whether `c` is a decimal digit.
pub open spec fn is_digit(c: char) -> bool {
    '0' as u32 <= c as u32 && c as u32 <= '9' as u32
}

/// The numeric value of a digit character; other characters count zero.
pub open spec fn digit_val(c: char) -> nat {
    if is_digit(c) {
        (c as u32 - '0' as u32) as nat
    } else {
        0
    }
}

/// The number a string of decimal digits denotes.
pub open spec fn dec_value(s: Seq<char>) -> nat
    decreases s.len(),
{
    if s.len() == 0 {
        0
    } else {
        dec_value(s.drop_last()) * 10 + digit_val(s.last())
    }
}

/// Whether every character of `s` is a decimal digit.
pub open spec fn all_digits(s: Seq<char>) -> bool {
    forall|i: int| 0 <= i < s.len() ==> is_digit(s[i])
}

/// A longer digit string never denotes a smaller number.
pub proof fn lemma_dec_value_prefix_le(s: Seq<char>, k: int)
    requires
        0 <= k <= s.len(),
    ensures
        dec_value(s.take(k)) <= dec_value(s),
    decreases s.len(),
{
    if k < s.len() {
        assert(s.take(k) =~= s.drop_last().take(k));
        lemma_dec_value_prefix_le(s.drop_last(), k);
        assert(dec_value(s) == dec_value(s.drop_last()) * 10 + digit_val(s.last()));
        assert(dec_value(s.drop_last()) * 10 >= dec_value(s.drop_last()));
    } else {
        assert(s.take(k) =~= s);
    }
}

/// The decimal digits of `n`, most significant first.
pub open spec fn dec_digits(n: nat) -> Seq<char>
    decreases n,
{
    if n < 10 {
        seq![digit_char(n)]
    } else {
        dec_digits(n / 10).push(digit_char(n % 10))
    }
}

/// The decimal rendering of an integer, with a leading minus when negative.
pub open spec fn int_str(i: int) -> Seq<char> {
    if i < 0 {
        seq!['-'] + dec_digits((-i) as nat)
    } else {
        dec_digits(i as nat)
    }
}

fn digit_str(d: u64) -> (s: String)
    requires
        d < 10,
    ensures
        s@ == seq![digit_char(d as nat)],
{
    if d == 0 {
        proof {
            reveal_strlit("0");
            assert("0"@ =~= seq![digit_char(0)]);
        }
        "0".to_owned()
    } else if d == 1 {
        proof {
            reveal_strlit("1");
            assert("1"@ =~= seq![digit_char(1)]);
        }
        "1".to_owned()
    } else if d == 2 {
        proof {
            reveal_strlit("2");
            assert("2"@ =~= seq![digit_char(2)]);
        }
        "2".to_owned()
    } else if d == 3 {
        proof {
            reveal_strlit("3");
            assert("3"@ =~= seq![digit_char(3)]);
        }
        "3".to_owned()
    } else if d == 4 {
        proof {
            reveal_strlit("4");
            assert("4"@ =~= seq![digit_char(4)]);
        }
        "4".to_owned()
    } else if d == 5 {
        proof {
            reveal_strlit("5");
            assert("5"@ =~= seq![digit_char(5)]);
        }
        "5".to_owned()
    } else if d == 6 {
        proof {
            reveal_strlit("6");
            assert("6"@ =~= seq![digit_char(6)]);
        }
        "6".to_owned()
    } else if d == 7 {
        proof {
            reveal_strlit("7");
            assert("7"@ =~= seq![digit_char(7)]);
        }
        "7".to_owned()
    } else if d == 8 {
        proof {
            reveal_strlit("8");
            assert("8"@ =~= seq![digit_char(8)]);
        }
        "8".to_owned()
    } else {
        proof {
            reveal_strlit("9");
            assert("9"@ =~= seq![digit_char(9)]);
        }
        "9".to_owned()
    }
}

/// Renders an unsigned number in decimal.
pub fn u64_to_string(n: u64) -> (s: String)
    ensures
        s@ == dec_digits(n as nat),
    decreases n,
{
    if n < 10 {
        digit_str(n)
    } else {
        let mut s = u64_to_string(n / 10);
        let last = digit_str(n % 10);
        s.append(last.as_str());
        proof {
            assert(s@ =~= dec_digits(n as nat));
        }
        s
    }
}

/// Renders a signed number in decimal.
pub fn i32_to_string(i: i32) -> (s: String)
    ensures
        s@ == int_str(i as int),
{
    if i >= 0 {
        u64_to_string(i as u64)
    } else {
        let wide: i64 = i as i64;
        let magnitude: u64 = (-wide) as u64;
        let mut s = String::new();
        proof {
            reveal_strlit("-");
            assert("-"@ =~= seq!['-']);
        }
        s.append("-");
        let digits = u64_to_string(magnitude);
        s.append(digits.as_str());
        s
    }
}

/// `s` with every occurrence of `from` replaced by `to`, scanning left to
/// right without overlap.
pub open spec fn spec_replace_all(s: Seq<char>, from: Seq<char>, to: Seq<char>) -> Seq<char>
    decreases s.len(),
{
    if s.len() == 0 {
        Seq::empty()
    } else if from.len() > 0 && starts_with(s, from) {
        to + spec_replace_all(s.skip(from.len() as int), from, to)
    } else {
        seq![s[0]] + spec_replace_all(s.skip(1), from, to)
    }
}

fn replace_from(s: &str, i: usize, from: &str, to: &str) -> (r: String)
    requires
        i <= s@.len(),
        from@.len() > 0,
    ensures
        r@ == spec_replace_all(s@.skip(i as int), from@, to@),
    decreases s@.len() - i,
{
    let ghost t = s@.skip(i as int);
    let len = s.unicode_len();
    if i == len {
        return String::new();
    }
    let flen = from.unicode_len();
    let matched = if flen <= len && i <= len - flen {
        let head = s.substring_char(i, i + flen);
        proof {
            assert(head@ =~= t.take(flen as int));
        }
        str_eq(head, from)
    } else {
        proof {
            assert(t.len() < from@.len());
        }
        false
    };
    if matched {
        let rest = replace_from(s, i + flen, from, to);
        proof {
            assert(s@.skip(i as int + flen as int) =~= t.skip(from@.len() as int));
        }
        let mut out = to.to_owned();
        out.append(rest.as_str());
        out
    } else {
        proof {
            if t.len() >= from@.len() {
                assert(s@.subrange(i as int, i as int + flen as int) =~= t.take(flen as int));
            }
            assert(!starts_with(t, from@));
            assert(s@.skip(i as int + 1) =~= t.skip(1));
        }
        let rest = replace_from(s, i + 1, from, to);
        let one = s.substring_char(i, i + 1).to_owned();
        proof {
            assert(one@ =~= seq![t[0]]);
        }
        let mut out = one;
        out.append(rest.as_str());
        out
    }
}

/// Replaces every occurrence of `from` in `s` by `to`.
pub fn replace_all(s: &str, from: &str, to: &str) -> (r: String)
    requires
        from@.len() > 0,
    ensures
        r@ == spec_replace_all(s@, from@, to@),
{
    proof {
        assert(s@.skip(0) =~= s@);
    }
    replace_from(s, 0, from, to)
}

} // verus!

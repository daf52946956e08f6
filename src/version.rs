//! Version strings: major-version extraction and vendor recovery from
//! quoted segments.
use vstd::prelude::*;

use crate::text::{find_char, index_of_char, lemma_find_char};

verus! {

pub open spec fn is_digit(c: char) -> bool {
    '0' <= c && c <= '9'
}

pub open spec fn all_digits(s: Seq<char>) -> bool {
    forall|i: int| 0 <= i < s.len() ==> is_digit(#[trigger] s[i])
}

/// The number written in decimal by the digit string `s`.
pub open spec fn digits_value(s: Seq<char>) -> nat
    decreases s.len(),
{
    if s.len() == 0 {
        0
    } else {
        digits_value(s.drop_last()) * 10 + (s.last() as nat - '0' as nat) as nat
    }
}

/// The `u32` read from `s` the way `u32::from_str` reads it: an optional
/// `+`, then at least one ASCII digit and nothing else, within range.
pub open spec fn decimal_u32(s: Seq<char>) -> Option<u32> {
    let d = if s.len() > 0 && s[0] == '+' {
        s.drop_first()
    } else {
        s
    };
    if d.len() > 0 && all_digits(d) && digits_value(d) <= u32::MAX {
        Some(digits_value(d) as u32)
    } else {
        None
    }
}

/// The text before the first `.` of `s` (all of `s` when it has none).
pub open spec fn before_dot(s: Seq<char>) -> Seq<char> {
    s.take(find_char(s, '.'))
}

/// `s` starts with the legacy `1.` prefix.
pub open spec fn is_legacy(s: Seq<char>) -> bool {
    s.len() >= 2 && s[0] == '1' && s[1] == '.'
}

/// The major version of a JDK version string: after a legacy `1.` prefix the
/// number that follows it (8 when that is no number), else the number before
/// the first `.` (0 when that is no number).
pub open spec fn major_version_of(v: Seq<char>) -> u32 {
    if is_legacy(v) {
        match decimal_u32(before_dot(v.subrange(2, v.len() as int))) {
            Some(n) => n,
            None => 8,
        }
    } else {
        match decimal_u32(before_dot(v)) {
            Some(n) => n,
            None => 0,
        }
    }
}

/// The text between the first two double quotes of `line`, if it has two.
pub open spec fn first_quoted(line: Seq<char>) -> Option<Seq<char>> {
    let a = find_char(line, '"');
    let after = line.subrange(a + 1, line.len() as int);
    if a < line.len() && find_char(after, '"') < after.len() {
        Some(after.take(find_char(after, '"')))
    } else {
        None
    }
}

/// Reads a `u32` in decimal, as `u32::from_str` does.
pub fn parse_decimal_u32(s: &str) -> (r: Option<u32>)
    ensures
        r == decimal_u32(s@),
{
    let n = s.unicode_len();
    let start: usize = if n > 0 && s.get_char(0) == '+' {
        1
    } else {
        0
    };
    let ghost d = s@.subrange(start as int, n as int);
    assert(d =~= (if s@.len() > 0 && s@[0] == '+' {
        s@.drop_first()
    } else {
        s@
    }));
    if start == n {
        return None;
    }
    let mut acc: u64 = 0;
    let mut over = false;
    let mut i: usize = start;
    while i < n
        invariant
            n == s@.len(),
            start <= i <= n,
            d == s@.subrange(start as int, n as int),
            d == (if s@.len() > 0 && s@[0] == '+' {
                s@.drop_first()
            } else {
                s@
            }),
            all_digits(d.take(i - start)),
            !over ==> acc == digits_value(d.take(i - start)) && acc <= u32::MAX,
            over ==> digits_value(d.take(i - start)) > u32::MAX,
        decreases n - i,
    {
        let c = s.get_char(i);
        if !('0' <= c && c <= '9') {
            assert(d[i - start] == c);
            assert(!is_digit(d[i - start]));
            assert(!all_digits(d));
            return None;
        }
        let ghost k = i - start;
        assert(d.take(k + 1).drop_last() =~= d.take(k));
        assert(d.take(k + 1).last() == c);
        assert(all_digits(d.take(k + 1))) by {
            assert forall|j: int| 0 <= j < k + 1 implies is_digit(#[trigger] d.take(k + 1)[j]) by {
                if j < k {
                    assert(d.take(k + 1)[j] == d.take(k)[j]);
                }
            }
        }
        let digit = (c as u32 - '0' as u32) as u64;
        if !over {
            let next = acc * 10 + digit;
            if next > 0xffff_ffff {
                over = true;
            } else {
                acc = next;
            }
        }
        i = i + 1;
    }
    assert(d.take(n - start) =~= d);
    if over {
        None
    } else {
        Some(acc as u32)
    }
}

/// The major version of a JDK version string (`"1.8.0_382"` gives 8,
/// `"21.0.1"` gives 21); 8 for a malformed legacy string, 0 for any other
/// malformed one.
pub fn parse_major_version(version_full: &str) -> (r: u32)
    ensures
        r == major_version_of(version_full@),
{
    let n = version_full.unicode_len();
    if n >= 2 && version_full.get_char(0) == '1' && version_full.get_char(1) == '.' {
        let rest = version_full.substring_char(2, n);
        let end = index_of_char(rest, '.', 0);
        assert(rest@.subrange(0, rest@.len() as int) =~= rest@);
        let head = rest.substring_char(0, end);
        match parse_decimal_u32(head) {
            Some(m) => m,
            None => 8,
        }
    } else {
        let end = index_of_char(version_full, '.', 0);
        assert(version_full@.subrange(0, n as int) =~= version_full@);
        let head = version_full.substring_char(0, end);
        match parse_decimal_u32(head) {
            Some(m) => m,
            None => 0,
        }
    }
}

/// The first substring of `line` enclosed in a pair of double quotes, if any.
pub fn extract_quoted_segment(line: &str) -> (r: Option<String>)
    ensures
        r.is_some() == first_quoted(line@).is_some(),
        r.is_some() ==> r.unwrap()@ == first_quoted(line@).unwrap(),
{
    let n = line.unicode_len();
    let a = index_of_char(line, '"', 0);
    assert(line@.subrange(0, n as int) =~= line@);
    if a == n {
        return None;
    }
    let b = index_of_char(line, '"', a + 1);
    let ghost after = line@.subrange(a + 1, n as int);
    if b == n {
        return None;
    }
    assert(after.take(b - (a + 1)) =~= line@.subrange(a + 1, b as int));
    Some(line.substring_char(a + 1, b).to_owned())
}

proof fn lemma_find_char_bounds(s: Seq<char>, c: char)
    ensures
        0 <= find_char(s, c) <= s.len(),
        forall|j: int| 0 <= j < find_char(s, c) ==> s[j] != c,
        find_char(s, c) < s.len() ==> s[find_char(s, c)] == c,
    decreases s.len(),
{
    if s.len() > 0 && s[0] != c {
        lemma_find_char_bounds(s.drop_first(), c);
        assert forall|j: int| 0 <= j < find_char(s, c) implies s[j] != c by {
            if j > 0 {
                assert(s[j] == s.drop_first()[j - 1]);
            }
        }
    }
}

proof fn lemma_digits_before_dot(major: Seq<char>, rest: Seq<char>)
    requires
        all_digits(major),
    ensures
        before_dot(major + seq!['.'] + rest) == major,
{
    let v = major + seq!['.'] + rest;
    assert forall|j: int| 0 <= j < major.len() implies v[j] != '.' by {
        assert(v[j] == major[j]);
        assert(is_digit(major[j]));
    }
    assert(v[major.len() as int] == '.');
    lemma_find_char(v, '.', major.len() as int);
    assert(v.take(major.len() as int) =~= major);
}

proof fn lemma_digits_decimal(major: Seq<char>)
    requires
        major.len() > 0,
        all_digits(major),
        digits_value(major) <= u32::MAX,
    ensures
        decimal_u32(major) == Some(digits_value(major) as u32),
{
    assert(is_digit(major[0]));
}

/// A legacy version `1.<major>.<rest>`, where `<major>` is a decimal number in
/// range, has major version `<major>`.
pub proof fn law_legacy_major(major: Seq<char>, rest: Seq<char>)
    requires
        major.len() > 0,
        all_digits(major),
        digits_value(major) <= u32::MAX,
    ensures
        major_version_of(seq!['1', '.'] + major + seq!['.'] + rest) == digits_value(major),
{
    let v = seq!['1', '.'] + major + seq!['.'] + rest;
    assert(v.subrange(2, v.len() as int) =~= major + seq!['.'] + rest);
    lemma_digits_before_dot(major, rest);
    lemma_digits_decimal(major);
}

/// A version `<major>.<rest>` without the legacy `1.` prefix, where `<major>`
/// is a decimal number in range, has major version `<major>`.
pub proof fn law_modern_major(major: Seq<char>, rest: Seq<char>)
    requires
        major.len() > 0,
        all_digits(major),
        digits_value(major) <= u32::MAX,
        !is_legacy(major + seq!['.'] + rest),
    ensures
        major_version_of(major + seq!['.'] + rest) == digits_value(major),
{
    lemma_digits_before_dot(major, rest);
    lemma_digits_decimal(major);
}

/// A version whose major part is no number has major version 8 under the
/// legacy `1.` prefix and 0 otherwise.
pub proof fn law_malformed_major(v: Seq<char>)
    ensures
        is_legacy(v) && decimal_u32(before_dot(v.subrange(2, v.len() as int))) is None
            ==> major_version_of(v) == 8,
        !is_legacy(v) && decimal_u32(before_dot(v)) is None ==> major_version_of(v) == 0,
{
}

/// A line without a pair of double quotes has no quoted segment.
pub proof fn law_no_quote_pair(line: Seq<char>)
    requires
        forall|i: int, j: int|
            0 <= i < j < line.len() ==> !(#[trigger] line[i] == '"' && #[trigger] line[j] == '"'),
    ensures
        first_quoted(line) is None,
{
    let a = find_char(line, '"');
    lemma_find_char_bounds(line, '"');
    if a < line.len() {
        let after = line.subrange(a + 1, line.len() as int);
        lemma_find_char_bounds(after, '"');
        let b = find_char(after, '"');
        if b < after.len() {
            assert(line[a + 1 + b] == after[b]);
            assert(line[a] == '"' && line[a + 1 + b] == '"');
        }
    }
}

/// On a line with a pair of double quotes, the quoted segment is exactly the
/// text between the first two quotes.
pub proof fn law_first_quote_pair(before: Seq<char>, inner: Seq<char>, after: Seq<char>)
    requires
        forall|i: int| 0 <= i < before.len() ==> before[i] != '"',
        forall|i: int| 0 <= i < inner.len() ==> inner[i] != '"',
    ensures
        first_quoted(before + seq!['"'] + inner + seq!['"'] + after) == Some(inner),
{
    let line = before + seq!['"'] + inner + seq!['"'] + after;
    let a = before.len() as int;
    assert forall|j: int| 0 <= j < a implies line[j] != '"' by {
        assert(line[j] == before[j]);
    }
    lemma_find_char(line, '"', a);
    let rest = line.subrange(a + 1, line.len() as int);
    assert(rest =~= inner + seq!['"'] + after);
    assert forall|j: int| 0 <= j < inner.len() implies rest[j] != '"' by {
        assert(rest[j] == inner[j]);
    }
    lemma_find_char(rest, '"', inner.len() as int);
    assert(rest.take(inner.len() as int) =~= inner);
}

} // verus!

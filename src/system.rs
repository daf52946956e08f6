//! The operating system's JDK registry: parsing what its verbose query prints.
//!
//! Each entry is one line of the form
//! `<version> (<arch>) "<vendor>" - "<runtime-name>" <path>`.
use vstd::prelude::*;

use crate::record::{make_id, record_id, views, JdkInfo, JdkModel};
use crate::text::{
    find_white, has_prefix, is_whitespace_char, lemma_find_white, lemma_rfind_white, rfind_white,
    starts_with, trim, trimmed,
};
use crate::version::{extract_quoted_segment, first_quoted, major_version_of, parse_major_version};

verus! {

/// The header line that the query prints before its entries.
pub const BANNER: &'static str = "Matching Java Virtual Machines";

/// The prefix of the identifiers of records from the registry.
pub const SYSTEM_PREFIX: &'static str = "java-";

/// The record described by one line of the query's output, if any.
///
/// The line is trimmed. An empty line, the header line, and a line of fewer
/// than two whitespace-separated tokens (for a trimmed, non-empty line: one
/// without whitespace) give none. Otherwise the first token is the full
/// version, the last token the installation path, and the first quoted
/// segment the vendor.
pub open spec fn registry_record(line: Seq<char>) -> Option<JdkModel> {
    let t = trim(line);
    if t.len() == 0 || has_prefix(t, BANNER@) || find_white(t) == t.len() {
        None
    } else {
        let full = t.take(find_white(t));
        Some(
            JdkModel {
                id: record_id(SYSTEM_PREFIX@, full),
                version_major: major_version_of(full),
                version_full: full,
                home: t.subrange(rfind_white(t) + 1, t.len() as int),
                vendor: first_quoted(t),
            },
        )
    }
}

/// The lines of `s`, split at each `\n` (an empty text is one empty line).
pub open spec fn split_lines(s: Seq<char>) -> Seq<Seq<char>>
    decreases s.len(),
{
    if s.len() == 0 {
        seq![Seq::<char>::empty()]
    } else {
        let prev = split_lines(s.drop_last());
        if s.last() == '\n' {
            prev.push(Seq::<char>::empty())
        } else {
            prev.update(prev.len() - 1, prev.last().push(s.last()))
        }
    }
}

/// The records that `lines` describe, in line order.
pub open spec fn registry_records(lines: Seq<Seq<char>>) -> Seq<JdkModel>
    decreases lines.len(),
{
    if lines.len() == 0 {
        Seq::<JdkModel>::empty()
    } else {
        let prev = registry_records(lines.drop_last());
        match registry_record(lines.last()) {
            Some(r) => prev.push(r),
            None => prev,
        }
    }
}

/// The records described by the whole output of the query, in line order.
pub open spec fn registry_output_records(output: Seq<char>) -> Seq<JdkModel> {
    registry_records(split_lines(output))
}

proof fn lemma_split_lines_len(s: Seq<char>)
    ensures
        split_lines(s).len() >= 1,
    decreases s.len(),
{
    if s.len() > 0 {
        lemma_split_lines_len(s.drop_last());
    }
}

/// The record described by one line of the registry query's output, if any.
pub fn parse_registry_line(line: &str) -> (r: Option<JdkInfo>)
    ensures
        r.is_some() == registry_record(line@).is_some(),
        r.is_some() ==> r.unwrap()@ == registry_record(line@).unwrap(),
{
    let t = trimmed(line);
    let t = t.as_str();
    let n = t.unicode_len();
    if n == 0 || starts_with(t, BANNER) {
        return None;
    }
    let mut a: usize = 0;
    while a < n && !is_whitespace_char(t.get_char(a))
        invariant
            n == t@.len(),
            a <= n,
            forall|j: int| 0 <= j < a ==> !crate::text::is_white(#[trigger] t@[j]),
        decreases n - a,
    {
        a = a + 1;
    }
    proof {
        lemma_find_white(t@, a as int);
    }
    if a == n {
        return None;
    }
    let mut b: usize = n;
    while b > 0 && !is_whitespace_char(t.get_char(b - 1))
        invariant
            n == t@.len(),
            b <= n,
            forall|j: int| b <= j < n ==> !crate::text::is_white(#[trigger] t@[j]),
        decreases b,
    {
        b = b - 1;
    }
    proof {
        lemma_rfind_white(t@, b - 1);
    }
    let full = t.substring_char(0, a);
    let version_full = full.to_owned();
    let home = t.substring_char(b, n).to_owned();
    let id = make_id(SYSTEM_PREFIX, full);
    let version_major = parse_major_version(full);
    let vendor = extract_quoted_segment(t);
    Some(JdkInfo { id, version_major, version_full, home, vendor })
}

/// The records described by the output of the registry query, one per entry
/// line, in line order.
pub fn parse_registry_output(output: &str) -> (r: Vec<JdkInfo>)
    ensures
        views(r@) == registry_output_records(output@),
{
    let n = output.unicode_len();
    let mut out: Vec<JdkInfo> = Vec::new();
    let mut start: usize = 0;
    let mut i: usize = 0;
    proof {
        assert(output@.take(0) =~= Seq::<char>::empty());
        assert(split_lines(output@.take(0)).drop_last() =~= Seq::<Seq<char>>::empty());
        assert(output@.subrange(0, 0) =~= Seq::<char>::empty());
        assert(views(out@) =~= Seq::<JdkModel>::empty());
    }
    while i < n
        invariant
            n == output@.len(),
            start <= i <= n,
            split_lines(output@.take(i as int)).last() == output@.subrange(start as int, i as int),
            views(out@) == registry_records(split_lines(output@.take(i as int)).drop_last()),
        decreases n - i,
    {
        let ghost prev = split_lines(output@.take(i as int));
        proof {
            lemma_split_lines_len(output@.take(i as int));
            assert(output@.take(i + 1).drop_last() =~= output@.take(i as int));
        }
        if output.get_char(i) == '\n' {
            let line = output.substring_char(start, i);
            match parse_registry_line(line) {
                Some(rec) => {
                    out.push(rec);
                },
                None => {},
            }
            proof {
                let next = split_lines(output@.take(i + 1));
                assert(next == prev.push(Seq::<char>::empty()));
                assert(next.drop_last() =~= prev);
                assert(prev.drop_last().push(prev.last()) =~= prev);
                assert(views(out@) =~= registry_records(next.drop_last()));
                assert(next.last() =~= output@.subrange(i + 1, i + 1));
            }
            start = i + 1;
        } else {
            proof {
                let next = split_lines(output@.take(i + 1));
                assert(next.drop_last() =~= prev.drop_last());
                assert(next.last() =~= output@.subrange(start as int, i + 1));
            }
        }
        i = i + 1;
    }
    let line = output.substring_char(start, n);
    match parse_registry_line(line) {
        Some(rec) => {
            out.push(rec);
        },
        None => {},
    }
    proof {
        let all = split_lines(output@.take(n as int));
        lemma_split_lines_len(output@.take(n as int));
        assert(all.drop_last().push(all.last()) =~= all);
        assert(output@.take(n as int) =~= output@);
        assert(views(out@) =~= registry_records(all));
    }
    out
}

} // verus!

//! The record of one discovered JDK installation, and its identifier.
use vstd::prelude::*;

verus! {

/// One discovered JDK installation.
#[derive(Debug, Clone, PartialEq, Eq)]
pub struct JdkInfo {
    pub id: String,
    pub version_major: u32,
    pub version_full: String,
    pub home: String,
    pub vendor: Option<String>,
}

/// What a `JdkInfo` holds, with its strings as character sequences.
pub ghost struct JdkModel {
    pub id: Seq<char>,
    pub version_major: u32,
    pub version_full: Seq<char>,
    pub home: Seq<char>,
    pub vendor: Option<Seq<char>>,
}

pub open spec fn opt_view(o: Option<String>) -> Option<Seq<char>> {
    match o {
        Some(s) => Some(s@),
        None => None,
    }
}

impl View for JdkInfo {
    type V = JdkModel;

    open spec fn view(&self) -> JdkModel {
        JdkModel {
            id: self.id@,
            version_major: self.version_major,
            version_full: self.version_full@,
            home: self.home@,
            vendor: opt_view(self.vendor),
        }
    }
}

/// The models of a sequence of records, in order.
pub open spec fn views(v: Seq<JdkInfo>) -> Seq<JdkModel> {
    v.map_values(|j: JdkInfo| j@)
}

/// `s` with every `.` replaced by `_`.
pub open spec fn dots_to_underscores(s: Seq<char>) -> Seq<char> {
    s.map_values(|c: char|
        if c == '.' {
            '_'
        } else {
            c
        })
}

/// The identifier of a record: its provenance prefix, then its version string
/// with `.` replaced by `_`.
pub open spec fn record_id(prefix: Seq<char>, version: Seq<char>) -> Seq<char> {
    prefix + dots_to_underscores(version)
}

/// A copy of an optional string.
pub fn copy_opt(o: &Option<String>) -> (r: Option<String>)
    ensures
        opt_view(r) == opt_view(*o),
{
    match o {
        Some(s) => Some(s.clone()),
        None => None,
    }
}

impl JdkInfo {
    /// A copy of this record.
    pub fn duplicate(&self) -> (r: JdkInfo)
        ensures
            r@ == self@,
    {
        JdkInfo {
            id: self.id.clone(),
            version_major: self.version_major,
            version_full: self.version_full.clone(),
            home: self.home.clone(),
            vendor: copy_opt(&self.vendor),
        }
    }
}

/// `prefix` followed by `version` with every `.` replaced by `_`.
pub fn make_id(prefix: &str, version: &str) -> (r: String)
    ensures
        r@ == record_id(prefix@, version@),
{
    let n = version.unicode_len();
    let mut r = prefix.to_owned();
    let mut seg: usize = 0;
    let mut i: usize = 0;
    proof {
        reveal_strlit("_");
    }
    while i < n
        invariant
            n == version@.len(),
            seg <= i <= n,
            r@ == prefix@ + dots_to_underscores(version@.take(seg as int)),
            forall|j: int| seg <= j < i ==> version@[j] != '.',
            "_"@ == seq!['_'],
        decreases n - i,
    {
        if version.get_char(i) == '.' {
            let ghost before = r@;
            r.append(version.substring_char(seg, i));
            r.append("_");
            assert(dots_to_underscores(version@.take(i + 1)) =~= dots_to_underscores(
                version@.take(seg as int),
            ) + version@.subrange(seg as int, i as int) + seq!['_']);
            seg = i + 1;
        }
        i = i + 1;
    }
    r.append(version.substring_char(seg, n));
    assert(dots_to_underscores(version@.take(n as int)) =~= dots_to_underscores(
        version@.take(seg as int),
    ) + version@.subrange(seg as int, n as int));
    assert(version@.take(n as int) =~= version@);
    r
}

} // verus!

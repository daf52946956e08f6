//! Paths as strings: joining, home-relative expansion, and the well-known
//! locations that the library uses.
use vstd::prelude::*;

use crate::record::opt_view;

verus! {

/// The name of the per-user file that holds the active selection.
pub const STATE_FILE_NAME: &'static str = ".jdk_current";

/// `part` appended to `base` as a path component (Unix rules): an absolute
/// `part` replaces `base`; a separator is added unless `base` is empty or
/// already ends with one.
pub open spec fn joined(base: Seq<char>, part: Seq<char>) -> Seq<char> {
    if part.len() > 0 && part[0] == '/' {
        part
    } else if base.len() == 0 || base.last() == '/' {
        base + part
    } else {
        base + seq!['/'] + part
    }
}

/// Where the active selection is kept: in the home directory when one is
/// known, else relative to the working directory.
pub open spec fn state_path_for(home: Option<Seq<char>>) -> Seq<char> {
    match home {
        Some(h) => joined(h, STATE_FILE_NAME@),
        None => STATE_FILE_NAME@,
    }
}

/// The runtime entry point of a JDK home: `<home>/bin/java`.
pub open spec fn runtime_path_of(home: Seq<char>) -> Seq<char> {
    joined(joined(home, "bin"@), "java"@)
}

/// The home of a macOS bundle layout under `dir`: `<dir>/Contents/Home`.
pub open spec fn bundle_home_of(dir: Seq<char>) -> Seq<char> {
    joined(joined(dir, "Contents"@), "Home"@)
}

/// The version-manager directory under a home directory:
/// `<home>/.jenv/versions`.
pub open spec fn versions_dir_of(home: Seq<char>) -> Seq<char> {
    joined(joined(home, ".jenv"@), "versions"@)
}

/// Relies on `dirs::home_dir`: the current user's home directory, when it can
/// be determined. It depends on the environment, so nothing is stated of it.
#[verifier::external_body]
pub(crate) fn home_directory() -> (r: Option<String>) {
    dirs::home_dir().map(|p| p.to_string_lossy().to_string())
}

/// `part` appended to `base` as a path component (Unix rules).
pub fn join_path(base: &str, part: &str) -> (r: String)
    ensures
        r@ == joined(base@, part@),
{
    proof {
        reveal_strlit("/");
    }
    let m = part.unicode_len();
    if m > 0 && part.get_char(0) == '/' {
        return part.to_owned();
    }
    let n = base.unicode_len();
    let mut r = base.to_owned();
    if n > 0 && base.get_char(n - 1) != '/' {
        r.append("/");
    }
    r.append(part);
    r
}

/// The file that holds the active selection, for a given home directory.
pub fn state_file_path_in(home: &Option<String>) -> (r: String)
    ensures
        r@ == state_path_for(opt_view(*home)),
{
    match home {
        Some(h) => join_path(h.as_str(), STATE_FILE_NAME),
        None => STATE_FILE_NAME.to_owned(),
    }
}

/// The file that holds the active selection, for the current user.
pub fn get_state_file_path() -> (r: String)
    ensures
        exists|h: Option<Seq<char>>| r@ == state_path_for(h),
{
    let home = home_directory();
    let r = state_file_path_in(&home);
    assert(r@ == state_path_for(opt_view(home)));
    r
}

/// The runtime entry point `<home>/bin/java` of a JDK home.
pub fn runtime_path(home: &str) -> (r: String)
    ensures
        r@ == runtime_path_of(home@),
{
    let bin = join_path(home, "bin");
    join_path(bin.as_str(), "java")
}

/// The bundle home `<dir>/Contents/Home` of a directory.
pub fn bundle_home_path(dir: &str) -> (r: String)
    ensures
        r@ == bundle_home_of(dir@),
{
    let contents = join_path(dir, "Contents");
    join_path(contents.as_str(), "Home")
}

/// The version-manager directory `<home>/.jenv/versions` of a home directory.
pub fn versions_dir_in(home: &str) -> (r: String)
    ensures
        r@ == versions_dir_of(home@),
{
    let jenv = join_path(home, ".jenv");
    join_path(jenv.as_str(), "versions")
}

/// The version-manager directory of the current user; an error when the home
/// directory cannot be determined.
pub fn jenv_versions_path() -> (r: Result<String, String>)
    ensures
        r is Ok ==> exists|h: Seq<char>| r->Ok_0@ == versions_dir_of(h),
        r is Err ==> r->Err_0@ == "Could not determine home directory"@,
{
    match home_directory() {
        Some(h) => Ok(versions_dir_in(h.as_str())),
        None => Err("Could not determine home directory".to_owned()),
    }
}

} // verus!

//! The version-manager directory (`~/.jenv/versions`): one JDK per
//! subdirectory, named after its version.
use vstd::prelude::*;

use crate::paths::{bundle_home_of, bundle_home_path};
use crate::record::{make_id, opt_view, record_id, views, JdkInfo, JdkModel};
use crate::version::{major_version_of, parse_major_version};

verus! {

/// The prefix of the identifiers of version-manager records.
pub const JENV_PREFIX: &'static str = "jenv-";

/// The vendor label of version-manager records.
pub const JENV_VENDOR: &'static str = "jenv";

/// What the caller found on disk for one entry of the versions directory.
#[derive(Debug, Clone)]
pub struct VersionDirEntry {
    /// The entry's path.
    pub path: String,
    /// The entry's file name, when it is valid Unicode.
    pub name: Option<String>,
    /// The entry is a directory.
    pub is_dir: bool,
    /// `<path>/Contents/Home` is a directory.
    pub bundle_home_is_dir: bool,
    /// `<path>/Contents/Home/bin/java` exists.
    pub bundle_has_runtime: bool,
    /// `<path>/bin/java` exists.
    pub dir_has_runtime: bool,
}

pub ghost struct VersionDirEntryModel {
    pub path: Seq<char>,
    pub name: Option<Seq<char>>,
    pub is_dir: bool,
    pub bundle_home_is_dir: bool,
    pub bundle_has_runtime: bool,
    pub dir_has_runtime: bool,
}

impl View for VersionDirEntry {
    type V = VersionDirEntryModel;

    open spec fn view(&self) -> VersionDirEntryModel {
        VersionDirEntryModel {
            path: self.path@,
            name: opt_view(self.name),
            is_dir: self.is_dir,
            bundle_home_is_dir: self.bundle_home_is_dir,
            bundle_has_runtime: self.bundle_has_runtime,
            dir_has_runtime: self.dir_has_runtime,
        }
    }
}

/// The record for one entry, if it is a JDK: the entry must be a directory
/// with a valid name; its home is the bundle home when that is a directory,
/// else the entry itself; and that home must hold `bin/java`.
pub open spec fn entry_record(e: VersionDirEntryModel) -> Option<JdkModel> {
    let has_runtime = if e.bundle_home_is_dir {
        e.bundle_has_runtime
    } else {
        e.dir_has_runtime
    };
    if !e.is_dir || e.name is None || !has_runtime {
        None
    } else {
        let name = e.name->Some_0;
        Some(
            JdkModel {
                id: record_id(JENV_PREFIX@, name),
                version_major: major_version_of(name),
                version_full: name,
                home: if e.bundle_home_is_dir {
                    bundle_home_of(e.path)
                } else {
                    e.path
                },
                vendor: Some(JENV_VENDOR@),
            },
        )
    }
}

/// The records of a sequence of entries, in entry order.
pub open spec fn entry_records(es: Seq<VersionDirEntryModel>) -> Seq<JdkModel>
    decreases es.len(),
{
    if es.len() == 0 {
        Seq::<JdkModel>::empty()
    } else {
        let prev = entry_records(es.drop_last());
        match entry_record(es.last()) {
            Some(r) => prev.push(r),
            None => prev,
        }
    }
}

pub open spec fn entry_views(es: Seq<VersionDirEntry>) -> Seq<VersionDirEntryModel> {
    es.map_values(|e: VersionDirEntry| e@)
}

/// The record for one entry of the versions directory, if it is a JDK.
pub fn jenv_entry_record(e: &VersionDirEntry) -> (r: Option<JdkInfo>)
    ensures
        r.is_some() == entry_record(e@).is_some(),
        r.is_some() ==> r.unwrap()@ == entry_record(e@).unwrap(),
{
    let has_runtime = if e.bundle_home_is_dir {
        e.bundle_has_runtime
    } else {
        e.dir_has_runtime
    };
    if !e.is_dir || !has_runtime {
        return None;
    }
    match &e.name {
        None => None,
        Some(name) => {
            let home = if e.bundle_home_is_dir {
                bundle_home_path(e.path.as_str())
            } else {
                e.path.clone()
            };
            Some(
                JdkInfo {
                    id: make_id(JENV_PREFIX, name.as_str()),
                    version_major: parse_major_version(name.as_str()),
                    version_full: name.clone(),
                    home,
                    vendor: Some(JENV_VENDOR.to_owned()),
                },
            )
        },
    }
}

/// The JDKs among the entries of the versions directory, in entry order.
pub fn list_jenv_jdks(entries: &Vec<VersionDirEntry>) -> (r: Vec<JdkInfo>)
    ensures
        views(r@) == entry_records(entry_views(entries@)),
{
    let mut out: Vec<JdkInfo> = Vec::new();
    let mut i: usize = 0;
    proof {
        assert(entry_views(entries@).take(0) =~= Seq::<VersionDirEntryModel>::empty());
        assert(views(out@) =~= Seq::<JdkModel>::empty());
    }
    while i < entries.len()
        invariant
            i <= entries@.len(),
            views(out@) == entry_records(entry_views(entries@).take(i as int)),
        decreases entries@.len() - i,
    {
        let ghost es = entry_views(entries@);
        proof {
            assert(es.take(i + 1).drop_last() =~= es.take(i as int));
            assert(es.take(i + 1).last() == entries@[i as int]@);
        }
        match jenv_entry_record(&entries[i]) {
            Some(rec) => {
                out.push(rec);
                assert(views(out@) =~= entry_records(es.take(i + 1)));
            },
            None => {},
        }
        i = i + 1;
    }
    assert(entry_views(entries@).take(entries@.len() as int) =~= entry_views(entries@));
    out
}

} // verus!

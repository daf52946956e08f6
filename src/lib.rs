//! Discovery and selection of installed Java Development Kits.
//!
//! The library parses the textual output of the operating system's JDK
//! registry, interprets the entries of a version-manager directory, merges both
//! sources into one ordered list, and keeps the single "active JDK" pointer.
//! Everything that touches processes or the file system is left to the caller,
//! which hands the library plain values.
use vstd::prelude::*;

pub mod text;
pub mod version;
pub mod record;
pub mod system;
pub mod paths;
pub mod jenv;
pub mod registry;
pub mod selection;

verus! {

} // verus!

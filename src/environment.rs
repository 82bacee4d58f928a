//! The ambient configuration that the caches are built from, passed in as a
//! value rather than read from the process.

use vstd::prelude::*;

verus! {

/// What a scan needs to know about the session it runs in.
pub struct Environment {
    /// Preferred languages, most preferred first.
    pub languages: Vec<String>,
    /// Whether the program runs inside an application sandbox.
    pub sandboxed: bool,
    /// The user data directory, when set explicitly.
    pub data_home: Option<String>,
    /// The user's home directory, when known.
    pub home: Option<String>,
    /// The colon-separated list of system data directories, when set.
    pub data_dirs: Option<String>,
    /// The sandbox runtime's directory, when known.
    pub runtime_dir: Option<String>,
}

/// The view of an optional string.
pub open spec fn opt_view(o: Option<String>) -> Option<Seq<char>> {
    match o {
        Some(s) => Some(s@),
        None => None,
    }
}

} // verus!

//! The directories of this installation.
use vstd::prelude::*;
use std::path::PathBuf;

verus! {

/// The local and roaming directories this launcher owns.
pub struct AppPaths {
    pub local_root: PathBuf,
    pub roaming_root: PathBuf,
    pub launcher: PathBuf,
    pub runtimes: PathBuf,
    pub cache: PathBuf,
    pub staging: PathBuf,
    pub state: PathBuf,
    pub logs: PathBuf,
    pub dsh_home: PathBuf,
}

/// What `std::path::Path::join` makes of a base path and a name, by the path
/// rules of the platform this build targets (fixed when it is compiled).
pub uninterp spec fn path_joined(base: PathBuf, name: Seq<char>) -> PathBuf;

/// Calls `std::path::Path::join`. Claims only that the result is the one the
/// standard library gives for this base and name in this build.
#[verifier::external_body]
pub(crate) fn join_path(base: &PathBuf, name: &str) -> (res: PathBuf)
    ensures
        res == path_joined(*base, name@),
{
    base.join(name)
}

impl AppPaths {
    /// The record of the copy that runs: `current.json` in the state directory.
    pub fn current_pointer(&self) -> (res: PathBuf)
        ensures
            res == path_joined(self.state, "current.json"@),
    {
        join_path(&self.state, "current.json")
    }
}

} // verus!

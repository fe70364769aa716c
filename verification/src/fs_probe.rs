//! Questions put to the file system. Their answers depend on what is on
//! disk, so nothing is promised of them; callers state what holds
//! whatever the answer.

use vstd::prelude::*;

verus! {

/// Whether `p` names an existing directory (`std::path::Path::is_dir`).
#[verifier::external_body]
pub(crate) fn path_is_dir(p: &str) -> (r: bool) {
    std::path::Path::new(p).is_dir()
}

/// Whether anything exists at `p` (`std::path::Path::exists`).
#[verifier::external_body]
pub(crate) fn path_exists(p: &str) -> (r: bool) {
    std::path::Path::new(p).exists()
}

} // verus!

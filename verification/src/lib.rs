//! Core of a raw-file reverse proxy: translates inbound request paths into
//! authoritative upstream URLs for GitHub, GitLab and Bitbucket, resolves
//! GitLab `namespace/repo` identifiers to numeric project ids through a
//! rebuildable directory cache, and decides credential injection.
pub mod backend;
pub mod credentials;
pub mod directory;
pub mod encode;
pub mod errors;
pub mod format;
pub mod path_match;
pub mod resolver;
pub mod text;

use vstd::prelude::*;

verus! {

} // verus!

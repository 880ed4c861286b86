//! Decision and synchronization engine for a self-updating game-client
//! launcher.
//!
//! Given a catalog of supported games and a remote file manifest, this
//! library decides which game/client applies to the current context, which
//! files must be fetched to bring a directory in line with the manifest,
//! and how a first-run installation is sequenced. All filesystem, network
//! and interactive work stays outside; the library consumes plain values
//! (parsed manifest records, digests of local files, user selections) and
//! returns plans and decisions.

use vstd::prelude::*;

pub mod catalog;
pub mod install;
pub mod manifest;
pub mod resolver;
pub mod sync;
pub mod text;
pub mod version;

verus! {

} // verus!

//! Derives a semantic-version string from a repository's history: the ordered
//! list of commits reachable from head, together with the tag names resolved
//! to the commits they point at. Whenever a commit carries a tag whose name
//! begins with a version pattern (`major[.minor[.patch]]`), the running
//! version resets to that tag's value; every other commit increments the
//! patch component by one.
//!
//! The library works on plain values: a caller supplies the commit sequence
//! (oldest first) and the tag index, and receives the final version. Reading
//! those values out of an actual repository is left to the caller.

pub mod history;
pub mod laws;
pub mod parse;
pub mod version;

pub use history::{accumulate_version, calculate_version, CommitId};
pub use parse::parse_version_tag;
pub use version::Version;

//! Release levels: major, minor and patch, in decreasing precedence.
use vstd::prelude::*;

verus! {

/// The kind of release that a commit, or a batch of commits, calls for.
#[derive(PartialEq, Eq, Structural, Debug, Hash, Clone, Copy, PartialOrd, Ord)]
pub enum ReleaseAction {
    /// Increments the major number and resets the two others, `v1.0.1` to `v2.0.0`.
    Major,
    /// Increments the minor number and resets the patch number, `v1.0.1` to `v1.1.0`.
    Minor,
    /// Increments the patch number, `v1.0.1` to `v1.0.2`.
    Patch,
}

/// The key under which a level's rule is written in a configuration document.
pub open spec fn level_key(level: ReleaseAction) -> Seq<char> {
    match level {
        ReleaseAction::Major => seq!['m', 'a', 'j', 'o', 'r'],
        ReleaseAction::Minor => seq!['m', 'i', 'n', 'o', 'r'],
        ReleaseAction::Patch => seq!['p', 'a', 't', 'c', 'h'],
    }
}

} // verus!

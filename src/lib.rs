//! Semantic-release decisions for a source repository.
//!
//! The library classifies commit messages against a rule set, one rule per release
//! level; reduces the classifications of a batch of commits to one release decision,
//! major over minor over patch; and applies that decision to a version tag written
//! `v<major>.<minor>.<patch>`. It also builds the announcement of a release.
use vstd::prelude::*;

pub mod analyzer;
pub mod grammar;
pub mod level;
pub mod notifier;
pub mod primitives;
pub mod repositories;
pub mod rules;
pub mod versioner;

pub use analyzer::{aggregate_levels, CommitAnalyzerError, CommitAnalyzerPlugin};
pub use level::ReleaseAction;
pub use notifier::{CreatePost, NotifierPlugin};
pub use primitives::{Commit, RepositoryTag, RepositoryUser, Value};
pub use repositories::{GithubRepository, RepositoryError};
pub use rules::{
    CommitAnalyzerConfiguration, ConfigurationError, ReleaseRule, ReleaseRuleFormat, ReleaseRules,
    RuleEntry, MAJOR_GRAMMAR, MINOR_GRAMMAR, PATCH_GRAMMAR,
};
pub use versioner::{Tag, VersionerError, VersionerPlugin};

verus! {

} // verus!

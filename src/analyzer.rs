//! The commit analyzer: classifies commit messages and reduces a batch of
//! classifications to one release decision.
use vstd::prelude::*;

use crate::grammar::regex_compiles;
use crate::level::ReleaseAction;
use crate::primitives::Commit;
use crate::rules::{
    is_fault_of, is_load_error, loads, rule_for, rule_outcome, rules_of_entries,
    is_default_rules, CommitAnalyzerConfiguration, ConfigurationError, ReleaseRules, RuleEntry,
    RuleOutcome,
};

verus! {

/// Errors of the commit analyzer.
#[derive(Debug)]
pub enum CommitAnalyzerError {
    /// The message matches no rule.
    ErrorNoMatching(),
    /// The rule set is broken: a rule could not be applied, or could not be loaded.
    ConfigurationError(ConfigurationError),
}

/// What classifying one message against a rule set gives.
pub enum Classification {
    /// The message calls for a release of this level.
    Level(ReleaseAction),
    /// The message matches no rule.
    Unmatched,
    /// The rule of this level could not be applied to the message.
    Fault(ReleaseAction),
}

/// Classifies `message`: the major rule first, then the minor one, then the patch one;
/// the first rule that matches, or cannot be applied, decides.
pub open spec fn classify(rules: ReleaseRules, message: Seq<char>) -> Classification {
    match rule_outcome(rules.major, message) {
        RuleOutcome::Matched => Classification::Level(ReleaseAction::Major),
        RuleOutcome::Fault => Classification::Fault(ReleaseAction::Major),
        RuleOutcome::Unmatched => match rule_outcome(rules.minor, message) {
            RuleOutcome::Matched => Classification::Level(ReleaseAction::Minor),
            RuleOutcome::Fault => Classification::Fault(ReleaseAction::Minor),
            RuleOutcome::Unmatched => match rule_outcome(rules.patch, message) {
                RuleOutcome::Matched => Classification::Level(ReleaseAction::Patch),
                RuleOutcome::Fault => Classification::Fault(ReleaseAction::Patch),
                RuleOutcome::Unmatched => Classification::Unmatched,
            },
        },
    }
}

/// The level that a classification resolves a commit to, if any.
pub open spec fn resolved(c: Classification) -> Option<ReleaseAction> {
    match c {
        Classification::Level(level) => Some(level),
        _ => None,
    }
}

/// The level that each commit of the batch resolves to.
pub open spec fn levels_of(rules: ReleaseRules, commits: Seq<Commit>) -> Seq<Option<ReleaseAction>> {
    Seq::new(commits.len(), |i: int| resolved(classify(rules, commits[i].message@)))
}

/// Some commit of the batch cannot be classified.
pub open spec fn has_fault(rules: ReleaseRules, commits: Seq<Commit>) -> bool {
    exists|i: int| 0 <= i < commits.len() && (#[trigger] classify(rules, commits[i].message@)) is Fault
}

/// `i` is the first commit of the batch that cannot be classified.
pub open spec fn is_first_fault(rules: ReleaseRules, commits: Seq<Commit>, i: int) -> bool {
    &&& 0 <= i < commits.len()
    &&& classify(rules, commits[i].message@) is Fault
    &&& forall|j: int| 0 <= j < i ==> !(#[trigger] classify(rules, commits[j].message@) is Fault)
}

/// The commit annotated with its classification: its release action is set where the
/// classification gives a level, and left as it was otherwise.
pub open spec fn annotate(commit: Commit, c: Classification) -> Commit {
    match c {
        Classification::Level(level) => Commit {
            hash: commit.hash,
            message: commit.message,
            release_action: Some(level),
        },
        _ => commit,
    }
}

/// How many of `levels` are `level`.
pub open spec fn count_level(levels: Seq<Option<ReleaseAction>>, level: ReleaseAction) -> nat
    decreases levels.len(),
{
    if levels.len() == 0 {
        0
    } else {
        count_level(levels.drop_last(), level) + if levels.last() == Some(level) {
            1nat
        } else {
            0nat
        }
    }
}

/// The release decision for a batch: major if any commit calls for it, else minor if
/// any does, else patch if any does, else no release.
pub open spec fn decide(levels: Seq<Option<ReleaseAction>>) -> Option<ReleaseAction> {
    if count_level(levels, ReleaseAction::Major) > 0 {
        Some(ReleaseAction::Major)
    } else if count_level(levels, ReleaseAction::Minor) > 0 {
        Some(ReleaseAction::Minor)
    } else if count_level(levels, ReleaseAction::Patch) > 0 {
        Some(ReleaseAction::Patch)
    } else {
        None
    }
}

/// Every rule of the set is a regular expression that compiles.
pub open spec fn rules_applicable(rules: ReleaseRules) -> bool {
    forall|level: ReleaseAction|
        #![trigger rule_for(rules, level)]
        rule_for(rules, level).format is Regex && regex_compiles(rule_for(rules, level).grammar@)
}

proof fn lemma_count_level_step(levels: Seq<Option<ReleaseAction>>, i: int, level: ReleaseAction)
    requires
        0 <= i < levels.len(),
    ensures
        count_level(levels.subrange(0, i + 1), level) == count_level(levels.subrange(0, i), level)
            + if levels[i] == Some(level) {
            1nat
        } else {
            0nat
        },
{
    assert(levels.subrange(0, i + 1).drop_last() =~= levels.subrange(0, i));
}

/// A level is counted at least once when some entry of the sequence is that level.
proof fn lemma_count_level_positive(levels: Seq<Option<ReleaseAction>>, k: int, level: ReleaseAction)
    requires
        0 <= k < levels.len(),
        levels[k] == Some(level),
    ensures
        count_level(levels, level) > 0,
    decreases levels.len(),
{
    if k < levels.len() - 1 {
        lemma_count_level_positive(levels.drop_last(), k, level);
    }
}

/// A level is not counted when no entry of the sequence is that level.
proof fn lemma_count_level_zero(levels: Seq<Option<ReleaseAction>>, level: ReleaseAction)
    requires
        forall|i: int| 0 <= i < levels.len() ==> levels[i] != Some(level),
    ensures
        count_level(levels, level) == 0,
    decreases levels.len(),
{
    if levels.len() > 0 {
        lemma_count_level_zero(levels.drop_last(), level);
    }
}

/// Reduces the levels that the commits of a batch resolved to to one release decision,
/// by counting each level and keeping the highest that was counted.
pub fn aggregate_levels(levels: &Vec<Option<ReleaseAction>>) -> (r: Option<ReleaseAction>)
    ensures
        r == decide(levels@),
{
    let mut major_count: usize = 0;
    let mut minor_count: usize = 0;
    let mut patch_count: usize = 0;
    let mut i: usize = 0;
    assert(levels@.subrange(0, 0) =~= Seq::<Option<ReleaseAction>>::empty());
    while i < levels.len()
        invariant
            i <= levels@.len(),
            major_count == count_level(levels@.subrange(0, i as int), ReleaseAction::Major),
            minor_count == count_level(levels@.subrange(0, i as int), ReleaseAction::Minor),
            patch_count == count_level(levels@.subrange(0, i as int), ReleaseAction::Patch),
            major_count <= i && minor_count <= i && patch_count <= i,
        decreases levels@.len() - i,
    {
        proof {
            lemma_count_level_step(levels@, i as int, ReleaseAction::Major);
            lemma_count_level_step(levels@, i as int, ReleaseAction::Minor);
            lemma_count_level_step(levels@, i as int, ReleaseAction::Patch);
        }
        match levels[i] {
            Some(ReleaseAction::Major) => major_count = major_count + 1,
            Some(ReleaseAction::Minor) => minor_count = minor_count + 1,
            Some(ReleaseAction::Patch) => patch_count = patch_count + 1,
            None => {},
        }
        i = i + 1;
    }
    assert(levels@.subrange(0, levels@.len() as int) =~= levels@);
    if major_count > 0 {
        Some(ReleaseAction::Major)
    } else if minor_count > 0 {
        Some(ReleaseAction::Minor)
    } else if patch_count > 0 {
        Some(ReleaseAction::Patch)
    } else {
        None
    }
}

/// A batch in which some message matches the major rule calls for a major release,
/// whatever the other commits call for. Where every rule of the set can be applied, no
/// commit of the batch fails to be classified.
pub proof fn lemma_major_takes_precedence(rules: ReleaseRules, commits: Seq<Commit>, k: int)
    requires
        rules_applicable(rules),
        0 <= k < commits.len(),
        rule_outcome(rules.major, commits[k].message@) is Matched,
    ensures
        !has_fault(rules, commits),
        decide(levels_of(rules, commits)) == Some(ReleaseAction::Major),
{
    assert(rule_for(rules, ReleaseAction::Major) == rules.major);
    assert(rule_for(rules, ReleaseAction::Minor) == rules.minor);
    assert(rule_for(rules, ReleaseAction::Patch) == rules.patch);
    let levels = levels_of(rules, commits);
    assert(levels[k] == Some(ReleaseAction::Major));
    lemma_count_level_positive(levels, k, ReleaseAction::Major);
}

/// A batch in which no message matches any rule calls for no release, and its commits
/// keep the release action they had: an unset one stays unset.
pub proof fn lemma_no_match_no_release(rules: ReleaseRules, commits: Seq<Commit>)
    requires
        forall|i: int| 0 <= i < commits.len() ==> #[trigger] classify(rules, commits[i].message@) is Unmatched,
    ensures
        !has_fault(rules, commits),
        decide(levels_of(rules, commits)) == None::<ReleaseAction>,
        forall|i: int| 0 <= i < commits.len() ==> annotate(commits[i], classify(rules, commits[i].message@))
            == commits[i],
{
    let levels = levels_of(rules, commits);
    assert forall|i: int| 0 <= i < levels.len() implies levels[i] is None by {
        assert(classify(rules, commits[i].message@) is Unmatched);
    }
    lemma_count_level_zero(levels, ReleaseAction::Major);
    lemma_count_level_zero(levels, ReleaseAction::Minor);
    lemma_count_level_zero(levels, ReleaseAction::Patch);
}

/// Analyses commit messages against a rule set.
#[derive(Debug, Clone)]
pub struct CommitAnalyzerPlugin {
    /// The rule set that messages are classified against.
    pub configuration: CommitAnalyzerConfiguration,
}

impl CommitAnalyzerPlugin {
    /// An analyzer with the built-in rule set.
    pub fn new() -> (r: CommitAnalyzerPlugin)
        ensures
            is_default_rules(r.configuration.release_rules),
    {
        CommitAnalyzerPlugin { configuration: CommitAnalyzerConfiguration::default() }
    }

    /// Replaces the rule set by the one that the items of a configuration document's
    /// `release_rules` table describe. On failure the analyzer is left as it was.
    pub fn with_configuration(&mut self, entries: &Vec<RuleEntry>) -> (r: Result<(), CommitAnalyzerError>)
        ensures
            r is Ok <==> loads(entries@),
            r is Ok ==> rules_of_entries(final(self).configuration.release_rules, entries@),
            r matches Err(e) ==> *final(self) == *old(self) && (e matches CommitAnalyzerError::ConfigurationError(
                ce,
            ) && is_load_error(entries@, ce)),
    {
        match CommitAnalyzerConfiguration::load(entries) {
            Ok(configuration) => {
                self.configuration = configuration;
                Ok(())
            },
            Err(e) => Err(CommitAnalyzerError::ConfigurationError(e)),
        }
    }

    /// Classifies a commit message against a rule set: the major rule first, then the
    /// minor one, then the patch one. Fails with `ErrorNoMatching` when no rule matches,
    /// and with the rule's fault when a rule that is tried cannot be applied.
    pub fn execute(&self, commit: &Commit, release_rule: &ReleaseRules) -> (r: Result<ReleaseAction, CommitAnalyzerError>)
        ensures
            match classify(*release_rule, commit.message@) {
                Classification::Level(level) => r matches Ok(l) && l == level,
                Classification::Unmatched => r matches Err(e) && e is ErrorNoMatching,
                Classification::Fault(level) => r matches Err(CommitAnalyzerError::ConfigurationError(e))
                    && is_fault_of(rule_for(*release_rule, level), e),
            },
    {
        match release_rule.major.handle(commit) {
            Ok(()) => return Ok(ReleaseAction::Major),
            Err(ConfigurationError::ErrorNoMatch()) => {},
            Err(e) => return Err(CommitAnalyzerError::ConfigurationError(e)),
        }
        match release_rule.minor.handle(commit) {
            Ok(()) => return Ok(ReleaseAction::Minor),
            Err(ConfigurationError::ErrorNoMatch()) => {},
            Err(e) => return Err(CommitAnalyzerError::ConfigurationError(e)),
        }
        match release_rule.patch.handle(commit) {
            Ok(()) => Ok(ReleaseAction::Patch),
            Err(ConfigurationError::ErrorNoMatch()) => Err(CommitAnalyzerError::ErrorNoMatching()),
            Err(e) => Err(CommitAnalyzerError::ConfigurationError(e)),
        }
    }

    /// Analyses a batch of commits and returns the release it calls for: major if any
    /// commit calls for one, else minor if any does, else patch if any does, else none.
    ///
    /// Each commit whose message matches a rule gets that rule's level as its release
    /// action; the others are left as they were. When a commit cannot be classified
    /// because a rule cannot be applied, the whole batch fails with the fault of the
    /// first such commit, and no commit is changed.
    pub fn run(&self, commits: &mut Vec<Commit>) -> (r: Result<Option<ReleaseAction>, CommitAnalyzerError>)
        ensures
            r is Err <==> has_fault(self.configuration.release_rules, old(commits)@),
            r matches Err(e) ==> final(commits)@ == old(commits)@ && exists|i: int|
                is_first_fault(self.configuration.release_rules, old(commits)@, i) && (e matches CommitAnalyzerError::ConfigurationError(
                    ce,
                ) && is_fault_of(
                    rule_for(
                        self.configuration.release_rules,
                        classify(self.configuration.release_rules, old(commits)@[i].message@)->Fault_0,
                    ),
                    ce,
                )),
            r matches Ok(decision) ==> decision == decide(levels_of(self.configuration.release_rules, old(commits)@)),
            r is Ok ==> final(commits)@.len() == old(commits)@.len() && forall|i: int|
                0 <= i < old(commits)@.len() ==> #[trigger] final(commits)@[i] == annotate(
                    old(commits)@[i],
                    classify(self.configuration.release_rules, old(commits)@[i].message@),
                ),
    {
        let ghost rules = self.configuration.release_rules;
        let ghost initial = commits@;
        let mut levels: Vec<Option<ReleaseAction>> = Vec::new();
        let mut i: usize = 0;
        while i < commits.len()
            invariant
                i <= commits@.len(),
                commits@ == initial,
                rules == self.configuration.release_rules,
                levels@ == levels_of(rules, initial).subrange(0, i as int),
                forall|j: int| 0 <= j < i ==> !(#[trigger] classify(rules, initial[j].message@) is Fault),
            decreases commits@.len() - i,
        {
            match self.execute(&commits[i], &self.configuration.release_rules) {
                Ok(level) => levels.push(Some(level)),
                Err(CommitAnalyzerError::ErrorNoMatching()) => levels.push(None),
                Err(e) => {
                    assert(is_first_fault(rules, initial, i as int));
                    return Err(e);
                },
            }
            i = i + 1;
            assert(levels@ =~= levels_of(rules, initial).subrange(0, i as int));
        }
        assert(levels@ =~= levels_of(rules, initial));
        let mut k: usize = 0;
        while k < commits.len()
            invariant
                k <= commits@.len(),
                commits@.len() == initial.len(),
                levels@ == levels_of(rules, initial),
                forall|j: int| 0 <= j < initial.len() ==> !(#[trigger] classify(rules, initial[j].message@) is Fault),
                forall|j: int| 0 <= j < k ==> #[trigger] commits@[j] == annotate(initial[j], classify(rules, initial[j].message@)),
                forall|j: int| k <= j < initial.len() ==> #[trigger] commits@[j] == initial[j],
            decreases commits@.len() - k,
        {
            match levels[k] {
                Some(level) => {
                    commits[k].release_action = Some(level);
                },
                None => {},
            }
            k = k + 1;
        }
        Ok(aggregate_levels(&levels))
    }
}

} // verus!

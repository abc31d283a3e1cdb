use sleppa::{
    aggregate_levels, Commit, CommitAnalyzerConfiguration, CommitAnalyzerError, CommitAnalyzerPlugin,
    ConfigurationError, ReleaseAction, ReleaseRule, ReleaseRuleFormat, RuleEntry,
};

fn commits_of(messages: &[&str]) -> Vec<Commit> {
    messages
        .iter()
        .map(|m| Commit::new(m.to_string(), "somehash".to_string()))
        .collect()
}

// Retrieves the correct ReleaseAction from message.
#[test]
fn test_can_execute() {
    let config = CommitAnalyzerConfiguration::default();

    let correct_message_major_release_action = "break: add a function".to_string();
    let correct_commit1 = Commit::new(correct_message_major_release_action, "somehash".to_string());

    let correct_message_patch_release_action = "style: some ref".to_string();
    let correct_commit2 = Commit::new(correct_message_patch_release_action, "somehash".to_string());

    // "broke" doesn't refer to a release action type
    let incorrect_message_ci_not_match = "broke: some change".to_string();
    let incorrect_commit1 = Commit::new(incorrect_message_ci_not_match, "somehash".to_string());
    // No colon after the type
    let incorrect_message_no_semicolumn = "feat introduced new function".to_string();
    let incorrect_commit2 = Commit::new(incorrect_message_no_semicolumn, "somehash".to_string());

    let analyzer = CommitAnalyzerPlugin {
        configuration: config.clone(),
    };

    assert_eq!(
        analyzer.execute(&correct_commit1, &config.release_rules).unwrap(),
        ReleaseAction::Major
    );
    assert_eq!(
        analyzer.execute(&correct_commit2, &config.release_rules).unwrap(),
        ReleaseAction::Patch
    );

    assert!(analyzer.execute(&incorrect_commit1, &config.release_rules).is_err());
    assert!(analyzer.execute(&incorrect_commit2, &config.release_rules).is_err());
}

// Retrieves a correct `ReleaseAction` from given commits
#[test]
fn tests_test_can_run() {
    let mut correct_messages_major_release = vec![
        Commit::new("break: add a function".to_string(), "somehash".to_string()),
        Commit::new("style: some ref".to_string(), "somehash".to_string()),
        Commit::new("broke: some change".to_string(), "somehash".to_string()),
        Commit::new("feat: a cool feature".to_string(), "somehash".to_string()),
    ];

    let mut correct_messages_patch_release = vec![
        Commit::new("style: documentation".to_string(), "somehash".to_string()),
        Commit::new("style: some ref".to_string(), "somehash".to_string()),
        Commit::new("broke: some change".to_string(), "somehash".to_string()),
    ];

    let mut correct_no_release: Vec<Commit> = vec![];

    let analyzer = CommitAnalyzerPlugin::new();

    assert_eq!(
        analyzer.run(&mut correct_messages_major_release).unwrap(),
        Some(ReleaseAction::Major)
    );

    assert_eq!(correct_messages_major_release[0].release_action, Some(ReleaseAction::Major));
    assert_eq!(correct_messages_major_release[1].release_action, Some(ReleaseAction::Patch));
    assert_eq!(correct_messages_major_release[2].release_action, None);
    assert_eq!(correct_messages_major_release[3].release_action, Some(ReleaseAction::Minor));

    assert_eq!(
        analyzer.run(&mut correct_messages_patch_release).unwrap(),
        Some(ReleaseAction::Patch)
    );

    assert!(analyzer.run(&mut correct_no_release).unwrap().is_none());
}

#[test]
fn batch_with_every_level_decides_major() {
    let analyzer = CommitAnalyzerPlugin::new();
    let mut commits = commits_of(&["break: drop old api", "feat: add x", "fix: typo"]);
    assert_eq!(analyzer.run(&mut commits).unwrap(), Some(ReleaseAction::Major));
    assert_eq!(commits[0].release_action, Some(ReleaseAction::Major));
    assert_eq!(commits[1].release_action, Some(ReleaseAction::Minor));
    assert_eq!(commits[2].release_action, Some(ReleaseAction::Patch));
    assert_eq!(commits[0].message, "break: drop old api");
    assert_eq!(commits[2].hash, "somehash");
}

#[test]
fn descriptions_must_end_in_lowercase_or_digit() {
    // The built-in grammars end in `[a-z0-9]$`: "API" and "X" end the two first
    // descriptions in capitals, so only the last message matches a rule.
    let analyzer = CommitAnalyzerPlugin::new();
    let mut commits = commits_of(&["break: drop old API", "feat: add X", "fix: typo"]);
    assert_eq!(analyzer.run(&mut commits).unwrap(), Some(ReleaseAction::Patch));
    assert_eq!(commits[0].release_action, None);
    assert_eq!(commits[1].release_action, None);
    assert_eq!(commits[2].release_action, Some(ReleaseAction::Patch));
}

#[test]
fn unconventional_batch_decides_no_release() {
    let analyzer = CommitAnalyzerPlugin::new();
    let mut commits = commits_of(&["chore: nothing conventional"]);
    assert_eq!(analyzer.run(&mut commits).unwrap(), None);
    assert_eq!(commits[0].release_action, None);
}

#[test]
fn one_major_commit_outweighs_many_others() {
    let analyzer = CommitAnalyzerPlugin::new();
    let mut commits = commits_of(&[
        "feat: one", "feat: two", "fix: three", "fix: four", "docs: five", "break(api): six",
        "test: seven",
    ]);
    assert_eq!(analyzer.run(&mut commits).unwrap(), Some(ReleaseAction::Major));
    let mut reversed = commits_of(&["break(api): six", "feat: one", "fix: three"]);
    reversed.reverse();
    assert_eq!(analyzer.run(&mut reversed).unwrap(), Some(ReleaseAction::Major));
}

#[test]
fn minor_outweighs_patch() {
    let analyzer = CommitAnalyzerPlugin::new();
    let mut commits = commits_of(&["fix: a", "fix: b", "ci: c", "merge branch"]);
    assert_eq!(analyzer.run(&mut commits).unwrap(), Some(ReleaseAction::Minor));
    assert_eq!(commits[3].release_action, None);
}

#[test]
fn unmatched_commit_keeps_its_release_action() {
    let analyzer = CommitAnalyzerPlugin::new();
    let mut commit = Commit::new("Merge pull request".to_string(), "h".to_string());
    commit.release_action = Some(ReleaseAction::Minor);
    let mut commits = vec![commit];
    assert_eq!(analyzer.run(&mut commits).unwrap(), None);
    assert_eq!(commits[0].release_action, Some(ReleaseAction::Minor));
}

#[test]
fn classification_follows_default_grammars() {
    let analyzer = CommitAnalyzerPlugin::new();
    let rules = &analyzer.configuration.release_rules;
    let cases = [
        ("break: x", Some(ReleaseAction::Major)),
        ("break(core): remove a function", Some(ReleaseAction::Major)),
        ("build: bump 2", Some(ReleaseAction::Minor)),
        ("ci: add a workflow", Some(ReleaseAction::Minor)),
        ("docs: explain", Some(ReleaseAction::Minor)),
        ("perf: faster", Some(ReleaseAction::Patch)),
        ("refac: tidy", Some(ReleaseAction::Patch)),
        ("sec: harden", Some(ReleaseAction::Patch)),
        ("test: cover", Some(ReleaseAction::Patch)),
        ("feat: ends with a capital X", None),
        ("feat(): empty scope", None),
        ("feat:no space", None),
        ("Feat: capital type", None),
    ];
    for (message, expected) in cases {
        let commit = Commit::new(message.to_string(), "h".to_string());
        match expected {
            Some(level) => assert_eq!(analyzer.execute(&commit, rules).unwrap(), level, "{message}"),
            None => assert!(
                matches!(analyzer.execute(&commit, rules), Err(CommitAnalyzerError::ErrorNoMatching())),
                "{message}"
            ),
        }
    }
}

fn rule(format: ReleaseRuleFormat, grammar: &str) -> ReleaseRule {
    ReleaseRule { format, grammar: grammar.to_string() }
}

#[test]
fn peg_rule_fails_the_classification() {
    let mut analyzer = CommitAnalyzerPlugin::new();
    analyzer.configuration.release_rules.minor = rule(ReleaseRuleFormat::Peg, "feat");
    let rules = analyzer.configuration.release_rules.clone();
    // The major rule decides before the minor one is tried.
    let major = Commit::new("break: x".to_string(), "h".to_string());
    assert_eq!(analyzer.execute(&major, &rules).unwrap(), ReleaseAction::Major);
    let other = Commit::new("fix: y".to_string(), "h".to_string());
    assert!(matches!(
        analyzer.execute(&other, &rules),
        Err(CommitAnalyzerError::ConfigurationError(ConfigurationError::NotImplemented()))
    ));
}

#[test]
fn broken_grammar_aborts_the_batch() {
    let mut analyzer = CommitAnalyzerPlugin::new();
    analyzer.configuration.release_rules.patch = rule(ReleaseRuleFormat::Regex, "^(fix");
    let mut commits = commits_of(&["break: a", "feat: b", "chore: c"]);
    let result = analyzer.run(&mut commits);
    assert!(matches!(
        result,
        Err(CommitAnalyzerError::ConfigurationError(ConfigurationError::RegexError(_)))
    ));
    // No commit is annotated when the batch fails.
    assert!(commits.iter().all(|c| c.release_action.is_none()));
}

#[test]
fn aggregate_levels_keeps_the_highest_counted_level() {
    let (major, minor, patch) = (ReleaseAction::Major, ReleaseAction::Minor, ReleaseAction::Patch);
    assert_eq!(aggregate_levels(&vec![]), None);
    assert_eq!(aggregate_levels(&vec![None, None]), None);
    assert_eq!(aggregate_levels(&vec![Some(patch), None]), Some(patch));
    assert_eq!(aggregate_levels(&vec![Some(patch), Some(minor), Some(patch)]), Some(minor));
    assert_eq!(aggregate_levels(&vec![Some(patch), Some(minor), Some(major)]), Some(major));
    assert_eq!(aggregate_levels(&vec![Some(major), Some(minor), Some(minor), Some(minor)]), Some(major));
}

fn entry(key: &str, format: &str, grammar: &str) -> RuleEntry {
    RuleEntry { key: key.to_string(), format: format.to_string(), grammar: grammar.to_string() }
}

#[test]
fn configured_rules_classify_commits() {
    let mut analyzer = CommitAnalyzerPlugin::new();
    let entries = vec![
        entry("major", "regex", r"^(?P<type>break){1}(?P<scope>\(\S.*\S\))?:\s.*[a-z0-9]$"),
        entry("minor", "regex", r"^(?P<type>feat|refac){1}(?P<scope>\(\S.*\S\))?:\s.*[a-z0-9]$"),
        entry("patch", "regex", r"^(?P<type>fix){1}(?P<scope>\(\S.*\S\))?:\s.*[a-z0-9]$"),
    ];
    analyzer.with_configuration(&entries).unwrap();
    let mut commits = commits_of(&["refac: tidy", "style: spaces", "fix: typo"]);
    assert_eq!(analyzer.run(&mut commits).unwrap(), Some(ReleaseAction::Minor));
    assert_eq!(commits[1].release_action, None);
}

#[test]
fn failed_configuration_keeps_the_rules() {
    let mut analyzer = CommitAnalyzerPlugin::new();
    let entries = vec![entry("major", "regex", "^break: .*$")];
    let result = analyzer.with_configuration(&entries);
    assert!(matches!(
        result,
        Err(CommitAnalyzerError::ConfigurationError(ConfigurationError::MissingReleaseLevel(ref k))) if k == "minor"
    ));
    assert_eq!(analyzer.configuration.release_rules.major.grammar, sleppa::MAJOR_GRAMMAR);
}

#[test]
fn broken_configured_grammar_stops_setup() {
    let mut analyzer = CommitAnalyzerPlugin::new();
    let entries = vec![
        entry("major", "regex", "^break: .*$"),
        entry("minor", "regex", "^feat: .*$"),
        entry("patch", "regex", "^(fix"),
    ];
    let result = analyzer.with_configuration(&entries);
    assert!(matches!(
        result,
        Err(CommitAnalyzerError::ConfigurationError(ConfigurationError::InvalidGrammar(ref k, _))) if k == "patch"
    ));
    assert_eq!(analyzer.configuration.release_rules.patch.grammar, sleppa::PATCH_GRAMMAR);
}

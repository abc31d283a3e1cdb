//! The rule set: one classification rule per release level.
use vstd::prelude::*;

use crate::grammar::{regex_accepts, regex_compiles, regex_match};
use crate::level::{level_key, ReleaseAction};
use crate::primitives::Commit;

verus! {

/// Grammar of the built-in major rule.
pub const MAJOR_GRAMMAR: &'static str = r"^(?P<type>break){1}(?P<scope>\(\S.*\S\))?:\s.*[a-z0-9]$";

/// Grammar of the built-in minor rule.
pub const MINOR_GRAMMAR: &'static str =
    r"^(?P<type>build|ci|docs|feat){1}(?P<scope>\(\S.*\S\))?:\s.*[a-z0-9]$";

/// Grammar of the built-in patch rule.
pub const PATCH_GRAMMAR: &'static str =
    r"^(?P<type>fix|perf|refac|sec|style|test){1}(?P<scope>\(\S.*\S\))?:\s.*[a-z0-9]$";

/// Errors of a rule set: while it is loaded, or while one of its rules is applied.
#[derive(Debug)]
pub enum ConfigurationError {
    /// A rule's grammar did not compile when the rule was applied to a message.
    RegexError(regex::Error),
    /// The message does not match the rule's grammar.
    ErrorNoMatch(),
    /// The rule's grammar is written in the PEG format, which is not supported.
    NotImplemented(),
    /// The document has no rule for the named level (`major`, `minor` or `patch`).
    MissingReleaseLevel(String),
    /// A rule's format is neither `regex` nor `peg`.
    UnknownFormat(String),
    /// The rule of the named level has an empty grammar.
    EmptyGrammar(String),
    /// The rule of the named level is a regular expression that does not compile.
    InvalidGrammar(String, regex::Error),
}

/// The notation in which a rule's grammar is written.
#[derive(Debug, PartialEq, Eq, Structural, Clone, Copy)]
pub enum ReleaseRuleFormat {
    /// A regular expression.
    Regex,
    /// A parsing expression grammar; reserved, not supported.
    Peg,
}

/// A classification rule: a grammar and the notation it is written in.
#[derive(Debug, Clone)]
pub struct ReleaseRule {
    /// The notation of the grammar.
    pub format: ReleaseRuleFormat,
    /// The grammar that a commit message is matched against.
    pub grammar: String,
}

/// What applying a rule to a message gives.
pub enum RuleOutcome {
    /// The message matches the rule.
    Matched,
    /// The message does not match the rule.
    Unmatched,
    /// The rule cannot be applied: its grammar does not compile, or its format is not
    /// supported.
    Fault,
}

/// The outcome of applying `rule` to `message`.
pub open spec fn rule_outcome(rule: ReleaseRule, message: Seq<char>) -> RuleOutcome {
    match rule.format {
        ReleaseRuleFormat::Peg => RuleOutcome::Fault,
        ReleaseRuleFormat::Regex => {
            if !regex_compiles(rule.grammar@) {
                RuleOutcome::Fault
            } else if regex_accepts(rule.grammar@, message) {
                RuleOutcome::Matched
            } else {
                RuleOutcome::Unmatched
            }
        },
    }
}

/// `e` is the error that applying `rule` gives when it cannot be applied.
pub open spec fn is_fault_of(rule: ReleaseRule, e: ConfigurationError) -> bool {
    match rule.format {
        ReleaseRuleFormat::Peg => e is NotImplemented,
        ReleaseRuleFormat::Regex => e is RegexError,
    }
}

impl ReleaseRule {
    /// Checks a commit message against the rule's grammar: `Ok` when it matches,
    /// `ErrorNoMatch` when it does not, and the fault when the rule cannot be applied.
    pub fn handle(&self, commit: &Commit) -> (r: Result<(), ConfigurationError>)
        ensures
            match rule_outcome(*self, commit.message@) {
                RuleOutcome::Matched => r is Ok,
                RuleOutcome::Unmatched => r matches Err(e) && e is ErrorNoMatch,
                RuleOutcome::Fault => r matches Err(e) && is_fault_of(*self, e),
            },
    {
        match self.format {
            ReleaseRuleFormat::Regex => match regex_match(self.grammar.as_str(), commit.message.as_str()) {
                Ok(true) => Ok(()),
                Ok(false) => Err(ConfigurationError::ErrorNoMatch()),
                Err(err) => Err(ConfigurationError::RegexError(err)),
            },
            ReleaseRuleFormat::Peg => Err(ConfigurationError::NotImplemented()),
        }
    }
}

/// The rule set: one rule for each release level.
#[derive(Debug, Clone)]
pub struct ReleaseRules {
    /// The rule of major releases.
    pub major: ReleaseRule,
    /// The rule of minor releases.
    pub minor: ReleaseRule,
    /// The rule of patch releases.
    pub patch: ReleaseRule,
}

/// The rule that `rules` holds for `level`.
pub open spec fn rule_for(rules: ReleaseRules, level: ReleaseAction) -> ReleaseRule {
    match level {
        ReleaseAction::Major => rules.major,
        ReleaseAction::Minor => rules.minor,
        ReleaseAction::Patch => rules.patch,
    }
}

impl ReleaseRules {
    /// The rule for a release level.
    pub fn get(&self, level: &ReleaseAction) -> (r: &ReleaseRule)
        ensures
            *r == rule_for(*self, *level),
    {
        match level {
            ReleaseAction::Major => &self.major,
            ReleaseAction::Minor => &self.minor,
            ReleaseAction::Patch => &self.patch,
        }
    }
}

/// The configuration of the commit analyzer: its rule set.
#[derive(Debug, Clone)]
pub struct CommitAnalyzerConfiguration {
    /// The rule of each release level.
    pub release_rules: ReleaseRules,
}

/// The built-in rule set: `break` calls for a major release; `build`, `ci`, `docs` and
/// `feat` for a minor one; `fix`, `perf`, `refac`, `sec`, `style` and `test` for a patch.
pub open spec fn is_default_rules(rules: ReleaseRules) -> bool {
    &&& rules.major.format is Regex && rules.major.grammar@ == MAJOR_GRAMMAR@
    &&& rules.minor.format is Regex && rules.minor.grammar@ == MINOR_GRAMMAR@
    &&& rules.patch.format is Regex && rules.patch.grammar@ == PATCH_GRAMMAR@
}

impl Default for CommitAnalyzerConfiguration {
    /// The configuration with the built-in rule set.
    fn default() -> (r: CommitAnalyzerConfiguration)
        ensures
            is_default_rules(r.release_rules),
    {
        CommitAnalyzerConfiguration {
            release_rules: ReleaseRules {
                major: ReleaseRule {
                    format: ReleaseRuleFormat::Regex,
                    grammar: String::from_str(MAJOR_GRAMMAR),
                },
                minor: ReleaseRule {
                    format: ReleaseRuleFormat::Regex,
                    grammar: String::from_str(MINOR_GRAMMAR),
                },
                patch: ReleaseRule {
                    format: ReleaseRuleFormat::Regex,
                    grammar: String::from_str(PATCH_GRAMMAR),
                },
            },
        }
    }
}

/// One `<level> = { format = "...", grammar = "..." }` item of the `release_rules` table
/// of a configuration document, as read from it.
#[derive(Debug, Clone)]
pub struct RuleEntry {
    /// The key of the item, `major`, `minor` or `patch` for the items that count.
    pub key: String,
    /// The format of the rule, `regex` or `peg`.
    pub format: String,
    /// The grammar of the rule.
    pub grammar: String,
}

/// Whether `f` names a format: `regex` or `peg`.
pub open spec fn known_format(f: Seq<char>) -> bool {
    f == "regex"@ || f == "peg"@
}

/// The format that a known format name stands for.
pub open spec fn format_named(f: Seq<char>) -> ReleaseRuleFormat {
    if f == "regex"@ {
        ReleaseRuleFormat::Regex
    } else {
        ReleaseRuleFormat::Peg
    }
}

/// Every entry names a known format.
pub open spec fn formats_known(entries: Seq<RuleEntry>) -> bool {
    forall|i: int| 0 <= i < entries.len() ==> known_format(#[trigger] entries[i].format@)
}

/// `i` is the first entry whose key is `key`.
pub open spec fn is_first_with_key(entries: Seq<RuleEntry>, key: Seq<char>, i: int) -> bool {
    &&& 0 <= i < entries.len()
    &&& entries[i].key@ == key
    &&& forall|j: int| 0 <= j < i ==> (#[trigger] entries[j].key@) != key
}

/// Some entry has the key of `level`; keys are compared exactly, case included.
pub open spec fn has_level(entries: Seq<RuleEntry>, level: ReleaseAction) -> bool {
    exists|i: int| 0 <= i < entries.len() && (#[trigger] entries[i].key@) == level_key(level)
}

/// The entry that gives the rule of `level`: the first with its key.
pub open spec fn entry_for(entries: Seq<RuleEntry>, level: ReleaseAction) -> RuleEntry {
    entries[choose|i: int| is_first_with_key(entries, level_key(level), i)]
}

/// The first of major, minor and patch that has no entry.
pub open spec fn first_missing(entries: Seq<RuleEntry>) -> Option<ReleaseAction> {
    if !has_level(entries, ReleaseAction::Major) {
        Some(ReleaseAction::Major)
    } else if !has_level(entries, ReleaseAction::Minor) {
        Some(ReleaseAction::Minor)
    } else if !has_level(entries, ReleaseAction::Patch) {
        Some(ReleaseAction::Patch)
    } else {
        None
    }
}

/// The first of major, minor and patch whose entry has an empty grammar.
pub open spec fn first_empty(entries: Seq<RuleEntry>) -> Option<ReleaseAction> {
    if entry_for(entries, ReleaseAction::Major).grammar@.len() == 0 {
        Some(ReleaseAction::Major)
    } else if entry_for(entries, ReleaseAction::Minor).grammar@.len() == 0 {
        Some(ReleaseAction::Minor)
    } else if entry_for(entries, ReleaseAction::Patch).grammar@.len() == 0 {
        Some(ReleaseAction::Patch)
    } else {
        None
    }
}

/// The grammar of `entry` can be used in its format: a PEG grammar, or a regular
/// expression that compiles.
pub open spec fn grammar_valid(entry: RuleEntry) -> bool {
    format_named(entry.format@) is Peg || regex_compiles(entry.grammar@)
}

/// The first of major, minor and patch whose entry's grammar cannot be used.
pub open spec fn first_invalid(entries: Seq<RuleEntry>) -> Option<ReleaseAction> {
    if !grammar_valid(entry_for(entries, ReleaseAction::Major)) {
        Some(ReleaseAction::Major)
    } else if !grammar_valid(entry_for(entries, ReleaseAction::Minor)) {
        Some(ReleaseAction::Minor)
    } else if !grammar_valid(entry_for(entries, ReleaseAction::Patch)) {
        Some(ReleaseAction::Patch)
    } else {
        None
    }
}

/// `rule` is the rule that `entry` describes.
pub open spec fn rule_of_entry(rule: ReleaseRule, entry: RuleEntry) -> bool {
    rule.format == format_named(entry.format@) && rule.grammar@ == entry.grammar@
}

/// `rules` holds, for each level, the rule that its entry describes.
pub open spec fn rules_of_entries(rules: ReleaseRules, entries: Seq<RuleEntry>) -> bool {
    &&& rule_of_entry(rules.major, entry_for(entries, ReleaseAction::Major))
    &&& rule_of_entry(rules.minor, entry_for(entries, ReleaseAction::Minor))
    &&& rule_of_entry(rules.patch, entry_for(entries, ReleaseAction::Patch))
}

/// The entries describe a complete rule set.
pub open spec fn loads(entries: Seq<RuleEntry>) -> bool {
    &&& formats_known(entries)
    &&& first_missing(entries) is None
    &&& first_empty(entries) is None
    &&& first_invalid(entries) is None
}

/// `e` is the error of loading entries that do not describe a complete rule set: an
/// unknown format first, then a missing level, then an empty grammar.
pub open spec fn is_load_error(entries: Seq<RuleEntry>, e: ConfigurationError) -> bool {
    if !formats_known(entries) {
        e matches ConfigurationError::UnknownFormat(f) && exists|i: int|
            0 <= i < entries.len() && !known_format(#[trigger] entries[i].format@) && f@
                == entries[i].format@
    } else if first_missing(entries) is Some {
        e matches ConfigurationError::MissingReleaseLevel(k) && k@ == level_key(
            first_missing(entries)->Some_0,
        )
    } else if first_empty(entries) is Some {
        e matches ConfigurationError::EmptyGrammar(k) && k@ == level_key(first_empty(entries)->Some_0)
    } else {
        e matches ConfigurationError::InvalidGrammar(k, _) && k@ == level_key(
            first_invalid(entries)->Some_0,
        )
    }
}

proof fn lemma_first_with_key_unique(entries: Seq<RuleEntry>, key: Seq<char>, i: int, j: int)
    requires
        is_first_with_key(entries, key, i),
        is_first_with_key(entries, key, j),
    ensures
        i == j,
{
    if i < j {
        assert(entries[i].key@ != key);
    } else if j < i {
        assert(entries[j].key@ != key);
    }
}

/// The format that a format name stands for, if it names one.
fn parse_format(name: &String) -> (r: Option<ReleaseRuleFormat>)
    ensures
        r is Some <==> known_format(name@),
        r matches Some(f) ==> f == format_named(name@),
{
    let regex = String::from_str("regex");
    let peg = String::from_str("peg");
    if *name == regex {
        Some(ReleaseRuleFormat::Regex)
    } else if *name == peg {
        Some(ReleaseRuleFormat::Peg)
    } else {
        None
    }
}

/// The key under which the rule of `level` is written.
fn level_name(level: ReleaseAction) -> (r: String)
    ensures
        r@ == level_key(level),
{
    let r = match level {
        ReleaseAction::Major => String::from_str("major"),
        ReleaseAction::Minor => String::from_str("minor"),
        ReleaseAction::Patch => String::from_str("patch"),
    };
    proof {
        reveal_strlit("major");
        reveal_strlit("minor");
        reveal_strlit("patch");
    }
    assert(r@ =~= level_key(level));
    r
}

/// The index of the entry that gives the rule of `level`, if any.
fn find_level(entries: &Vec<RuleEntry>, level: ReleaseAction) -> (r: Option<usize>)
    ensures
        r is Some <==> has_level(entries@, level),
        r matches Some(i) ==> is_first_with_key(entries@, level_key(level), i as int)
            && entries@[i as int] == entry_for(entries@, level),
{
    let key = level_name(level);
    let mut i: usize = 0;
    while i < entries.len()
        invariant
            i <= entries@.len(),
            key@ == level_key(level),
            forall|j: int| 0 <= j < i ==> (#[trigger] entries@[j].key@) != key@,
        decreases entries@.len() - i,
    {
        if entries[i].key == key {
            proof {
                let k = choose|k: int| is_first_with_key(entries@, level_key(level), k);
                assert(is_first_with_key(entries@, level_key(level), i as int));
                lemma_first_with_key_unique(entries@, level_key(level), i as int, k);
            }
            return Some(i);
        }
        i = i + 1;
    }
    None
}

impl CommitAnalyzerConfiguration {
    /// Builds a rule set from the items of a configuration document's `release_rules`
    /// table.
    ///
    /// Fails with `UnknownFormat` when an item's format is neither `regex` nor `peg`;
    /// otherwise with `MissingReleaseLevel` when one of `major`, `minor` and `patch` has
    /// no item (keys are case-sensitive: `Major` is not `major`); otherwise with
    /// `EmptyGrammar` when the rule of a level has an empty grammar; otherwise with
    /// `InvalidGrammar` when the rule of a level is a regular expression that does not
    /// compile. Items with other
    /// keys are ignored; where a key comes twice, the first item counts.
    pub fn load(entries: &Vec<RuleEntry>) -> (r: Result<CommitAnalyzerConfiguration, ConfigurationError>)
        ensures
            r is Ok <==> loads(entries@),
            r matches Ok(c) ==> rules_of_entries(c.release_rules, entries@),
            r matches Err(e) ==> is_load_error(entries@, e),
    {
        let mut i: usize = 0;
        while i < entries.len()
            invariant
                i <= entries@.len(),
                forall|j: int| 0 <= j < i ==> known_format(#[trigger] entries@[j].format@),
            decreases entries@.len() - i,
        {
            if parse_format(&entries[i].format).is_none() {
                return Err(ConfigurationError::UnknownFormat(entries[i].format.clone()));
            }
            i = i + 1;
        }
        let major = match find_level(entries, ReleaseAction::Major) {
            Some(k) => k,
            None => return Err(ConfigurationError::MissingReleaseLevel(level_name(ReleaseAction::Major))),
        };
        let minor = match find_level(entries, ReleaseAction::Minor) {
            Some(k) => k,
            None => return Err(ConfigurationError::MissingReleaseLevel(level_name(ReleaseAction::Minor))),
        };
        let patch = match find_level(entries, ReleaseAction::Patch) {
            Some(k) => k,
            None => return Err(ConfigurationError::MissingReleaseLevel(level_name(ReleaseAction::Patch))),
        };
        if entries[major].grammar.as_str().unicode_len() == 0 {
            return Err(ConfigurationError::EmptyGrammar(level_name(ReleaseAction::Major)));
        }
        if entries[minor].grammar.as_str().unicode_len() == 0 {
            return Err(ConfigurationError::EmptyGrammar(level_name(ReleaseAction::Minor)));
        }
        if entries[patch].grammar.as_str().unicode_len() == 0 {
            return Err(ConfigurationError::EmptyGrammar(level_name(ReleaseAction::Patch)));
        }
        check_grammar(&entries[major], ReleaseAction::Major)?;
        check_grammar(&entries[minor], ReleaseAction::Minor)?;
        check_grammar(&entries[patch], ReleaseAction::Patch)?;
        let major_rule = rule_of(&entries[major]);
        let minor_rule = rule_of(&entries[minor]);
        let patch_rule = rule_of(&entries[patch]);
        Ok(CommitAnalyzerConfiguration {
            release_rules: ReleaseRules { major: major_rule, minor: minor_rule, patch: patch_rule },
        })
    }
}

impl CommitAnalyzerConfiguration {
    /// The rule set of a configuration document when there is one, and the built-in
    /// rule set when there is none.
    pub fn load_or_default(entries: Option<&Vec<RuleEntry>>) -> (r: Result<CommitAnalyzerConfiguration, ConfigurationError>)
        ensures
            entries is None ==> (r matches Ok(c) && is_default_rules(c.release_rules)),
            entries matches Some(e) ==> (r is Ok <==> loads(e@)),
            entries matches Some(e) ==> (r matches Ok(c) ==> rules_of_entries(c.release_rules, e@)),
            entries matches Some(e) ==> (r matches Err(err) ==> is_load_error(e@, err)),
    {
        match entries {
            Some(e) => CommitAnalyzerConfiguration::load(e),
            None => Ok(CommitAnalyzerConfiguration::default()),
        }
    }
}

/// Checks that the grammar of the entry for `level` can be used in its format, by
/// compiling it when it is a regular expression.
fn check_grammar(entry: &RuleEntry, level: ReleaseAction) -> (r: Result<(), ConfigurationError>)
    requires
        known_format(entry.format@),
    ensures
        r is Ok <==> grammar_valid(*entry),
        r matches Err(e) ==> (e matches ConfigurationError::InvalidGrammar(k, _) && k@ == level_key(
            level,
        )),
{
    match parse_format(&entry.format) {
        Some(ReleaseRuleFormat::Regex) => match regex_match(entry.grammar.as_str(), "") {
            Ok(_) => Ok(()),
            Err(err) => Err(ConfigurationError::InvalidGrammar(level_name(level), err)),
        },
        _ => Ok(()),
    }
}

/// The rule that an entry with a known format describes.
fn rule_of(entry: &RuleEntry) -> (r: ReleaseRule)
    requires
        known_format(entry.format@),
    ensures
        rule_of_entry(r, *entry),
{
    let format = match parse_format(&entry.format) {
        Some(f) => f,
        None => ReleaseRuleFormat::Regex,
    };
    ReleaseRule { format, grammar: entry.grammar.clone() }
}

} // verus!

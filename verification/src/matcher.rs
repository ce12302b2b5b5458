//! Deciding which rule, if any, is for a process.

use crate::config::{Config, MatcherConfig, MatcherConfigView, ProcessConfig, ProcessConfigView};
use crate::text::{
    count_run, find, first_occurrence, occurs, same_text, starts_with, text_between, to_chars,
    trim_start_of, CharClass,
};
use vstd::prelude::*;
use vstd::string::StringExecFns;

verus! {

/// The text a rule looks for: its `match_string` as it is written, or else its
/// binary path followed by one space.
pub open spec fn pattern_of(rule: ProcessConfigView) -> Seq<char> {
    match rule.matcher.match_string {
        Some(match_string) => match_string,
        None => rule.bin.push(' '),
    }
}

/// The command line from the leftmost occurrence of `pattern` on, without
/// leading white space; the whole command line where `pattern` does not occur.
pub open spec fn strip_path_of(cmd: Seq<char>, pattern: Seq<char>) -> Seq<char> {
    if occurs(cmd, pattern) {
        trim_start_of(cmd.skip(first_occurrence(cmd, pattern)))
    } else {
        cmd
    }
}

/// The command line as it is compared: stripped where the matcher asks for it.
pub open spec fn prepared(cmd: Seq<char>, pattern: Seq<char>, matcher: MatcherConfigView) -> Seq<
    char,
> {
    if matcher.strip_path == Some(true) {
        strip_path_of(cmd, pattern)
    } else {
        cmd
    }
}

/// Whether the prepared command line begins with `pattern`.
pub open spec fn simple_match(cmd: Seq<char>, pattern: Seq<char>, matcher: MatcherConfigView) -> bool {
    pattern.is_prefix_of(prepared(cmd, pattern, matcher))
}

/// Whether `rule` is for a process with this command line and owner.
pub open spec fn rule_matches(cmd: Seq<char>, owner: Seq<char>, rule: ProcessConfigView) -> bool {
    &&& rule.owner matches Some(rule_owner) ==> rule_owner == owner
    &&& rule.matcher.kind == "simple"@
    &&& simple_match(cmd, pattern_of(rule), rule.matcher)
}

/// Whether `index` is the first rule of `rules` that is for the process.
pub open spec fn is_first_match(
    cmd: Seq<char>,
    owner: Seq<char>,
    rules: Seq<ProcessConfigView>,
    index: int,
) -> bool {
    &&& 0 <= index < rules.len()
    &&& rule_matches(cmd, owner, rules[index])
    &&& forall|earlier: int| 0 <= earlier < index ==> !rule_matches(cmd, owner, #[trigger] rules[earlier])
}

/// The index of the rule that decides for the process: the first that matches.
pub open spec fn matched_rule(cmd: Seq<char>, owner: Seq<char>, rules: Seq<ProcessConfigView>) -> Option<
    int,
> {
    if exists|index: int| is_first_match(cmd, owner, rules, index) {
        Some(choose|index: int| is_first_match(cmd, owner, rules, index))
    } else {
        None
    }
}

/// A first match is the one `matched_rule` names.
pub proof fn lemma_matched_rule(
    cmd: Seq<char>,
    owner: Seq<char>,
    rules: Seq<ProcessConfigView>,
    index: int,
)
    requires
        is_first_match(cmd, owner, rules, index),
    ensures
        matched_rule(cmd, owner, rules) == Some(index),
{
    let chosen = choose|index: int| is_first_match(cmd, owner, rules, index);
    assert(is_first_match(cmd, owner, rules, chosen));
    if chosen < index {
        assert(!rule_matches(cmd, owner, rules[chosen]));
    } else if index < chosen {
        assert(!rule_matches(cmd, owner, rules[index]));
    }
}

/// Where no rule matches, `matched_rule` names none.
pub proof fn lemma_no_matched_rule(cmd: Seq<char>, owner: Seq<char>, rules: Seq<ProcessConfigView>)
    requires
        forall|index: int| 0 <= index < rules.len() ==> !rule_matches(cmd, owner, #[trigger] rules[index]),
    ensures
        matched_rule(cmd, owner, rules) is None,
{
}

/// The rule that `matched_rule` names is a rule that matches.
pub proof fn lemma_matched_rule_matches(
    cmd: Seq<char>,
    owner: Seq<char>,
    rules: Seq<ProcessConfigView>,
)
    ensures
        matched_rule(cmd, owner, rules) matches Some(index) ==> is_first_match(
            cmd,
            owner,
            rules,
            index,
        ),
        matched_rule(cmd, owner, rules) is None ==> forall|index: int|
            0 <= index < rules.len() ==> !rule_matches(cmd, owner, #[trigger] rules[index]),
{
    if matched_rule(cmd, owner, rules) is None {
        assert forall|index: int| 0 <= index < rules.len() implies !rule_matches(
            cmd,
            owner,
            #[trigger] rules[index],
        ) by {
            if rule_matches(cmd, owner, rules[index]) {
                lemma_some_rule_matches(cmd, owner, rules, index);
            }
        }
    }
}

/// Where some rule matches, a first one does.
pub proof fn lemma_some_rule_matches(
    cmd: Seq<char>,
    owner: Seq<char>,
    rules: Seq<ProcessConfigView>,
    index: int,
)
    requires
        0 <= index < rules.len(),
        rule_matches(cmd, owner, rules[index]),
    ensures
        matched_rule(cmd, owner, rules) is Some,
    decreases index,
{
    if forall|earlier: int|
        0 <= earlier < index ==> !rule_matches(cmd, owner, #[trigger] rules[earlier]) {
        assert(is_first_match(cmd, owner, rules, index));
    } else {
        let earlier = choose|earlier: int|
            0 <= earlier < index && rule_matches(cmd, owner, #[trigger] rules[earlier]);
        lemma_some_rule_matches(cmd, owner, rules, earlier);
    }
}

/// A rule of another kind than `simple` is never the rule that matches,
/// whatever the command line and the owner are.
pub proof fn lemma_only_simple_rules_match(
    cmd: Seq<char>,
    owner: Seq<char>,
    rules: Seq<ProcessConfigView>,
    index: int,
)
    requires
        0 <= index < rules.len(),
        rules[index].matcher.kind != "simple"@,
    ensures
        !rule_matches(cmd, owner, rules[index]),
        matched_rule(cmd, owner, rules) != Some(index),
{
    lemma_matched_rule_matches(cmd, owner, rules);
}

/// A rule that names an owner is never the rule that matches a process of
/// another owner, whatever the command line is.
pub proof fn lemma_owner_must_agree(
    cmd: Seq<char>,
    owner: Seq<char>,
    rules: Seq<ProcessConfigView>,
    index: int,
)
    requires
        0 <= index < rules.len(),
        rules[index].owner matches Some(rule_owner) && rule_owner != owner,
    ensures
        !rule_matches(cmd, owner, rules[index]),
        matched_rule(cmd, owner, rules) != Some(index),
{
    lemma_matched_rule_matches(cmd, owner, rules);
}

/// The first rule that matches hides every later one: a rule after it is not
/// the rule that matches, though it may match by itself.
pub proof fn lemma_first_match_wins(
    cmd: Seq<char>,
    owner: Seq<char>,
    rules: Seq<ProcessConfigView>,
    first: int,
    later: int,
)
    requires
        0 <= first < later < rules.len(),
        rule_matches(cmd, owner, rules[first]),
    ensures
        matched_rule(cmd, owner, rules) is Some,
        matched_rule(cmd, owner, rules) != Some(later),
{
    lemma_some_rule_matches(cmd, owner, rules, first);
    lemma_matched_rule_matches(cmd, owner, rules);
}

/// Matches processes against the rules of a configuration.
pub struct ProcessMatcher<'a> {
    config: &'a Config,
}

impl<'a> View for ProcessMatcher<'a> {
    type V = Seq<ProcessConfigView>;

    /// The rules, in the order in which they are tried.
    closed spec fn view(&self) -> Seq<ProcessConfigView> {
        self.config@
    }
}

impl<'a> ProcessMatcher<'a> {
    /// A matcher over the rules of `config`.
    pub fn new(config: &'a Config) -> (matcher: Self)
        ensures
            matcher@ == config@,
    {
        ProcessMatcher { config }
    }

    /// The first rule that is for a process with this command line and owner,
    /// or none where no rule is.
    pub fn match_command(&self, command: &str, process_owner: &str) -> (found: Option<&ProcessConfig>)
        ensures
            match found {
                Some(rule) => exists|index: int|
                    matched_rule(command@, process_owner@, self@) == Some(index) && rule@
                        == self@[index],
                None => matched_rule(command@, process_owner@, self@) is None,
            },
    {
        match self.match_index(command, process_owner) {
            Some(index) => Some(&self.config.process[index]),
            None => None,
        }
    }

    /// The position of the first rule that is for a process with this command
    /// line and owner.
    pub fn match_index(&self, command: &str, process_owner: &str) -> (found: Option<usize>)
        ensures
            match found {
                Some(index) => matched_rule(command@, process_owner@, self@) == Some(index as int),
                None => matched_rule(command@, process_owner@, self@) is None,
            },
    {
        let rules = &self.config.process;
        let mut index: usize = 0;
        while index < rules.len()
            invariant
                rules == &self.config.process,
                index <= rules.len(),
                forall|earlier: int|
                    0 <= earlier < index ==> !rule_matches(
                        command@,
                        process_owner@,
                        #[trigger] self@[earlier],
                    ),
            decreases rules.len() - index,
        {
            if self.is_command_matched(command, process_owner, &rules[index]) {
                proof {
                    lemma_matched_rule(command@, process_owner@, self@, index as int);
                }
                return Some(index);
            }
            index += 1;
        }
        proof {
            lemma_no_matched_rule(command@, process_owner@, self@);
        }
        None
    }

    /// The text that `process_config` looks for.
    pub fn get_pattern(&self, process_config: &ProcessConfig) -> (pattern: String)
        ensures
            pattern@ == pattern_of(process_config@),
    {
        match &process_config.matcher.match_string {
            Some(match_string) => match_string.clone(),
            None => {
                let mut pattern = process_config.bin.clone();
                pattern.append(" ");
                proof {
                    reveal_strlit(" ");
                    assert(" "@ =~= seq![' ']);
                    assert(pattern@ =~= process_config.bin@.push(' '));
                }
                pattern
            },
        }
    }

    /// Cuts off `cmd` what stands before the leftmost occurrence of `pattern`,
    /// and then the white space it begins with. Where `pattern` does not occur,
    /// `cmd` comes back as it is.
    pub fn strip_path_from_command(&self, cmd: &str, pattern: &String) -> (stripped: String)
        ensures
            stripped@ == strip_path_of(cmd@, pattern@),
    {
        let text = to_chars(cmd);
        let wanted = to_chars(pattern.as_str());
        match find(&text, &wanted) {
            Some(at) => {
                let skipped = count_run(&text, at, text.len(), CharClass::Space);
                let kept = text_between(&text, at + skipped, text.len());
                proof {
                    assert(text@.subrange(at as int, text.len() as int) =~= cmd@.skip(at as int));
                    assert(kept@ =~= trim_start_of(cmd@.skip(at as int)));
                }
                kept
            },
            None => cmd.to_owned(),
        }
    }

    /// The command line as it is compared with `pattern`.
    pub fn prepare_command(&self, cmd: &str, pattern: &String, matcher: &MatcherConfig) -> (ready: String)
        ensures
            ready@ == prepared(cmd@, pattern@, matcher@),
    {
        let strip = match matcher.strip_path {
            Some(strip) => strip,
            None => false,
        };
        if strip {
            self.strip_path_from_command(cmd, pattern)
        } else {
            cmd.to_owned()
        }
    }

    /// Whether the prepared command line begins with `pattern`, character for
    /// character.
    pub fn match_simple(&self, cmd: &str, pattern: &String, matcher: &MatcherConfig) -> (matched: bool)
        ensures
            matched == simple_match(cmd@, pattern@, matcher@),
    {
        let cmd_to_check = self.prepare_command(cmd, pattern, matcher);
        let text = to_chars(cmd_to_check.as_str());
        let wanted = to_chars(pattern.as_str());
        starts_with(&text, &wanted)
    }

    /// Whether `process_config` is for a process with this command line and owner.
    pub fn is_command_matched(
        &self,
        cmd: &str,
        process_owner: &str,
        process_config: &ProcessConfig,
    ) -> (matched: bool)
        ensures
            matched == rule_matches(cmd@, process_owner@, process_config@),
    {
        if let Some(config_owner) = &process_config.owner {
            if !same_text(config_owner.as_str(), process_owner) {
                return false;
            }
        }
        let matcher = &process_config.matcher;
        let pattern = self.get_pattern(process_config);
        if same_text(matcher.kind.as_str(), "simple") {
            self.match_simple(cmd, &pattern, matcher)
        } else {
            false
        }
    }
}

} // verus!

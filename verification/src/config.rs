//! The rules an administrator writes, and how two sets of them are merged.

use crate::text::{same_text, text_of};
use vstd::prelude::*;
use vstd::string::StringExecFns;

verus! {

/// The value of a [`MatcherConfig`]: how a rule recognises a command line.
pub struct MatcherConfigView {
    pub kind: Seq<char>,
    pub match_string: Option<Seq<char>>,
    pub strip_path: Option<bool>,
}

/// The value of a [`ProcessConfig`]: one rule.
pub struct ProcessConfigView {
    pub name: Seq<char>,
    pub owner: Option<Seq<char>>,
    pub bin: Seq<char>,
    pub nice: i32,
    pub matcher: MatcherConfigView,
}

/// How a rule recognises a command line.
#[derive(Debug, PartialEq, Eq)]
pub struct MatcherConfig {
    /// The kind of comparison. Only `simple` is known; a rule of any other kind
    /// matches nothing.
    pub kind: String,
    /// The text to look for. Without it the rule looks for its binary path
    /// followed by one space.
    pub match_string: Option<String>,
    /// Whether what stands before the text is cut off the command line before
    /// the comparison. Absent means no.
    pub strip_path: Option<bool>,
}

/// One rule: which processes it is for, and the nice value they are to have.
#[derive(Debug, PartialEq, Eq)]
pub struct ProcessConfig {
    /// The rule's name, by which a user's rule replaces a system-wide one.
    pub name: String,
    /// The user whose processes the rule is for; absent, it is for everyone's.
    pub owner: Option<String>,
    /// The path of the binary.
    pub bin: String,
    /// The nice value to give.
    pub nice: i32,
    /// How the command line is recognised.
    pub matcher: MatcherConfig,
}

/// An ordered list of rules. The first rule that matches a process decides.
#[derive(Debug, PartialEq, Eq)]
pub struct Config {
    pub process: Vec<ProcessConfig>,
}

impl View for MatcherConfig {
    type V = MatcherConfigView;

    open spec fn view(&self) -> MatcherConfigView {
        MatcherConfigView {
            kind: self.kind@,
            match_string: text_of(self.match_string),
            strip_path: self.strip_path,
        }
    }
}

impl View for ProcessConfig {
    type V = ProcessConfigView;

    open spec fn view(&self) -> ProcessConfigView {
        ProcessConfigView {
            name: self.name@,
            owner: text_of(self.owner),
            bin: self.bin@,
            nice: self.nice,
            matcher: self.matcher@,
        }
    }
}

/// The values of a list of rules, in order.
pub open spec fn rules_of(rules: Seq<ProcessConfig>) -> Seq<ProcessConfigView> {
    rules.map_values(|rule: ProcessConfig| rule@)
}

impl View for Config {
    type V = Seq<ProcessConfigView>;

    open spec fn view(&self) -> Seq<ProcessConfigView> {
        rules_of(self.process@)
    }
}

impl Default for MatcherConfig {
    /// A matcher with an empty kind and nothing else set.
    fn default() -> (r: Self)
        ensures
            r@ == (MatcherConfigView { kind: Seq::empty(), match_string: None, strip_path: None }),
    {
        MatcherConfig { kind: String::new(), match_string: None, strip_path: None }
    }
}

impl Default for ProcessConfig {
    /// A rule with empty texts, no owner and the nice value 0.
    fn default() -> (r: Self)
        ensures
            r@ == (ProcessConfigView {
                name: Seq::empty(),
                owner: None,
                bin: Seq::empty(),
                nice: 0,
                matcher: MatcherConfigView {
                    kind: Seq::empty(),
                    match_string: None,
                    strip_path: None,
                },
            }),
    {
        ProcessConfig {
            name: String::new(),
            owner: None,
            bin: String::new(),
            nice: 0,
            matcher: MatcherConfig::default(),
        }
    }
}

impl Default for Config {
    /// The configuration without rules.
    fn default() -> (r: Self)
        ensures
            r@ == Seq::<ProcessConfigView>::empty(),
    {
        Config { process: Vec::new() }
    }
}

/// Whether `index` is the first rule of `rules` with the name `name`.
pub open spec fn is_first_named(rules: Seq<ProcessConfigView>, name: Seq<char>, index: int) -> bool {
    &&& 0 <= index < rules.len()
    &&& rules[index].name == name
    &&& forall|earlier: int| 0 <= earlier < index ==> (#[trigger] rules[earlier]).name != name
}

/// Whether a rule of `rules` has the name `name`.
pub open spec fn has_rule_named(rules: Seq<ProcessConfigView>, name: Seq<char>) -> bool {
    exists|index: int| is_first_named(rules, name, index)
}

/// The position of the first rule with the name `name`, where there is one.
pub open spec fn first_named(rules: Seq<ProcessConfigView>, name: Seq<char>) -> int {
    choose|index: int| is_first_named(rules, name, index)
}

/// A system-wide rule as a user's rule of the same name changes it: the user's
/// owner, nice value and matcher, under the name and binary path it had.
pub open spec fn overridden(rule: ProcessConfigView, by: ProcessConfigView) -> ProcessConfigView {
    ProcessConfigView { name: rule.name, owner: by.owner, bin: rule.bin, nice: by.nice, matcher: by.matcher }
}

/// `rules` with one more rule merged in: it changes the first rule of its
/// name, or comes last where there is none of its name.
pub open spec fn merge_rule(rules: Seq<ProcessConfigView>, rule: ProcessConfigView) -> Seq<
    ProcessConfigView,
> {
    if has_rule_named(rules, rule.name) {
        let at = first_named(rules, rule.name);
        rules.update(at, overridden(rules[at], rule))
    } else {
        rules.push(rule)
    }
}

/// `global` with the rules of `local` merged in, one after the other.
pub open spec fn merge_rules(global: Seq<ProcessConfigView>, local: Seq<ProcessConfigView>) -> Seq<
    ProcessConfigView,
>
    decreases local.len(),
{
    if local.len() == 0 {
        global
    } else {
        merge_rule(merge_rules(global, local.drop_last()), local.last())
    }
}

/// Whether no two rules of `rules` have one name.
pub open spec fn distinct_names(rules: Seq<ProcessConfigView>) -> bool {
    forall|i: int, j: int|
        0 <= i < j < rules.len() ==> (#[trigger] rules[i]).name != (#[trigger] rules[j]).name
}

/// A first rule of a name is the one `first_named` names.
pub proof fn lemma_first_named(rules: Seq<ProcessConfigView>, name: Seq<char>, index: int)
    requires
        is_first_named(rules, name, index),
    ensures
        has_rule_named(rules, name),
        first_named(rules, name) == index,
{
    let chosen = first_named(rules, name);
    assert(is_first_named(rules, name, chosen));
    if chosen < index {
        assert(rules[chosen].name != name);
    } else if index < chosen {
        assert(rules[index].name != name);
    }
}

/// Where no rule has the name, `has_rule_named` says so.
pub proof fn lemma_no_rule_named(rules: Seq<ProcessConfigView>, name: Seq<char>)
    requires
        forall|index: int| 0 <= index < rules.len() ==> (#[trigger] rules[index]).name != name,
    ensures
        !has_rule_named(rules, name),
{
}

/// Merging one rule in keeps every rule that was there in its place, under its
/// name and binary path, and keeps the names distinct where they were.
pub proof fn lemma_merge_rule_keeps(rules: Seq<ProcessConfigView>, rule: ProcessConfigView)
    ensures
        rules.len() <= merge_rule(rules, rule).len() <= rules.len() + 1,
        forall|i: int|
            0 <= i < rules.len() ==> (#[trigger] merge_rule(rules, rule)[i]).name == rules[i].name
                && merge_rule(rules, rule)[i].bin == rules[i].bin,
        has_rule_named(merge_rule(rules, rule), rule.name),
        distinct_names(rules) ==> distinct_names(merge_rule(rules, rule)),
{
    let merged = merge_rule(rules, rule);
    if has_rule_named(rules, rule.name) {
        let at = first_named(rules, rule.name);
        assert(is_first_named(rules, rule.name, at));
        assert(is_first_named(merged, rule.name, at)) by {
            assert forall|earlier: int| 0 <= earlier < at implies (#[trigger] merged[earlier]).name
                != rule.name by {
                assert(rules[earlier].name != rule.name);
            }
        }
        if distinct_names(rules) {
            assert forall|i: int, j: int| 0 <= i < j < merged.len() implies (#[trigger] merged[i]).name
                != (#[trigger] merged[j]).name by {
                assert(rules[i].name != rules[j].name);
            }
        }
    } else {
        let at = rules.len() as int;
        assert(merged[at].name == rule.name);
        assert(is_first_named(merged, rule.name, at)) by {
            assert forall|earlier: int| 0 <= earlier < at implies (#[trigger] merged[earlier]).name
                != rule.name by {
                if rules[earlier].name == rule.name {
                    lemma_some_rule_named(rules, rule.name, earlier);
                }
            }
        }
        if distinct_names(rules) {
            assert forall|i: int, j: int| 0 <= i < j < merged.len() implies (#[trigger] merged[i]).name
                != (#[trigger] merged[j]).name by {
                if j < rules.len() {
                    assert(rules[i].name != rules[j].name);
                } else if rules[i].name == rule.name {
                    lemma_some_rule_named(rules, rule.name, i);
                }
            }
        }
    }
}

/// Where some rule has the name, a first one has it.
pub proof fn lemma_some_rule_named(rules: Seq<ProcessConfigView>, name: Seq<char>, index: int)
    requires
        0 <= index < rules.len(),
        rules[index].name == name,
    ensures
        has_rule_named(rules, name),
    decreases index,
{
    if forall|earlier: int| 0 <= earlier < index ==> (#[trigger] rules[earlier]).name != name {
        assert(is_first_named(rules, name, index));
    } else {
        let earlier = choose|earlier: int|
            0 <= earlier < index && (#[trigger] rules[earlier]).name == name;
        lemma_some_rule_named(rules, name, earlier);
    }
}

/// Merging keeps every system-wide rule in its place, under its name and
/// binary path; a user's rules change them or follow them. Where the names of
/// the system-wide rules are distinct, so are the names of the merged rules,
/// whatever the user's rules are.
pub proof fn lemma_merge_keeps(global: Seq<ProcessConfigView>, local: Seq<ProcessConfigView>)
    ensures
        global.len() <= merge_rules(global, local).len() <= global.len() + local.len(),
        forall|i: int|
            0 <= i < global.len() ==> (#[trigger] merge_rules(global, local)[i]).name
                == global[i].name && merge_rules(global, local)[i].bin == global[i].bin,
        forall|k: int|
            0 <= k < local.len() ==> has_rule_named(
                merge_rules(global, local),
                (#[trigger] local[k]).name,
            ),
        distinct_names(global) ==> distinct_names(merge_rules(global, local)),
    decreases local.len(),
{
    if local.len() > 0 {
        let before = merge_rules(global, local.drop_last());
        let after = merge_rules(global, local);
        lemma_merge_keeps(global, local.drop_last());
        lemma_merge_rule_keeps(before, local.last());
        assert forall|i: int| 0 <= i < global.len() implies (#[trigger] after[i]).name
            == global[i].name && after[i].bin == global[i].bin by {
            assert(before[i].name == global[i].name);
        }
        assert forall|k: int| 0 <= k < local.len() implies has_rule_named(
            after,
            (#[trigger] local[k]).name,
        ) by {
            if k < local.len() - 1 {
                assert(local.drop_last()[k] == local[k]);
                let name = local[k].name;
                assert(has_rule_named(before, name));
                let at = first_named(before, name);
                assert(is_first_named(before, name, at));
                assert(after[at].name == before[at].name);
                lemma_some_rule_named(after, name, at);
            }
        }
    }
}

/// Whether two rules ask the same of a process: they have one owner, one nice
/// value and one matcher.
pub open spec fn same_settings(a: ProcessConfigView, b: ProcessConfigView) -> bool {
    a.owner == b.owner && a.nice == b.nice && a.matcher == b.matcher
}

/// The position of the last rule named `name` among the first `k` rules of
/// `rules`; -1 where none of them has the name.
pub open spec fn latest_named(rules: Seq<ProcessConfigView>, k: int, name: Seq<char>) -> int
    decreases k,
{
    if k <= 0 {
        -1
    } else if rules[k - 1].name == name {
        k - 1
    } else {
        latest_named(rules, k - 1, name)
    }
}

/// Whether each name that a rule of `local` has is the name of a rule of
/// `rules`, and the first rule of that name asks what the last rule of that
/// name in `local` asks.
pub open spec fn settled(rules: Seq<ProcessConfigView>, local: Seq<ProcessConfigView>) -> bool {
    forall|name: Seq<char>|
        #![trigger latest_named(local, local.len() as int, name)]
        latest_named(local, local.len() as int, name) >= 0 ==> has_rule_named(rules, name)
            && same_settings(
            rules[first_named(rules, name)],
            local[latest_named(local, local.len() as int, name)],
        )
}

/// `rules[index]` as the first `k` rules of `local` leave it when they are
/// merged into rules that are settled: changed by the last of them that has
/// its name, where it is the first rule of that name.
pub open spec fn touched(
    rules: Seq<ProcessConfigView>,
    local: Seq<ProcessConfigView>,
    k: int,
    index: int,
) -> ProcessConfigView {
    let name = rules[index].name;
    let by = latest_named(local, k, name);
    if by >= 0 && first_named(rules, name) == index {
        overridden(rules[index], local[by])
    } else {
        rules[index]
    }
}

/// The last rule of a name among the first `k` is one of them and has the
/// name, and no rule after it among them has.
proof fn lemma_latest_named(rules: Seq<ProcessConfigView>, k: int, name: Seq<char>, at: int)
    requires
        0 <= k <= rules.len(),
    ensures
        -1 <= latest_named(rules, k, name) < k,
        latest_named(rules, k, name) >= 0 ==> rules[latest_named(rules, k, name)].name == name,
        0 <= at < k && rules[at].name == name ==> latest_named(rules, k, name) >= at,
    decreases k,
{
    if k > 0 && rules[k - 1].name != name {
        lemma_latest_named(rules, k - 1, name, at);
    }
}

/// Two lists of rules with the same names in the same places have their
/// first rule of a name in the same place.
proof fn lemma_first_named_by_names(
    a: Seq<ProcessConfigView>,
    b: Seq<ProcessConfigView>,
    name: Seq<char>,
)
    requires
        a.len() == b.len(),
        forall|i: int| 0 <= i < a.len() ==> (#[trigger] a[i]).name == b[i].name,
        has_rule_named(a, name),
    ensures
        has_rule_named(b, name),
        first_named(b, name) == first_named(a, name),
{
    let at = first_named(a, name);
    assert(is_first_named(a, name, at));
    assert(is_first_named(b, name, at)) by {
        assert(a[at].name == b[at].name);
        assert forall|earlier: int| 0 <= earlier < at implies (#[trigger] b[earlier]).name
            != name by {
            assert(a[earlier].name == b[earlier].name);
        }
    }
    lemma_first_named(b, name, at);
}

/// Merging a rule in leaves every rule of another name as it is, and leaves
/// the first rule of another name where it is. The first rule of its own name
/// asks what it asks.
proof fn lemma_merge_rule_places(
    rules: Seq<ProcessConfigView>,
    rule: ProcessConfigView,
    name: Seq<char>,
)
    ensures
        forall|i: int|
            0 <= i < rules.len() && rules[i].name != rule.name ==> (#[trigger] merge_rule(
                rules,
                rule,
            )[i]) == rules[i],
        has_rule_named(merge_rule(rules, rule), rule.name),
        same_settings(merge_rule(rules, rule)[first_named(merge_rule(rules, rule), rule.name)], rule),
        name != rule.name ==> has_rule_named(merge_rule(rules, rule), name) == has_rule_named(
            rules,
            name,
        ),
        name != rule.name && has_rule_named(rules, name) ==> first_named(
            merge_rule(rules, rule),
            name,
        ) == first_named(rules, name),
{
    let merged = merge_rule(rules, rule);
    lemma_merge_rule_keeps(rules, rule);
    if has_rule_named(rules, rule.name) {
        let at = first_named(rules, rule.name);
        assert(is_first_named(rules, rule.name, at));
        assert(is_first_named(merged, rule.name, at)) by {
            assert forall|earlier: int| 0 <= earlier < at implies (#[trigger] merged[earlier]).name
                != rule.name by {
                assert(rules[earlier].name != rule.name);
            }
        }
        lemma_first_named(merged, rule.name, at);
    } else {
        let at = rules.len() as int;
        assert(is_first_named(merged, rule.name, at)) by {
            assert forall|earlier: int| 0 <= earlier < at implies (#[trigger] merged[earlier]).name
                != rule.name by {
                if rules[earlier].name == rule.name {
                    lemma_some_rule_named(rules, rule.name, earlier);
                }
            }
        }
        lemma_first_named(merged, rule.name, at);
    }
    if name != rule.name {
        if has_rule_named(rules, name) {
            let at = first_named(rules, name);
            assert(is_first_named(rules, name, at));
            assert(is_first_named(merged, name, at)) by {
                assert(merged[at].name == rules[at].name);
                assert forall|earlier: int| 0 <= earlier < at implies (
                #[trigger] merged[earlier]).name != name by {
                    assert(merged[earlier].name == rules[earlier].name);
                }
            }
            lemma_first_named(merged, name, at);
        }
        if has_rule_named(merged, name) {
            let at = first_named(merged, name);
            assert(is_first_named(merged, name, at));
            if at < rules.len() {
                assert(merged[at].name == rules[at].name);
                lemma_some_rule_named(rules, name, at);
            }
        }
    }
}

/// After the first `k` rules of `local` are merged in, the first rule of each
/// of their names asks what the last of them with that name asks.
proof fn lemma_merge_settles(
    global: Seq<ProcessConfigView>,
    local: Seq<ProcessConfigView>,
    k: int,
    name: Seq<char>,
)
    requires
        0 <= k <= local.len(),
        latest_named(local, k, name) >= 0,
    ensures
        has_rule_named(merge_rules(global, local.take(k)), name),
        same_settings(
            merge_rules(global, local.take(k))[first_named(
                merge_rules(global, local.take(k)),
                name,
            )],
            local[latest_named(local, k, name)],
        ),
    decreases k,
{
    let upto = local.take(k);
    assert(upto.drop_last() =~= local.take(k - 1));
    assert(upto.last() == local[k - 1]);
    let before = merge_rules(global, local.take(k - 1));
    lemma_merge_rule_places(before, local[k - 1], name);
    if local[k - 1].name != name {
        lemma_merge_settles(global, local, k - 1, name);
        let at = first_named(before, name);
        assert(is_first_named(before, name, at));
        assert(merge_rule(before, local[k - 1])[at] == before[at]);
    }
}

/// Merging the first `k` rules of `local` into rules that are settled changes
/// no name, no place and no binary path.
proof fn lemma_merge_into_settled(
    rules: Seq<ProcessConfigView>,
    local: Seq<ProcessConfigView>,
    k: int,
)
    requires
        0 <= k <= local.len(),
        settled(rules, local),
    ensures
        merge_rules(rules, local.take(k)).len() == rules.len(),
        forall|i: int|
            0 <= i < rules.len() ==> (#[trigger] merge_rules(rules, local.take(k))[i]) == touched(
                rules,
                local,
                k,
                i,
            ),
    decreases k,
{
    if k == 0 {
        assert(local.take(0).len() == 0);
    } else {
        let upto = local.take(k);
        assert(upto.drop_last() =~= local.take(k - 1));
        assert(upto.last() == local[k - 1]);
        let rule = local[k - 1];
        let before = merge_rules(rules, local.take(k - 1));
        let after = merge_rule(before, rule);
        lemma_merge_into_settled(rules, local, k - 1);
        lemma_latest_named(local, local.len() as int, rule.name, k - 1);
        assert(has_rule_named(rules, rule.name));
        assert forall|i: int| 0 <= i < rules.len() implies (#[trigger] rules[i]).name
            == before[i].name by {
            assert(before[i] == touched(rules, local, k - 1, i));
        }
        lemma_first_named_by_names(rules, before, rule.name);
        let at = first_named(rules, rule.name);
        assert(is_first_named(rules, rule.name, at));
        assert(before[at] == touched(rules, local, k - 1, at));
        assert(after =~= before.update(at, overridden(before[at], rule)));
        assert forall|i: int| 0 <= i < rules.len() implies (#[trigger] after[i]) == touched(
            rules,
            local,
            k,
            i,
        ) by {
            assert(before[i] == touched(rules, local, k - 1, i));
            if i != at && rules[i].name == rule.name {
                assert(first_named(rules, rules[i].name) != i);
            }
        }
    }
}

/// Merging is idempotent: once the rules of `local` are merged into `global`,
/// merging them in a second time changes nothing.
pub proof fn lemma_merge_is_idempotent(global: Seq<ProcessConfigView>, local: Seq<ProcessConfigView>)
    ensures
        merge_rules(merge_rules(global, local), local) == merge_rules(global, local),
{
    let once = merge_rules(global, local);
    let twice = merge_rules(once, local);
    let n = local.len() as int;
    assert(local.take(n) =~= local);
    assert(settled(once, local)) by {
        assert forall|name: Seq<char>|
            #![trigger latest_named(local, n, name)]
            latest_named(local, n, name) >= 0 implies has_rule_named(once, name) && same_settings(
            once[first_named(once, name)],
            local[latest_named(local, n, name)],
        ) by {
            lemma_merge_settles(global, local, n, name);
        }
    }
    lemma_merge_into_settled(once, local, n);
    assert forall|i: int| 0 <= i < once.len() implies twice[i] == once[i] by {
        assert(twice[i] == touched(once, local, n, i));
        let name = once[i].name;
        let by = latest_named(local, n, name);
        if by >= 0 && first_named(once, name) == i {
            assert(same_settings(once[i], local[by]));
        }
    }
    assert(twice =~= once);
}

impl ProcessConfig {
    /// Tells whether the rule has the name `name`.
    pub fn is_named(&self, name: &str) -> (r: bool)
        ensures
            r == (self@.name == name@),
    {
        same_text(self.name.as_str(), name)
    }
}

impl Config {
    /// The position of the first rule with the name `name`.
    pub fn position_of(&self, name: &str) -> (found: Option<usize>)
        ensures
            found is Some <==> has_rule_named(self@, name@),
            found matches Some(index) ==> index as int == first_named(self@, name@) && index
                < self.process.len(),
    {
        let mut index: usize = 0;
        while index < self.process.len()
            invariant
                index <= self.process.len(),
                forall|earlier: int|
                    0 <= earlier < index ==> (#[trigger] self@[earlier]).name != name@,
            decreases self.process.len() - index,
        {
            if self.process[index].is_named(name) {
                proof {
                    lemma_first_named(self@, name@, index as int);
                }
                return Some(index);
            }
            index += 1;
        }
        proof {
            lemma_no_rule_named(self@, name@);
        }
        None
    }

    /// Merges one rule in: it changes the owner, the nice value and the
    /// matcher of the first rule of its name, or comes last where no rule has
    /// its name.
    pub fn merge_process(&mut self, rule: ProcessConfig)
        ensures
            final(self)@ == merge_rule(old(self)@, rule@),
    {
        match self.position_of(rule.name.as_str()) {
            Some(index) => {
                let existing = &self.process[index];
                let changed = ProcessConfig {
                    name: existing.name.clone(),
                    owner: rule.owner,
                    bin: existing.bin.clone(),
                    nice: rule.nice,
                    matcher: rule.matcher,
                };
                self.process[index] = changed;
                assert(self@ =~= merge_rule(old(self)@, rule@));
            },
            None => {
                self.process.push(rule);
                assert(self@ =~= merge_rule(old(self)@, rule@));
            },
        }
    }

    /// Merges the rules of `local` into those of `global`, one after the other.
    ///
    /// A rule of `local` whose name a rule of `global` has changes that rule's
    /// owner, nice value and matcher, and leaves its name, its binary path and
    /// its place. A rule of a new name comes after all that are there.
    pub fn merge(global: Config, local: Config) -> (merged: Config)
        ensures
            merged@ == merge_rules(global@, local@),
    {
        let mut merged_config = global;
        let local_rules = local.process;
        for local_process in it: local_rules
            invariant
                it.seq() == local.process@,
                merged_config@ == merge_rules(global@, local@.take(it.index())),
        {
            proof {
                let upto = local@.take(it.index() + 1);
                assert(upto.drop_last() =~= local@.take(it.index()));
                assert(upto.last() == local_process@);
            }
            merged_config.merge_process(local_process);
        }
        assert(local@.take(local@.len() as int) =~= local@);
        merged_config
    }
}

/// What reading a configuration file gave: its rules, or why it could not be
/// read or understood.
pub open spec fn file_of(file: Result<Config, String>) -> Result<Seq<ProcessConfigView>, Seq<char>> {
    match file {
        Ok(config) => Ok(config@),
        Err(reason) => Err(reason@),
    }
}

/// What reading the configuration file of one user gave.
#[derive(Debug, PartialEq, Eq)]
pub struct LocalFile {
    /// The name of the user's home directory.
    pub user: String,
    /// The rules of the file, or why they could not be had.
    pub file: Result<Config, String>,
}

/// The value of a [`LocalFile`].
pub struct LocalFileView {
    pub user: Seq<char>,
    pub file: Result<Seq<ProcessConfigView>, Seq<char>>,
}

impl View for LocalFile {
    type V = LocalFileView;

    open spec fn view(&self) -> LocalFileView {
        LocalFileView { user: self.user@, file: file_of(self.file) }
    }
}

/// The values of the files of all users, in order.
pub open spec fn files_of(homes: Seq<LocalFile>) -> Seq<LocalFileView> {
    homes.map_values(|home: LocalFile| home@)
}

/// The rules of the system-wide file; where it could not be loaded, the error
/// says so before it gives the reason.
pub open spec fn global_rules(file: Result<Seq<ProcessConfigView>, Seq<char>>) -> Result<
    Seq<ProcessConfigView>,
    Seq<char>,
> {
    match file {
        Ok(rules) => Ok(rules),
        Err(reason) => Err("Failed to load global configuration: "@ + reason),
    }
}

/// The rules of a user: those of the user's file. The directory `lost+found`
/// is no user and has no rules, whatever a file in it holds.
pub open spec fn local_rules(user: Seq<char>, file: Result<Seq<ProcessConfigView>, Seq<char>>) -> Result<
    Seq<ProcessConfigView>,
    Seq<char>,
> {
    if user == "lost+found"@ {
        Ok(Seq::empty())
    } else {
        file
    }
}

/// `rule`, for `user` where it names no owner.
pub open spec fn owned_by(rule: ProcessConfigView, user: Seq<char>) -> ProcessConfigView {
    if rule.owner is None {
        ProcessConfigView { owner: Some(user), ..rule }
    } else {
        rule
    }
}

/// `rules`, each for `user` where it names no owner.
pub open spec fn with_owner(rules: Seq<ProcessConfigView>, user: Seq<char>) -> Seq<ProcessConfigView> {
    rules.map_values(|rule: ProcessConfigView| owned_by(rule, user))
}

/// The rules of a user as they are merged: each for that user unless it names
/// an owner.
pub open spec fn prepared_local_rules(
    user: Seq<char>,
    file: Result<Seq<ProcessConfigView>, Seq<char>>,
) -> Result<Seq<ProcessConfigView>, Seq<char>> {
    match local_rules(user, file) {
        Ok(rules) => Ok(with_owner(rules, user)),
        Err(reason) => Err(reason),
    }
}

/// `global` with the rules of every user merged in, user after user. A user
/// whose rules could not be had is passed over.
pub open spec fn all_rules(global: Seq<ProcessConfigView>, homes: Seq<LocalFileView>) -> Seq<
    ProcessConfigView,
>
    decreases homes.len(),
{
    if homes.len() == 0 {
        global
    } else {
        let before = all_rules(global, homes.drop_last());
        match prepared_local_rules(homes.last().user, homes.last().file) {
            Ok(local) => merge_rules(before, local),
            Err(_) => before,
        }
    }
}

/// The rules to start from: those of the system-wide file, or none where it
/// could not be loaded.
pub open spec fn global_or_empty(file: Result<Seq<ProcessConfigView>, Seq<char>>) -> Seq<
    ProcessConfigView,
> {
    match global_rules(file) {
        Ok(rules) => rules,
        Err(_) => Seq::empty(),
    }
}

impl Config {
    /// The path of the system-wide configuration file.
    pub fn global_path() -> (path: String)
        ensures
            path@ == "/etc/reniced/config.yaml"@,
    {
        "/etc/reniced/config.yaml".to_owned()
    }

    /// The path of the configuration file of `user`; none for `lost+found`,
    /// which is no user.
    pub fn local_path(user: &str) -> (path: Option<String>)
        ensures
            path is None <==> user@ == "lost+found"@,
            path matches Some(path) ==> path@ == "/home/"@ + user@ + "/.reniced/config.yaml"@,
    {
        if same_text(user, "lost+found") {
            None
        } else {
            let mut path = "/home/".to_owned();
            path.append(user);
            path.append("/.reniced/config.yaml");
            Some(path)
        }
    }

    /// The system-wide configuration, given what reading its file gave.
    pub fn load_global(file: Result<Config, String>) -> (loaded: Result<Config, String>)
        ensures
            file_of(loaded) == global_rules(file_of(file)),
    {
        match file {
            Ok(config) => Ok(config),
            Err(reason) => {
                let mut text = "Failed to load global configuration: ".to_owned();
                text.append(reason.as_str());
                Err(text)
            },
        }
    }

    /// The configuration of `user`, given what reading the user's file gave.
    pub fn load_local(user: &str, file: Result<Config, String>) -> (loaded: Result<Config, String>)
        ensures
            file_of(loaded) == local_rules(user@, file_of(file)),
    {
        if same_text(user, "lost+found") {
            return Ok(Config::default());
        }
        file
    }

    /// The system-wide configuration with the configuration of every user
    /// merged in, given what reading the files gave.
    ///
    /// Without the system-wide file the merge starts from no rules. A user
    /// whose file could not be read is passed over. Only where the home
    /// directories could not be listed there is no configuration.
    pub fn load_all(global: Result<Config, String>, homes: Result<Vec<LocalFile>, String>) -> (loaded:
        Result<Config, String>)
        ensures
            match homes {
                Ok(homes) => file_of(loaded) == Ok::<Seq<ProcessConfigView>, Seq<char>>(
                    all_rules(global_or_empty(file_of(global)), files_of(homes@)),
                ),
                Err(reason) => file_of(loaded) == Err::<Seq<ProcessConfigView>, Seq<char>>(reason@),
            },
    {
        let global_config = match Config::load_global(global) {
            Ok(config) => config,
            Err(_) => Config::default(),
        };
        let home_dirs = match homes {
            Ok(dirs) => dirs,
            Err(reason) => {
                return Err(reason);
            },
        };
        let ghost start = global_config@;
        let ghost files = files_of(home_dirs@);
        let mut merged_config = global_config;
        for home in it: home_dirs
            invariant
                files_of(it.seq()) == files,
                merged_config@ == all_rules(start, files.take(it.index())),
        {
            proof {
                let upto = files.take(it.index() + 1);
                assert(upto.drop_last() =~= files.take(it.index()));
                assert(upto.last() == home@);
            }
            match load_and_prepare_local_config(home.user.as_str(), home.file) {
                Ok(local_config) => {
                    merged_config = Config::merge(merged_config, local_config);
                },
                Err(_) => {},
            }
        }
        assert(files.take(files.len() as int) =~= files);
        Ok(merged_config)
    }
}

/// The configuration of `user` as it is merged, given what reading the user's
/// file gave: each rule that names no owner is for `user`.
pub fn load_and_prepare_local_config(user: &str, file: Result<Config, String>) -> (loaded: Result<
    Config,
    String,
>)
    ensures
        file_of(loaded) == prepared_local_rules(user@, file_of(file)),
{
    let local_config = match Config::load_local(user, file) {
        Ok(config) => config,
        Err(reason) => {
            return Err(reason);
        },
    };
    let ghost rules = local_config@;
    let mut prepared: Vec<ProcessConfig> = Vec::new();
    for process in it: local_config.process
        invariant
            rules_of(it.seq()) == rules,
            prepared@.len() == it.index(),
            rules_of(prepared@) == with_owner(rules, user@).take(it.index()),
    {
        let ghost before = prepared@;
        assert(it.seq().len() == rules.len());
        assert(rules_of(it.seq())[it.index()] == process@);
        let process = if process.owner.is_none() {
            ProcessConfig {
                name: process.name,
                owner: Some(user.to_owned()),
                bin: process.bin,
                nice: process.nice,
                matcher: process.matcher,
            }
        } else {
            process
        };
        assert(process@ == owned_by(rules[it.index()], user@));
        prepared.push(process);
        assert forall|j: int| 0 <= j <= it.index() implies rules_of(prepared@)[j] == with_owner(
            rules,
            user@,
        ).take(it.index() + 1)[j] by {
            if j < it.index() {
                assert(rules_of(before)[j] == with_owner(rules, user@).take(it.index())[j]);
            }
        }
        assert(rules_of(prepared@) =~= with_owner(rules, user@).take(it.index() + 1));
    }
    let loaded = Config { process: prepared };
    assert(loaded@ =~= with_owner(rules, user@));
    Ok(loaded)
}

} // verus!

//! The command-mapping resolver: which configured rule, if any, decides the
//! command that is recorded for a window.

use vstd::prelude::*;
use crate::config::{Config, WindowCommandMapping};
use crate::pattern::{is_match, regex_match};
use crate::i3_tree::Window;
use crate::text::{clone_optional, optional_text, text_of};

verus! {

/// The two patterns of a rule. A match of the primary pattern weighs two,
/// one of the secondary pattern weighs one.
#[derive(Debug)]
pub struct RulePatterns {
    pub primary: Option<String>,
    pub secondary: Option<String>,
}

/// One of the two patterns of a rule.
#[derive(Clone, Copy, Debug, PartialEq, Eq, Structural)]
pub enum PatternField {
    Primary,
    Secondary,
}

/// A pattern that is no valid regular expression: the position of its rule
/// among the rules, and which of the rule's patterns it is.
#[derive(Clone, Copy, Debug, PartialEq, Eq, Structural)]
pub struct PatternError {
    pub rule: usize,
    pub field: PatternField,
}

/// The text that a pattern is tried on: the empty text where there is none.
pub open spec fn probe_text(text: Option<Seq<char>>) -> Seq<char> {
    match text {
        Some(t) => t,
        None => Seq::empty(),
    }
}

/// Whether a pattern, if the rule declares one, is a valid regular
/// expression.
pub open spec fn pattern_valid(pattern: Option<String>, text: Option<Seq<char>>) -> bool {
    match pattern {
        Some(p) => regex_match(p@, probe_text(text)) is Some,
        None => true,
    }
}

/// Whether a pattern, if the rule declares one, is satisfied: there is a
/// text and the pattern matches it.
pub open spec fn pattern_hit(pattern: Option<String>, text: Option<Seq<char>>) -> bool {
    match pattern {
        Some(p) => text is Some && regex_match(p@, text->0) == Some(true),
        None => true,
    }
}

/// The first of a rule's patterns that is no valid regular expression.
pub open spec fn rule_fault(rule: RulePatterns, primary: Seq<char>, secondary: Option<Seq<char>>)
    -> Option<PatternField> {
    if !pattern_valid(rule.primary, Some(primary)) {
        Some(PatternField::Primary)
    } else if !pattern_valid(rule.secondary, secondary) {
        Some(PatternField::Secondary)
    } else {
        None
    }
}

/// The score of a rule: zero unless every pattern it declares is
/// satisfied, else two for a primary pattern plus one for a secondary one.
pub open spec fn rule_score(rule: RulePatterns, primary: Seq<char>, secondary: Option<Seq<char>>)
    -> nat {
    if pattern_hit(rule.primary, Some(primary)) && pattern_hit(rule.secondary, secondary) {
        let strong: nat = if rule.primary is Some {
            2
        } else {
            0
        };
        let weak: nat = if rule.secondary is Some {
            1
        } else {
            0
        };
        strong + weak
    } else {
        0
    }
}

/// The score of the rule at a position, zero for no position.
pub open spec fn score_at(
    rules: Seq<RulePatterns>,
    primary: Seq<char>,
    secondary: Option<Seq<char>>,
    at: Option<int>,
) -> nat {
    match at {
        Some(i) => rule_score(rules[i], primary, secondary),
        None => 0,
    }
}

/// The winner among the first `n` rules: the first rule with the highest
/// score, if that score is above zero.
pub open spec fn best_among(
    rules: Seq<RulePatterns>,
    primary: Seq<char>,
    secondary: Option<Seq<char>>,
    n: int,
) -> Option<int>
    decreases n,
{
    if n <= 0 {
        None
    } else {
        let earlier = best_among(rules, primary, secondary, n - 1);
        if rule_score(rules[n - 1], primary, secondary) > score_at(
            rules,
            primary,
            secondary,
            earlier,
        ) {
            Some(n - 1)
        } else {
            earlier
        }
    }
}

/// The winner has a score above zero, no rule scores higher, and no
/// earlier rule scores as high; where there is no winner every rule scores
/// zero.
pub proof fn lemma_best_is_first_maximum(
    rules: Seq<RulePatterns>,
    primary: Seq<char>,
    secondary: Option<Seq<char>>,
    n: int,
)
    requires
        0 <= n <= rules.len(),
    ensures
        match best_among(rules, primary, secondary, n) {
            Some(b) => {
                &&& 0 <= b < n
                &&& rule_score(rules[b], primary, secondary) > 0
                &&& forall|j: int|
                    0 <= j < n ==> rule_score(#[trigger] rules[j], primary, secondary)
                        <= rule_score(rules[b], primary, secondary)
                &&& forall|j: int|
                    0 <= j < b ==> rule_score(#[trigger] rules[j], primary, secondary)
                        < rule_score(rules[b], primary, secondary)
            },
            None => forall|j: int|
                0 <= j < n ==> rule_score(#[trigger] rules[j], primary, secondary) == 0,
        },
    decreases n,
{
    if n > 0 {
        lemma_best_is_first_maximum(rules, primary, secondary, n - 1);
    }
}

/// Of two satisfied rules, one with both patterns and one with the
/// secondary pattern alone, the one with both wins whichever is declared
/// first; where only one rule of a pair is satisfied, that one wins.
pub proof fn lemma_fuller_rule_wins(
    both: RulePatterns,
    lesser: RulePatterns,
    primary: Seq<char>,
    secondary: Option<Seq<char>>,
)
    requires
        both.primary is Some,
        both.secondary is Some,
        lesser.primary is None,
        lesser.secondary is Some,
        pattern_hit(lesser.secondary, secondary),
    ensures
        rule_score(lesser, primary, secondary) == 1,
        pattern_hit(both.primary, Some(primary)) && pattern_hit(both.secondary, secondary) ==> {
            &&& rule_score(both, primary, secondary) == 3
            &&& best_among(seq![both, lesser], primary, secondary, 2) == Some(0int)
            &&& best_among(seq![lesser, both], primary, secondary, 2) == Some(1int)
        },
        !(pattern_hit(both.primary, Some(primary)) && pattern_hit(both.secondary, secondary)) ==> {
            &&& best_among(seq![both, lesser], primary, secondary, 2) == Some(1int)
            &&& best_among(seq![lesser, both], primary, secondary, 2) == Some(0int)
        },
{
    reveal_with_fuel(best_among, 3);
}

/// The first pattern among the first `n` rules that is no valid regular
/// expression: rules are looked at in their order, and in a rule the
/// primary pattern first.
pub open spec fn first_fault(
    rules: Seq<RulePatterns>,
    primary: Seq<char>,
    secondary: Option<Seq<char>>,
    n: int,
) -> Option<PatternError>
    decreases n,
{
    if n <= 0 {
        None
    } else {
        match first_fault(rules, primary, secondary, n - 1) {
            Some(e) => Some(e),
            None => match rule_fault(rules[n - 1], primary, secondary) {
                Some(field) => Some(PatternError { rule: (n - 1) as usize, field }),
                None => None,
            },
        }
    }
}

/// The rule that applies to a pair of texts: the winner among all rules,
/// unless one of their patterns is no valid regular expression.
pub open spec fn rule_choice(
    rules: Seq<RulePatterns>,
    primary: Seq<char>,
    secondary: Option<Seq<char>>,
) -> Result<Option<int>, PatternError> {
    match first_fault(rules, primary, secondary, rules.len() as int) {
        Some(e) => Err(e),
        None => Ok(best_among(rules, primary, secondary, rules.len() as int)),
    }
}

/// The first fault names a pattern that is no valid regular expression,
/// and every pattern of the rules before it is one; where there is no
/// fault, every pattern is valid.
pub proof fn lemma_first_fault(
    rules: Seq<RulePatterns>,
    primary: Seq<char>,
    secondary: Option<Seq<char>>,
    n: int,
)
    requires
        0 <= n <= rules.len(),
        rules.len() <= usize::MAX,
    ensures
        match first_fault(rules, primary, secondary, n) {
            Some(e) => {
                &&& e.rule < n
                &&& rule_fault(rules[e.rule as int], primary, secondary) == Some(e.field)
                &&& forall|j: int|
                    0 <= j < e.rule ==> rule_fault(#[trigger] rules[j], primary, secondary) is None
            },
            None => forall|j: int|
                0 <= j < n ==> rule_fault(#[trigger] rules[j], primary, secondary) is None,
        },
    decreases n,
{
    if n > 0 {
        lemma_first_fault(rules, primary, secondary, n - 1);
    }
}

/// A choice as plain values.
pub open spec fn choice_model(r: Result<Option<usize>, PatternError>) -> Result<
    Option<int>,
    PatternError,
> {
    match r {
        Ok(best) => Ok(position(best)),
        Err(e) => Err(e),
    }
}

fn try_pattern(pattern: &Option<String>, text: Option<&str>) -> (r: Option<bool>)
    ensures
        r is Some <==> pattern_valid(
            *pattern,
            match text {
                Some(t) => Some(t@),
                None => None,
            },
        ),
        r is Some ==> r->0 == pattern_hit(
            *pattern,
            match text {
                Some(t) => Some(t@),
                None => None,
            },
        ),
{
    match pattern {
        Some(p) => {
            match text {
                Some(t) => is_match(p.as_str(), t),
                None => {
                    match is_match(p.as_str(), "") {
                        Some(_) => {
                            proof {
                                reveal_strlit("");
                                assert(""@ =~= Seq::<char>::empty());
                            }
                            Some(false)
                        },
                        None => {
                            proof {
                                reveal_strlit("");
                                assert(""@ =~= Seq::<char>::empty());
                            }
                            None
                        },
                    }
                },
            }
        },
        None => Some(true),
    }
}

/// Picks the rule that applies to a pair of texts.
///
/// Every rule has both its patterns compiled, in the order of the rules
/// and the primary pattern first; the first pattern that is no valid
/// regular expression is reported. Otherwise the result is the first rule
/// with the highest score above zero.
pub fn best_rule(rules: &Vec<RulePatterns>, primary: &str, secondary: Option<&str>) -> (r: Result<
    Option<usize>,
    PatternError,
>)
    ensures
        choice_model(r) == rule_choice(rules@, primary@, optional_text(secondary)),
{
    let mut best: Option<usize> = None;
    let mut best_score: u8 = 0;
    let mut i: usize = 0;
    while i < rules.len()
        invariant
            i <= rules.len(),
            first_fault(rules@, primary@, optional_text(secondary), i as int) is None,
            position(best) == best_among(rules@, primary@, optional_text(secondary), i as int),
            best_score == score_at(
                rules@,
                primary@,
                optional_text(secondary),
                best_among(rules@, primary@, optional_text(secondary), i as int),
            ),
            best_score <= 3,
        decreases rules.len() - i,
    {
        let rule = &rules[i];
        let first = match try_pattern(&rule.primary, Some(primary)) {
            Some(hit) => hit,
            None => {
                proof {
                    lemma_fault_stays(
                        rules@,
                        primary@,
                        optional_text(secondary),
                        i + 1,
                        rules@.len() as int,
                    );
                }
                return Err(PatternError { rule: i, field: PatternField::Primary });
            },
        };
        let second = match try_pattern(&rule.secondary, secondary) {
            Some(hit) => hit,
            None => {
                proof {
                    lemma_fault_stays(
                        rules@,
                        primary@,
                        optional_text(secondary),
                        i + 1,
                        rules@.len() as int,
                    );
                }
                return Err(PatternError { rule: i, field: PatternField::Secondary });
            },
        };
        let mut score: u8 = 0;
        if first && second {
            if rule.primary.is_some() {
                score += 2;
            }
            if rule.secondary.is_some() {
                score += 1;
            }
        }
        if score > best_score {
            best_score = score;
            best = Some(i);
        }
        i += 1;
    }
    Ok(best)
}

/// A fault among the first rules is the fault of all.
proof fn lemma_fault_stays(
    rules: Seq<RulePatterns>,
    primary: Seq<char>,
    secondary: Option<Seq<char>>,
    k: int,
    n: int,
)
    requires
        0 <= k <= n,
        first_fault(rules, primary, secondary, k) is Some,
    ensures
        first_fault(rules, primary, secondary, n) == first_fault(rules, primary, secondary, k),
    decreases n - k,
{
    if k < n {
        lemma_fault_stays(rules, primary, secondary, k, n - 1);
    }
}

/// A position as a mathematical integer.
pub open spec fn position(at: Option<usize>) -> Option<int> {
    match at {
        Some(i) => Some(i as int),
        None => None,
    }
}

/// The patterns of a window mapping: the title weighs two, the class one.
pub open spec fn window_rule(mapping: WindowCommandMapping) -> RulePatterns {
    RulePatterns { primary: mapping.title, secondary: mapping.class }
}

/// The patterns of some window mappings, in their order.
pub open spec fn window_rules(mappings: Seq<WindowCommandMapping>) -> Seq<RulePatterns> {
    mappings.map_values(|m: WindowCommandMapping| window_rule(m))
}

/// The mapping that applies to a window: the first with the highest score
/// above zero.
pub open spec fn best_mapping(mappings: Seq<WindowCommandMapping>, window: Window) -> Option<int> {
    best_among(window_rules(mappings), window.name@, text_of(window.class), mappings.len() as int)
}

/// The mapping that applies to a window, unless a pattern of the
/// mappings is no valid regular expression.
pub open spec fn mapping_choice(mappings: Seq<WindowCommandMapping>, window: Window) -> Result<
    Option<int>,
    PatternError,
> {
    rule_choice(window_rules(mappings), window.name@, text_of(window.class))
}

fn rules_of_mappings(mappings: &Vec<WindowCommandMapping>) -> (r: Vec<RulePatterns>)
    ensures
        r@ == window_rules(mappings@),
{
    let mut r: Vec<RulePatterns> = Vec::new();
    let mut i: usize = 0;
    while i < mappings.len()
        invariant
            i <= mappings.len(),
            r@.len() == i,
            forall|j: int| 0 <= j < i ==> #[trigger] r@[j] == window_rule(mappings@[j]),
        decreases mappings.len() - i,
    {
        let m = &mappings[i];
        r.push(RulePatterns { primary: clone_optional(&m.title), secondary: clone_optional(&m.class) });
        i += 1;
    }
    assert(r@ =~= window_rules(mappings@));
    r
}

/// Picks the mapping that applies to a window: its title is tried against
/// the title patterns and its class against the class patterns.
pub fn select_mapping(mappings: &Vec<WindowCommandMapping>, window: &Window) -> (r: Result<
    Option<usize>,
    PatternError,
>)
    ensures
        choice_model(r) == mapping_choice(mappings@, *window),
{
    let rules = rules_of_mappings(mappings);
    let class: Option<&str> = match &window.class {
        Some(c) => Some(c.as_str()),
        None => None,
    };
    assert(optional_text(class) == text_of(window.class));
    best_rule(&rules, window.name.as_str(), class)
}

/// What is to be done for a window during a capture.
#[derive(Debug)]
pub enum WindowPlan {
    /// No process is recorded for the window.
    Skip,
    /// A process is recorded. A command or working directory that is
    /// `None` is to be read from the owning process; `terminal_command` is
    /// the revive command of the window's class where it is a terminal.
    Revive {
        command: Option<String>,
        working_directory: Option<String>,
        terminal_command: Option<String>,
    },
}

/// A plan as plain values.
pub enum PlanModel {
    Skip,
    Revive {
        command: Option<Seq<char>>,
        working_directory: Option<Seq<char>>,
        terminal_command: Option<Seq<char>>,
    },
}

impl View for WindowPlan {
    type V = PlanModel;

    open spec fn view(&self) -> PlanModel {
        match *self {
            WindowPlan::Skip => PlanModel::Skip,
            WindowPlan::Revive { command, working_directory, terminal_command } => {
                PlanModel::Revive {
                    command: text_of(command),
                    working_directory: text_of(working_directory),
                    terminal_command: text_of(terminal_command),
                }
            },
        }
    }
}

/// The revive command for a window's class, where it is a terminal class.
pub open spec fn terminal_command_for(config: Config, window: Window) -> Option<Seq<char>> {
    match window.class {
        Some(c) => config.spec_terminal_command(c@),
        None => None,
    }
}

/// The plan for a window, given the mappings flagged `once` that earlier
/// windows of the capture have used up.
///
/// A placeholder is skipped, and so is a window whose mapping is flagged
/// `ignored`. A mapping flagged `once` that is used up is not applied: the
/// window is revived as if no mapping had matched. Otherwise the mapping's
/// command and working directory go into the plan.
pub open spec fn plan_of(config: Config, window: Window, used: Set<int>) -> PlanModel {
    if window.is_placeholder {
        PlanModel::Skip
    } else {
        match best_mapping(config.window_command_mappings@, window) {
            Some(i) => {
                let m = config.window_command_mappings@[i];
                if m.ignored == Some(true) {
                    PlanModel::Skip
                } else if m.once == Some(true) && used.contains(i) {
                    PlanModel::Revive {
                        command: None,
                        working_directory: None,
                        terminal_command: terminal_command_for(config, window),
                    }
                } else {
                    PlanModel::Revive {
                        command: text_of(m.command),
                        working_directory: text_of(m.working_directory),
                        terminal_command: terminal_command_for(config, window),
                    }
                }
            },
            None => PlanModel::Revive {
                command: None,
                working_directory: None,
                terminal_command: terminal_command_for(config, window),
            },
        }
    }
}

/// The mappings flagged `once` that are used up after a window has been
/// planned: one more where such a mapping was chosen for it.
pub open spec fn used_after(config: Config, window: Window, used: Set<int>) -> Set<int> {
    if window.is_placeholder {
        used
    } else {
        match best_mapping(config.window_command_mappings@, window) {
            Some(i) => {
                let m = config.window_command_mappings@[i];
                if m.ignored != Some(true) && m.once == Some(true) {
                    used.insert(i)
                } else {
                    used
                }
            },
            None => used,
        }
    }
}

/// The outcome of planning a window: its plan, unless the window is no
/// placeholder and a pattern of the mappings is no valid regular
/// expression.
pub open spec fn plan_result(config: Config, window: Window, used: Set<int>) -> Result<
    PlanModel,
    PatternError,
> {
    if window.is_placeholder {
        Ok(PlanModel::Skip)
    } else {
        match mapping_choice(config.window_command_mappings@, window) {
            Err(e) => Err(e),
            Ok(_) => Ok(plan_of(config, window, used)),
        }
    }
}

/// The outcome of planning as plain values.
pub open spec fn plan_model(r: Result<WindowPlan, PatternError>) -> Result<PlanModel, PatternError> {
    match r {
        Ok(plan) => Ok(plan@),
        Err(e) => Err(e),
    }
}

/// The course of one capture: which mappings flagged `once` have been
/// applied so far.
#[derive(Debug)]
pub struct CaptureSession {
    pub used_once: Vec<usize>,
}

impl CaptureSession {
    /// The positions of the mappings flagged `once` that are used up.
    pub open spec fn used(&self) -> Set<int> {
        Set::new(
            |i: int| exists|k: int| 0 <= k < self.used_once@.len() && self.used_once@[k] == i,
        )
    }

    /// A capture in which no mapping has been applied yet.
    pub fn new() -> (s: CaptureSession)
        ensures
            s.used() == Set::<int>::empty(),
    {
        let s = CaptureSession { used_once: Vec::new() };
        assert(s.used() =~= Set::<int>::empty());
        s
    }

    fn is_used(&self, mapping: usize) -> (b: bool)
        ensures
            b == self.used().contains(mapping as int),
    {
        let mut k: usize = 0;
        while k < self.used_once.len()
            invariant
                k <= self.used_once.len(),
                forall|j: int| 0 <= j < k ==> self.used_once@[j] != mapping,
            decreases self.used_once.len() - k,
        {
            if self.used_once[k] == mapping {
                return true;
            }
            k += 1;
        }
        false
    }

    /// Plans the next window of the capture, in the order of the flattened
    /// window list. It is meant for the windows whose owning process is
    /// known: a window without one is dropped before any mapping is tried.
    ///
    /// A placeholder is skipped without looking at any mapping. Otherwise
    /// a pattern that is no valid regular expression is an error, and
    /// leaves the session as it was.
    pub fn plan(&mut self, config: &Config, window: &Window) -> (r: Result<WindowPlan, PatternError>)
        ensures
            plan_model(r) == plan_result(*config, *window, old(self).used()),
            r is Ok ==> final(self).used() == used_after(*config, *window, old(self).used()),
            r is Err ==> *final(self) == *old(self),
    {
        if window.is_placeholder {
            return Ok(WindowPlan::Skip);
        }
        let best = match select_mapping(&config.window_command_mappings, window) {
            Ok(best) => best,
            Err(e) => {
                return Err(e);
            },
        };
        let terminal_command = match &window.class {
            Some(c) => match config.terminal_command(c.as_str()) {
                Some(command) => Some(command.clone()),
                None => None,
            },
            None => None,
        };
        let index = match best {
            Some(i) => i,
            None => {
                return Ok(
                    WindowPlan::Revive { command: None, working_directory: None, terminal_command },
                );
            },
        };
        proof {
            lemma_best_is_first_maximum(
                window_rules(config.window_command_mappings@),
                window.name@,
                text_of(window.class),
                config.window_command_mappings@.len() as int,
            );
        }
        let mapping = &config.window_command_mappings[index];
        if is_set(&mapping.ignored) {
            return Ok(WindowPlan::Skip);
        }
        if is_set(&mapping.once) {
            if self.is_used(index) {
                return Ok(
                    WindowPlan::Revive { command: None, working_directory: None, terminal_command },
                );
            }
            let ghost before = self.used();
            let ghost len = self.used_once@.len();
            self.used_once.push(index);
            proof {
                assert forall|i: int| self.used().contains(i) == before.insert(
                    index as int,
                ).contains(i) by {
                    if before.contains(i) {
                        let k = choose|k: int|
                            0 <= k < len && old(self).used_once@[k] == i;
                        assert(self.used_once@[k] == i);
                    }
                    if i == index {
                        assert(self.used_once@[len as int] == i);
                    }
                }
                assert(self.used() =~= before.insert(index as int));
            }
        }
        Ok(
            WindowPlan::Revive {
                command: clone_optional(&mapping.command),
                working_directory: clone_optional(&mapping.working_directory),
                terminal_command,
            },
        )
    }
}

fn is_set(flag: &Option<bool>) -> (b: bool)
    ensures
        b == (*flag == Some(true)),
{
    match flag {
        Some(v) => *v,
        None => false,
    }
}

/// Where two windows of a capture are both matched by a mapping flagged
/// `once`, the first gets the mapping's command and working directory, and
/// the second is revived as if no mapping had matched.
pub proof fn lemma_once_applies_to_first_only(
    config: Config,
    first: Window,
    second: Window,
    mapping: int,
)
    requires
        !first.is_placeholder,
        !second.is_placeholder,
        best_mapping(config.window_command_mappings@, first) == Some(mapping),
        best_mapping(config.window_command_mappings@, second) == Some(mapping),
        config.window_command_mappings@[mapping].once == Some(true),
        config.window_command_mappings@[mapping].ignored != Some(true),
    ensures
        plan_of(config, first, Set::empty()) == (PlanModel::Revive {
            command: text_of(config.window_command_mappings@[mapping].command),
            working_directory: text_of(config.window_command_mappings@[mapping].working_directory),
            terminal_command: terminal_command_for(config, first),
        }),
        plan_of(config, second, used_after(config, first, Set::empty())) == (PlanModel::Revive {
            command: None,
            working_directory: None,
            terminal_command: terminal_command_for(config, second),
        }),
{
}

} // verus!

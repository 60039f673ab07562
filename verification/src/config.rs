//! The user's configuration: command mappings, swallow criteria and terminal
//! revival settings.

use vstd::prelude::*;
use crate::text::str_eq;

verus! {

/// A rule that replaces, or suppresses, the command recorded for the windows
/// it matches. `class` and `title` are regular expressions.
#[derive(Debug)]
pub struct WindowCommandMapping {
    pub class: Option<String>,
    pub title: Option<String>,
    pub command: Option<String>,
    pub working_directory: Option<String>,
    pub once: Option<bool>,
    pub ignored: Option<bool>,
}

/// A rule that rewrites the command of a program found running inside a
/// terminal. `name` and `args` are regular expressions.
#[derive(Debug)]
pub struct TerminalCommandMapping {
    pub name: Option<String>,
    pub args: Option<String>,
    pub command: Option<String>,
}

/// The swallow criteria fields to use for windows of one class.
#[derive(Debug)]
pub struct SwallowRule {
    pub class: String,
    pub fields: Vec<String>,
}

/// The command that starts a fresh terminal of one class; `{cmd}` in it
/// stands for the command the terminal is to run.
#[derive(Debug)]
pub struct TerminalRevive {
    pub class: String,
    pub command: String,
}

/// The configuration as a whole. In the lists that are looked up by
/// class the first entry for a class counts.
#[derive(Debug)]
pub struct Config {
    pub window_command_mappings: Vec<WindowCommandMapping>,
    pub terminal_command_mappings: Vec<TerminalCommandMapping>,
    pub window_swallow_criteria: Vec<SwallowRule>,
    pub terminal_allow_revive_processes: Vec<String>,
    pub terminal_revive_commands: Vec<TerminalRevive>,
}

/// Whether `name` is one of `names`.
pub open spec fn has_name(names: Seq<String>, name: Seq<char>) -> bool {
    exists|i: int| 0 <= i < names.len() && #[trigger] names[i]@ == name
}

/// The fields of the first swallow rule for `class`, if there is one.
pub open spec fn swallow_fields_in(rules: Seq<SwallowRule>, class: Seq<char>) -> Option<
    Seq<String>,
>
    decreases rules.len(),
{
    if rules.len() == 0 {
        None
    } else if rules[0].class@ == class {
        Some(rules[0].fields@)
    } else {
        swallow_fields_in(rules.drop_first(), class)
    }
}

/// The command of the first revive entry for `class`, if there is one.
pub open spec fn terminal_command_in(commands: Seq<TerminalRevive>, class: Seq<char>) -> Option<
    Seq<char>,
>
    decreases commands.len(),
{
    if commands.len() == 0 {
        None
    } else if commands[0].class@ == class {
        Some(commands[0].command@)
    } else {
        terminal_command_in(commands.drop_first(), class)
    }
}

/// Tells whether `name` occurs in `names`.
pub fn contains_name(names: &Vec<String>, name: &str) -> (r: bool)
    ensures
        r == has_name(names@, name@),
{
    let mut i: usize = 0;
    while i < names.len()
        invariant
            i <= names.len(),
            forall|j: int| 0 <= j < i ==> names@[j]@ != name@,
        decreases names.len() - i,
    {
        if str_eq(names[i].as_str(), name) {
            return true;
        }
        i += 1;
    }
    false
}

impl Config {
    /// The configuration with no rule in it.
    pub fn empty() -> (c: Config)
        ensures
            c.window_command_mappings@.len() == 0,
            c.terminal_command_mappings@.len() == 0,
            c.window_swallow_criteria@.len() == 0,
            c.terminal_allow_revive_processes@.len() == 0,
            c.terminal_revive_commands@.len() == 0,
    {
        Config {
            window_command_mappings: Vec::new(),
            terminal_command_mappings: Vec::new(),
            window_swallow_criteria: Vec::new(),
            terminal_allow_revive_processes: Vec::new(),
            terminal_revive_commands: Vec::new(),
        }
    }

    /// The swallow criteria fields configured for `class`, if any.
    pub open spec fn spec_swallow_fields(self, class: Seq<char>) -> Option<Seq<String>> {
        swallow_fields_in(self.window_swallow_criteria@, class)
    }

    /// The revive command configured for terminals of `class`, if any.
    pub open spec fn spec_terminal_command(self, class: Seq<char>) -> Option<Seq<char>> {
        terminal_command_in(self.terminal_revive_commands@, class)
    }

    /// Whether windows of `class` are terminals that can be revived.
    pub open spec fn spec_is_terminal(self, class: Seq<char>) -> bool {
        self.spec_terminal_command(class) is Some
    }

    /// Looks up the swallow criteria fields configured for `class`: those
    /// of the first rule that names it.
    pub fn swallow_fields(&self, class: &str) -> (r: Option<&Vec<String>>)
        ensures
            match r {
                Some(fields) => self.spec_swallow_fields(class@) == Some(fields@),
                None => self.spec_swallow_fields(class@) is None,
            },
    {
        let rules = &self.window_swallow_criteria;
        let mut i: usize = 0;
        assert(rules@.skip(0) =~= rules@);
        while i < rules.len()
            invariant
                i <= rules.len(),
                rules == &self.window_swallow_criteria,
                swallow_fields_in(rules@, class@) == swallow_fields_in(
                    rules@.skip(i as int),
                    class@,
                ),
            decreases rules.len() - i,
        {
            assert(rules@.skip(i as int).drop_first() == rules@.skip(i + 1));
            if str_eq(rules[i].class.as_str(), class) {
                return Some(&rules[i].fields);
            }
            i += 1;
        }
        None
    }

    /// Looks up the revive command for terminals of `class`: that of the
    /// first entry that names it.
    pub fn terminal_command(&self, class: &str) -> (r: Option<&String>)
        ensures
            match r {
                Some(command) => self.spec_terminal_command(class@) == Some(command@),
                None => self.spec_terminal_command(class@) is None,
            },
    {
        let commands = &self.terminal_revive_commands;
        let mut i: usize = 0;
        assert(commands@.skip(0) =~= commands@);
        while i < commands.len()
            invariant
                i <= commands.len(),
                commands == &self.terminal_revive_commands,
                terminal_command_in(commands@, class@) == terminal_command_in(
                    commands@.skip(i as int),
                    class@,
                ),
            decreases commands.len() - i,
        {
            assert(commands@.skip(i as int).drop_first() == commands@.skip(i + 1));
            if str_eq(commands[i].class.as_str(), class) {
                return Some(&commands[i].command);
            }
            i += 1;
        }
        None
    }
}

} // verus!

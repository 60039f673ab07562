//! Revival of terminals: which program runs in the shell of a terminal
//! window, and the command that starts a terminal running it again.

use vstd::prelude::*;
use vstd::string::*;
use crate::config::{contains_name, has_name, Config, TerminalCommandMapping};
use crate::mapping::{best_rule, position, rule_choice, PatternError, RulePatterns};
use crate::pattern::{first_capture, regex_first_capture, regex_pieces};
use crate::process::{first_child, first_child_of};
use crate::shellwords::{all_quotable, join, joined_quoted, shell_words, split};
use crate::template::{interpolate, interpolated, placeholder_pattern, TemplateError};
use crate::text::{
    after_last, after_last_seq, bounded_value, clone_optional, contains_text, decimal,
    decimal_digits, lemma_after_last_whole, occurs_in, optional_texts, parse_u32, replace_all,
    replaced, str_eq, text_of, texts, words, words_of,
};

verus! {

/// Why the command of a terminal could not be worked out.
#[derive(Clone, Copy, Debug, PartialEq, Eq, Structural)]
pub enum TerminalError {
    /// The shell was started by a revival, but its command does not tell
    /// for which window.
    BadMarker,
    /// The terminal has no child: no shell runs in it.
    NoShell,
    /// Something that was needed of the system could not be read.
    Unreadable,
    /// A list of processes does not hold the process identifier that is
    /// read from it.
    BadProcessList,
    /// A pattern of a terminal command mapping is no valid regular
    /// expression.
    Pattern(PatternError),
    /// A command template could not be filled in.
    Template(TemplateError),
    /// A word of a command holds a NUL and cannot be quoted.
    Unquotable,
    /// A command is no well-formed shell command line.
    Malformed,
}

/// What the command of a terminal's first child tells of it.
#[derive(Debug)]
pub enum ShellSession {
    /// The child is no shell that is known: the terminal is revived
    /// without a program.
    NotAShell,
    /// The shell was started with arguments of its own: the terminal is
    /// revived without a program.
    ExtraArguments,
    /// A shell that the user started.
    Plain,
    /// A shell that an earlier revival started, for the window with this
    /// identifier.
    Revived(String),
}

/// A shell session as plain values.
pub enum SessionModel {
    NotAShell,
    ExtraArguments,
    Plain,
    Revived(Seq<char>),
}

impl View for ShellSession {
    type V = SessionModel;

    open spec fn view(&self) -> SessionModel {
        match *self {
            ShellSession::NotAShell => SessionModel::NotAShell,
            ShellSession::ExtraArguments => SessionModel::ExtraArguments,
            ShellSession::Plain => SessionModel::Plain,
            ShellSession::Revived(window) => SessionModel::Revived(window@),
        }
    }
}

/// Whether a program of this name is a shell that can be revived.
pub open spec fn known_shell(name: Seq<char>) -> bool {
    name == "bash"@ || name == "zsh"@ || name == "fish"@ || name == "sh"@
}

/// The text by which the command of a revived shell is recognised.
pub open spec fn revival_marker() -> Seq<char> {
    "Revive-Terminal-Window-"@
}

/// The regular expression that reads the window's identifier off the
/// command of a revived shell.
pub open spec fn marker_pattern() -> Seq<char> {
    "Revive-Terminal-Window-(\\d+)"@
}

/// Whether the words of a shell's command are those of a revived shell:
/// `-c` and a script that holds the revival marker.
pub open spec fn revived_shell(parts: Seq<Seq<char>>) -> bool {
    parts.len() > 2 && parts[1] == "-c"@ && occurs_in(parts[2], revival_marker())
}

/// The session of a revived shell, given what the marker pattern captures
/// in its script: the window's identifier, without which the marker is
/// broken.
pub open spec fn revived_session(capture: Option<Option<Seq<char>>>) -> Result<
    SessionModel,
    TerminalError,
> {
    match capture {
        Some(Some(window)) => Ok(SessionModel::Revived(window)),
        _ => Err(TerminalError::BadMarker),
    }
}

/// What the words of the command of a terminal's first child tell of it.
pub open spec fn session_of(parts: Seq<Seq<char>>) -> Result<SessionModel, TerminalError> {
    if parts.len() == 0 || !known_shell(after_last_seq(parts[0], '/')) {
        Ok(SessionModel::NotAShell)
    } else if revived_shell(parts) {
        revived_session(regex_first_capture(marker_pattern(), parts[2]))
    } else if parts.len() > 1 {
        Ok(SessionModel::ExtraArguments)
    } else {
        Ok(SessionModel::Plain)
    }
}

/// A session, or the error in its place, as plain values.
pub open spec fn session_model(r: Result<ShellSession, TerminalError>) -> Result<
    SessionModel,
    TerminalError,
> {
    match r {
        Ok(s) => Ok(s@),
        Err(e) => Err(e),
    }
}

/// Tells the session of a revived shell from what the marker pattern has
/// captured in its script.
pub fn session_from_capture(capture: Option<Option<String>>) -> (r: Result<
    ShellSession,
    TerminalError,
>)
    ensures
        session_model(r) == revived_session(
            match capture {
                Some(Some(window)) => Some(Some(window@)),
                Some(None) => Some(None),
                None => None,
            },
        ),
{
    match capture {
        Some(Some(window)) => Ok(ShellSession::Revived(window)),
        _ => Err(TerminalError::BadMarker),
    }
}

/// Classifies the first child of a terminal by the words of its command.
pub fn classify_shell(parts: &Vec<String>) -> (r: Result<ShellSession, TerminalError>)
    ensures
        session_model(r) == session_of(texts(parts@)),
{
    assert(texts(parts@).len() == parts@.len());
    if parts.len() == 0 {
        return Ok(ShellSession::NotAShell);
    }
    assert(texts(parts@)[0] == parts@[0]@);
    let name = after_last(parts[0].as_str(), '/');
    let known = str_eq(name.as_str(), "bash") || str_eq(name.as_str(), "zsh") || str_eq(
        name.as_str(),
        "fish",
    ) || str_eq(name.as_str(), "sh");
    if !known {
        return Ok(ShellSession::NotAShell);
    }
    if parts.len() > 2 {
        assert(texts(parts@)[1] == parts@[1]@);
        assert(texts(parts@)[2] == parts@[2]@);
        if str_eq(parts[1].as_str(), "-c") && contains_text(
            parts[2].as_str(),
            "Revive-Terminal-Window-",
        ) {
            let capture = first_capture("Revive-Terminal-Window-(\\d+)", parts[2].as_str());
            return session_from_capture(capture);
        }
    }
    if parts.len() > 1 {
        Ok(ShellSession::ExtraArguments)
    } else {
        Ok(ShellSession::Plain)
    }
}

/// The path of the file that tells that the program of a revived window
/// has run.
pub open spec fn marker_path_of(window: Seq<char>) -> Seq<char> {
    "/tmp/i3-revive/"@ + window
}

/// Names the file that tells that the program of a revived window has
/// run.
pub fn marker_path(window: &str) -> (r: String)
    ensures
        r@ == marker_path_of(window@),
{
    String::from_str("/tmp/i3-revive/").concat(window)
}

impl ShellSession {
    /// The marker file whose presence matters to the session: that of
    /// the window of a revived shell.
    pub open spec fn spec_marker(self) -> Option<Seq<char>> {
        match self {
            ShellSession::Revived(window) => Some(marker_path_of(window@)),
            _ => None,
        }
    }

    /// Names the marker file to look for, if the session has one.
    pub fn marker(&self) -> (r: Option<String>)
        ensures
            text_of(r) == self.spec_marker(),
    {
        match self {
            ShellSession::Revived(window) => Some(marker_path(window.as_str())),
            _ => None,
        }
    }
}

/// Where the foreground process of a shell is read.
#[derive(Clone, Copy, Debug, PartialEq, Eq, Structural)]
pub enum PidSource {
    /// From the list of the shell's children: its first child.
    Children,
    /// From the shell's status line: the foreground process group of its
    /// terminal.
    Status,
}

/// Where the foreground process of a session is read: nowhere for what
/// is no shell or a shell with arguments of its own, whose terminal is
/// revived without a program; from the children of a revived shell whose
/// program has not run yet, as its marker file is not there; and from the
/// status line of the shell otherwise.
pub open spec fn source_of(session: ShellSession, marker_exists: bool) -> Option<PidSource> {
    match session {
        ShellSession::NotAShell => None,
        ShellSession::ExtraArguments => None,
        ShellSession::Plain => Some(PidSource::Status),
        ShellSession::Revived(_) => if marker_exists {
            Some(PidSource::Status)
        } else {
            Some(PidSource::Children)
        },
    }
}

/// Decides where the foreground process of a session is read.
/// `marker_exists` tells whether the marker file of the session is there.
pub fn foreground_source(session: &ShellSession, marker_exists: bool) -> (r: Option<PidSource>)
    ensures
        r == source_of(*session, marker_exists),
{
    match session {
        ShellSession::NotAShell => None,
        ShellSession::ExtraArguments => None,
        ShellSession::Plain => Some(PidSource::Status),
        ShellSession::Revived(_) => if marker_exists {
            Some(PidSource::Status)
        } else {
            Some(PidSource::Children)
        },
    }
}

/// A number of at most 32 bits.
pub open spec fn as_pid(value: Option<nat>) -> Option<u32> {
    match value {
        Some(n) => Some(n as u32),
        None => None,
    }
}

/// The process that a list of children names first.
pub open spec fn children_pid(children: Seq<char>) -> Option<u32> {
    match first_child_of(children) {
        Some(child) => as_pid(bounded_value(child, u32::MAX as nat)),
        None => None,
    }
}

/// The foreground process group in the status line of a process: the
/// sixth field after the last closing bracket.
pub open spec fn status_pid(status: Seq<char>) -> Option<u32> {
    if !status.contains(')') {
        None
    } else if words_of(after_last_seq(status, ')')).len() > 5 {
        as_pid(bounded_value(words_of(after_last_seq(status, ')'))[5], u32::MAX as nat))
    } else {
        None
    }
}

/// Reads the first child off the list of a shell's children.
pub fn pid_from_children(children: &str) -> (r: Option<u32>)
    ensures
        r == children_pid(children@),
{
    match first_child(children) {
        Some(child) => parse_u32(child.as_str()),
        None => None,
    }
}

/// Reads the foreground process group off the status line of a shell.
pub fn pid_from_status(status: &str) -> (r: Option<u32>)
    ensures
        r == status_pid(status@),
{
    let rest = after_last(status, ')');
    proof {
        lemma_after_last_whole(status@, ')');
    }
    if rest.as_str().unicode_len() == status.unicode_len() {
        return None;
    }
    let fields = words(rest.as_str());
    assert(texts(fields@).len() == fields@.len());
    if fields.len() > 5 {
        assert(texts(fields@)[5] == fields@[5]@);
        parse_u32(fields[5].as_str())
    } else {
        None
    }
}

/// The program that runs in the foreground of a shell, given the text
/// that the source holds and the shell's own identifier: none where the
/// shell itself is in the foreground.
pub open spec fn foreground_of(source: PidSource, text: Seq<char>, shell: Seq<char>) -> Result<
    Option<u32>,
    TerminalError,
> {
    let found = match source {
        PidSource::Children => children_pid(text),
        PidSource::Status => status_pid(text),
    };
    let own = as_pid(bounded_value(shell, u32::MAX as nat));
    if found is None || own is None {
        Err(TerminalError::BadProcessList)
    } else if found == own {
        Ok(None)
    } else {
        Ok(found)
    }
}

/// Finds the process that runs in the foreground of a shell. `text` is
/// what was read from the source, `shell` the identifier of the shell.
pub fn foreground_process(source: PidSource, text: &str, shell: &str) -> (r: Result<
    Option<u32>,
    TerminalError,
>)
    ensures
        r == foreground_of(source, text@, shell@),
{
    let found = match source {
        PidSource::Children => pid_from_children(text),
        PidSource::Status => pid_from_status(text),
    };
    let own = parse_u32(shell);
    match (found, own) {
        (Some(f), Some(o)) => if f == o {
            Ok(None)
        } else {
            Ok(Some(f))
        },
        _ => Err(TerminalError::BadProcessList),
    }
}

/// Whether a program found in a terminal may be started again: its
/// command has a program, and the name of the program, without the
/// directories before it, is on the list of those allowed.
pub open spec fn revivable(allowed: Seq<String>, command: Seq<Seq<char>>) -> bool {
    command.len() > 0 && has_name(allowed, after_last_seq(command[0], '/'))
}

/// Tells whether a program found in a terminal may be started again.
pub fn is_revivable(allowed: &Vec<String>, command: &Vec<String>) -> (b: bool)
    ensures
        b == revivable(allowed@, texts(command@)),
{
    assert(texts(command@).len() == command@.len());
    if command.len() == 0 {
        return false;
    }
    assert(texts(command@)[0] == command@[0]@);
    let name = after_last(command[0].as_str(), '/');
    contains_name(allowed, name.as_str())
}

/// The patterns of a terminal command mapping: the name of the program
/// weighs two, its arguments one.
pub open spec fn terminal_rule(mapping: TerminalCommandMapping) -> RulePatterns {
    RulePatterns { primary: mapping.name, secondary: mapping.args }
}

/// The patterns of some terminal command mappings, in their order.
pub open spec fn terminal_rules(mappings: Seq<TerminalCommandMapping>) -> Seq<RulePatterns> {
    mappings.map_values(|m: TerminalCommandMapping| terminal_rule(m))
}

/// The mapping that applies to a command: the program is tried against
/// the name patterns, and the quoted arguments, with spaces between them,
/// against the argument patterns. No mapping applies to a command
/// without a program, and arguments that cannot be quoted are an error.
pub open spec fn terminal_choice(mappings: Seq<TerminalCommandMapping>, command: Seq<Seq<char>>)
    -> Result<Option<int>, TerminalError> {
    if command.len() == 0 {
        Ok(None)
    } else if !all_quotable(command.skip(1)) {
        Err(TerminalError::Unquotable)
    } else {
        match rule_choice(
            terminal_rules(mappings),
            command[0],
            Some(joined_quoted(command.skip(1))),
        ) {
            Ok(best) => Ok(best),
            Err(e) => Err(TerminalError::Pattern(e)),
        }
    }
}

fn rules_of_mappings(mappings: &Vec<TerminalCommandMapping>) -> (r: Vec<RulePatterns>)
    ensures
        r@ == terminal_rules(mappings@),
{
    let mut r: Vec<RulePatterns> = Vec::new();
    let mut i: usize = 0;
    while i < mappings.len()
        invariant
            i <= mappings.len(),
            r@.len() == i,
            forall|j: int| 0 <= j < i ==> #[trigger] r@[j] == terminal_rule(mappings@[j]),
        decreases mappings.len() - i,
    {
        let m = &mappings[i];
        r.push(RulePatterns { primary: clone_optional(&m.name), secondary: clone_optional(&m.args) });
        i += 1;
    }
    assert(r@ =~= terminal_rules(mappings@));
    r
}

fn arguments(command: &Vec<String>) -> (r: Vec<String>)
    requires
        command@.len() > 0,
    ensures
        texts(r@) == texts(command@).skip(1),
{
    let mut r: Vec<String> = Vec::new();
    let mut k: usize = 1;
    while k < command.len()
        invariant
            1 <= k <= command.len(),
            r@ == command@.subrange(1, k as int),
        decreases command.len() - k,
    {
        r.push(command[k].clone());
        assert(r@ =~= command@.subrange(1, k + 1));
        k += 1;
    }
    assert(texts(r@) =~= texts(command@).skip(1));
    r
}

/// A choice of mapping, or the error in its place, as plain values.
pub open spec fn terminal_choice_model(r: Result<Option<usize>, TerminalError>) -> Result<
    Option<int>,
    TerminalError,
> {
    match r {
        Ok(best) => Ok(position(best)),
        Err(e) => Err(e),
    }
}

/// Picks the terminal command mapping that applies to a command.
pub fn select_terminal_mapping(mappings: &Vec<TerminalCommandMapping>, command: &Vec<String>) -> (r:
    Result<Option<usize>, TerminalError>)
    ensures
        terminal_choice_model(r) == terminal_choice(mappings@, texts(command@)),
{
    assert(texts(command@).len() == command@.len());
    if command.len() == 0 {
        return Ok(None);
    }
    let args = arguments(command);
    let line = match join(&args) {
        Some(line) => line,
        None => {
            return Err(TerminalError::Unquotable);
        },
    };
    let rules = rules_of_mappings(mappings);
    assert(texts(command@)[0] == command@[0]@);
    match best_rule(&rules, command[0].as_str(), Some(line.as_str())) {
        Ok(best) => Ok(best),
        Err(e) => Err(TerminalError::Pattern(e)),
    }
}

/// The words of the command that a template gives for a command: those
/// of the filled template, which has to be a well-formed shell command.
pub open spec fn rewritten(template: Seq<char>, command: Seq<Seq<char>>) -> Result<
    Seq<Seq<char>>,
    TerminalError,
> {
    match interpolated(template, regex_pieces(placeholder_pattern(), template), command) {
        Err(e) => Err(TerminalError::Template(e)),
        Ok(line) => match shell_words(line) {
            Some(words) => Ok(words),
            None => Err(TerminalError::Malformed),
        },
    }
}

/// Words, or the error in their place, as plain values.
pub open spec fn words_model(r: Result<Vec<String>, TerminalError>) -> Result<
    Seq<Seq<char>>,
    TerminalError,
> {
    match r {
        Ok(words) => Ok(texts(words@)),
        Err(e) => Err(e),
    }
}

/// Rewrites a command through the command template of a mapping.
pub fn rewrite_command(template: &str, command: &Vec<String>) -> (r: Result<
    Vec<String>,
    TerminalError,
>)
    ensures
        words_model(r) == rewritten(template@, texts(command@)),
{
    let line = match interpolate(template, command) {
        Ok(line) => line,
        Err(e) => {
            return Err(TerminalError::Template(e));
        },
    };
    match split(line.as_str()) {
        Some(words) => Ok(words),
        None => Err(TerminalError::Malformed),
    }
}

/// The command that brings back the program found in a terminal: none
/// where the program may not be started again; else the program's
/// command, rewritten where a mapping with a command template applies to
/// it.
pub open spec fn foreground_command_of(config: Config, command: Seq<Seq<char>>) -> Result<
    Option<Seq<Seq<char>>>,
    TerminalError,
> {
    if !revivable(config.terminal_allow_revive_processes@, command) {
        Ok(None)
    } else {
        match terminal_choice(config.terminal_command_mappings@, command) {
            Err(e) => Err(e),
            Ok(None) => Ok(Some(command)),
            Ok(Some(i)) => match config.terminal_command_mappings@[i].command {
                None => Ok(Some(command)),
                Some(template) => match rewritten(template@, command) {
                    Ok(words) => Ok(Some(words)),
                    Err(e) => Err(e),
                },
            },
        }
    }
}

/// An optional command, or the error in its place, as plain values.
pub open spec fn command_model(r: Result<Option<Vec<String>>, TerminalError>) -> Result<
    Option<Seq<Seq<char>>>,
    TerminalError,
> {
    match r {
        Ok(Some(words)) => Ok(Some(texts(words@))),
        Ok(None) => Ok(None),
        Err(e) => Err(e),
    }
}

/// Works out the command that brings back the program that runs in a
/// terminal, from the command that the program was started with.
pub fn foreground_command(config: &Config, command: Vec<String>) -> (r: Result<
    Option<Vec<String>>,
    TerminalError,
>)
    ensures
        command_model(r) == foreground_command_of(*config, texts(command@)),
{
    if !is_revivable(&config.terminal_allow_revive_processes, &command) {
        return Ok(None);
    }
    assert(texts(command@).len() == command@.len());
    let best = match select_terminal_mapping(&config.terminal_command_mappings, &command) {
        Ok(best) => best,
        Err(e) => {
            return Err(e);
        },
    };
    let index = match best {
        Some(i) => i,
        None => {
            return Ok(Some(command));
        },
    };
    proof {
        crate::mapping::lemma_best_is_first_maximum(
            terminal_rules(config.terminal_command_mappings@),
            texts(command@)[0],
            Some(joined_quoted(texts(command@).skip(1))),
            config.terminal_command_mappings@.len() as int,
        );
    }
    match &config.terminal_command_mappings[index].command {
        None => Ok(Some(command)),
        Some(template) => match rewrite_command(template.as_str(), &command) {
            Ok(words) => Ok(Some(words)),
            Err(e) => Err(e),
        },
    }
}

/// The script that the interactive shell of a revived terminal runs: the
/// program's command, or `true` where there is none, and then the making
/// of the marker file of the window.
pub open spec fn revive_script(foreground: Option<Seq<Seq<char>>>, window: u32) -> Seq<char> {
    (match foreground {
        Some(words) => joined_quoted(words),
        None => "true"@,
    }) + "; mkdir /tmp/i3-revive > /dev/null; touch /tmp/i3-revive/"@ + decimal_digits(
        window as nat,
    ) + " > /dev/null"@
}

/// The words of the interactive shell that runs a script.
pub open spec fn interactive_words(shell: Seq<char>, script: Seq<char>) -> Seq<Seq<char>> {
    seq![shell, "-i"@, "-c"@, script]
}

/// The script that the outer shell of a revived terminal runs: it sets
/// the window's title to the marker of the window, waits for half a
/// second, runs the interactive shell, and at last becomes a plain shell.
pub open spec fn titled_script(shell: Seq<char>, script: Seq<char>, window: u32) -> Seq<char> {
    "echo -ne \"\\033]0;Revive-Terminal-Window-"@ + decimal_digits(window as nat)
        + "\\007\"; sleep 0.5; "@ + joined_quoted(interactive_words(shell, script)) + "; exec "@
        + shell
}

/// The words of the outer shell of a revived terminal.
pub open spec fn outer_words(shell: Seq<char>, script: Seq<char>, window: u32) -> Seq<Seq<char>> {
    seq![shell, "-c"@, titled_script(shell, script, window)]
}

/// The command that starts a terminal again: the words of the terminal's
/// revive command, in which `{cmd}` stands for the quoted command of the
/// outer shell. A word that cannot be quoted, and a revive command that is
/// no well-formed shell command line, are errors.
pub open spec fn terminal_command_of(
    template: Seq<char>,
    shell: Seq<char>,
    foreground: Option<Seq<Seq<char>>>,
    window: u32,
) -> Result<Seq<Seq<char>>, TerminalError> {
    if foreground is Some && !all_quotable(foreground->0) {
        Err(TerminalError::Unquotable)
    } else if !all_quotable(interactive_words(shell, revive_script(foreground, window))) {
        Err(TerminalError::Unquotable)
    } else if !all_quotable(outer_words(shell, revive_script(foreground, window), window)) {
        Err(TerminalError::Unquotable)
    } else {
        match shell_words(
            replaced(
                template,
                "{cmd}"@,
                joined_quoted(outer_words(shell, revive_script(foreground, window), window)),
            ),
        ) {
            Some(words) => Ok(words),
            None => Err(TerminalError::Malformed),
        }
    }
}

/// Composes the command that starts a terminal again, with the program
/// that ran in it. `shell` is the program of the terminal's shell,
/// `window` the identifier of the window that the terminal had, and
/// `template` the revive command of the terminal's class.
pub fn terminal_command(
    template: &str,
    shell: &str,
    foreground: Option<&Vec<String>>,
    window: u32,
) -> (r: Result<Vec<String>, TerminalError>)
    ensures
        words_model(r) == terminal_command_of(
            template@,
            shell@,
            optional_texts(foreground),
            window,
        ),
{
    let number = decimal(window as u64);
    let program = match foreground {
        Some(words) => match join(words) {
            Some(line) => line,
            None => {
                return Err(TerminalError::Unquotable);
            },
        },
        None => String::from_str("true"),
    };
    let script = program.concat(
        "; mkdir /tmp/i3-revive > /dev/null; touch /tmp/i3-revive/",
    ).concat(number.as_str()).concat(" > /dev/null");
    assert(script@ == revive_script(optional_texts(foreground), window));
    let mut inner: Vec<String> = Vec::new();
    inner.push(String::from_str(shell));
    inner.push(String::from_str("-i"));
    inner.push(String::from_str("-c"));
    inner.push(script);
    assert(texts(inner@) =~= interactive_words(shell@, script@));
    let inner_line = match join(&inner) {
        Some(line) => line,
        None => {
            return Err(TerminalError::Unquotable);
        },
    };
    let titled = String::from_str("echo -ne \"\\033]0;Revive-Terminal-Window-").concat(
        number.as_str(),
    ).concat("\\007\"; sleep 0.5; ").concat(inner_line.as_str()).concat("; exec ").concat(shell);
    assert(titled@ == titled_script(shell@, script@, window));
    let mut outer: Vec<String> = Vec::new();
    outer.push(String::from_str(shell));
    outer.push(String::from_str("-c"));
    outer.push(titled);
    assert(texts(outer@) =~= outer_words(shell@, script@, window));
    let outer_line = match join(&outer) {
        Some(line) => line,
        None => {
            return Err(TerminalError::Unquotable);
        },
    };
    let line = replace_all(template, "{cmd}", outer_line.as_str());
    match split(line.as_str()) {
        Some(words) => Ok(words),
        None => Err(TerminalError::Malformed),
    }
}

} // verus!

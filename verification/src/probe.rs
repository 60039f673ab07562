//! The course of the questions by which the command that starts a terminal
//! again is found out: what is asked of the system, in which order, and
//! what follows from each answer.

use vstd::prelude::*;
use vstd::string::*;
use crate::config::Config;
use crate::process::{cmdline_parts, first_child, first_child_of, split_cmdline};
use crate::terminal::{
    classify_shell, foreground_command, foreground_command_of, foreground_of, foreground_process,
    foreground_source, marker_path_of, session_of, source_of, terminal_command,
    terminal_command_of, PidSource, SessionModel, ShellSession, TerminalError,
};
use crate::text::{decimal, decimal_digits, texts};

verus! {

/// What a probe asks of the system.
#[derive(Debug)]
pub enum ProbeRequest {
    /// The list of the children of the process with this identifier.
    Children(String),
    /// The recorded command line of the process with this identifier.
    CommandLine(String),
    /// Whether there is a file at this path.
    Marker(String),
    /// The status line of the process with this identifier.
    Status(String),
    /// The command that the process with this identifier was started
    /// with.
    Command(u32),
    /// The working directory of the process with this identifier.
    Directory(String),
}

/// What the system answers.
#[derive(Debug)]
pub enum ProbeAnswer {
    /// The text that was asked for.
    Text(String),
    /// Whether the file is there.
    Exists(bool),
    /// The command that was asked for.
    Command(Vec<String>),
    /// What was asked for could not be read.
    Unreadable,
}

/// What a probe does next.
#[derive(Debug)]
pub enum ProbeStep {
    /// It asks something of the system.
    Ask(ProbeRequest),
    /// It ends with the command that starts the terminal again.
    Done(Vec<String>),
    /// It ends without one.
    Failed(TerminalError),
}

/// Where a probe stands.
#[derive(Debug)]
pub enum ProbeState {
    /// The children of the terminal have been asked for.
    AwaitChildren,
    /// The command line of the terminal's first child has been asked for.
    AwaitShell { shell_pid: String },
    /// The marker file of a revived shell has been asked after.
    AwaitMarker { shell_pid: String, shell: String, session: ShellSession },
    /// The list that names the foreground process has been asked for.
    AwaitListing { shell_pid: String, shell: String, source: PidSource },
    /// The command of the foreground process has been asked for.
    AwaitCommand { shell: String },
    /// The probe has ended.
    Finished,
}

/// A probe into the terminal of one window.
#[derive(Debug)]
pub struct TerminalProbe {
    /// The identifier of the window.
    pub window: u32,
    /// The revive command of the window's class.
    pub revive_command: String,
    /// Where the probe stands.
    pub state: ProbeState,
}

impl TerminalProbe {
    /// Whether a probe has ended with the command for a terminal whose
    /// shell is the program `shell` and runs `foreground`.
    pub open spec fn ends(
        self,
        shell: Seq<char>,
        foreground: Option<Seq<Seq<char>>>,
        after: TerminalProbe,
        step: ProbeStep,
    ) -> bool {
        &&& after.state is Finished
        &&& match terminal_command_of(self.revive_command@, shell, foreground, self.window) {
            Ok(words) => step matches ProbeStep::Done(found) && texts(found@) == words,
            Err(e) => step == ProbeStep::Failed(e),
        }
    }

    /// Whether a probe has gone on rightly once the session of the shell
    /// is known, and whether its marker file is there: it asks for the
    /// list that names the foreground process, or ends without a program
    /// where none is looked for.
    pub open spec fn looks_for_foreground(
        self,
        shell_pid: Seq<char>,
        shell: Seq<char>,
        session: ShellSession,
        marker_exists: bool,
        after: TerminalProbe,
        step: ProbeStep,
    ) -> bool {
        match source_of(session, marker_exists) {
            None => self.ends(shell, None, after, step),
            Some(source) => {
                &&& after.state matches ProbeState::AwaitListing {
                    shell_pid: next_pid,
                    shell: next_shell,
                    source: next_source,
                } && next_pid@ == shell_pid && next_shell@ == shell && next_source == source
                &&& match source {
                    PidSource::Children => step matches ProbeStep::Ask(
                        ProbeRequest::Children(asked),
                    ) && asked@ == shell_pid,
                    PidSource::Status => step matches ProbeStep::Ask(ProbeRequest::Status(asked))
                        && asked@ == shell_pid,
                }
            },
        }
    }

    /// Whether `after` and `step` are what follows from an answer.
    ///
    /// The first child of the terminal is its shell; a terminal without
    /// one has no command. The shell is classified by its command line.
    /// For a revived shell the marker file is asked after. Then the
    /// foreground process is looked for, and its command is asked for.
    /// The probe ends with the terminal's command, in which the program
    /// in the foreground runs again where there is one that may. A
    /// command that cannot be read leaves the terminal without a program;
    /// anything else that cannot be read, and an answer that was not
    /// asked for, fails the probe.
    pub open spec fn follows(
        self,
        config: Config,
        answer: ProbeAnswer,
        after: TerminalProbe,
        step: ProbeStep,
    ) -> bool {
        &&& after.window == self.window
        &&& after.revive_command == self.revive_command
        &&& match (self.state, answer) {
            (ProbeState::AwaitChildren, ProbeAnswer::Text(children)) => match first_child_of(
                children@,
            ) {
                Some(pid) => {
                    &&& after.state matches ProbeState::AwaitShell { shell_pid } && shell_pid@
                        == pid
                    &&& step matches ProbeStep::Ask(ProbeRequest::CommandLine(asked)) && asked@
                        == pid
                },
                None => after.state is Finished && step == ProbeStep::Failed(
                    TerminalError::NoShell,
                ),
            },
            (ProbeState::AwaitShell { shell_pid }, ProbeAnswer::Text(raw)) => match session_of(
                cmdline_parts(raw@),
            ) {
                Err(e) => after.state is Finished && step == ProbeStep::Failed(e),
                Ok(SessionModel::Revived(window)) => {
                    &&& after.state matches ProbeState::AwaitMarker {
                        shell_pid: next_pid,
                        shell,
                        session,
                    } && next_pid@ == shell_pid@ && shell@ == cmdline_parts(raw@)[0] && session@
                        == SessionModel::Revived(window)
                    &&& step matches ProbeStep::Ask(ProbeRequest::Marker(path)) && path@
                        == marker_path_of(window)
                },
                Ok(SessionModel::Plain) => self.looks_for_foreground(
                    shell_pid@,
                    cmdline_parts(raw@)[0],
                    ShellSession::Plain,
                    false,
                    after,
                    step,
                ),
                Ok(SessionModel::NotAShell) => self.ends(cmdline_parts(raw@)[0], None, after, step),
                Ok(SessionModel::ExtraArguments) => self.ends(
                    cmdline_parts(raw@)[0],
                    None,
                    after,
                    step,
                ),
            },
            (
                ProbeState::AwaitMarker { shell_pid, shell, session },
                ProbeAnswer::Exists(exists),
            ) => self.looks_for_foreground(shell_pid@, shell@, session, exists, after, step),
            (
                ProbeState::AwaitListing { shell_pid, shell, source },
                ProbeAnswer::Text(listing),
            ) => match foreground_of(source, listing@, shell_pid@) {
                Err(e) => after.state is Finished && step == ProbeStep::Failed(e),
                Ok(None) => self.ends(shell@, None, after, step),
                Ok(Some(pid)) => {
                    &&& after.state matches ProbeState::AwaitCommand { shell: next_shell }
                        && next_shell@ == shell@
                    &&& step == ProbeStep::Ask(ProbeRequest::Command(pid))
                },
            },
            (ProbeState::AwaitCommand { shell }, ProbeAnswer::Command(command)) => {
                match foreground_command_of(config, texts(command@)) {
                    Err(e) => after.state is Finished && step == ProbeStep::Failed(e),
                    Ok(foreground) => self.ends(shell@, foreground, after, step),
                }
            },
            (ProbeState::AwaitCommand { shell }, ProbeAnswer::Unreadable) => self.ends(
                shell@,
                None,
                after,
                step,
            ),
            _ => after.state is Finished && step == ProbeStep::Failed(TerminalError::Unreadable),
        }
    }

    /// Whether a probe and its first request are those for the terminal
    /// of a window: the children of the process that owns the window are
    /// asked for.
    pub open spec fn begins(
        pid: u32,
        window: u32,
        revive_command: Seq<char>,
        probe: TerminalProbe,
        request: ProbeRequest,
    ) -> bool {
        &&& probe.window == window
        &&& probe.revive_command@ == revive_command
        &&& probe.state is AwaitChildren
        &&& request matches ProbeRequest::Children(asked) && asked@ == decimal_digits(pid as nat)
    }

    /// Begins the probe into the terminal of a window. `pid` is the
    /// process that owns the window, `revive_command` the revive command
    /// of the window's class.
    pub fn start(pid: u32, window: u32, revive_command: String) -> (r: (
        TerminalProbe,
        ProbeRequest,
    ))
        ensures
            TerminalProbe::begins(pid, window, revive_command@, r.0, r.1),
    {
        (
            TerminalProbe { window, revive_command, state: ProbeState::AwaitChildren },
            ProbeRequest::Children(decimal(pid as u64)),
        )
    }

    fn end(self, shell: &str, foreground: Option<&Vec<String>>) -> (r: (TerminalProbe, ProbeStep))
        ensures
            r.0.window == self.window,
            r.0.revive_command == self.revive_command,
            self.ends(
                shell@,
                match foreground {
                    Some(words) => Some(texts(words@)),
                    None => None,
                },
                r.0,
                r.1,
            ),
    {
        let step = match terminal_command(
            self.revive_command.as_str(),
            shell,
            foreground,
            self.window,
        ) {
            Ok(words) => ProbeStep::Done(words),
            Err(e) => ProbeStep::Failed(e),
        };
        (
            TerminalProbe {
                window: self.window,
                revive_command: self.revive_command,
                state: ProbeState::Finished,
            },
            step,
        )
    }

    fn fail(self, error: TerminalError) -> (r: (TerminalProbe, ProbeStep))
        ensures
            r.0.window == self.window,
            r.0.revive_command == self.revive_command,
            r.0.state is Finished,
            r.1 == ProbeStep::Failed(error),
    {
        (
            TerminalProbe {
                window: self.window,
                revive_command: self.revive_command,
                state: ProbeState::Finished,
            },
            ProbeStep::Failed(error),
        )
    }

    fn look_for_foreground(
        self,
        shell_pid: String,
        shell: String,
        session: &ShellSession,
        marker_exists: bool,
    ) -> (r: (TerminalProbe, ProbeStep))
        ensures
            r.0.window == self.window,
            r.0.revive_command == self.revive_command,
            self.looks_for_foreground(shell_pid@, shell@, *session, marker_exists, r.0, r.1),
    {
        match foreground_source(session, marker_exists) {
            None => self.end(shell.as_str(), None),
            Some(source) => {
                let asked = shell_pid.clone();
                let step = match source {
                    PidSource::Children => ProbeStep::Ask(ProbeRequest::Children(asked)),
                    PidSource::Status => ProbeStep::Ask(ProbeRequest::Status(asked)),
                };
                (
                    TerminalProbe {
                        window: self.window,
                        revive_command: self.revive_command,
                        state: ProbeState::AwaitListing { shell_pid, shell, source },
                    },
                    step,
                )
            },
        }
    }

    /// Takes in the answer to what the probe has asked, and tells what
    /// the probe does next.
    pub fn step(self, config: &Config, answer: ProbeAnswer) -> (r: (TerminalProbe, ProbeStep))
        ensures
            self.follows(*config, answer, r.0, r.1),
    {
        let TerminalProbe { window, revive_command, state } = self;
        let probe = TerminalProbe { window, revive_command, state: ProbeState::Finished };
        match (state, answer) {
            (ProbeState::AwaitChildren, ProbeAnswer::Text(children)) => {
                match first_child(children.as_str()) {
                    Some(pid) => {
                        let asked = pid.clone();
                        (
                            TerminalProbe {
                                window: probe.window,
                                revive_command: probe.revive_command,
                                state: ProbeState::AwaitShell { shell_pid: pid },
                            },
                            ProbeStep::Ask(ProbeRequest::CommandLine(asked)),
                        )
                    },
                    None => probe.fail(TerminalError::NoShell),
                }
            },
            (ProbeState::AwaitShell { shell_pid }, ProbeAnswer::Text(raw)) => {
                let parts = split_cmdline(raw.as_str());
                assert(texts(parts@).len() == parts@.len());
                assert(texts(parts@)[0] == parts@[0]@);
                let shell = parts[0].clone();
                match classify_shell(&parts) {
                    Err(e) => probe.fail(e),
                    Ok(session) => match session.marker() {
                        Some(path) => (
                            TerminalProbe {
                                window: probe.window,
                                revive_command: probe.revive_command,
                                state: ProbeState::AwaitMarker { shell_pid, shell, session },
                            },
                            ProbeStep::Ask(ProbeRequest::Marker(path)),
                        ),
                        None => probe.look_for_foreground(shell_pid, shell, &session, false),
                    },
                }
            },
            (
                ProbeState::AwaitMarker { shell_pid, shell, session },
                ProbeAnswer::Exists(exists),
            ) => probe.look_for_foreground(shell_pid, shell, &session, exists),
            (
                ProbeState::AwaitListing { shell_pid, shell, source },
                ProbeAnswer::Text(listing),
            ) => {
                match foreground_process(source, listing.as_str(), shell_pid.as_str()) {
                    Err(e) => probe.fail(e),
                    Ok(None) => probe.end(shell.as_str(), None),
                    Ok(Some(pid)) => (
                        TerminalProbe {
                            window: probe.window,
                            revive_command: probe.revive_command,
                            state: ProbeState::AwaitCommand { shell },
                        },
                        ProbeStep::Ask(ProbeRequest::Command(pid)),
                    ),
                }
            },
            (ProbeState::AwaitCommand { shell }, ProbeAnswer::Command(command)) => {
                match foreground_command(config, command) {
                    Err(e) => probe.fail(e),
                    Ok(Some(words)) => probe.end(shell.as_str(), Some(&words)),
                    Ok(None) => probe.end(shell.as_str(), None),
                }
            },
            (ProbeState::AwaitCommand { shell }, ProbeAnswer::Unreadable) => {
                probe.end(shell.as_str(), None)
            },
            _ => probe.fail(TerminalError::Unreadable),
        }
    }
}

} // verus!

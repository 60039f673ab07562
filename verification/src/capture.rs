//! The capture of the process behind one window: what is asked of the
//! system, in which order, and the record that comes of it.

use vstd::prelude::*;
use vstd::string::*;
use crate::config::Config;
use crate::i3_tree::Window;
use crate::mapping::{
    plan_result, used_after, CaptureSession, PatternError, PlanModel, WindowPlan,
};
use crate::probe::{ProbeAnswer, ProbeRequest, ProbeStep, TerminalProbe};
use crate::process::{directory_source, first_child_of, DirectorySource, Process};
use crate::template::{has_placeholder, mapped_command, mapped_words, needs_argv, TemplateError};
use crate::terminal::TerminalError;
use crate::text::{decimal, decimal_digits, text_of, texts};

verus! {

/// Why no process is recorded for a window that was to have one.
#[derive(Clone, Copy, Debug, PartialEq, Eq, Structural)]
pub enum CaptureError {
    /// A pattern of a window command mapping is no valid regular
    /// expression.
    Pattern(PatternError),
    /// The command of a mapping could not be filled in.
    Template(TemplateError),
    /// The command of the window's terminal could not be worked out.
    Terminal(TerminalError),
    /// Something that was needed of the system could not be read.
    Unreadable,
    /// The command that was found has no program.
    NoCommand,
}

/// What a capture does next.
#[derive(Debug)]
pub enum CaptureStep {
    /// It asks something of the system.
    Ask(ProbeRequest),
    /// It ends: no process is to be recorded for the window.
    Skip,
    /// It ends with the record of the window's process.
    Record(Process),
    /// It ends without a record.
    Failed(CaptureError),
}

/// Where a capture stands.
#[derive(Debug)]
pub enum CaptureState {
    /// The command of the owning process has been asked for, to fill in
    /// the command template of a mapping.
    AwaitStartedAs { template: String, directory: Option<String>, revive: Option<String> },
    /// The terminal of the window is being probed.
    Probing { probe: TerminalProbe, directory: Option<String> },
    /// The command of the owning process has been asked for, to be
    /// recorded.
    AwaitOwner { directory: Option<String> },
    /// The children of the owning process have been asked for, to find
    /// the working directory of a terminal.
    AwaitChildren { words: Vec<String> },
    /// The working directory has been asked for.
    AwaitDirectory { words: Vec<String> },
    /// The capture has ended.
    Finished,
}

/// The capture of the process behind one window.
#[derive(Debug)]
pub struct WindowCapture {
    /// The process that owns the window.
    pub pid: u32,
    /// The identifier of the window.
    pub window: u32,
    /// Where the capture stands.
    pub state: CaptureState,
}

impl WindowCapture {
    /// Whether a capture has ended with the record of a command and a
    /// working directory: a command without words gives no record.
    pub open spec fn records(
        self,
        words: Seq<Seq<char>>,
        directory: Seq<char>,
        after: WindowCapture,
        step: CaptureStep,
    ) -> bool {
        &&& after.state is Finished
        &&& if words.len() == 0 {
            step == CaptureStep::Failed(CaptureError::NoCommand)
        } else {
            step matches CaptureStep::Record(process) && texts(process.command@) == words
                && process.working_directory@ == directory
        }
    }

    /// Whether a capture has gone on rightly once the command is known:
    /// with a working directory from a mapping it ends; without one it
    /// asks for the children of a terminal, whose shell tells the
    /// directory, and for the directory of any other process.
    pub open spec fn seeks_directory(
        self,
        words: Seq<Seq<char>>,
        directory: Option<Seq<char>>,
        is_terminal: bool,
        after: WindowCapture,
        step: CaptureStep,
    ) -> bool {
        match directory {
            Some(d) => self.records(words, d, after, step),
            None => if is_terminal {
                &&& after.state matches CaptureState::AwaitChildren { words: kept } && texts(kept@)
                    == words
                &&& step matches CaptureStep::Ask(ProbeRequest::Children(asked)) && asked@
                    == decimal_digits(self.pid as nat)
            } else {
                &&& after.state matches CaptureState::AwaitDirectory { words: kept } && texts(
                    kept@,
                ) == words
                &&& step matches CaptureStep::Ask(ProbeRequest::Directory(asked)) && asked@
                    == decimal_digits(self.pid as nat)
            },
        }
    }

    /// Whether a capture has gone on rightly once it is known what the
    /// mapping gives for a command: the mapping's command comes first;
    /// without one the terminal of the window is probed, or, for a window
    /// that is no terminal, the command of the owning process is asked
    /// for.
    pub open spec fn takes_command(
        self,
        mapped: Option<Seq<Seq<char>>>,
        directory: Option<Seq<char>>,
        revive: Option<Seq<char>>,
        after: WindowCapture,
        step: CaptureStep,
    ) -> bool {
        match mapped {
            Some(words) => self.seeks_directory(words, directory, revive is Some, after, step),
            None => match revive {
                Some(command) => {
                    &&& after.state matches CaptureState::Probing { probe, directory: kept }
                    &&& text_of(kept) == directory
                    &&& step matches CaptureStep::Ask(request)
                    &&& TerminalProbe::begins(self.pid, self.window, command, probe, request)
                },
                None => {
                    &&& after.state matches CaptureState::AwaitOwner { directory: kept }
                        && text_of(kept) == directory
                    &&& step == CaptureStep::Ask(ProbeRequest::Command(self.pid))
                },
            },
        }
    }

    /// Whether a capture has gone on rightly once the command that the
    /// owning process was started with is known, or is known to be out of
    /// reach: the mapping's command is worked out with it.
    pub open spec fn fills_template(
        self,
        template: Seq<char>,
        argv: Option<Seq<Seq<char>>>,
        directory: Option<Seq<char>>,
        revive: Option<Seq<char>>,
        after: WindowCapture,
        step: CaptureStep,
    ) -> bool {
        match mapped_words(template, argv) {
            Err(e) => after.state is Finished && step == CaptureStep::Failed(
                CaptureError::Template(e),
            ),
            Ok(mapped) => self.takes_command(mapped, directory, revive, after, step),
        }
    }

    /// Whether a capture and its first step are those that a plan asks
    /// for. A window that is skipped has no capture to speak of. The
    /// command of a mapping that holds a placeholder needs the command of
    /// the owning process first.
    pub open spec fn begins(
        pid: u32,
        window: u32,
        plan: Result<PlanModel, PatternError>,
        capture: WindowCapture,
        step: CaptureStep,
    ) -> bool {
        &&& capture.pid == pid
        &&& capture.window == window
        &&& match plan {
            Err(e) => capture.state is Finished && step == CaptureStep::Failed(
                CaptureError::Pattern(e),
            ),
            Ok(PlanModel::Skip) => capture.state is Finished && step == CaptureStep::Skip,
            Ok(PlanModel::Revive { command, working_directory, terminal_command }) => {
                let fresh = WindowCapture { pid, window, state: CaptureState::Finished };
                match command {
                    Some(template) => if has_placeholder(template) {
                        &&& capture.state matches CaptureState::AwaitStartedAs {
                            template: kept,
                            directory,
                            revive,
                        } && kept@ == template && text_of(directory) == working_directory
                            && text_of(revive) == terminal_command
                        &&& step == CaptureStep::Ask(ProbeRequest::Command(pid))
                    } else {
                        fresh.fills_template(
                            template,
                            None,
                            working_directory,
                            terminal_command,
                            capture,
                            step,
                        )
                    },
                    None => fresh.takes_command(
                        None,
                        working_directory,
                        terminal_command,
                        capture,
                        step,
                    ),
                }
            },
        }
    }

    /// Whether `after` and `step` are what follows from an answer.
    ///
    /// While the terminal is probed the probe decides; its command is
    /// that of the window. The directory of a terminal is that of its
    /// first child, if it has one. A command of the owning process that
    /// cannot be read leaves the template of a mapping as it is, but
    /// fails the capture where the command itself was to be recorded, as
    /// does anything else that cannot be read, or was not asked for.
    pub open spec fn follows(
        self,
        config: Config,
        answer: ProbeAnswer,
        after: WindowCapture,
        step: CaptureStep,
    ) -> bool {
        &&& after.pid == self.pid
        &&& after.window == self.window
        &&& match (self.state, answer) {
            (
                CaptureState::AwaitStartedAs { template, directory, revive },
                ProbeAnswer::Command(argv),
            ) => self.fills_template(
                template@,
                Some(texts(argv@)),
                text_of(directory),
                text_of(revive),
                after,
                step,
            ),
            (
                CaptureState::AwaitStartedAs { template, directory, revive },
                ProbeAnswer::Unreadable,
            ) => self.fills_template(
                template@,
                None,
                text_of(directory),
                text_of(revive),
                after,
                step,
            ),
            (CaptureState::Probing { probe, directory }, answer) => exists|
                next: TerminalProbe,
                probed: ProbeStep,
            |
                {
                    &&& #[trigger] probe.follows(config, answer, next, probed)
                    &&& match probed {
                        ProbeStep::Ask(request) => {
                            &&& after.state matches CaptureState::Probing {
                                probe: kept,
                                directory: same,
                            } && kept == next && same == directory
                            &&& step == CaptureStep::Ask(request)
                        },
                        ProbeStep::Done(words) => self.seeks_directory(
                            texts(words@),
                            text_of(directory),
                            true,
                            after,
                            step,
                        ),
                        ProbeStep::Failed(e) => after.state is Finished && step
                            == CaptureStep::Failed(CaptureError::Terminal(e)),
                    }
                },
            (CaptureState::AwaitOwner { directory }, ProbeAnswer::Command(words)) => {
                self.seeks_directory(texts(words@), text_of(directory), false, after, step)
            },
            (CaptureState::AwaitChildren { words }, ProbeAnswer::Text(children)) => {
                &&& after.state matches CaptureState::AwaitDirectory { words: kept } && texts(
                    kept@,
                ) == texts(words@)
                &&& step matches CaptureStep::Ask(ProbeRequest::Directory(asked)) && asked@
                    == match first_child_of(children@) {
                    Some(child) => child,
                    None => decimal_digits(self.pid as nat),
                }
            },
            (CaptureState::AwaitDirectory { words }, ProbeAnswer::Text(directory)) => {
                self.records(texts(words@), directory@, after, step)
            },
            _ => after.state is Finished && step == CaptureStep::Failed(CaptureError::Unreadable),
        }
    }

    fn fail(pid: u32, window: u32, error: CaptureError) -> (r: (WindowCapture, CaptureStep))
        ensures
            r.0.pid == pid,
            r.0.window == window,
            r.0.state is Finished,
            r.1 == CaptureStep::Failed(error),
    {
        (WindowCapture { pid, window, state: CaptureState::Finished }, CaptureStep::Failed(error))
    }

    fn record(pid: u32, window: u32, words: Vec<String>, directory: String) -> (r: (
        WindowCapture,
        CaptureStep,
    ))
        ensures
            r.0.pid == pid,
            r.0.window == window,
            (WindowCapture { pid, window, state: CaptureState::Finished }).records(
                texts(words@),
                directory@,
                r.0,
                r.1,
            ),
    {
        assert(texts(words@).len() == words@.len());
        match Process::new(words, directory) {
            Some(process) => (
                WindowCapture { pid, window, state: CaptureState::Finished },
                CaptureStep::Record(process),
            ),
            None => WindowCapture::fail(pid, window, CaptureError::NoCommand),
        }
    }

    fn seek_directory(
        pid: u32,
        window: u32,
        words: Vec<String>,
        directory: Option<String>,
        is_terminal: bool,
    ) -> (r: (WindowCapture, CaptureStep))
        ensures
            r.0.pid == pid,
            r.0.window == window,
            (WindowCapture { pid, window, state: CaptureState::Finished }).seeks_directory(
                texts(words@),
                text_of(directory),
                is_terminal,
                r.0,
                r.1,
            ),
    {
        match directory {
            Some(d) => WindowCapture::record(pid, window, words, d),
            None => if is_terminal {
                (
                    WindowCapture { pid, window, state: CaptureState::AwaitChildren { words } },
                    CaptureStep::Ask(ProbeRequest::Children(decimal(pid as u64))),
                )
            } else {
                (
                    WindowCapture { pid, window, state: CaptureState::AwaitDirectory { words } },
                    CaptureStep::Ask(ProbeRequest::Directory(decimal(pid as u64))),
                )
            },
        }
    }

    fn take_command(
        pid: u32,
        window: u32,
        mapped: Option<Vec<String>>,
        directory: Option<String>,
        revive: Option<String>,
    ) -> (r: (WindowCapture, CaptureStep))
        ensures
            r.0.pid == pid,
            r.0.window == window,
            (WindowCapture { pid, window, state: CaptureState::Finished }).takes_command(
                match mapped {
                    Some(words) => Some(texts(words@)),
                    None => None,
                },
                text_of(directory),
                text_of(revive),
                r.0,
                r.1,
            ),
    {
        match mapped {
            Some(words) => WindowCapture::seek_directory(
                pid,
                window,
                words,
                directory,
                revive.is_some(),
            ),
            None => match revive {
                Some(command) => {
                    let (probe, request) = TerminalProbe::start(pid, window, command);
                    (
                        WindowCapture {
                            pid,
                            window,
                            state: CaptureState::Probing { probe, directory },
                        },
                        CaptureStep::Ask(request),
                    )
                },
                None => (
                    WindowCapture { pid, window, state: CaptureState::AwaitOwner { directory } },
                    CaptureStep::Ask(ProbeRequest::Command(pid)),
                ),
            },
        }
    }

    fn fill_template(
        pid: u32,
        window: u32,
        template: &str,
        argv: Option<&Vec<String>>,
        directory: Option<String>,
        revive: Option<String>,
    ) -> (r: (WindowCapture, CaptureStep))
        ensures
            r.0.pid == pid,
            r.0.window == window,
            (WindowCapture { pid, window, state: CaptureState::Finished }).fills_template(
                template@,
                match argv {
                    Some(words) => Some(texts(words@)),
                    None => None,
                },
                text_of(directory),
                text_of(revive),
                r.0,
                r.1,
            ),
    {
        match mapped_command(template, argv) {
            Err(e) => WindowCapture::fail(pid, window, CaptureError::Template(e)),
            Ok(mapped) => WindowCapture::take_command(pid, window, mapped, directory, revive),
        }
    }

    /// Begins the capture of the process behind a window, in the order of
    /// the flattened window list. `pid` is the process that owns the
    /// window; a window whose owner is not known is left out before this.
    pub fn start(session: &mut CaptureSession, config: &Config, window: &Window, pid: u32) -> (r: (
        WindowCapture,
        CaptureStep,
    ))
        ensures
            WindowCapture::begins(
                pid,
                window.id,
                plan_result(*config, *window, old(session).used()),
                r.0,
                r.1,
            ),
            plan_result(*config, *window, old(session).used()) is Ok ==> final(session).used()
                == used_after(*config, *window, old(session).used()),
            plan_result(*config, *window, old(session).used()) is Err ==> *final(session) == *old(
                session,
            ),
    {
        let id = window.id;
        let plan = match session.plan(config, window) {
            Ok(plan) => plan,
            Err(e) => {
                return WindowCapture::fail(pid, id, CaptureError::Pattern(e));
            },
        };
        match plan {
            WindowPlan::Skip => (
                WindowCapture { pid, window: id, state: CaptureState::Finished },
                CaptureStep::Skip,
            ),
            WindowPlan::Revive { command, working_directory, terminal_command } => match command {
                Some(template) => if needs_argv(template.as_str()) {
                    (
                        WindowCapture {
                            pid,
                            window: id,
                            state: CaptureState::AwaitStartedAs {
                                template,
                                directory: working_directory,
                                revive: terminal_command,
                            },
                        },
                        CaptureStep::Ask(ProbeRequest::Command(pid)),
                    )
                } else {
                    WindowCapture::fill_template(
                        pid,
                        id,
                        template.as_str(),
                        None,
                        working_directory,
                        terminal_command,
                    )
                },
                None => WindowCapture::take_command(
                    pid,
                    id,
                    None,
                    working_directory,
                    terminal_command,
                ),
            },
        }
    }

    /// Takes in the answer to what the capture has asked, and tells what
    /// the capture does next.
    pub fn step(self, config: &Config, answer: ProbeAnswer) -> (r: (WindowCapture, CaptureStep))
        ensures
            self.follows(*config, answer, r.0, r.1),
    {
        let WindowCapture { pid, window, state } = self;
        match (state, answer) {
            (
                CaptureState::AwaitStartedAs { template, directory, revive },
                ProbeAnswer::Command(argv),
            ) => WindowCapture::fill_template(
                pid,
                window,
                template.as_str(),
                Some(&argv),
                directory,
                revive,
            ),
            (
                CaptureState::AwaitStartedAs { template, directory, revive },
                ProbeAnswer::Unreadable,
            ) => WindowCapture::fill_template(
                pid,
                window,
                template.as_str(),
                None,
                directory,
                revive,
            ),
            (CaptureState::Probing { probe, directory }, answer) => {
                let (next, probed) = probe.step(config, answer);
                let ghost witness = probed;
                let r = match probed {
                    ProbeStep::Ask(request) => (
                        WindowCapture {
                            pid,
                            window,
                            state: CaptureState::Probing { probe: next, directory },
                        },
                        CaptureStep::Ask(request),
                    ),
                    ProbeStep::Done(words) => WindowCapture::seek_directory(
                        pid,
                        window,
                        words,
                        directory,
                        true,
                    ),
                    ProbeStep::Failed(e) => WindowCapture::fail(
                        pid,
                        window,
                        CaptureError::Terminal(e),
                    ),
                };
                assert(probe.follows(*config, answer, next, witness));
                r
            },
            (CaptureState::AwaitOwner { directory }, ProbeAnswer::Command(words)) => {
                WindowCapture::seek_directory(pid, window, words, directory, false)
            },
            (CaptureState::AwaitChildren { words }, ProbeAnswer::Text(children)) => {
                let asked = match directory_source(true, children.as_str()) {
                    DirectorySource::Owner => decimal(pid as u64),
                    DirectorySource::Child(child) => child,
                };
                (
                    WindowCapture { pid, window, state: CaptureState::AwaitDirectory { words } },
                    CaptureStep::Ask(ProbeRequest::Directory(asked)),
                )
            },
            (CaptureState::AwaitDirectory { words }, ProbeAnswer::Text(directory)) => {
                WindowCapture::record(pid, window, words, directory)
            },
            _ => WindowCapture::fail(pid, window, CaptureError::Unreadable),
        }
    }
}

} // verus!

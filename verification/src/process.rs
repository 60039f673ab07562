//! Reconstruction of the command line and working directory of the process
//! that owns a window.

use std::fmt::Write;
use vstd::prelude::*;
use vstd::string::*;
use crate::text::{
    after_last, after_last_seq, split_on, split_seq, texts, trim_char, trimmed, words, words_of,
};

verus! {

/// What the file system reports of a path: whether it is a regular file, and
/// its permission bits.
#[derive(Clone, Copy, Debug)]
pub struct FileStatus {
    pub is_file: bool,
    pub mode: u32,
}

/// The permission bits that grant execution to owner, group or others.
pub const EXECUTE_BITS: u32 = 0o111;

/// Whether a path with this status can be run as a program.
pub open spec fn executable_status(status: Option<FileStatus>) -> bool {
    match status {
        Some(s) => s.is_file && (s.mode & EXECUTE_BITS) != 0,
        None => false,
    }
}

/// Tells whether a path is an executable file, from the status that the file
/// system gave for it; `None` stands for a path whose status could not be read.
pub fn is_executable(status: Option<FileStatus>) -> (r: bool)
    ensures
        r == executable_status(status),
{
    match status {
        Some(s) => s.is_file && (s.mode & EXECUTE_BITS) != 0,
        None => false,
    }
}

/// A process to start again: the words of its command and the directory
/// it runs in.
#[derive(Debug)]
pub struct Process {
    pub command: Vec<String>,
    pub working_directory: String,
}

/// Why no process could be recorded for a window.
#[derive(Clone, Copy, Debug, PartialEq, Eq, Structural)]
pub enum ProcessError {
    /// The window does not say which process owns it.
    NoPid,
}

/// Reads the owning process off the values of a window's process
/// property: the first value, and an error where there is none.
pub fn owner_pid(values: &Vec<u32>) -> (r: Result<u32, ProcessError>)
    ensures
        values@.len() == 0 ==> r == Err::<u32, ProcessError>(ProcessError::NoPid),
        values@.len() > 0 ==> r == Ok::<u32, ProcessError>(values@[0]),
{
    if values.len() == 0 {
        Err(ProcessError::NoPid)
    } else {
        Ok(values[0])
    }
}

/// The words of a recorded command line: what stands between the NULs,
/// once the NULs at either end are gone.
pub open spec fn cmdline_parts(raw: Seq<char>) -> Seq<Seq<char>> {
    split_seq(trimmed(raw, '\0'), '\0')
}

/// Cuts the command line that the kernel records for a process into its
/// words.
pub fn split_cmdline(raw: &str) -> (r: Vec<String>)
    ensures
        texts(r@) == cmdline_parts(raw@),
        r@.len() >= 1,
{
    let inner = trim_char(raw, '\0');
    let r = split_on(inner.as_str(), '\0');
    assert(texts(r@).len() == r@.len());
    r
}

/// The path that the first `k + 1` tokens of a combined command line
/// make: the tokens with single spaces between them, empty tokens at the
/// start left out.
pub open spec fn candidate(tokens: Seq<Seq<char>>, k: int) -> Seq<char>
    decreases k,
{
    if k <= 0 {
        tokens[0]
    } else if candidate(tokens, k - 1).len() == 0 {
        tokens[k]
    } else {
        candidate(tokens, k - 1) + seq![' '] + tokens[k]
    }
}

/// The tokens of a combined command line: what stands between its spaces.
pub open spec fn combined_tokens(combined: Seq<char>) -> Seq<Seq<char>> {
    split_seq(combined, ' ')
}

fn extend_candidate(current: &mut String, token: &str, Ghost(tokens): Ghost<Seq<Seq<char>>>, Ghost(
    k,
): Ghost<int>)
    requires
        0 <= k < tokens.len(),
        tokens[k] == token@,
        k > 0 ==> old(current)@ == candidate(tokens, k - 1),
        k == 0 ==> old(current)@.len() == 0,
    ensures
        final(current)@ == candidate(tokens, k),
{
    let ghost before = current@;
    if !current.as_str().is_empty() {
        current.append(" ");
        proof {
            reveal_strlit(" ");
            assert(" "@ =~= seq![' ']);
        }
    }
    current.append(token);
    proof {
        if k == 0 {
            assert(current@ =~= tokens[0]);
        } else if before.len() == 0 {
            assert(current@ =~= tokens[k]);
        }
    }
}

/// Lists the paths that may be the program of a combined command line,
/// shortest first: one for each token.
pub fn executable_candidates(combined: &str) -> (r: Vec<String>)
    ensures
        r@.len() == combined_tokens(combined@).len(),
        forall|k: int|
            0 <= k < r@.len() ==> (#[trigger] r@[k])@ == candidate(combined_tokens(combined@), k),
{
    let tokens = split_on(combined, ' ');
    let ghost model = combined_tokens(combined@);
    assert(texts(tokens@).len() == tokens@.len());
    let mut r: Vec<String> = Vec::new();
    let mut current = String::new();
    let mut k: usize = 0;
    while k < tokens.len()
        invariant
            k <= tokens.len(),
            model == texts(tokens@),
            model == combined_tokens(combined@),
            r@.len() == k,
            k > 0 ==> current@ == candidate(model, k - 1),
            k == 0 ==> current@.len() == 0,
            forall|j: int| 0 <= j < k ==> (#[trigger] r@[j])@ == candidate(model, j),
        decreases tokens.len() - k,
    {
        assert(model[k as int] == tokens@[k as int]@);
        extend_candidate(&mut current, tokens[k].as_str(), Ghost(model), Ghost(k as int));
        r.push(current.clone());
        k += 1;
    }
    r
}

/// The position, among the first `n` candidates, of the first whose
/// status says that it is an executable file; `n` if there is none. A
/// candidate without a status is none.
pub open spec fn first_executable(statuses: Seq<Option<FileStatus>>, n: int) -> int
    decreases n,
{
    if n <= 0 {
        0
    } else if first_executable(statuses, n - 1) < n - 1 {
        first_executable(statuses, n - 1)
    } else if n - 1 < statuses.len() && executable_status(statuses[n - 1]) {
        n - 1
    } else {
        n
    }
}

/// The first executable candidate is executable, and none before it is.
pub proof fn lemma_first_executable(statuses: Seq<Option<FileStatus>>, n: int)
    requires
        0 <= n,
    ensures
        0 <= first_executable(statuses, n) <= n,
        first_executable(statuses, n) < n ==> first_executable(statuses, n) < statuses.len()
            && executable_status(statuses[first_executable(statuses, n)]),
        forall|j: int|
            0 <= j < first_executable(statuses, n) && j < statuses.len() ==> !executable_status(
                #[trigger] statuses[j],
            ),
    decreases n,
{
    if n > 0 {
        lemma_first_executable(statuses, n - 1);
    }
}

/// The command that a combined command line stands for, given the
/// position of the first candidate that is an executable file: that
/// candidate, and the tokens after it as arguments. Where no candidate is
/// one, the whole line is the program.
pub open spec fn rebuilt_argv(tokens: Seq<Seq<char>>, found: int) -> Seq<Seq<char>> {
    if 0 <= found < tokens.len() {
        seq![candidate(tokens, found)] + tokens.skip(found + 1)
    } else {
        seq![candidate(tokens, tokens.len() - 1)]
    }
}

/// Rebuilds the command of a process from a command line that came as one
/// string. `statuses` holds what the file system says of each candidate
/// path, in the order of the candidates.
pub fn rebuild_argv(combined: &str, statuses: &Vec<Option<FileStatus>>) -> (r: Vec<String>)
    ensures
        texts(r@) == rebuilt_argv(
            combined_tokens(combined@),
            first_executable(statuses@, combined_tokens(combined@).len() as int),
        ),
{
    let tokens = split_on(combined, ' ');
    let ghost model = combined_tokens(combined@);
    assert(texts(tokens@).len() == tokens@.len());
    let mut current = String::new();
    let mut k: usize = 0;
    let mut found = false;
    while k < tokens.len() && !found
        invariant
            k <= tokens.len(),
            tokens@.len() >= 1,
            model == texts(tokens@),
            k > 0 ==> current@ == candidate(model, k - 1),
            k == 0 ==> current@.len() == 0,
            k == 0 ==> !found,
            !found ==> first_executable(statuses@, k as int) == k,
            found ==> first_executable(statuses@, k as int) == k - 1,
        decreases tokens.len() - k + (if found { 0int } else { 1int }),
    {
        assert(model[k as int] == tokens@[k as int]@);
        extend_candidate(&mut current, tokens[k].as_str(), Ghost(model), Ghost(k as int));
        if k < statuses.len() && is_executable(statuses[k]) {
            found = true;
        }
        k += 1;
    }
    let ghost at = first_executable(statuses@, k as int);
    proof {
        lemma_executable_found_stays(statuses@, k as int, tokens@.len() as int);
    }
    let mut r: Vec<String> = Vec::new();
    r.push(current);
    let mut i: usize = k;
    assert(model.skip(k as int).take(0) =~= Seq::<Seq<char>>::empty());
    while i < tokens.len()
        invariant
            k <= i <= tokens.len(),
            model == texts(tokens@),
            texts(r@) == seq![candidate(model, k - 1)] + model.skip(k as int).take(i - k),
        decreases tokens.len() - i,
    {
        let ghost before = texts(r@);
        r.push(tokens[i].clone());
        assert(texts(r@) =~= before.push(tokens@[i as int]@));
        assert(model.skip(k as int).take(i + 1 - k) =~= model.skip(k as int).take(i - k).push(
            model[i as int],
        ));
        i += 1;
    }
    assert(model.skip(k as int).take(tokens@.len() - k) =~= model.skip(k as int));
    proof {
        if !found {
            assert(model.skip(k as int) =~= Seq::<Seq<char>>::empty());
            assert(texts(r@) =~= seq![candidate(model, model.len() - 1)]);
        }
    }
    r
}

/// Once a candidate has been found executable, later ones do not matter;
/// and where none has been found among all, none is.
proof fn lemma_executable_found_stays(statuses: Seq<Option<FileStatus>>, k: int, n: int)
    requires
        0 <= k <= n,
    ensures
        first_executable(statuses, k) < k ==> first_executable(statuses, n) == first_executable(
            statuses,
            k,
        ),
    decreases n - k,
{
    if k < n {
        lemma_executable_found_stays(statuses, k, n - 1);
        lemma_first_executable(statuses, k);
    }
}

/// The command that a recorded command line stands for. A line of
/// several words is the command as it is. A line of one word may hold
/// program and arguments with spaces between them: the program is then
/// the shortest candidate path that is an executable file.
pub open spec fn command_of(raw: Seq<char>, statuses: Seq<Option<FileStatus>>) -> Seq<Seq<char>> {
    if cmdline_parts(raw).len() != 1 {
        cmdline_parts(raw)
    } else {
        rebuilt_argv(
            combined_tokens(cmdline_parts(raw)[0]),
            first_executable(statuses, combined_tokens(cmdline_parts(raw)[0]).len() as int),
        )
    }
}

/// Lists the paths whose status is needed to read a recorded command
/// line: none where the line holds several words.
pub fn paths_to_probe(raw: &str) -> (r: Vec<String>)
    ensures
        cmdline_parts(raw@).len() != 1 ==> r@.len() == 0,
        cmdline_parts(raw@).len() == 1 ==> {
            &&& r@.len() == combined_tokens(cmdline_parts(raw@)[0]).len()
            &&& forall|k: int|
                0 <= k < r@.len() ==> (#[trigger] r@[k])@ == candidate(
                    combined_tokens(cmdline_parts(raw@)[0]),
                    k,
                )
        },
{
    let parts = split_cmdline(raw);
    assert(texts(parts@).len() == parts@.len());
    if parts.len() != 1 {
        Vec::new()
    } else {
        assert(texts(parts@)[0] == parts@[0]@);
        executable_candidates(parts[0].as_str())
    }
}

/// Reads the command of a process off its recorded command line.
/// `statuses` holds what the file system says of each of the paths that
/// `paths_to_probe` lists for the line.
pub fn process_command(raw: &str, statuses: &Vec<Option<FileStatus>>) -> (r: Vec<String>)
    ensures
        texts(r@) == command_of(raw@, statuses@),
{
    let parts = split_cmdline(raw);
    assert(texts(parts@).len() == parts@.len());
    if parts.len() != 1 {
        parts
    } else {
        assert(texts(parts@)[0] == parts@[0]@);
        rebuild_argv(parts[0].as_str(), statuses)
    }
}

/// Where the working directory of a window's process is read.
#[derive(Debug)]
pub enum DirectorySource {
    /// From the process that owns the window.
    Owner,
    /// From this child of the owner: the shell that a terminal runs.
    Child(String),
}

/// The first child among the children that the kernel lists for a
/// process: the first word of the list.
pub open spec fn first_child_of(children: Seq<char>) -> Option<Seq<char>> {
    if words_of(children).len() > 0 {
        Some(words_of(children)[0])
    } else {
        None
    }
}

/// Reads the first child off the list of a process's children.
pub fn first_child(children: &str) -> (r: Option<String>)
    ensures
        match r {
            Some(child) => first_child_of(children@) == Some(child@),
            None => first_child_of(children@) is None,
        },
{
    let mut all = words(children);
    assert(texts(all@).len() == all@.len());
    if all.len() > 0 {
        assert(texts(all@)[0] == all@[0]@);
        Some(all.swap_remove(0))
    } else {
        None
    }
}

/// Decides where the working directory of a window's process is read:
/// for a terminal from its first child, if it has one, and from the
/// owning process otherwise. `children` lists the children of the owner.
pub fn directory_source(is_terminal: bool, children: &str) -> (r: DirectorySource)
    ensures
        !is_terminal || first_child_of(children@) is None ==> r is Owner,
        is_terminal && first_child_of(children@) is Some ==> (r matches DirectorySource::Child(
            child,
        ) && Some(child@) == first_child_of(children@)),
{
    if is_terminal {
        match first_child(children) {
            Some(child) => DirectorySource::Child(child),
            None => DirectorySource::Owner,
        }
    } else {
        DirectorySource::Owner
    }
}

/// The name of the file that takes the output of a process started at a
/// given time.
pub open spec fn log_name(process_name: Seq<char>, timestamp: Seq<char>) -> Seq<char> {
    process_name + "-"@ + timestamp + ".log"@
}

/// Names the log file of a process from its name and the time of its
/// start.
pub fn log_file_name(process_name: &str, timestamp: &str) -> (r: String)
    ensures
        r@ == log_name(process_name@, timestamp@),
{
    String::from_str(process_name).concat("-").concat(timestamp).concat(".log")
}

/// `chrono::Local::now` and `DateTime::format`: the local time at the
/// moment of the call, written in the given format; `None` where the
/// format cannot be written out. Nothing is promised of the text, which
/// differs from call to call.
#[verifier::external_body]
fn local_time(format: &str) -> (r: Option<String>) {
    let mut text = String::new();
    match write!(text, "{}", chrono::Local::now().format(format)) {
        Ok(()) => Some(text),
        Err(_) => None,
    }
}

/// Names the log file of a process that is started now: the time is
/// written as year, month, day, hour, minute, second and nanoseconds, with
/// hyphens between them.
pub fn log_file_name_now(process_name: &str) -> (r: String)
    ensures
        exists|stamp: Seq<char>| r@ == #[trigger] log_name(process_name@, stamp),
{
    let stamp = match local_time("%Y-%m-%d-%H-%M-%S-%f") {
        Some(stamp) => stamp,
        None => String::new(),
    };
    let r = log_file_name(process_name, stamp.as_str());
    assert(r@ == log_name(process_name@, stamp@));
    r
}

/// A program to start: what to run, with which arguments and where, the
/// name under which it is known, and the name of the file that takes its
/// output.
#[derive(Debug)]
pub struct Launch {
    pub program: String,
    pub args: Vec<String>,
    pub working_directory: String,
    pub process_name: String,
    pub log_file: String,
}

/// Whether a launch is the one of a process: its program is the first
/// word of the command, its arguments are the other words, its name is
/// what follows the last slash of the program, and its log file is named
/// after that name and some moment.
pub open spec fn launch_of(process: Process, launch: Launch) -> bool {
    &&& process.command@.len() > 0
    &&& launch.program == process.command@[0]
    &&& launch.args@ == process.command@.skip(1)
    &&& launch.working_directory == process.working_directory
    &&& launch.process_name@ == after_last_seq(process.command@[0]@, '/')
    &&& exists|stamp: Seq<char>| launch.log_file@ == #[trigger] log_name(launch.process_name@, stamp)
}

/// The processes that have a command, in their order.
pub open spec fn runnable(processes: Seq<Process>) -> Seq<Process>
    decreases processes.len(),
{
    if processes.len() == 0 {
        Seq::empty()
    } else if processes.last().command@.len() > 0 {
        runnable(processes.drop_last()).push(processes.last())
    } else {
        runnable(processes.drop_last())
    }
}

/// Plans the start of the saved processes: one launch for each process
/// that has a command, in the order in which they were saved. The log
/// file of each is named after the moment at which it is planned.
pub fn plan_launches(processes: &Vec<Process>) -> (r: Vec<Launch>)
    ensures
        r@.len() == runnable(processes@).len(),
        forall|i: int|
            0 <= i < r@.len() ==> launch_of(runnable(processes@)[i], #[trigger] r@[i]),
{
    let mut r: Vec<Launch> = Vec::new();
    let mut i: usize = 0;
    assert(processes@.take(0) =~= Seq::<Process>::empty());
    while i < processes.len()
        invariant
            i <= processes.len(),
            r@.len() == runnable(processes@.take(i as int)).len(),
            forall|j: int|
                0 <= j < r@.len() ==> launch_of(
                    runnable(processes@.take(i as int))[j],
                    #[trigger] r@[j],
                ),
        decreases processes.len() - i,
    {
        let p = &processes[i];
        assert(processes@.take(i + 1).drop_last() =~= processes@.take(i as int));
        assert(processes@.take(i + 1).last() == *p);
        if p.command.len() > 0 {
            let mut args: Vec<String> = Vec::new();
            let mut k: usize = 1;
            while k < p.command.len()
                invariant
                    1 <= k <= p.command.len(),
                    args@ == p.command@.subrange(1, k as int),
                decreases p.command.len() - k,
            {
                args.push(p.command[k].clone());
                assert(args@ =~= p.command@.subrange(1, k + 1));
                k += 1;
            }
            assert(args@ =~= p.command@.skip(1));
            let process_name = after_last(p.command[0].as_str(), '/');
            let log_file = log_file_name_now(process_name.as_str());
            r.push(
                Launch {
                    program: p.command[0].clone(),
                    args,
                    working_directory: p.working_directory.clone(),
                    process_name,
                    log_file,
                },
            );
        }
        i += 1;
    }
    assert(processes@.take(processes.len() as int) =~= processes@);
    r
}

impl Process {
    /// Whether the record can be started again: its command has a program.
    pub open spec fn well_formed(self) -> bool {
        self.command@.len() > 0
    }

    /// Makes the record of a process; none for a command without words.
    pub fn new(command: Vec<String>, working_directory: String) -> (r: Option<Process>)
        ensures
            command@.len() == 0 ==> r is None,
            command@.len() > 0 ==> r == Some(Process { command, working_directory }),
            r is Some ==> r->0.well_formed(),
    {
        if command.len() == 0 {
            None
        } else {
            Some(Process { command, working_directory })
        }
    }
}

/// The records that were made, in their order: a window for which none
/// could be made leaves no trace.
pub open spec fn recorded(records: Seq<Option<Process>>) -> Seq<Process>
    decreases records.len(),
{
    if records.len() == 0 {
        Seq::empty()
    } else {
        match records.last() {
            Some(p) => recorded(records.drop_last()).push(p),
            None => recorded(records.drop_last()),
        }
    }
}

/// Gathers the records of a capture, one entry for each window in the
/// order of the windows: the failure to record one window drops that
/// window alone.
pub fn collect_processes(records: Vec<Option<Process>>) -> (r: Vec<Process>)
    ensures
        r@ == recorded(records@),
{
    let mut rest = records;
    let mut r: Vec<Process> = Vec::new();
    let ghost all = rest@;
    let ghost mut done: int = 0;
    assert(all.take(0) =~= Seq::<Option<Process>>::empty());
    assert(all.skip(0) =~= all);
    while rest.len() > 0
        invariant
            0 <= done <= all.len(),
            all == records@,
            rest@ == all.skip(done),
            r@ == recorded(all.take(done)),
        decreases rest.len(),
    {
        let next = rest.remove(0);
        proof {
            assert(next == all[done]);
            assert(rest@ =~= all.skip(done + 1));
            assert(all.take(done + 1).drop_last() =~= all.take(done));
            assert(all.take(done + 1).last() == next);
            done = done + 1;
        }
        if let Some(p) = next {
            r.push(p);
        }
    }
    assert(all.take(all.len() as int) =~= all);
    r
}

} // verus!

//! The restore plan: which live windows are hidden or destroyed, in which
//! order the saved layouts are replayed, and where the focus ends.

use vstd::prelude::*;
use vstd::string::*;
use crate::i3_tree::Window;
use crate::i3ipc::Command;
use crate::process::{launch_of, plan_launches, runnable, Launch, Process};
use crate::pattern::{first_capture, regex_first_capture};
use crate::text::{optional_text, str_eq};

verus! {

/// What is done to a live window of the display.
#[derive(Clone, Copy, Debug, PartialEq, Eq, Structural)]
pub enum WindowAction {
    /// Destroy the window's client.
    Destroy(u32),
    /// Hide the window without destroying it.
    Hide(u32),
    /// Show the window again.
    Show(u32),
}

/// What is done to a window before the layouts are replayed: a
/// placeholder is destroyed, any other window is hidden.
pub open spec fn suspend_action(window: Window) -> WindowAction {
    if window.is_placeholder {
        WindowAction::Destroy(window.id)
    } else {
        WindowAction::Hide(window.id)
    }
}

/// The actions that show again the windows that were hidden: one for each
/// window that is no placeholder, in order.
pub open spec fn resume_of(windows: Seq<Window>) -> Seq<WindowAction>
    decreases windows.len(),
{
    if windows.len() == 0 {
        Seq::empty()
    } else if windows.last().is_placeholder {
        resume_of(windows.drop_last())
    } else {
        resume_of(windows.drop_last()).push(WindowAction::Show(windows.last().id))
    }
}

/// Plans the suspension of the live windows: one action for each window,
/// in order.
pub fn suspend_actions(windows: &Vec<Window>) -> (r: Vec<WindowAction>)
    ensures
        r@.len() == windows@.len(),
        forall|i: int| 0 <= i < windows@.len() ==> #[trigger] r@[i] == suspend_action(windows@[i]),
{
    let mut r: Vec<WindowAction> = Vec::new();
    let mut i: usize = 0;
    while i < windows.len()
        invariant
            i <= windows.len(),
            r@.len() == i,
            forall|j: int| 0 <= j < i ==> #[trigger] r@[j] == suspend_action(windows@[j]),
        decreases windows.len() - i,
    {
        let w = &windows[i];
        if w.is_placeholder {
            r.push(WindowAction::Destroy(w.id));
        } else {
            r.push(WindowAction::Hide(w.id));
        }
        i += 1;
    }
    r
}

/// Plans the return of the windows that the suspension has hidden.
pub fn resume_actions(windows: &Vec<Window>) -> (r: Vec<WindowAction>)
    ensures
        r@ == resume_of(windows@),
{
    let mut r: Vec<WindowAction> = Vec::new();
    let mut i: usize = 0;
    assert(windows@.take(0) =~= Seq::<Window>::empty());
    while i < windows.len()
        invariant
            i <= windows.len(),
            r@ == resume_of(windows@.take(i as int)),
        decreases windows.len() - i,
    {
        let w = &windows[i];
        assert(windows@.take(i + 1).drop_last() =~= windows@.take(i as int));
        assert(windows@.take(i + 1).last() == *w);
        if !w.is_placeholder {
            r.push(WindowAction::Show(w.id));
        }
        i += 1;
    }
    assert(windows@.take(windows.len() as int) =~= windows@);
    r
}

/// A window is shown again exactly if the suspension has hidden it: what
/// was destroyed is not brought back.
pub proof fn lemma_resume_restores_hidden(windows: Seq<Window>, id: u32)
    ensures
        resume_of(windows).contains(WindowAction::Show(id)) <==> exists|i: int|
            0 <= i < windows.len() && suspend_action(#[trigger] windows[i]) == WindowAction::Hide(
                id,
            ),
        !resume_of(windows).contains(WindowAction::Destroy(id)),
        !resume_of(windows).contains(WindowAction::Hide(id)),
    decreases windows.len(),
{
    if windows.len() > 0 {
        let head = windows.drop_last();
        let w = windows.last();
        lemma_resume_restores_hidden(head, id);
        let hidden = exists|i: int|
            0 <= i < windows.len() && suspend_action(#[trigger] windows[i]) == WindowAction::Hide(
                id,
            );
        let hidden_before = exists|i: int|
            0 <= i < head.len() && suspend_action(#[trigger] head[i]) == WindowAction::Hide(id);
        if hidden_before {
            let i = choose|i: int|
                0 <= i < head.len() && suspend_action(#[trigger] head[i]) == WindowAction::Hide(
                    id,
                );
            assert(windows[i] == head[i]);
        }
        if hidden {
            let i = choose|i: int|
                0 <= i < windows.len() && suspend_action(#[trigger] windows[i])
                    == WindowAction::Hide(id);
            if i < head.len() {
                assert(head[i] == windows[i]);
            }
        }
        if w.is_placeholder {
        } else {
            let r = resume_of(head).push(WindowAction::Show(w.id));
            assert(r.last() == WindowAction::Show(w.id));
            if resume_of(head).contains(WindowAction::Show(id)) {
                let k = choose|k: int|
                    0 <= k < resume_of(head).len() && resume_of(head)[k] == WindowAction::Show(id);
                assert(r[k] == WindowAction::Show(id));
            }
            if w.id == id {
                assert(r[r.len() - 1] == WindowAction::Show(id));
                assert(suspend_action(windows[windows.len() - 1]) == WindowAction::Hide(id));
            }
        }
    }
}

/// A saved layout on disk: the workspace it belongs to and where it lies.
#[derive(Debug)]
pub struct LayoutFile {
    pub workspace: String,
    pub path: String,
}

/// The regular expression that the name of a layout file matches; its
/// first group holds the workspace's name.
pub open spec fn layout_file_pattern() -> Seq<char> {
    "^ws_(.+).json$"@
}

/// The name of the file that holds the layout of a workspace.
pub open spec fn layout_file_name_of(workspace: Seq<char>) -> Seq<char> {
    "ws_"@ + workspace + ".json"@
}

/// Names the file that holds the layout of a workspace.
pub fn layout_file_name(workspace: &str) -> (r: String)
    ensures
        r@ == layout_file_name_of(workspace@),
{
    String::from_str("ws_").concat(workspace).concat(".json")
}

/// The workspace that a file name stands for, given what the layout file
/// pattern captures in it.
pub open spec fn workspace_captured(capture: Option<Option<Seq<char>>>) -> Option<Seq<char>> {
    match capture {
        Some(Some(name)) => Some(name),
        _ => None,
    }
}

/// Reads the workspace's name off the name of a layout file; `None` for a
/// file that is no layout file.
pub fn workspace_of_file(file_name: &str) -> (r: Option<String>)
    ensures
        match r {
            Some(name) => workspace_captured(
                regex_first_capture(layout_file_pattern(), file_name@),
            ) == Some(name@),
            None => workspace_captured(
                regex_first_capture(layout_file_pattern(), file_name@),
            ) is None,
        },
{
    match first_capture("^ws_(.+).json$", file_name) {
        Some(Some(name)) => Some(name),
        Some(None) => None,
        None => None,
    }
}

/// Whether a layout is replayed after the others: the one of the
/// workspace that had the focus when the session was saved.
pub open spec fn held_back(file: LayoutFile, previous: Option<Seq<char>>) -> bool {
    previous == Some(file.workspace@)
}

/// The files that are, or are not, held back, in their order.
pub open spec fn selected(files: Seq<LayoutFile>, previous: Option<Seq<char>>, back: bool) -> Seq<
    LayoutFile,
>
    decreases files.len(),
{
    if files.len() == 0 {
        Seq::empty()
    } else if held_back(files.last(), previous) == back {
        selected(files.drop_last(), previous, back).push(files.last())
    } else {
        selected(files.drop_last(), previous, back)
    }
}

/// The order in which layouts are replayed: the order in which they were
/// listed, but for the layout of the previously focused workspace, which
/// comes last.
pub open spec fn order_of(files: Seq<LayoutFile>, previous: Option<Seq<char>>) -> Seq<LayoutFile> {
    selected(files, previous, false) + selected(files, previous, true)
}

fn select(files: &Vec<LayoutFile>, previous: Option<&str>, back: bool) -> (r: Vec<LayoutFile>)
    ensures
        r@ == selected(files@, optional_text(previous), back),
{
    let mut r: Vec<LayoutFile> = Vec::new();
    let mut i: usize = 0;
    assert(files@.take(0) =~= Seq::<LayoutFile>::empty());
    while i < files.len()
        invariant
            i <= files.len(),
            r@ == selected(files@.take(i as int), optional_text(previous), back),
        decreases files.len() - i,
    {
        let f = &files[i];
        assert(files@.take(i + 1).drop_last() =~= files@.take(i as int));
        assert(files@.take(i + 1).last() == *f);
        let is_previous = match previous {
            Some(p) => str_eq(p, f.workspace.as_str()),
            None => false,
        };
        if is_previous == back {
            r.push(LayoutFile { workspace: f.workspace.clone(), path: f.path.clone() });
        }
        i += 1;
    }
    assert(files@.take(files.len() as int) =~= files@);
    r
}

/// Puts the saved layouts in the order of their replay.
pub fn replay_order(files: &Vec<LayoutFile>, previously_focused: Option<&str>) -> (r: Vec<
    LayoutFile,
>)
    ensures
        r@ == order_of(files@, optional_text(previously_focused)),
{
    let mut r = select(files, previously_focused, false);
    let mut last = select(files, previously_focused, true);
    r.append(&mut last);
    r
}

/// A command that the window manager is sent during the replay.
#[derive(Debug)]
pub enum ReplayCommand {
    /// Switch to the workspace of this name.
    Workspace(String),
    /// Append the layout in the file at this path to the current workspace.
    AppendLayout(String),
}

/// A replay command as plain values.
pub enum CommandModel {
    Workspace(Seq<char>),
    AppendLayout(Seq<char>),
}

impl View for ReplayCommand {
    type V = CommandModel;

    open spec fn view(&self) -> CommandModel {
        match *self {
            ReplayCommand::Workspace(name) => CommandModel::Workspace(name@),
            ReplayCommand::AppendLayout(path) => CommandModel::AppendLayout(path@),
        }
    }
}

/// The text of a command as the window manager reads it.
pub open spec fn command_text(command: CommandModel) -> Seq<char> {
    match command {
        CommandModel::Workspace(name) => "workspace "@ + name,
        CommandModel::AppendLayout(path) => "append_layout "@ + path,
    }
}

impl ReplayCommand {
    /// Writes the command as the window manager reads it.
    pub fn text(&self) -> (r: String)
        ensures
            r@ == command_text(self@),
    {
        match self {
            ReplayCommand::Workspace(name) => String::from_str("workspace ").concat(name.as_str()),
            ReplayCommand::AppendLayout(path) => String::from_str("append_layout ").concat(
                path.as_str(),
            ),
        }
    }
}

/// Commands as plain values.
pub open spec fn commands_model(commands: Seq<ReplayCommand>) -> Seq<CommandModel> {
    commands.map_values(|c: ReplayCommand| c@)
}

/// The commands that replay some layouts in their order, given the
/// workspace that has the focus now.
///
/// Each layout is appended after a switch to its workspace. The switch is
/// left out for the very first layout where its workspace has the focus
/// already.
pub open spec fn replay_of(files: Seq<LayoutFile>, focused: Option<Seq<char>>) -> Seq<CommandModel>
    decreases files.len(),
{
    if files.len() == 0 {
        Seq::empty()
    } else if files.len() == 1 && focused == Some(files.last().workspace@) {
        seq![CommandModel::AppendLayout(files.last().path@)]
    } else {
        replay_of(files.drop_last(), focused).push(
            CommandModel::Workspace(files.last().workspace@),
        ).push(CommandModel::AppendLayout(files.last().path@))
    }
}

/// Plans the commands that replay the layouts in the order given.
pub fn replay_commands(files: &Vec<LayoutFile>, focused: Option<&str>) -> (r: Vec<ReplayCommand>)
    ensures
        commands_model(r@) == replay_of(files@, optional_text(focused)),
{
    let mut r: Vec<ReplayCommand> = Vec::new();
    let mut i: usize = 0;
    assert(files@.take(0) =~= Seq::<LayoutFile>::empty());
    assert(commands_model(r@) =~= Seq::empty());
    while i < files.len()
        invariant
            i <= files.len(),
            commands_model(r@) == replay_of(files@.take(i as int), optional_text(focused)),
        decreases files.len() - i,
    {
        let f = &files[i];
        let ghost before = commands_model(r@);
        assert(files@.take(i + 1).drop_last() =~= files@.take(i as int));
        assert(files@.take(i + 1).last() == *f);
        let already_there = i == 0 && match focused {
            Some(name) => str_eq(name, f.workspace.as_str()),
            None => false,
        };
        if !already_there {
            r.push(ReplayCommand::Workspace(f.workspace.clone()));
        }
        r.push(ReplayCommand::AppendLayout(f.path.clone()));
        proof {
            if already_there {
                assert(commands_model(r@) =~= seq![CommandModel::AppendLayout(f.path@)]);
            } else {
                assert(commands_model(r@) =~= before.push(
                    CommandModel::Workspace(f.workspace@),
                ).push(CommandModel::AppendLayout(f.path@)));
            }
        }
        i += 1;
    }
    assert(files@.take(files.len() as int) =~= files@);
    r
}

/// The workspace that has the focus once some commands have run.
pub open spec fn focus_after(commands: Seq<CommandModel>, focused: Option<Seq<char>>) -> Option<
    Seq<char>,
>
    decreases commands.len(),
{
    if commands.len() == 0 {
        focused
    } else {
        match commands.last() {
            CommandModel::Workspace(name) => Some(name),
            CommandModel::AppendLayout(_) => focus_after(commands.drop_last(), focused),
        }
    }
}

/// Every file selected as held back belongs to the previously focused
/// workspace, and one is selected if one is there.
proof fn lemma_selected_back(files: Seq<LayoutFile>, previous: Seq<char>)
    ensures
        forall|i: int|
            0 <= i < selected(files, Some(previous), true).len() ==> (#[trigger] selected(
                files,
                Some(previous),
                true,
            )[i]).workspace@ == previous,
        (exists|i: int| 0 <= i < files.len() && (#[trigger] files[i]).workspace@ == previous)
            ==> selected(files, Some(previous), true).len() > 0,
    decreases files.len(),
{
    if files.len() > 0 {
        lemma_selected_back(files.drop_last(), previous);
        if exists|i: int| 0 <= i < files.len() && (#[trigger] files[i]).workspace@ == previous {
            let i = choose|i: int|
                0 <= i < files.len() && (#[trigger] files[i]).workspace@ == previous;
            if i < files.len() - 1 {
                assert(files.drop_last()[i] == files[i]);
            }
        }
    }
}

/// Replaying the layouts of a list leaves the focus on the workspace of
/// the last of them.
pub proof fn lemma_focus_ends_on_last(files: Seq<LayoutFile>, focused: Option<Seq<char>>)
    requires
        files.len() > 0,
    ensures
        focus_after(replay_of(files, focused), focused) == Some(files.last().workspace@),
{
    let commands = replay_of(files, focused);
    if files.len() == 1 && focused == Some(files.last().workspace@) {
        assert(commands.last() == CommandModel::AppendLayout(files.last().path@));
        assert(commands.drop_last() =~= Seq::<CommandModel>::empty());
        assert(focus_after(commands.drop_last(), focused) == focused);
    } else {
        let switched = replay_of(files.drop_last(), focused).push(
            CommandModel::Workspace(files.last().workspace@),
        );
        assert(commands.last() == CommandModel::AppendLayout(files.last().path@));
        assert(commands.drop_last() =~= switched);
        assert(switched.last() == CommandModel::Workspace(files.last().workspace@));
        assert(focus_after(switched, focused) == Some(files.last().workspace@));
    }
}

/// Where the layout of the previously focused workspace is among the
/// saved ones, the replay in replay order ends with it, and leaves the
/// focus on that workspace.
pub proof fn lemma_focus_returns(
    files: Seq<LayoutFile>,
    previous: Seq<char>,
    focused: Option<Seq<char>>,
)
    requires
        exists|i: int| 0 <= i < files.len() && (#[trigger] files[i]).workspace@ == previous,
    ensures
        order_of(files, Some(previous)).len() > 0,
        order_of(files, Some(previous)).last().workspace@ == previous,
        focus_after(replay_of(order_of(files, Some(previous)), focused), focused) == Some(
            previous,
        ),
{
    lemma_selected_back(files, previous);
    let back = selected(files, Some(previous), true);
    let ordered = order_of(files, Some(previous));
    assert(ordered.last() == back.last());
    lemma_focus_ends_on_last(ordered, focused);
}

/// A layout whose workspace has the focus already is replayed without a
/// switch if it comes first; every other layout is replayed after a
/// switch to its workspace.
pub proof fn lemma_first_switch_is_spared(files: Seq<LayoutFile>, focused: Option<Seq<char>>)
    requires
        files.len() > 0,
    ensures
        focused == Some(files[0].workspace@) ==> replay_of(files, focused).len() == 2
            * files.len() - 1 && replay_of(files, focused)[0] == CommandModel::AppendLayout(
            files[0].path@,
        ),
        focused != Some(files[0].workspace@) ==> replay_of(files, focused).len() == 2
            * files.len() && replay_of(files, focused)[0] == CommandModel::Workspace(
            files[0].workspace@,
        ) && replay_of(files, focused)[1] == CommandModel::AppendLayout(files[0].path@),
    decreases files.len(),
{
    if files.len() > 1 {
        lemma_first_switch_is_spared(files.drop_last(), focused);
        assert(files.drop_last()[0] == files[0]);
    } else {
        assert(replay_of(files.drop_last(), focused) =~= Seq::<CommandModel>::empty());
    }
}

/// One step of a restore.
#[derive(Debug)]
pub enum RestoreStep {
    /// Something is done to a live window.
    Window(WindowAction),
    /// The window manager is sent a command.
    Command(ReplayCommand),
    /// A saved process is started.
    Launch(Launch),
}

/// Whether `steps` is the course of a restore: the live windows are
/// suspended, each in its turn; the layouts are replayed in replay
/// order; the hidden windows are shown again; and the saved processes
/// are started.
pub open spec fn restore_course(
    steps: Seq<RestoreStep>,
    windows: Seq<Window>,
    files: Seq<LayoutFile>,
    previous: Option<Seq<char>>,
    focused: Option<Seq<char>>,
    processes: Seq<Process>,
) -> bool {
    let replay = replay_of(order_of(files, previous), focused);
    let resume = resume_of(windows);
    let starts = runnable(processes);
    &&& steps.len() == windows.len() + replay.len() + resume.len() + starts.len()
    &&& forall|i: int|
        0 <= i < windows.len() ==> #[trigger] steps[i] == RestoreStep::Window(
            suspend_action(windows[i]),
        )
    &&& forall|i: int|
        0 <= i < replay.len() ==> (#[trigger] steps[windows.len() + i] matches RestoreStep::Command(
            c,
        ) && c@ == replay[i])
    &&& forall|i: int|
        0 <= i < resume.len() ==> #[trigger] steps[windows.len() + replay.len() + i]
            == RestoreStep::Window(resume[i])
    &&& forall|i: int|
        0 <= i < starts.len() ==> (#[trigger] steps[windows.len() + replay.len() + resume.len()
            + i] matches RestoreStep::Launch(l) && launch_of(starts[i], l))
}

/// Plans a restore from the live windows, the saved layouts, the
/// workspace that had the focus when the session was saved, the one that
/// has it now, and the saved processes.
pub fn restore_plan(
    windows: &Vec<Window>,
    files: &Vec<LayoutFile>,
    previously_focused: Option<&str>,
    focused: Option<&str>,
    processes: &Vec<Process>,
) -> (r: Vec<RestoreStep>)
    ensures
        restore_course(
            r@,
            windows@,
            files@,
            optional_text(previously_focused),
            optional_text(focused),
            processes@,
        ),
{
    let mut r: Vec<RestoreStep> = Vec::new();
    let suspend = suspend_actions(windows);
    let mut i: usize = 0;
    while i < suspend.len()
        invariant
            i <= suspend.len(),
            suspend@.len() == windows@.len(),
            r@.len() == i,
            forall|j: int| 0 <= j < suspend@.len() ==> #[trigger] suspend@[j] == suspend_action(windows@[j]),
            forall|j: int|
                0 <= j < i ==> #[trigger] r@[j] == RestoreStep::Window(suspend_action(windows@[j])),
        decreases suspend.len() - i,
    {
        r.push(RestoreStep::Window(suspend[i]));
        i += 1;
    }
    let ordered = replay_order(files, previously_focused);
    let mut commands = replay_commands(&ordered, focused);
    let ghost replay = replay_of(
        order_of(files@, optional_text(previously_focused)),
        optional_text(focused),
    );
    let ghost all = commands@;
    let ghost a = windows@.len() as int;
    assert(commands_model(all).len() == all.len());
    assert(all.skip(0) =~= all);
    while commands.len() > 0
        invariant
            commands_model(all) == replay,
            all.len() == replay.len(),
            a == windows@.len(),
            a <= r@.len() <= a + all.len(),
            commands@ == all.skip(r@.len() - a),
            forall|j: int|
                0 <= j < a ==> #[trigger] r@[j] == RestoreStep::Window(suspend_action(windows@[j])),
            forall|j: int|
                0 <= j < r@.len() - a ==> (#[trigger] r@[a + j] matches RestoreStep::Command(c)
                    && c@ == replay[j]),
        decreases commands.len(),
    {
        let ghost k = r@.len() - a;
        let ghost before = r@;
        let command = commands.remove(0);
        assert(command == all[k]);
        assert(commands_model(all)[k] == all[k]@);
        assert(commands@ =~= all.skip(k + 1));
        r.push(RestoreStep::Command(command));
        assert forall|j: int| 0 <= j < r@.len() - a implies (#[trigger] r@[a + j]
            matches RestoreStep::Command(c) && c@ == replay[j]) by {
            if j < k {
                assert(r@[a + j] == before[a + j]);
            }
        }
    }
    let resume = resume_actions(windows);
    let ghost b = replay.len() as int;
    let mut i: usize = 0;
    while i < resume.len()
        invariant
            i <= resume.len(),
            resume@ == resume_of(windows@),
            a == windows@.len(),
            b == replay.len(),
            r@.len() == a + b + i,
            forall|j: int|
                0 <= j < a ==> #[trigger] r@[j] == RestoreStep::Window(suspend_action(windows@[j])),
            forall|j: int|
                0 <= j < b ==> (#[trigger] r@[a + j] matches RestoreStep::Command(c) && c@
                    == replay[j]),
            forall|j: int|
                0 <= j < i ==> #[trigger] r@[a + b + j] == RestoreStep::Window(resume@[j]),
        decreases resume.len() - i,
    {
        let ghost before = r@;
        r.push(RestoreStep::Window(resume[i]));
        assert forall|j: int| 0 <= j < b implies (#[trigger] r@[a + j] matches RestoreStep::Command(
            c,
        ) && c@ == replay[j]) by {
            assert(r@[a + j] == before[a + j]);
        }
        assert forall|j: int| 0 <= j < i + 1 implies #[trigger] r@[a + b + j] == RestoreStep::Window(
            resume@[j],
        ) by {
            if j < i {
                assert(r@[a + b + j] == before[a + b + j]);
            }
        }
        i += 1;
    }
    let mut launches = plan_launches(processes);
    let ghost starts = runnable(processes@);
    let ghost c = resume@.len() as int;
    let ghost planned = launches@;
    assert(planned.skip(0) =~= planned);
    while launches.len() > 0
        invariant
            a == windows@.len(),
            b == replay.len(),
            c == resume_of(windows@).len(),
            resume@ == resume_of(windows@),
            starts == runnable(processes@),
            planned.len() == starts.len(),
            forall|j: int| 0 <= j < planned.len() ==> launch_of(starts[j], #[trigger] planned[j]),
            a + b + c <= r@.len() <= a + b + c + planned.len(),
            launches@ == planned.skip(r@.len() - a - b - c),
            forall|j: int|
                0 <= j < a ==> #[trigger] r@[j] == RestoreStep::Window(suspend_action(windows@[j])),
            forall|j: int|
                0 <= j < b ==> (#[trigger] r@[a + j] matches RestoreStep::Command(cmd) && cmd@
                    == replay[j]),
            forall|j: int|
                0 <= j < c ==> #[trigger] r@[a + b + j] == RestoreStep::Window(resume@[j]),
            forall|j: int|
                0 <= j < r@.len() - a - b - c ==> (#[trigger] r@[a + b + c + j]
                    matches RestoreStep::Launch(l) && launch_of(starts[j], l)),
        decreases launches.len(),
    {
        let ghost k = r@.len() - a - b - c;
        let ghost before = r@;
        let launch = launches.remove(0);
        assert(launch == planned[k]);
        assert(launches@ =~= planned.skip(k + 1));
        r.push(RestoreStep::Launch(launch));
        assert forall|j: int| 0 <= j < b implies (#[trigger] r@[a + j] matches RestoreStep::Command(
            cmd,
        ) && cmd@ == replay[j]) by {
            assert(r@[a + j] == before[a + j]);
        }
        assert forall|j: int| 0 <= j < c implies #[trigger] r@[a + b + j] == RestoreStep::Window(
            resume@[j],
        ) by {
            assert(r@[a + b + j] == before[a + b + j]);
        }
        assert forall|j: int| 0 <= j < r@.len() - a - b - c implies (#[trigger] r@[a + b + c + j]
            matches RestoreStep::Launch(l) && launch_of(starts[j], l)) by {
            if j < k {
                assert(r@[a + b + c + j] == before[a + b + c + j]);
            }
        }
    }
    r
}

/// Whether a restore has failed: a command of the replay could not be
/// exchanged with the window manager, or the window manager reported
/// that it did not succeed.
pub open spec fn replay_failed(replies: Seq<Option<Command>>) -> bool {
    exists|i: int|
        0 <= i < replies.len() && match #[trigger] replies[i] {
            Some(reply) => !reply.spec_succeeded(),
            None => true,
        }
}

/// Tells whether a restore is to be reported as failed, from the replies
/// to all the commands of its replay; `None` stands for a command that
/// got no reply. Every command is sent whatever became of those before
/// it, so that one failure does not leave the display half restored.
pub fn restore_failed(replies: &Vec<Option<Command>>) -> (failed: bool)
    ensures
        failed == replay_failed(replies@),
{
    let mut i: usize = 0;
    while i < replies.len()
        invariant
            i <= replies.len(),
            forall|j: int|
                0 <= j < i ==> match #[trigger] replies@[j] {
                    Some(reply) => reply.spec_succeeded(),
                    None => false,
                },
        decreases replies.len() - i,
    {
        let bad = match &replies[i] {
            Some(reply) => !reply.succeeded(),
            None => true,
        };
        if bad {
            return true;
        }
        i += 1;
    }
    false
}

} // verus!

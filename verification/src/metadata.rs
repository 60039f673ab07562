//! What is kept of a session beside its layouts: the workspaces that were
//! visible, with the focused one last.

use vstd::prelude::*;
use crate::restore::{commands_model, focus_after, CommandModel, ReplayCommand};
use crate::text::{optional_text, str_eq, texts};

verus! {

/// What the window manager tells of a workspace.
#[derive(Debug)]
pub struct WorkspaceInfo {
    pub name: String,
    pub visible: bool,
    pub focused: bool,
}

/// The names of the visible workspaces that have, or have not, the focus,
/// in their order.
pub open spec fn visible_names(workspaces: Seq<WorkspaceInfo>, focused: bool) -> Seq<Seq<char>>
    decreases workspaces.len(),
{
    if workspaces.len() == 0 {
        Seq::empty()
    } else if workspaces.last().visible && workspaces.last().focused == focused {
        visible_names(workspaces.drop_last(), focused).push(workspaces.last().name@)
    } else {
        visible_names(workspaces.drop_last(), focused)
    }
}

/// The names that are saved: those of the visible workspaces in the order
/// reported, but for the focused one, which comes last.
pub open spec fn saved_names(workspaces: Seq<WorkspaceInfo>) -> Seq<Seq<char>> {
    visible_names(workspaces, false) + visible_names(workspaces, true)
}

fn collect_visible(workspaces: &Vec<WorkspaceInfo>, focused: bool) -> (r: Vec<String>)
    ensures
        texts(r@) == visible_names(workspaces@, focused),
{
    let mut r: Vec<String> = Vec::new();
    let mut i: usize = 0;
    assert(workspaces@.take(0) =~= Seq::<WorkspaceInfo>::empty());
    assert(texts(r@) =~= Seq::empty());
    while i < workspaces.len()
        invariant
            i <= workspaces.len(),
            texts(r@) == visible_names(workspaces@.take(i as int), focused),
        decreases workspaces.len() - i,
    {
        let w = &workspaces[i];
        let ghost before = texts(r@);
        assert(workspaces@.take(i + 1).drop_last() =~= workspaces@.take(i as int));
        assert(workspaces@.take(i + 1).last() == *w);
        if w.visible && w.focused == focused {
            r.push(w.name.clone());
            assert(texts(r@) =~= before.push(w.name@));
        }
        i += 1;
    }
    assert(workspaces@.take(workspaces.len() as int) =~= workspaces@);
    r
}

/// Lists the names of the visible workspaces for saving, the focused one
/// last, so that it gets the focus when the session is restored.
pub fn visible_workspaces(workspaces: &Vec<WorkspaceInfo>) -> (r: Vec<String>)
    ensures
        texts(r@) == saved_names(workspaces@),
{
    let mut r = collect_visible(workspaces, false);
    let mut last = collect_visible(workspaces, true);
    let ghost head = texts(r@);
    let ghost tail = texts(last@);
    r.append(&mut last);
    assert(texts(r@) =~= head + tail);
    r
}

/// Where a visible workspace has the focus, the saved names end with the
/// name of such a workspace, and hold the name of every visible one.
pub proof fn lemma_focused_is_saved_last(workspaces: Seq<WorkspaceInfo>)
    ensures
        saved_names(workspaces).len() == visible_names(workspaces, false).len() + visible_names(
            workspaces,
            true,
        ).len(),
        forall|i: int|
            0 <= i < workspaces.len() && (#[trigger] workspaces[i]).visible ==> saved_names(
                workspaces,
            ).contains(workspaces[i].name@),
        (exists|i: int|
            0 <= i < workspaces.len() && (#[trigger] workspaces[i]).visible
                && workspaces[i].focused) ==> saved_names(workspaces).len() > 0 && exists|i: int|
            0 <= i < workspaces.len() && (#[trigger] workspaces[i]).visible
                && workspaces[i].focused && workspaces[i].name@ == saved_names(workspaces).last(),
{
    lemma_visible_names(workspaces, true);
    lemma_visible_names(workspaces, false);
    let unfocused = visible_names(workspaces, false);
    let focused = visible_names(workspaces, true);
    assert forall|i: int| 0 <= i < workspaces.len() && (#[trigger] workspaces[i]).visible implies
        saved_names(workspaces).contains(workspaces[i].name@) by {
        if workspaces[i].focused {
            let k = choose|k: int| 0 <= k < focused.len() && focused[k] == workspaces[i].name@;
            assert(saved_names(workspaces)[unfocused.len() + k] == workspaces[i].name@);
        } else {
            let k = choose|k: int| 0 <= k < unfocused.len() && unfocused[k] == workspaces[i].name@;
            assert(saved_names(workspaces)[k] == workspaces[i].name@);
        }
    }
    if exists|i: int|
        0 <= i < workspaces.len() && (#[trigger] workspaces[i]).visible && workspaces[i].focused {
        let i = choose|i: int|
            0 <= i < workspaces.len() && (#[trigger] workspaces[i]).visible
                && workspaces[i].focused;
        assert(focused.contains(workspaces[i].name@));
        assert(focused.len() > 0);
        assert(saved_names(workspaces).last() == focused.last());
        assert(focused.contains(focused[focused.len() - 1]));
    }
}

/// The names selected are those of the workspaces that are visible and
/// have the focus as asked.
proof fn lemma_visible_names(workspaces: Seq<WorkspaceInfo>, focused: bool)
    ensures
        forall|i: int|
            0 <= i < workspaces.len() && (#[trigger] workspaces[i]).visible && workspaces[i].focused
                == focused ==> visible_names(workspaces, focused).contains(workspaces[i].name@),
        forall|name: Seq<char>| #[trigger]
            visible_names(workspaces, focused).contains(name) ==> exists|i: int|
                0 <= i < workspaces.len() && (#[trigger] workspaces[i]).visible
                    && workspaces[i].focused == focused && workspaces[i].name@ == name,
    decreases workspaces.len(),
{
    if workspaces.len() > 0 {
        let head = workspaces.drop_last();
        let w = workspaces.last();
        lemma_visible_names(head, focused);
        let all = visible_names(workspaces, focused);
        let before = visible_names(head, focused);
        assert forall|i: int|
            0 <= i < workspaces.len() && (#[trigger] workspaces[i]).visible && workspaces[i].focused
                == focused implies all.contains(workspaces[i].name@) by {
            if i < head.len() {
                assert(head[i] == workspaces[i]);
                let k = choose|k: int| 0 <= k < before.len() && before[k] == workspaces[i].name@;
                assert(all[k] == workspaces[i].name@);
            } else {
                assert(all[all.len() - 1] == w.name@);
            }
        }
        assert forall|name: Seq<char>| #[trigger] all.contains(name) implies exists|i: int|
            0 <= i < workspaces.len() && (#[trigger] workspaces[i]).visible && workspaces[i].focused
                == focused && workspaces[i].name@ == name by {
            let k = choose|k: int| 0 <= k < all.len() && all[k] == name;
            if k < before.len() {
                assert(before[k] == name);
                assert(before.contains(name));
                let i = choose|i: int|
                    0 <= i < head.len() && (#[trigger] head[i]).visible && head[i].focused
                        == focused && head[i].name@ == name;
                assert(workspaces[i] == head[i]);
            } else {
                assert(workspaces[workspaces.len() - 1] == w);
            }
        }
    }
}

/// Whether `name` is that of the first workspace that has the focus.
pub open spec fn is_focused_name(workspaces: Seq<WorkspaceInfo>, name: Seq<char>) -> bool {
    exists|i: int|
        0 <= i < workspaces.len() && (#[trigger] workspaces[i]).focused && workspaces[i].name@
            == name && forall|j: int| 0 <= j < i ==> !(#[trigger] workspaces[j]).focused
}

/// Finds the workspace that has the focus: the first that says so.
pub fn focused_workspace(workspaces: &Vec<WorkspaceInfo>) -> (r: Option<String>)
    ensures
        match r {
            Some(name) => is_focused_name(workspaces@, name@),
            None => forall|i: int| 0 <= i < workspaces@.len() ==> !(#[trigger] workspaces@[i]).focused,
        },
{
    let mut i: usize = 0;
    while i < workspaces.len()
        invariant
            i <= workspaces.len(),
            forall|j: int| 0 <= j < i ==> !(#[trigger] workspaces@[j]).focused,
        decreases workspaces.len() - i,
    {
        if workspaces[i].focused {
            return Some(workspaces[i].name.clone());
        }
        i += 1;
    }
    None
}

/// The commands that walk through the saved workspaces in their order, so
/// that each is shown again and the last keeps the focus. The switch to
/// the first is left out where it has the focus already.
pub open spec fn visits_of(names: Seq<String>, focused: Option<Seq<char>>) -> Seq<CommandModel>
    decreases names.len(),
{
    if names.len() == 0 {
        Seq::empty()
    } else if names.len() == 1 && focused == Some(names.last()@) {
        Seq::empty()
    } else {
        visits_of(names.drop_last(), focused).push(CommandModel::Workspace(names.last()@))
    }
}

/// Plans the switches that bring back the visible workspaces and the focus.
pub fn focus_commands(names: &Vec<String>, focused: Option<&str>) -> (r: Vec<ReplayCommand>)
    ensures
        commands_model(r@) == visits_of(names@, optional_text(focused)),
{
    let mut r: Vec<ReplayCommand> = Vec::new();
    let mut i: usize = 0;
    assert(names@.take(0) =~= Seq::<String>::empty());
    assert(commands_model(r@) =~= Seq::empty());
    while i < names.len()
        invariant
            i <= names.len(),
            commands_model(r@) == visits_of(names@.take(i as int), optional_text(focused)),
        decreases names.len() - i,
    {
        let name = &names[i];
        let ghost before = commands_model(r@);
        assert(names@.take(i + 1).drop_last() =~= names@.take(i as int));
        assert(names@.take(i + 1).last() == *name);
        let already_there = i == 0 && match focused {
            Some(f) => str_eq(f, name.as_str()),
            None => false,
        };
        if !already_there {
            r.push(ReplayCommand::Workspace(name.clone()));
            assert(commands_model(r@) =~= before.push(CommandModel::Workspace(name@)));
        }
        i += 1;
    }
    assert(names@.take(names.len() as int) =~= names@);
    r
}

/// Walking through the saved workspaces leaves the focus on the last.
pub proof fn lemma_focus_ends_on_last_visited(names: Seq<String>, focused: Option<Seq<char>>)
    requires
        names.len() > 0,
    ensures
        focus_after(visits_of(names, focused), focused) == Some(names.last()@),
{
    if names.len() == 1 && focused == Some(names.last()@) {
    } else {
        let commands = visits_of(names, focused);
        assert(commands.last() == CommandModel::Workspace(names.last()@));
    }
}

} // verus!

use i3_revive::metadata::{focus_commands, focused_workspace, visible_workspaces, WorkspaceInfo};

fn ws(name: &str, visible: bool, focused: bool) -> WorkspaceInfo {
    WorkspaceInfo { name: name.to_string(), visible, focused }
}

#[test]
fn the_focused_workspace_is_saved_last() {
    let all = vec![ws("1", true, false), ws("2", true, true), ws("3", true, false), ws("4", false, false)];
    assert_eq!(visible_workspaces(&all), vec!["1", "3", "2"]);
    let last = vec![ws("1", true, false), ws("2", false, false), ws("3", true, true)];
    assert_eq!(visible_workspaces(&last), vec!["1", "3"]);
    let first = vec![ws("1", true, true), ws("2", true, false)];
    assert_eq!(visible_workspaces(&first), vec!["2", "1"]);
    assert!(visible_workspaces(&vec![]).is_empty());
    assert!(visible_workspaces(&vec![ws("1", false, true)]).is_empty());
}

#[test]
fn the_focused_workspace_is_found() {
    let all = vec![ws("1", true, false), ws("2", true, true), ws("3", true, true)];
    assert_eq!(focused_workspace(&all).as_deref(), Some("2"));
    assert_eq!(focused_workspace(&vec![ws("1", true, false)]), None);
    assert_eq!(focused_workspace(&vec![]), None);
}

#[test]
fn the_visible_workspaces_are_visited_in_saved_order() {
    let names = vec!["1".to_string(), "3".to_string(), "2".to_string()];
    let texts = |focused: Option<&str>| {
        focus_commands(&names, focused).iter().map(|c| c.text()).collect::<Vec<_>>()
    };
    assert_eq!(texts(Some("3")), vec!["workspace 1", "workspace 3", "workspace 2"]);
    assert_eq!(texts(Some("1")), vec!["workspace 3", "workspace 2"]);
    assert_eq!(texts(None), vec!["workspace 1", "workspace 3", "workspace 2"]);
    assert!(focus_commands(&vec!["1".to_string()], Some("1")).is_empty());
    assert!(focus_commands(&vec![], None).is_empty());
}

use i3_revive::i3_tree::Window;
use i3_revive::i3ipc::{Command, CommandOutcome};
use i3_revive::process::Process;
use i3_revive::restore::{
    layout_file_name, replay_commands, replay_order, restore_failed, restore_plan, resume_actions,
    suspend_actions, workspace_of_file, LayoutFile, ReplayCommand, RestoreStep, WindowAction,
};

fn window(id: u32, is_placeholder: bool) -> Window {
    Window { id, name: format!("w{}", id), class: None, is_placeholder }
}

fn file(workspace: &str) -> LayoutFile {
    LayoutFile {
        workspace: workspace.to_string(),
        path: format!("/data/layouts/ws_{}.json", workspace),
    }
}

fn texts(commands: &Vec<ReplayCommand>) -> Vec<String> {
    commands.iter().map(|c| c.text()).collect()
}

#[test]
fn placeholders_are_destroyed_and_windows_hidden() {
    let windows = vec![window(1, false), window(2, true), window(3, false)];
    assert_eq!(
        suspend_actions(&windows),
        vec![WindowAction::Hide(1), WindowAction::Destroy(2), WindowAction::Hide(3)]
    );
    assert_eq!(resume_actions(&windows), vec![WindowAction::Show(1), WindowAction::Show(3)]);
    assert!(suspend_actions(&vec![]).is_empty());
    assert!(resume_actions(&vec![window(9, true)]).is_empty());
}

#[test]
fn layout_files_are_named_after_their_workspace() {
    assert_eq!(layout_file_name("1"), "ws_1.json");
    assert_eq!(layout_file_name("3: mail"), "ws_3: mail.json");
    assert_eq!(workspace_of_file("ws_1.json").as_deref(), Some("1"));
    assert_eq!(workspace_of_file("ws_3: mail.json").as_deref(), Some("3: mail"));
    assert_eq!(workspace_of_file(&layout_file_name("a.b")).as_deref(), Some("a.b"));
    assert_eq!(workspace_of_file("ws_.json"), None);
    assert_eq!(workspace_of_file("processes.json"), None);
    assert_eq!(workspace_of_file("ws_1.json.bak"), None);
    assert_eq!(workspace_of_file("xws_1.json"), None);
    assert_eq!(workspace_of_file("ws_1xjson").as_deref(), Some("1"));
}

#[test]
fn the_previously_focused_workspace_is_replayed_last() {
    let files = vec![file("1"), file("2"), file("3")];
    let names = |fs: &Vec<LayoutFile>| fs.iter().map(|f| f.workspace.clone()).collect::<Vec<_>>();
    assert_eq!(names(&replay_order(&files, Some("2"))), vec!["1", "3", "2"]);
    assert_eq!(names(&replay_order(&files, Some("3"))), vec!["1", "2", "3"]);
    assert_eq!(names(&replay_order(&files, Some("1"))), vec!["2", "3", "1"]);
    assert_eq!(names(&replay_order(&files, Some("9"))), vec!["1", "2", "3"]);
    assert_eq!(names(&replay_order(&files, None)), vec!["1", "2", "3"]);
    let ordered = replay_order(&files, Some("2"));
    assert_eq!(ordered[2].path, "/data/layouts/ws_2.json");
}

#[test]
fn replay_switches_to_each_workspace_and_ends_on_the_focused_one() {
    let files = vec![file("1"), file("2"), file("3")];
    let ordered = replay_order(&files, Some("2"));
    let commands = replay_commands(&ordered, Some("2"));
    assert_eq!(
        texts(&commands),
        vec![
            "workspace 1",
            "append_layout /data/layouts/ws_1.json",
            "workspace 3",
            "append_layout /data/layouts/ws_3.json",
            "workspace 2",
            "append_layout /data/layouts/ws_2.json",
        ]
    );
}

#[test]
fn the_switch_to_the_focused_workspace_is_spared_for_the_first_layout() {
    let files = vec![file("2"), file("1"), file("3")];
    assert_eq!(
        texts(&replay_commands(&files, Some("2"))),
        vec![
            "append_layout /data/layouts/ws_2.json",
            "workspace 1",
            "append_layout /data/layouts/ws_1.json",
            "workspace 3",
            "append_layout /data/layouts/ws_3.json",
        ]
    );
    assert_eq!(
        texts(&replay_commands(&files, Some("1"))),
        vec![
            "workspace 2",
            "append_layout /data/layouts/ws_2.json",
            "workspace 1",
            "append_layout /data/layouts/ws_1.json",
            "workspace 3",
            "append_layout /data/layouts/ws_3.json",
        ]
    );
    assert_eq!(texts(&replay_commands(&files, None)).len(), 6);
    assert!(replay_commands(&vec![], Some("1")).is_empty());
    assert_eq!(
        texts(&replay_commands(&vec![file("1")], Some("1"))),
        vec!["append_layout /data/layouts/ws_1.json"]
    );
}

#[test]
fn a_restore_goes_through_its_phases_in_order() {
    let windows = vec![window(1, false), window(2, true)];
    let files = vec![file("1"), file("2")];
    let processes = vec![
        Process { command: vec!["/usr/bin/firefox".to_string(), "-P".to_string()], working_directory: "/home/me".to_string() },
        Process { command: vec![], working_directory: "/".to_string() },
        Process { command: vec!["htop".to_string()], working_directory: "/tmp".to_string() },
    ];
    let plan = restore_plan(&windows, &files, Some("1"), Some("2"), &processes);
    assert_eq!(plan.len(), 2 + 3 + 1 + 2);
    assert!(matches!(plan[0], RestoreStep::Window(WindowAction::Hide(1))));
    assert!(matches!(plan[1], RestoreStep::Window(WindowAction::Destroy(2))));
    let command = |s: &RestoreStep| match s {
        RestoreStep::Command(c) => c.text(),
        other => panic!("{:?}", other),
    };
    assert_eq!(command(&plan[2]), "append_layout /data/layouts/ws_2.json");
    assert_eq!(command(&plan[3]), "workspace 1");
    assert_eq!(command(&plan[4]), "append_layout /data/layouts/ws_1.json");
    assert!(matches!(plan[5], RestoreStep::Window(WindowAction::Show(1))));
    match &plan[6] {
        RestoreStep::Launch(l) => {
            assert_eq!(l.program, "/usr/bin/firefox");
            assert_eq!(l.args, vec!["-P"]);
            assert_eq!(l.working_directory, "/home/me");
            assert_eq!(l.process_name, "firefox");
        }
        other => panic!("{:?}", other),
    }
    match &plan[7] {
        RestoreStep::Launch(l) => {
            assert_eq!(l.program, "htop");
            assert!(l.args.is_empty());
            assert_eq!(l.process_name, "htop");
        }
        other => panic!("{:?}", other),
    }
}

#[test]
fn one_failed_command_fails_the_restore() {
    let ok = || Some(Command { outcomes: vec![CommandOutcome { success: true, error: None }] });
    let bad = || {
        Some(Command {
            outcomes: vec![
                CommandOutcome { success: true, error: None },
                CommandOutcome { success: false, error: Some("no".to_string()) },
            ],
        })
    };
    assert!(!restore_failed(&vec![]));
    assert!(!restore_failed(&vec![ok(), ok()]));
    assert!(restore_failed(&vec![ok(), bad(), ok()]));
    assert!(restore_failed(&vec![ok(), None]));
    assert!(!restore_failed(&vec![Some(Command { outcomes: vec![] })]));
}

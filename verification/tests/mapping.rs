use i3_revive::config::{Config, TerminalRevive, WindowCommandMapping};
use i3_revive::i3_tree::Window;
use i3_revive::mapping::{
    best_rule, select_mapping, CaptureSession, PatternError, PatternField, RulePatterns,
    WindowPlan,
};

fn mapping(class: Option<&str>, title: Option<&str>, command: Option<&str>) -> WindowCommandMapping {
    WindowCommandMapping {
        class: class.map(|s| s.to_string()),
        title: title.map(|s| s.to_string()),
        command: command.map(|s| s.to_string()),
        working_directory: None,
        once: None,
        ignored: None,
    }
}

fn window(id: u32, name: &str, class: Option<&str>) -> Window {
    Window { id, name: name.to_string(), class: class.map(|s| s.to_string()), is_placeholder: false }
}

fn command_of(plan: &WindowPlan) -> Option<&str> {
    match plan {
        WindowPlan::Revive { command, .. } => command.as_deref(),
        WindowPlan::Skip => panic!("the window was skipped"),
    }
}

#[test]
fn title_and_class_beat_class_alone() {
    let w = window(1, "Inbox - Mail", Some("Thunderbird"));
    let both = || mapping(Some("^Thunderbird$"), Some("Inbox"), Some("both"));
    let class_only = || mapping(Some("^Thunderbird$"), None, Some("class"));
    assert_eq!(select_mapping(&vec![both(), class_only()], &w), Ok(Some(0)));
    assert_eq!(select_mapping(&vec![class_only(), both()], &w), Ok(Some(1)));
}

#[test]
fn the_only_satisfied_mapping_wins() {
    let w = window(1, "Drafts", Some("Thunderbird"));
    let both = || mapping(Some("^Thunderbird$"), Some("Inbox"), Some("both"));
    let class_only = || mapping(Some("^Thunderbird$"), None, Some("class"));
    assert_eq!(select_mapping(&vec![both(), class_only()], &w), Ok(Some(1)));
    assert_eq!(select_mapping(&vec![class_only(), both()], &w), Ok(Some(0)));
}

#[test]
fn title_alone_beats_class_alone() {
    let w = window(1, "Inbox", Some("Thunderbird"));
    let title_only = mapping(None, Some("Inbox"), None);
    let class_only = mapping(Some("Thunder"), None, None);
    assert_eq!(select_mapping(&vec![class_only, title_only], &w), Ok(Some(1)));
}

#[test]
fn ties_go_to_the_first_mapping() {
    let w = window(1, "Inbox", Some("Thunderbird"));
    let a = mapping(Some("Thunder"), None, None);
    let b = mapping(Some("bird"), None, None);
    assert_eq!(select_mapping(&vec![a, b], &w), Ok(Some(0)));
}

#[test]
fn a_mapping_without_patterns_never_applies() {
    let w = window(1, "Inbox", Some("Thunderbird"));
    assert_eq!(select_mapping(&vec![mapping(None, None, Some("x"))], &w), Ok(None));
    assert_eq!(select_mapping(&vec![], &w), Ok(None));
}

#[test]
fn a_class_pattern_needs_a_class() {
    let w = window(1, "Inbox", None);
    assert_eq!(select_mapping(&vec![mapping(Some(".*"), None, None)], &w), Ok(None));
    assert_eq!(select_mapping(&vec![mapping(Some(".*"), Some("Inbox"), None)], &w), Ok(None));
    assert_eq!(select_mapping(&vec![mapping(None, Some("Inbox"), None)], &w), Ok(Some(0)));
}

#[test]
fn the_first_invalid_pattern_is_reported() {
    let w = window(1, "Inbox", Some("Thunderbird"));
    let good = || mapping(Some("Thunder"), None, None);
    let bad_title = || mapping(Some("("), Some("["), None);
    let bad_class = || mapping(Some("("), Some("nothing like it"), None);
    assert_eq!(
        select_mapping(&vec![good(), bad_title(), bad_class()], &w),
        Err(PatternError { rule: 1, field: PatternField::Primary })
    );
    assert_eq!(
        select_mapping(&vec![good(), bad_class(), bad_title()], &w),
        Err(PatternError { rule: 1, field: PatternField::Secondary })
    );
    let classless = window(2, "Inbox", None);
    assert_eq!(
        select_mapping(&vec![bad_class()], &classless),
        Err(PatternError { rule: 0, field: PatternField::Secondary })
    );
}

#[test]
fn rules_are_scored_on_both_texts() {
    let rules = vec![
        RulePatterns { primary: Some("^vim$".to_string()), secondary: None },
        RulePatterns {
            primary: Some("^vim$".to_string()),
            secondary: Some("notes".to_string()),
        },
        RulePatterns { primary: None, secondary: Some("notes".to_string()) },
    ];
    assert_eq!(best_rule(&rules, "vim", Some("notes.txt")), Ok(Some(1)));
    assert_eq!(best_rule(&rules, "vim", Some("plans.txt")), Ok(Some(0)));
    assert_eq!(best_rule(&rules, "nano", Some("notes.txt")), Ok(Some(2)));
    assert_eq!(best_rule(&rules, "nano", Some("plans.txt")), Ok(None));
    assert_eq!(best_rule(&rules, "vim", None), Ok(Some(0)));
}

#[test]
fn a_once_mapping_applies_to_the_first_window_only() {
    let mut config = Config::empty();
    let mut m = mapping(Some("^Firefox$"), None, Some("firefox --restore"));
    m.working_directory = Some("/home/me".to_string());
    m.once = Some(true);
    config.window_command_mappings.push(m);
    let mut session = CaptureSession::new();

    let first = session.plan(&config, &window(1, "A", Some("Firefox"))).unwrap();
    match &first {
        WindowPlan::Revive { command, working_directory, terminal_command } => {
            assert_eq!(command.as_deref(), Some("firefox --restore"));
            assert_eq!(working_directory.as_deref(), Some("/home/me"));
            assert_eq!(terminal_command, &None);
        }
        WindowPlan::Skip => panic!("the first window was skipped"),
    }
    let second = session.plan(&config, &window(2, "B", Some("Firefox"))).unwrap();
    match &second {
        WindowPlan::Revive { command, working_directory, terminal_command } => {
            assert_eq!(command, &None);
            assert_eq!(working_directory, &None);
            assert_eq!(terminal_command, &None);
        }
        WindowPlan::Skip => panic!("the second window was skipped"),
    }
    let third = session.plan(&config, &window(3, "C", Some("Firefox"))).unwrap();
    assert_eq!(command_of(&third), None);
    assert_eq!(session.used_once, vec![0]);
}

#[test]
fn a_mapping_without_once_applies_every_time() {
    let mut config = Config::empty();
    config.window_command_mappings.push(mapping(Some("^Firefox$"), None, Some("firefox")));
    let mut session = CaptureSession::new();
    for id in 1..4 {
        let plan = session.plan(&config, &window(id, "A", Some("Firefox"))).unwrap();
        assert_eq!(command_of(&plan), Some("firefox"));
    }
    assert!(session.used_once.is_empty());
}

#[test]
fn ignored_windows_and_placeholders_are_skipped() {
    let mut config = Config::empty();
    let mut m = mapping(Some("^Slack$"), None, Some("slack"));
    m.ignored = Some(true);
    m.once = Some(true);
    config.window_command_mappings.push(m);
    config.window_command_mappings.push(mapping(None, Some("("), None));
    let mut session = CaptureSession::new();

    let mut placeholder = window(1, "x", Some("Slack"));
    placeholder.is_placeholder = true;
    assert!(matches!(session.plan(&config, &placeholder), Ok(WindowPlan::Skip)));

    assert_eq!(
        session.plan(&config, &window(2, "x", Some("Slack"))).unwrap_err(),
        PatternError { rule: 1, field: PatternField::Primary }
    );
    config.window_command_mappings.pop();
    assert!(matches!(session.plan(&config, &window(2, "x", Some("Slack"))), Ok(WindowPlan::Skip)));
    assert!(session.used_once.is_empty());
}

#[test]
fn terminals_get_their_revive_command() {
    let mut config = Config::empty();
    config.terminal_revive_commands.push(TerminalRevive {
        class: "kitty".to_string(),
        command: "kitty {cmd}".to_string(),
    });
    let mut session = CaptureSession::new();
    match session.plan(&config, &window(1, "~", Some("kitty"))).unwrap() {
        WindowPlan::Revive { command, working_directory, terminal_command } => {
            assert_eq!(command, None);
            assert_eq!(working_directory, None);
            assert_eq!(terminal_command.as_deref(), Some("kitty {cmd}"));
        }
        WindowPlan::Skip => panic!("the terminal was skipped"),
    }
    match session.plan(&config, &window(2, "~", Some("xterm"))).unwrap() {
        WindowPlan::Revive { terminal_command, .. } => assert_eq!(terminal_command, None),
        WindowPlan::Skip => panic!("the window was skipped"),
    }
}

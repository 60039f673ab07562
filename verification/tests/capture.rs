use i3_revive::capture::{CaptureError, CaptureState, CaptureStep, WindowCapture};
use i3_revive::config::{Config, TerminalRevive, WindowCommandMapping};
use i3_revive::i3_tree::Window;
use i3_revive::mapping::{CaptureSession, PatternError, PatternField};
use i3_revive::probe::{ProbeAnswer, ProbeRequest};
use i3_revive::template::TemplateError;
use i3_revive::terminal::{terminal_command, TerminalError};

fn strings(words: &[&str]) -> Vec<String> {
    words.iter().map(|w| w.to_string()).collect()
}

fn text(s: &str) -> ProbeAnswer {
    ProbeAnswer::Text(s.to_string())
}

fn window(class: &str) -> Window {
    Window { id: 42, name: "title".to_string(), class: Some(class.to_string()), is_placeholder: false }
}

fn mapping(class: &str, command: Option<&str>, directory: Option<&str>) -> WindowCommandMapping {
    WindowCommandMapping {
        class: Some(class.to_string()),
        title: None,
        command: command.map(|s| s.to_string()),
        working_directory: directory.map(|s| s.to_string()),
        once: None,
        ignored: None,
    }
}

fn config() -> Config {
    let mut config = Config::empty();
    config.window_command_mappings.push(mapping("^Firefox$", Some("firefox -P 'my own'"), Some("/home/me")));
    config.window_command_mappings.push(mapping("^Code$", Some("code {1}"), None));
    config.window_command_mappings.push(mapping("^Files$", None, Some("/srv")));
    config.window_command_mappings.push(mapping("^Broken$", Some("x 'y"), None));
    config.window_command_mappings.push(mapping("^Huge$", Some("{99999999999999999999999}"), None));
    config.window_command_mappings.push(mapping("^Mapped-terminal$", Some("term"), None));
    config.terminal_revive_commands.push(TerminalRevive {
        class: "kitty".to_string(),
        command: "kitty {cmd}".to_string(),
    });
    config.terminal_revive_commands.push(TerminalRevive {
        class: "Mapped-terminal".to_string(),
        command: "term {cmd}".to_string(),
    });
    config
}

fn start(class: &str) -> (WindowCapture, CaptureStep) {
    let mut session = CaptureSession::new();
    let r = WindowCapture::start(&mut session, &config(), &window(class), 900);
    assert_eq!(r.0.pid, 900);
    assert_eq!(r.0.window, 42);
    r
}

fn recorded(step: CaptureStep, command: &[&str], directory: &str) {
    match step {
        CaptureStep::Record(p) => {
            assert_eq!(p.command, strings(command));
            assert_eq!(p.working_directory, directory);
        }
        other => panic!("{:?}", other),
    }
}

fn asked_directory(step: &CaptureStep, pid: &str) {
    match step {
        CaptureStep::Ask(ProbeRequest::Directory(asked)) => assert_eq!(asked, pid),
        other => panic!("{:?}", other),
    }
}

#[test]
fn a_mapping_with_command_and_directory_asks_nothing() {
    let (capture, step) = start("Firefox");
    assert!(matches!(capture.state, CaptureState::Finished));
    recorded(step, &["firefox", "-P", "my own"], "/home/me");
}

#[test]
fn a_placeholder_fills_from_the_command_of_the_owner() {
    let (capture, step) = start("Code");
    assert!(matches!(step, CaptureStep::Ask(ProbeRequest::Command(900))));
    assert!(matches!(capture.state, CaptureState::AwaitStartedAs { .. }));
    let (capture, step) =
        capture.step(&config(), ProbeAnswer::Command(strings(&["/usr/bin/code", "my project"])));
    asked_directory(&step, "900");
    let (capture, step) = capture.step(&config(), text("/home/me/src"));
    assert!(matches!(capture.state, CaptureState::Finished));
    recorded(step, &["code", "my project"], "/home/me/src");
}

#[test]
fn a_template_stays_as_it_is_when_the_owner_cannot_be_read() {
    let (capture, _) = start("Code");
    let (capture, step) = capture.step(&config(), ProbeAnswer::Unreadable);
    asked_directory(&step, "900");
    let (_, step) = capture.step(&config(), text("/"));
    recorded(step, &["code", "{1}"], "/");
}

#[test]
fn a_window_without_mapping_gets_the_command_of_its_owner() {
    let (capture, step) = start("Gimp");
    assert!(matches!(step, CaptureStep::Ask(ProbeRequest::Command(900))));
    assert!(matches!(capture.state, CaptureState::AwaitOwner { .. }));
    let (capture, step) = capture.step(&config(), ProbeAnswer::Command(strings(&["gimp", "a.png"])));
    asked_directory(&step, "900");
    let (_, step) = capture.step(&config(), text("/pictures"));
    recorded(step, &["gimp", "a.png"], "/pictures");
}

#[test]
fn a_mapping_may_give_the_directory_alone() {
    let (capture, step) = start("Files");
    assert!(matches!(step, CaptureStep::Ask(ProbeRequest::Command(900))));
    let (capture, step) = capture.step(&config(), ProbeAnswer::Command(strings(&["nautilus"])));
    assert!(matches!(capture.state, CaptureState::Finished));
    recorded(step, &["nautilus"], "/srv");
}

#[test]
fn a_command_that_cannot_be_split_falls_back_to_the_owner() {
    let (capture, step) = start("Broken");
    assert!(matches!(step, CaptureStep::Ask(ProbeRequest::Command(900))));
    assert!(matches!(capture.state, CaptureState::AwaitOwner { .. }));
}

#[test]
fn a_terminal_is_probed_and_works_where_its_shell_does() {
    let config = config();
    let (capture, step) = start("kitty");
    match step {
        CaptureStep::Ask(ProbeRequest::Children(pid)) => assert_eq!(pid, "900"),
        other => panic!("{:?}", other),
    }
    assert!(matches!(capture.state, CaptureState::Probing { .. }));
    let (capture, step) = capture.step(&config, text("1000"));
    match step {
        CaptureStep::Ask(ProbeRequest::CommandLine(pid)) => assert_eq!(pid, "1000"),
        other => panic!("{:?}", other),
    }
    let (capture, step) = capture.step(&config, text("/bin/bash\0"));
    match step {
        CaptureStep::Ask(ProbeRequest::Status(pid)) => assert_eq!(pid, "1000"),
        other => panic!("{:?}", other),
    }
    let (capture, step) = capture.step(&config, text("1000 (bash) S 900 1000 1000 34816 1000 0"));
    match step {
        CaptureStep::Ask(ProbeRequest::Children(pid)) => assert_eq!(pid, "900"),
        other => panic!("{:?}", other),
    }
    assert!(matches!(capture.state, CaptureState::AwaitChildren { .. }));
    let (capture, step) = capture.step(&config, text("1000 1001"));
    asked_directory(&step, "1000");
    let (_, step) = capture.step(&config, text("/home/me/work"));
    match step {
        CaptureStep::Record(p) => {
            assert_eq!(p.command, terminal_command("kitty {cmd}", "/bin/bash", None, 42).unwrap());
            assert_eq!(p.working_directory, "/home/me/work");
        }
        other => panic!("{:?}", other),
    }
}

#[test]
fn a_terminal_without_children_works_where_it_is() {
    let config = config();
    let (capture, step) = start("Mapped-terminal");
    match step {
        CaptureStep::Ask(ProbeRequest::Children(pid)) => assert_eq!(pid, "900"),
        other => panic!("{:?}", other),
    }
    assert!(matches!(capture.state, CaptureState::AwaitChildren { .. }));
    let (capture, step) = capture.step(&config, text(""));
    asked_directory(&step, "900");
    let (_, step) = capture.step(&config, text("/"));
    recorded(step, &["term"], "/");
}

#[test]
fn failures_end_the_capture_of_the_window() {
    let config = config();
    let (_, step) = start("Huge");
    assert!(matches!(step, CaptureStep::Ask(ProbeRequest::Command(900))));
    let (capture, _) = start("Huge");
    let (capture, step) = capture.step(&config, ProbeAnswer::Command(strings(&["x"])));
    assert!(matches!(
        step,
        CaptureStep::Failed(CaptureError::Template(TemplateError::BadIndex))
    ));
    assert!(matches!(capture.state, CaptureState::Finished));
    let (_, step) = capture.step(&config, text("more"));
    assert!(matches!(step, CaptureStep::Failed(CaptureError::Unreadable)));

    let (capture, _) = start("Gimp");
    let (_, step) = capture.step(&config, ProbeAnswer::Unreadable);
    assert!(matches!(step, CaptureStep::Failed(CaptureError::Unreadable)));

    let (capture, _) = start("Gimp");
    let (capture, _) = capture.step(&config, ProbeAnswer::Command(vec![]));
    let (_, step) = capture.step(&config, text("/"));
    assert!(matches!(step, CaptureStep::Failed(CaptureError::NoCommand)));

    let (capture, _) = start("Gimp");
    let (capture, _) = capture.step(&config, ProbeAnswer::Command(strings(&["gimp"])));
    let (_, step) = capture.step(&config, ProbeAnswer::Unreadable);
    assert!(matches!(step, CaptureStep::Failed(CaptureError::Unreadable)));

    let (capture, _) = start("kitty");
    let (_, step) = capture.step(&config, text(""));
    assert!(matches!(
        step,
        CaptureStep::Failed(CaptureError::Terminal(TerminalError::NoShell))
    ));
}

#[test]
fn skipped_windows_and_bad_patterns_end_at_once() {
    let mut config = config();
    let mut session = CaptureSession::new();
    let mut placeholder = window("Firefox");
    placeholder.is_placeholder = true;
    let (capture, step) = WindowCapture::start(&mut session, &config, &placeholder, 1);
    assert!(matches!(step, CaptureStep::Skip));
    assert!(matches!(capture.state, CaptureState::Finished));

    config.window_command_mappings[0].ignored = Some(true);
    let (_, step) = WindowCapture::start(&mut session, &config, &window("Firefox"), 1);
    assert!(matches!(step, CaptureStep::Skip));

    config.window_command_mappings[1].title = Some("(".to_string());
    let (_, step) = WindowCapture::start(&mut session, &config, &window("Firefox"), 1);
    assert!(matches!(
        step,
        CaptureStep::Failed(CaptureError::Pattern(PatternError {
            rule: 1,
            field: PatternField::Primary
        }))
    ));
}

#[test]
fn a_once_mapping_is_used_up_by_the_first_capture() {
    let mut config = Config::empty();
    let mut once = mapping("^Firefox$", Some("firefox --restore"), Some("/home/me"));
    once.once = Some(true);
    config.window_command_mappings.push(once);
    let mut session = CaptureSession::new();
    let (_, step) = WindowCapture::start(&mut session, &config, &window("Firefox"), 1);
    recorded(step, &["firefox", "--restore"], "/home/me");
    let (capture, step) = WindowCapture::start(&mut session, &config, &window("Firefox"), 2);
    assert!(matches!(step, CaptureStep::Ask(ProbeRequest::Command(2))));
    assert!(matches!(capture.state, CaptureState::AwaitOwner { .. }));
}

use i3_revive::process::{
    collect_processes, directory_source, executable_candidates, first_child, is_executable,
    log_file_name, log_file_name_now, owner_pid, paths_to_probe, plan_launches, process_command,
    rebuild_argv, split_cmdline, DirectorySource, FileStatus, Process, ProcessError, EXECUTE_BITS,
};

fn file(mode: u32) -> Option<FileStatus> {
    Some(FileStatus { is_file: true, mode })
}

fn strings(words: &[&str]) -> Vec<String> {
    words.iter().map(|w| w.to_string()).collect()
}

#[test]
fn executable_files_have_an_execute_bit() {
    assert_eq!(EXECUTE_BITS, 0o111);
    assert!(is_executable(file(0o755)));
    assert!(is_executable(file(0o100)));
    assert!(is_executable(file(0o010)));
    assert!(is_executable(file(0o001)));
    assert!(is_executable(file(0o100644 | 0o001)));
    assert!(!is_executable(file(0o644)));
    assert!(!is_executable(file(0)));
    assert!(!is_executable(Some(FileStatus { is_file: false, mode: 0o755 })));
    assert!(!is_executable(None));
}

#[test]
fn the_owner_is_the_first_value_of_the_property() {
    assert_eq!(owner_pid(&vec![4321]), Ok(4321));
    assert_eq!(owner_pid(&vec![7, 8]), Ok(7));
    assert_eq!(owner_pid(&vec![]), Err(ProcessError::NoPid));
}

#[test]
fn command_lines_are_cut_at_nuls() {
    assert_eq!(split_cmdline("/usr/bin/vim\0-p\0a b.txt\0"), vec!["/usr/bin/vim", "-p", "a b.txt"]);
    assert_eq!(split_cmdline("bash\0"), vec!["bash"]);
    assert_eq!(split_cmdline("a\0\0b\0\0\0"), vec!["a", "", "b"]);
    assert_eq!(split_cmdline(""), vec![""]);
    assert_eq!(split_cmdline("\0\0"), vec![""]);
    assert_eq!(split_cmdline("/opt/My App/app --flag"), vec!["/opt/My App/app --flag"]);
}

#[test]
fn candidates_grow_token_by_token() {
    assert_eq!(
        executable_candidates("/opt/My App/app --flag x"),
        vec!["/opt/My", "/opt/My App/app", "/opt/My App/app --flag", "/opt/My App/app --flag x"]
    );
    assert_eq!(executable_candidates("app"), vec!["app"]);
    assert_eq!(executable_candidates(""), vec![""]);
    assert_eq!(executable_candidates(" app  x"), vec!["", "app", "app ", "app  x"]);
}

#[test]
fn the_program_is_the_first_executable_candidate() {
    let line = "/opt/My App/app --flag x";
    assert_eq!(
        rebuild_argv(line, &vec![None, file(0o755), None, None]),
        vec!["/opt/My App/app", "--flag", "x"]
    );
    assert_eq!(
        rebuild_argv(line, &vec![file(0o755), file(0o755), None, None]),
        vec!["/opt/My", "App/app", "--flag", "x"]
    );
    assert_eq!(
        rebuild_argv(line, &vec![file(0o644), None, None, file(0o700)]),
        vec!["/opt/My App/app --flag x"]
    );
    assert_eq!(rebuild_argv(line, &vec![None, None, None, None]), vec![line]);
    assert_eq!(rebuild_argv(line, &vec![]), vec![line]);
    assert_eq!(rebuild_argv(line, &vec![None, file(0o755)]), vec!["/opt/My App/app", "--flag", "x"]);
    assert_eq!(rebuild_argv("a b", &vec![None, None, file(0o755)]), vec!["a b"]);
    assert_eq!(rebuild_argv("", &vec![file(0o755)]), vec![""]);
}

#[test]
fn only_a_line_of_one_word_is_probed() {
    assert!(paths_to_probe("/usr/bin/vim\0-p\0").is_empty());
    assert_eq!(paths_to_probe("/usr/bin/vim -p\0"), vec!["/usr/bin/vim", "/usr/bin/vim -p"]);
    assert_eq!(paths_to_probe("vim"), vec!["vim"]);
    assert_eq!(
        process_command("/usr/bin/vim\0-p\0a b\0", &vec![file(0o755)]),
        vec!["/usr/bin/vim", "-p", "a b"]
    );
    assert_eq!(
        process_command("/usr/bin/vim -p\0", &vec![file(0o755), None]),
        vec!["/usr/bin/vim", "-p"]
    );
    assert_eq!(process_command("/usr/bin/vim -p\0", &vec![None, None]), vec!["/usr/bin/vim -p"]);
}

#[test]
fn the_first_child_is_the_first_word() {
    assert_eq!(first_child("1234 5678 ").as_deref(), Some("1234"));
    assert_eq!(first_child("  42\n").as_deref(), Some("42"));
    assert_eq!(first_child(""), None);
    assert_eq!(first_child(" \n"), None);
}

#[test]
fn a_terminal_works_in_the_directory_of_its_shell() {
    assert!(matches!(directory_source(false, "1234 "), DirectorySource::Owner));
    assert!(matches!(directory_source(true, ""), DirectorySource::Owner));
    match directory_source(true, "1234 5678 ") {
        DirectorySource::Child(pid) => assert_eq!(pid, "1234"),
        other => panic!("{:?}", other),
    }
}

#[test]
fn launches_are_planned_for_processes_with_a_command() {
    let processes = vec![
        Process { command: strings(&["/usr/bin/code", "--new-window", "."]), working_directory: "/src".to_string() },
        Process { command: vec![], working_directory: "/nowhere".to_string() },
        Process { command: strings(&["htop"]), working_directory: "/".to_string() },
        Process { command: strings(&["dir/"]), working_directory: "/".to_string() },
    ];
    let launches = plan_launches(&processes);
    assert_eq!(launches.len(), 3);
    assert_eq!(launches[0].program, "/usr/bin/code");
    assert_eq!(launches[0].args, vec!["--new-window", "."]);
    assert_eq!(launches[0].working_directory, "/src");
    assert_eq!(launches[0].process_name, "code");
    assert!(launches[0].log_file.starts_with("code-"));
    assert!(launches[0].log_file.ends_with(".log"));
    assert_eq!(launches[1].program, "htop");
    assert!(launches[1].args.is_empty());
    assert_eq!(launches[1].process_name, "htop");
    assert_eq!(launches[2].process_name, "");
    assert!(plan_launches(&vec![]).is_empty());
}

#[test]
fn log_files_are_named_after_process_and_time() {
    assert_eq!(
        log_file_name("code", "2024-05-01-12-30-00-123456789"),
        "code-2024-05-01-12-30-00-123456789.log"
    );
    assert_eq!(log_file_name("", ""), "-.log");
}

#[test]
fn a_log_file_is_named_after_the_moment() {
    let name = log_file_name_now("htop");
    let stamp = name.strip_prefix("htop-").unwrap().strip_suffix(".log").unwrap();
    let fields: Vec<&str> = stamp.split('-').collect();
    assert_eq!(fields.len(), 7);
    assert_eq!(fields[0].len(), 4);
    for field in &fields[1..6] {
        assert_eq!(field.len(), 2);
    }
    assert_eq!(fields[6].len(), 9);
    assert!(fields.iter().all(|f| f.chars().all(|c| c.is_ascii_digit())));
}

#[test]
fn a_record_needs_a_command() {
    assert!(Process::new(vec![], "/".to_string()).is_none());
    let p = Process::new(strings(&["vim", "x"]), "/home".to_string()).unwrap();
    assert_eq!(p.command, vec!["vim", "x"]);
    assert_eq!(p.working_directory, "/home");
}

#[test]
fn a_failed_window_drops_its_record_alone() {
    let records = vec![
        Process::new(strings(&["a"]), "/1".to_string()),
        None,
        Process::new(strings(&["b"]), "/2".to_string()),
        Process::new(vec![], "/3".to_string()),
    ];
    let kept = collect_processes(records);
    assert_eq!(kept.len(), 2);
    assert_eq!(kept[0].command, vec!["a"]);
    assert_eq!(kept[1].working_directory, "/2");
    assert!(collect_processes(vec![None, None]).is_empty());
}

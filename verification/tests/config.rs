use i3_revive::config::{contains_name, Config, SwallowRule, TerminalRevive};

#[test]
fn empty_config_holds_nothing() {
    let c = Config::empty();
    assert!(c.window_command_mappings.is_empty());
    assert!(c.terminal_command_mappings.is_empty());
    assert!(c.window_swallow_criteria.is_empty());
    assert!(c.terminal_allow_revive_processes.is_empty());
    assert!(c.terminal_revive_commands.is_empty());
    assert!(c.swallow_fields("Foo").is_none());
    assert!(c.terminal_command("Foo").is_none());
}

#[test]
fn names_are_found_in_lists() {
    let names = vec!["vim".to_string(), "htop".to_string()];
    assert!(contains_name(&names, "vim"));
    assert!(contains_name(&names, "htop"));
    assert!(!contains_name(&names, "vi"));
    assert!(!contains_name(&vec![], "vim"));
}

#[test]
fn the_first_rule_of_a_class_counts() {
    let mut c = Config::empty();
    c.window_swallow_criteria.push(SwallowRule {
        class: "Foo".to_string(),
        fields: vec!["title".to_string()],
    });
    c.window_swallow_criteria.push(SwallowRule {
        class: "Bar".to_string(),
        fields: vec!["class".to_string()],
    });
    c.window_swallow_criteria.push(SwallowRule { class: "Foo".to_string(), fields: vec![] });
    assert_eq!(c.swallow_fields("Foo"), Some(&vec!["title".to_string()]));
    assert_eq!(c.swallow_fields("Bar"), Some(&vec!["class".to_string()]));
    assert_eq!(c.swallow_fields("Baz"), None);
}

#[test]
fn terminal_commands_are_looked_up_by_class() {
    let mut c = Config::empty();
    c.terminal_revive_commands.push(TerminalRevive {
        class: "kitty".to_string(),
        command: "kitty {cmd}".to_string(),
    });
    c.terminal_revive_commands.push(TerminalRevive {
        class: "Alacritty".to_string(),
        command: "alacritty -e {cmd}".to_string(),
    });
    assert_eq!(c.terminal_command("Alacritty"), Some(&"alacritty -e {cmd}".to_string()));
    assert_eq!(c.terminal_command("kitty"), Some(&"kitty {cmd}".to_string()));
    assert_eq!(c.terminal_command("xterm"), None);
}

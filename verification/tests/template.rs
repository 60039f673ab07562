use i3_revive::template::{
    fill_template, interpolate, mapped_command, needs_argv, TemplateError,
};

fn strings(words: &[&str]) -> Vec<String> {
    words.iter().map(|w| w.to_string()).collect()
}

fn pair(before: &str, number: &str) -> (String, String) {
    (before.to_string(), number.to_string())
}

#[test]
fn placeholders_are_filled_with_quoted_words() {
    let argv = strings(&["/usr/bin/code", "my dir", "it's"]);
    assert_eq!(
        interpolate("code {1} --new {0}", &argv).unwrap(),
        "code 'my dir' --new /usr/bin/code"
    );
    assert_eq!(interpolate("{2}", &argv).unwrap(), "\"it's\"");
    assert_eq!(interpolate("{0}{0}", &argv).unwrap(), "/usr/bin/code/usr/bin/code");
    assert_eq!(interpolate("plain", &argv).unwrap(), "plain");
    assert_eq!(interpolate("", &argv).unwrap(), "");
}

#[test]
fn a_placeholder_without_a_word_leaves_nothing() {
    let argv = strings(&["vim"]);
    assert_eq!(interpolate("vim {1} {7}!", &argv).unwrap(), "vim  !");
    assert_eq!(interpolate("{0}", &vec![]).unwrap(), "");
}

#[test]
fn an_empty_word_is_quoted_as_such() {
    assert_eq!(interpolate("x {1}", &strings(&["a", ""])).unwrap(), "x ''");
}

#[test]
fn what_is_no_placeholder_stays() {
    let argv = strings(&["vim"]);
    assert_eq!(interpolate("{} {a} {-1} { 0 } {0", &argv).unwrap(), "{} {a} {-1} { 0 } {0");
    assert_eq!(interpolate("{{0}}", &argv).unwrap(), "{vim}");
}

#[test]
fn a_number_too_large_is_an_error() {
    let argv = strings(&["vim"]);
    assert_eq!(
        interpolate("{99999999999999999999999999}", &argv),
        Err(TemplateError::BadIndex)
    );
    assert_eq!(interpolate("{0} {٣}", &argv), Err(TemplateError::BadIndex));
}

#[test]
fn a_word_with_a_nul_cannot_be_quoted() {
    let argv = strings(&["vim", "a\0b"]);
    assert_eq!(interpolate("{0} {1}", &argv), Err(TemplateError::Unquotable));
    assert_eq!(interpolate("{0}", &argv).unwrap(), "vim");
}

#[test]
fn the_first_error_decides() {
    let argv = strings(&["a\0"]);
    assert_eq!(interpolate("{0} {99999999999999999999999999}", &argv), Err(TemplateError::Unquotable));
    assert_eq!(interpolate("{99999999999999999999999999} {0}", &argv), Err(TemplateError::BadIndex));
}

#[test]
fn a_cut_template_is_put_together() {
    let argv = strings(&["prog", "arg one"]);
    assert_eq!(
        fill_template(&vec![pair("run ", "1"), pair(" with ", "0")], " now", &argv).unwrap(),
        "run 'arg one' with prog now"
    );
    assert_eq!(fill_template(&vec![], "tail", &argv).unwrap(), "tail");
    assert_eq!(fill_template(&vec![pair("a", "+1")], "", &argv).unwrap(), "a'arg one'");
    assert_eq!(fill_template(&vec![pair("a", "x")], "", &argv), Err(TemplateError::BadIndex));
    assert_eq!(fill_template(&vec![pair("a", "")], "", &argv), Err(TemplateError::BadIndex));
}

#[test]
fn placeholders_are_noticed() {
    assert!(needs_argv("code {0}"));
    assert!(needs_argv("{12}"));
    assert!(!needs_argv("code"));
    assert!(!needs_argv("code {}"));
    assert!(!needs_argv("code {a}"));
    assert!(!needs_argv(""));
}

#[test]
fn a_mapped_command_is_split_into_words() {
    let argv = strings(&["/usr/bin/code", "my dir"]);
    assert_eq!(
        mapped_command("code --new-window {1}", Some(&argv)).unwrap(),
        Some(strings(&["code", "--new-window", "my dir"]))
    );
    assert_eq!(
        mapped_command("firefox -P 'my profile'", Some(&argv)).unwrap(),
        Some(strings(&["firefox", "-P", "my profile"]))
    );
    assert_eq!(
        mapped_command("firefox -P work", None).unwrap(),
        Some(strings(&["firefox", "-P", "work"]))
    );
    assert_eq!(mapped_command("", None).unwrap(), Some(vec![]));
}

#[test]
fn a_template_is_used_as_it_is_when_the_command_is_unknown() {
    assert_eq!(
        mapped_command("code {1}", None).unwrap(),
        Some(strings(&["code", "{1}"]))
    );
}

#[test]
fn a_command_that_cannot_be_split_is_not_used() {
    assert_eq!(mapped_command("firefox 'unclosed", None).unwrap(), None);
    assert_eq!(mapped_command("x \\", None).unwrap(), None);
    assert_eq!(
        mapped_command("{0} 'unclosed", Some(&strings(&["a"]))).unwrap(),
        None
    );
    assert_eq!(
        mapped_command("{99999999999999999999999999}", Some(&strings(&["a"]))),
        Err(TemplateError::BadIndex)
    );
}

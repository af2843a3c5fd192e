use quicktool::config::ClassConfig;

fn fresh_config() -> ClassConfig {
    ClassConfig::new("cs1091").expect("cs1091 is a valid class code")
}

#[test]
fn load_overlay_scenario() {
    let mut config = fresh_config();
    config.load_bash_config(
        "course_account=cs1091\n# comment\nexport FOO=bar\npublic_html_session_directory='/web/cs1091'",
    );
    assert_eq!(config.get_custom_config("course_account"), Some(&"cs1091".to_string()));
    assert_eq!(
        config.get_custom_config("public_html_session_directory"),
        Some(&"/web/cs1091".to_string())
    );
    assert_eq!(config.get_custom_config("FOO"), None);
}

#[test]
fn later_assignment_wins() {
    let mut config = fresh_config();
    config.load_bash_config("a=1\nb=x\na=2\na=3");
    assert_eq!(config.get_custom_config("a"), Some(&"3".to_string()));
    assert_eq!(config.get_custom_config("b"), Some(&"x".to_string()));
}

#[test]
fn loading_twice_is_idempotent() {
    let text = "a=1\n# note\nb='two'\na=3";
    let mut once = fresh_config();
    once.load_bash_config(text);
    let mut twice = fresh_config();
    twice.load_bash_config(text);
    twice.load_bash_config(text);
    for key in ["a", "b", "absent"] {
        assert_eq!(once.get_custom_config(key), twice.get_custom_config(key));
    }
    assert_eq!(twice.get_custom_config("a"), Some(&"3".to_string()));
    assert_eq!(twice.get_custom_config("b"), Some(&"two".to_string()));
}

#[test]
fn skipped_lines_add_no_key() {
    let mut config = fresh_config();
    config.load_bash_config("# c=1\nexport d=2\nunset e\n\n   \n#!/bin/sh\n  # indented=9");
    for key in ["c", "d", "e", "", "indented"] {
        assert_eq!(config.get_custom_config(key), None);
    }
}

#[test]
fn quoting_and_trimming() {
    let mut config = fresh_config();
    config.load_bash_config("a = \"double\" \nb= 'single'\nc=un'quoted\nd='\ne=''\nf= spaced out ");
    assert_eq!(config.get_custom_config("a"), Some(&"double".to_string()));
    assert_eq!(config.get_custom_config("b"), Some(&"single".to_string()));
    assert_eq!(config.get_custom_config("c"), Some(&"un'quoted".to_string()));
    // A lone quote is not a wrapping pair: the value stays as it is.
    assert_eq!(config.get_custom_config("d"), Some(&"'".to_string()));
    assert_eq!(config.get_custom_config("e"), Some(&"".to_string()));
    assert_eq!(config.get_custom_config("f"), Some(&"spaced out".to_string()));
}

#[test]
fn unrecognized_lines_are_ignored() {
    let mut config = fresh_config();
    config.load_bash_config("just some words\nif true; then\nfi\nkey=value");
    assert_eq!(config.get_custom_config("just some words"), None);
    assert_eq!(config.get_custom_config("key"), Some(&"value".to_string()));
}

#[test]
fn splits_on_first_equals_only() {
    let mut config = fresh_config();
    config.load_bash_config("k=a=b=c");
    assert_eq!(config.get_custom_config("k"), Some(&"a=b=c".to_string()));
}

#[test]
fn later_load_overwrites_earlier_load() {
    let mut config = fresh_config();
    config.load_bash_config("a=1\nb=2");
    config.load_bash_config("a=9");
    assert_eq!(config.get_custom_config("a"), Some(&"9".to_string()));
    assert_eq!(config.get_custom_config("b"), Some(&"2".to_string()));
}

#[test]
fn crlf_lines_are_handled() {
    let mut config = fresh_config();
    config.load_bash_config("a=1\r\nb='x y'\r\n# c=2\r\n");
    assert_eq!(config.get_custom_config("a"), Some(&"1".to_string()));
    assert_eq!(config.get_custom_config("b"), Some(&"x y".to_string()));
    assert_eq!(config.get_custom_config("c"), None);
}

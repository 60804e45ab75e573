use branchify::{clean_branch_name, get_branch_name, get_prefix, run, truncate_branch_name};
use branchify::{Config, Error};

#[test]
fn test_prefix_with_prepend_and_type() {
    let args: Vec<String> = vec![
        String::from("-p"),
        String::from("fx"),
        String::from("-t"),
        String::from("zammo"),
    ];
    let config = Config::new(&args).unwrap();
    assert_eq!(get_prefix(config), "fx/zammo");
}

#[test]
fn test_prefix_default_type_without_prepend() {
    let args: Vec<String> = vec![];
    let config = Config::new(&args).unwrap();
    assert_eq!(get_prefix(config), "feature");
}

#[test]
fn test_prefix_long_flag_forms() {
    let args: Vec<String> = vec![
        String::from("--prepend"),
        String::from("team"),
        String::from("--type"),
        String::from("hotfix"),
    ];
    let config = Config::new(&args).unwrap();
    assert_eq!(get_prefix(config), "team/hotfix");
}

#[test]
fn test_config_missing_type_value() {
    let args: Vec<String> = vec![String::from("-t")];
    assert!(matches!(Config::new(&args), Err(Error::MissingFlagValue)));
}

#[test]
fn test_config_missing_prepend_value() {
    let args: Vec<String> = vec![String::from("x"), String::from("--prepend")];
    assert!(matches!(Config::new(&args), Err(Error::MissingFlagValue)));
}

#[test]
fn test_config_captures_next_token_even_if_flag_like() {
    let args: Vec<String> = vec![
        String::from("-t"),
        String::from("-p"),
        String::from("fix"),
    ];
    let config = Config::new(&args).unwrap();
    assert_eq!(config.branch_type, "-p");
    assert_eq!(config.prepended_value, "fix");
}

#[test]
fn test_config_later_flag_overrides_earlier() {
    let args: Vec<String> = vec![
        String::from("-t"),
        String::from("alpha"),
        String::from("-t"),
        String::from("beta"),
    ];
    let config = Config::new(&args).unwrap();
    assert_eq!(config.branch_type, "beta");
    assert_eq!(config.prepended_value, "");
}

#[test]
fn test_run_without_tab_is_invalid_input() {
    let args: Vec<String> = vec![];
    let config = Config::new(&args).unwrap();
    assert_eq!(
        run(config, "a line without any separator"),
        Err(Error::InvalidInputFormat)
    );
}

#[test]
fn test_run_trims_surrounding_whitespace() {
    let args: Vec<String> = vec![];
    let config = Config::new(&args).unwrap();
    assert_eq!(
        run(config, "  APM-1\tTitle here \n").unwrap(),
        "feature/APM-1-title-here"
    );
}

#[test]
fn test_get_branch_name_lowercases_and_hyphenates() {
    let args: Vec<String> = vec![];
    let config = Config::new(&args).unwrap();
    assert_eq!(
        get_branch_name(config, "X-1", "Hello World/Again"),
        "feature/X-1-hello-world-again"
    );
}

#[test]
fn test_clean_is_identity_on_valid_name() {
    let name = String::from("feature/APM-123-do-something");
    assert_eq!(clean_branch_name(name.clone()), name);
}

#[test]
fn test_clean_of_clean_is_clean() {
    let once = clean_branch_name(String::from("fx//APM-9\tweird..input.lock*?"));
    let twice = clean_branch_name(once.clone());
    assert_eq!(twice, once);
}

#[test]
fn test_clean_caps_length_at_forty() {
    let long = String::from("feature/APM-123-a-very-long-title-indeed-going-on-and-on");
    let cleaned = clean_branch_name(long);
    assert!(cleaned.len() <= 40);
    assert_eq!(cleaned, "feature/APM-123-a-very-long-title-indeed");
}

#[test]
fn test_clean_removes_forbidden_characters() {
    assert_eq!(clean_branch_name(String::from("a@b*c?d[e]f(g)h^i~j=k<l>m")), "abcdefghijklm");
    assert_eq!(clean_branch_name(String::from("say-`hi`-now-\\ok")), "say-hi-now-ok");
}

#[test]
fn test_clean_removes_forbidden_sequences() {
    assert_eq!(clean_branch_name(String::from("th..at")), "that");
    assert_eq!(clean_branch_name(String::from("he.locklps")), "helps");
    assert_eq!(clean_branch_name(String::from("x@{y")), "xy");
}

#[test]
fn test_clean_empty_string() {
    assert_eq!(clean_branch_name(String::from("")), "");
}

#[test]
fn test_clean_strips_single_leading_slash() {
    assert_eq!(clean_branch_name(String::from("/abc")), "abc");
}

#[test]
fn test_clean_collapses_separators_once_only() {
    assert_eq!(clean_branch_name(String::from("a//b")), "a/b");
    assert_eq!(clean_branch_name(String::from("a/.b")), "a/b");
    // The separator collapse runs once, not to a fixpoint: five slashes leave
    // two behind, and the trailing strip removes only the outermost one.
    assert_eq!(clean_branch_name(String::from("a/////")), "a//");
}

#[test]
fn test_clean_collapses_hyphen_runs() {
    assert_eq!(clean_branch_name(String::from("a--b---c")), "a-b-c");
}

#[test]
fn test_clean_strips_one_trailing_character_only() {
    assert_eq!(clean_branch_name(String::from("abc-")), "abc");
    assert_eq!(clean_branch_name(String::from("abc.")), "abc");
    assert_eq!(clean_branch_name(String::from("abc/")), "abc");
    // Only the single outermost trailing character is stripped.
    assert_eq!(clean_branch_name(String::from("abc-.")), "abc-");
}

#[test]
fn test_truncate_branch_name() {
    assert_eq!(truncate_branch_name(String::from("short")), "short");
    let fifty = "abcdefghij".repeat(5);
    assert_eq!(truncate_branch_name(fifty), "abcdefghij".repeat(4));
}

#[test]
fn test_run_trims_unicode_whitespace() {
    let args: Vec<String> = vec![];
    let config = Config::new(&args).unwrap();
    assert_eq!(
        run(config, "\u{2003}APM-1\tTitle here\u{a0}\n").unwrap(),
        "feature/APM-1-title-here"
    );
}

#[test]
fn test_run_tab_inside_trailing_whitespace_is_invalid() {
    let args: Vec<String> = vec![];
    let config = Config::new(&args).unwrap();
    // The no-break space and the tab before it are both trimmed away, so no
    // separator is left.
    assert_eq!(run(config, "abc\t\u{a0}"), Err(Error::InvalidInputFormat));
}

#[test]
fn test_get_branch_name_lowercases_unicode() {
    let args: Vec<String> = vec![];
    let config = Config::new(&args).unwrap();
    assert_eq!(
        get_branch_name(config, "X-1", "\u{c4}ra \u{d6}fter"),
        "feature/X-1-\u{e4}ra-\u{f6}fter"
    );
}

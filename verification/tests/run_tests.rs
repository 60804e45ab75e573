use branchify::{run, Config};

#[test]
fn test_run() {
    let args: Vec<String> = vec![
        String::from("-p"),
        String::from("fx"),
        String::from("-t"),
        String::from("zammo"),
    ];
    let config = Config::new(&args).unwrap();
    let expected = "fx/zammo/APM-123-do-something-that-helps";
    assert_eq!(
        run(config, "APM-123\tDo something that helps the product").unwrap(),
        expected
    );
}

#[test]
fn test_run_with_long_branch_name() {
    let args: Vec<String> = vec![
        String::from("-p"),
        String::from("fx"),
        String::from("-t"),
        String::from("zammo"),
    ];
    let config = Config::new(&args).unwrap();
    let expected = "fx/zammo/APM-123-do-something-that-helps";
    assert_eq!(
        run(
            config,
            "APM-123\tDo something that helps the product a whole whole lot"
        )
        .unwrap(),
        expected
    );
}

#[test]
fn test_run_without_args() {
    let args: Vec<String> = vec![];
    let config = Config::new(&args).unwrap();
    let expected = "feature/APM-123-do-something-that-helps";
    assert_eq!(
        run(config, "APM-123\tDo something that helps the product").unwrap(),
        expected
    );
}

#[test]
fn test_run_with_type_arg_only() {
    let args: Vec<String> = vec![String::from("-t"), String::from("hotfix")];
    let config = Config::new(&args).unwrap();
    let expected = "hotfix/APM-123-do-something-that-helps-t";
    assert_eq!(
        run(config, "APM-123\tDo something that helps the product").unwrap(),
        expected
    );
}

#[test]
fn test_run_with_prepend_arg_only() {
    let args: Vec<String> = vec![String::from("-p"), String::from("adam")];
    let config = Config::new(&args).unwrap();
    let expected = "adam/feature/APM-123-do-something-that-h";
    assert_eq!(
        run(config, "APM-123\tDo something that helps the product").unwrap(),
        expected
    );
}

#[test]
fn test_run_with_non_word_chars() {
    let args: Vec<String> = vec![];
    let config = Config::new(&args).unwrap();
    let expected = "feature/APM-123-do-somethin-that-_";
    assert_eq!(
        run(
            config,
            "APM-123\tDo ==> som'ethin' -> that -- _\"helps\"_ -- the product"
        )
        .unwrap(),
        expected
    );
}

#[test]
fn test_run_with_other_unsupported_git_patterns() {
    // cannot end with .
    // cannot contain ..
    // cannot contain .lock
    // removes @
    let args: Vec<String> = vec![];
    let config = Config::new(&args).unwrap();
    let expected = "feature/APM-123-do-something-that-helps";
    assert_eq!(
        run(config, "APM-123\tDo somethi@ng th..at he.locklps.").unwrap(),
        expected
    );
}

#[test]
fn test_run_with_yet_other_unsupported_git_patterns() {
    // cannot end with /
    // cannot contain //
    // allows .
    let args: Vec<String> = vec![];
    let config = Config::new(&args).unwrap();
    let expected = "feature/APM-123-do-some-thing-v9.1.1";
    assert_eq!(
        run(config, "APM-123\tDo some//thing v9.1.1/").unwrap(),
        expected
    );
}

#[test]
fn test_run_with_back_ticks() {
    // cannot end with /
    // cannot contain //
    // allows .
    let args: Vec<String> = vec![];
    let config = Config::new(&args).unwrap();
    let expected = "feature/APM-123-do-something-v9.1.1";
    assert_eq!(
        run(config, "APM-123\tDo `something` v9.1.1/").unwrap(),
        expected
    );
}

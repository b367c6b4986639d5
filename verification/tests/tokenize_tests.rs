use rexpect::spawn_args;
use rexpect::tokenize::tokenize_command;

#[test]
fn test_tokenize_command() {
    let res = tokenize_command("prog arg1 arg2");
    assert_eq!(vec!["prog", "arg1", "arg2"], res);

    let res = tokenize_command("prog -k=v");
    assert_eq!(vec!["prog", "-k=v"], res);

    let res = tokenize_command("prog 'my text'");
    assert_eq!(vec!["prog", "'my text'"], res);

    let res = tokenize_command(r#"prog "my text""#);
    assert_eq!(vec!["prog", r#""my text""#], res);
}

#[test]
fn test_tokenize_unclosed_quote() {
    // A quote that never closes is skipped and the scan resumes after it.
    let res = tokenize_command(r#"prog "my text"#);
    assert_eq!(vec!["prog", "my", "text"], res);
}

#[test]
fn test_tokenize_empty_quotes() {
    // Empty quotes form no token: neither quote can start a well-formed
    // group, so both are skipped.
    let res = tokenize_command(r#"a "" b"#);
    assert_eq!(vec!["a", "b"], res);
}

#[test]
fn test_tokenize_empty_and_spaces() {
    assert!(tokenize_command("").is_empty());
    assert!(tokenize_command("   ").is_empty());
}

#[test]
fn test_tokenize_quote_stops_plain_run() {
    let res = tokenize_command("-k='v'");
    assert_eq!(vec!["-k=", "'v'"], res);
}

#[test]
fn test_spawn_args_splits() {
    let (prog, args) = spawn_args("cat -n file").unwrap();
    assert_eq!("cat", prog);
    assert_eq!(vec!["-n", "file"], args);
}

#[test]
fn test_spawn_args_single() {
    let (prog, args) = spawn_args("cat").unwrap();
    assert_eq!("cat", prog);
    assert!(args.is_empty());
}

#[test]
fn test_spawn_args_blank_is_empty_program() {
    assert!(spawn_args("  ").is_err());
}

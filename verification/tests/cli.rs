use alloy::cli::CliArgs;

fn args(v: &[&str]) -> Vec<String> {
    v.iter().map(|s| s.to_string()).collect()
}

#[test]
fn no_args_gives_none_file() {
    let cli = CliArgs::parse_from(&args(&[])).unwrap();
    assert!(cli.file.is_none());
}

#[test]
fn one_file_arg_is_captured() {
    let cli = CliArgs::parse_from(&args(&["notes.md"])).unwrap();
    assert_eq!(cli.file, Some("notes.md".to_string()));
}

#[test]
fn absolute_path_is_captured() {
    let cli = CliArgs::parse_from(&args(&["/home/user/notes.md"])).unwrap();
    assert_eq!(cli.file, Some("/home/user/notes.md".to_string()));
}

#[test]
fn options_and_second_files_are_refused() {
    let e = CliArgs::parse_from(&args(&["--help"])).unwrap_err();
    assert!(e.message().contains("--help"), "{}", e.message());
    let e = CliArgs::parse_from(&args(&["a.md", "b.md"])).unwrap_err();
    assert!(!e.message().is_empty());
    // The first error decides.
    let e = CliArgs::parse_from(&args(&["-x", "a.md", "b.md"])).unwrap_err();
    assert!(e.message().contains("-x"), "{}", e.message());
}

use minigrep::run_search;
use minigrep::Config;
use minigrep::ErrorKind;

fn args(list: &[&str]) -> Vec<String> {
    list.iter().map(|s| s.to_string()).collect()
}

#[test]
fn build_takes_query_and_file_path() {
    let config = Config::build(&args(&["prog", "needle", "hay.txt"]), false).unwrap();
    assert_eq!("needle", config.query);
    assert_eq!("hay.txt", config.file_path);
    assert!(!config.ignore_case);
}

#[test]
fn build_keeps_the_case_toggle() {
    let config = Config::build(&args(&["prog", "q", "f"]), true).unwrap();
    assert!(config.ignore_case);
}

#[test]
fn build_ignores_extra_arguments() {
    let config = Config::build(&args(&["prog", "q", "f", "extra"]), false).unwrap();
    assert_eq!("q", config.query);
    assert_eq!("f", config.file_path);
}

#[test]
fn build_rejects_too_few_arguments() {
    assert_eq!(
        Err(ErrorKind::Argument),
        Config::build(&args(&["prog", "only-query"]), false).map(|c| c.query)
    );
    assert_eq!(
        Err(ErrorKind::Argument),
        Config::build(&args(&["prog"]), false).map(|c| c.query)
    );
    assert_eq!(
        Err(ErrorKind::Argument),
        Config::build(&args(&[]), true).map(|c| c.query)
    );
}

#[test]
fn error_kinds_have_distinct_messages() {
    assert_eq!("not enough arguments", ErrorKind::Argument.message());
    assert_eq!("could not read the file", ErrorKind::Io.message());
}

#[test]
fn run_search_selects_the_mode() {
    let contents = "Rust:\nsafe, fast, productive.\nPick three.\nTrust me.";
    let sensitive = Config::build(&args(&["prog", "rUsT", "f"]), false).unwrap();
    let insensitive = Config::build(&args(&["prog", "rUsT", "f"]), true).unwrap();
    assert_eq!(Vec::<&str>::new(), run_search(&sensitive, contents));
    assert_eq!(vec!["Rust:", "Trust me."], run_search(&insensitive, contents));
}

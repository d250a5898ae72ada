use minigrep::search;
use minigrep::search_insensitive;

#[test]
fn case_sensitive() {
    let query = "duct";
    let contents = "\
Rust:
safe, fast, productive.
Pick three.
Duct tape.";

    assert_eq!(vec!["safe, fast, productive."], search(query, contents));
}

#[test]
fn case_insensitive() {
    let query = "rUsT";
    let contents = "\
Rust:
safe, fast, productive.
Pick three.
Trust me.";

    assert_eq!(
        vec!["Rust:", "Trust me."],
        search_insensitive(query, contents)
    );
}

#[test]
fn empty_query_returns_every_line_in_order() {
    let contents = "first\nsecond\nthird";
    assert_eq!(vec!["first", "second", "third"], search("", contents));
}

#[test]
fn empty_query_insensitive_returns_every_line() {
    let contents = "first\nsecond\nthird";
    assert_eq!(
        vec!["first", "second", "third"],
        search_insensitive("", contents)
    );
}

#[test]
fn absent_query_yields_empty_result() {
    let contents = "Rust:\nsafe, fast, productive.\nPick three.";
    assert_eq!(Vec::<&str>::new(), search("zzz", contents));
    assert_eq!(Vec::<&str>::new(), search_insensitive("zzz", contents));
}

#[test]
fn empty_document_yields_empty_result() {
    assert_eq!(Vec::<&str>::new(), search("anything", ""));
    assert_eq!(Vec::<&str>::new(), search("", ""));
    assert_eq!(Vec::<&str>::new(), search_insensitive("anything", ""));
}

#[test]
fn query_longer_than_every_line_yields_empty_result() {
    let contents = "ab\ncd";
    assert_eq!(Vec::<&str>::new(), search("abcde", contents));
}

#[test]
fn search_twice_returns_identical_results() {
    let query = "st";
    let contents = "Rust:\nsafe, fast, productive.\nPick three.\nTrust me.";
    assert_eq!(search(query, contents), search(query, contents));
    assert_eq!(
        search_insensitive(query, contents),
        search_insensitive(query, contents)
    );
}

#[test]
fn sensitive_results_within_insensitive_results_of_folded_query() {
    let query = "Rust";
    let contents = "Rust:\nrustic\nTrust me.\nno match";
    let sensitive = search(query, contents);
    let insensitive = search_insensitive(&query.to_lowercase(), contents);
    // every case-sensitive match appears in the case-insensitive result, in order
    let mut at = 0;
    for line in &sensitive {
        let pos = insensitive[at..]
            .iter()
            .position(|l| l == line)
            .expect("sensitive match missing from insensitive results");
        at += pos + 1;
    }
    assert_eq!(vec!["Rust:"], sensitive);
    assert_eq!(vec!["Rust:", "rustic", "Trust me."], insensitive);
}

#[test]
fn results_preserve_document_order() {
    let contents = "one match\ntwo\nanother match\nthree\nlast match";
    assert_eq!(
        vec!["one match", "another match", "last match"],
        search("match", contents)
    );
}

#[test]
fn crlf_line_endings_are_stripped() {
    let contents = "Rust:\r\nsafe, fast, productive.\r\nPick three.";
    assert_eq!(vec!["safe, fast, productive."], search("duct", contents));
}

#[test]
fn lone_carriage_return_is_ordinary_text() {
    let contents = "odd\rline\nplain";
    assert_eq!(vec!["odd\rline"], search("\r", contents));
}

#[test]
fn trailing_newline_adds_no_empty_line() {
    let contents = "a\nb\n";
    assert_eq!(vec!["a", "b"], search("", contents));
}

#[test]
fn match_can_occur_anywhere_in_the_line() {
    let contents = "prefix\nmid fix end\nsuffix";
    assert_eq!(vec!["prefix", "mid fix end", "suffix"], search("fix", contents));
}

#[test]
fn insensitive_folds_both_sides() {
    assert_eq!(vec!["ABC"], search_insensitive("abc", "ABC"));
    assert_eq!(vec!["abc"], search_insensitive("ABC", "abc"));
    // the sensitive matcher folds nothing
    assert_eq!(Vec::<&str>::new(), search("abc", "ABC"));
}

#[test]
fn insensitive_results_keep_original_case() {
    // folded text is used only for the comparison, never returned
    let contents = "MiXeD CaSe LiNe\nother";
    assert_eq!(vec!["MiXeD CaSe LiNe"], search_insensitive("mixed", contents));
}

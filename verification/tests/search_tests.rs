use grep_rust::contains;
use grep_rust::search;
use grep_rust::split_lines;

#[test]
fn case_sensitive() {
    let query = "duct";
    let contents = "\
Rust:
safe, fast, productive.
Pick three.
Duct tape.";

    assert_eq!(vec![(1, "safe, fast, productive.")], search(query, contents, true));
}

#[test]
fn case_insensitive() {
    let query = "rUsT";
    let contents = "\
Rust:
safe, fast, productive.
Pick three.
Trust me.";

    assert_eq!(
        vec![(0, "Rust:"), (3, "Trust me.")],
        search(query, contents, false)
    );
}

#[test]
fn empty_query_matches_every_line() {
    let contents = "alpha\nbeta\ngamma";
    let expected = vec![(0, "alpha"), (1, "beta"), (2, "gamma")];
    assert_eq!(expected, search("", contents, true));
    assert_eq!(expected, search("", contents, false));
}

#[test]
fn empty_content_yields_no_matches() {
    assert_eq!(search("anything", "", true), vec![]);
    assert_eq!(search("anything", "", false), vec![]);
    assert_eq!(search("", "", true), vec![]);
}

#[test]
fn absent_query_matches_nothing() {
    assert_eq!(search("zzz", "alpha\nbeta", true), vec![]);
}

#[test]
fn query_longer_than_any_line_matches_nothing() {
    assert_eq!(search("alphabetical", "alpha\nbeta", true), vec![]);
}

#[test]
fn case_sensitive_mode_rejects_other_case() {
    assert_eq!(search("RUST", "rust is nice", true), vec![]);
    assert_eq!(search("RUST", "rust is nice", false), vec![(0, "rust is nice")]);
}

#[test]
fn case_insensitive_mode_folds_non_ascii_letters() {
    assert_eq!(search("\u{c9}", "caf\u{e9}", false), vec![(0, "caf\u{e9}")]);
    assert_eq!(search("\u{c9}", "caf\u{e9}", true), vec![]);
    assert_eq!(search("stra\u{df}e", "STRA\u{df}E", false), vec![(0, "STRA\u{df}E")]);
}

#[test]
fn trailing_newline_adds_no_line() {
    assert_eq!(search("", "x\n", true), vec![(0, "x")]);
}

#[test]
fn crlf_terminators_are_stripped() {
    assert_eq!(search("", "one\r\ntwo\r\n", true), vec![(0, "one"), (1, "two")]);
    assert_eq!(search("two", "one\r\ntwo\r\n", true), vec![(1, "two")]);
}

#[test]
fn bare_carriage_return_is_kept() {
    assert_eq!(search("", "one\r", true), vec![(0, "one\r")]);
}

#[test]
fn consecutive_newlines_give_empty_lines() {
    assert_eq!(search("", "\n\n", true), vec![(0, ""), (1, "")]);
}

#[test]
fn matches_keep_ascending_order() {
    let contents = "ab\ncd\nab\nef\nab";
    assert_eq!(search("ab", contents, true), vec![(0, "ab"), (2, "ab"), (4, "ab")]);
}

#[test]
fn repeated_search_is_identical() {
    let contents = "Rust:\nsafe, fast, productive.\nPick three.";
    let first = search("t", contents, false);
    let second = search("t", contents, false);
    assert_eq!(first, second);
}

#[test]
fn containment_is_plain_substring_search() {
    let hay: Vec<char> = "hello".chars().collect();
    let present: Vec<char> = "ell".chars().collect();
    let absent: Vec<char> = "elo".chars().collect();
    let empty: Vec<char> = Vec::new();
    assert!(contains(&hay, &present));
    assert!(!contains(&hay, &absent));
    assert!(contains(&hay, &empty));
    assert!(contains(&empty, &empty));
    assert!(!contains(&empty, &present));
}

#[test]
fn split_lines_follows_newline_conventions() {
    assert_eq!(split_lines(""), Vec::<&str>::new());
    assert_eq!(split_lines("a"), vec!["a"]);
    assert_eq!(split_lines("a\nb"), vec!["a", "b"]);
    assert_eq!(split_lines("a\nb\n"), vec!["a", "b"]);
    assert_eq!(split_lines("a\r\nb"), vec!["a", "b"]);
}

use grep_rust::render_match;
use grep_rust::search;

#[test]
fn line_numbers_are_one_based() {
    assert_eq!(render_match(0, "hello"), "1: hello");
}

#[test]
fn multi_digit_numbers_render_in_decimal() {
    assert_eq!(render_match(8, "x"), "9: x");
    assert_eq!(render_match(9, "x"), "10: x");
    assert_eq!(render_match(41, "x"), "42: x");
    assert_eq!(render_match(122, "x"), "123: x");
    assert_eq!(render_match(9999, ""), "10000: ");
}

#[test]
fn rendering_keeps_the_line_text() {
    assert_eq!(render_match(1, "safe, fast, productive."), "2: safe, fast, productive.");
}

#[test]
fn matches_render_as_printed_output() {
    let contents = "Rust:\nsafe, fast, productive.\nPick three.\nDuct tape.";
    let results = search("duct", contents, true);
    let printed: Vec<String> = results.iter().map(|(n, line)| render_match(*n, line)).collect();
    assert_eq!(printed, vec!["2: safe, fast, productive."]);
}

use mini_grep::{search, search_case_insensitive, search_with};

const THREE_LINES: &str = "\nRust:\nsafe, fast, productive\nPick three.";
const FOUR_LINES: &str = "\nRust:\nsafe, fast, productive\nPick three.\nTrust me.";

#[test]
fn case_sensitive_one_result() {
    assert_eq!(search_with("duct", THREE_LINES, true), vec!["safe, fast, productive"]);
}

#[test]
fn case_sensitive_two_results() {
    assert_eq!(search_with("st", THREE_LINES, true), vec!["Rust:", "safe, fast, productive"]);
}

#[test]
fn case_insensitive_mixed_case_pattern() {
    assert_eq!(search_with("rUsT", FOUR_LINES, false), vec!["Rust:", "Trust me."]);
}

#[test]
fn case_sensitive_skips_other_case() {
    assert_eq!(search_with("rUsT", FOUR_LINES, true), Vec::<&str>::new());
    assert_eq!(search_with("rust", FOUR_LINES, true), vec!["Trust me."]);
}

#[test]
fn absent_pattern_finds_nothing() {
    assert!(search_with("nothing", THREE_LINES, true).is_empty());
    assert!(search_with("nothing", THREE_LINES, false).is_empty());
    assert!(search_with("nothing", FOUR_LINES, true).is_empty());
    assert!(search_with("nothing", FOUR_LINES, false).is_empty());
}

#[test]
fn search_takes_owned_strings() {
    let pattern = String::from("duct");
    let contents = String::from(THREE_LINES);
    assert_eq!(search(&pattern, &contents), vec!["safe, fast, productive"]);
    let pattern = String::from("RUST");
    assert_eq!(search(&pattern, &contents), Vec::<&str>::new());
}

#[test]
fn search_case_insensitive_takes_owned_strings() {
    let pattern = String::from("rUsT");
    let contents = String::from(FOUR_LINES);
    assert_eq!(search_case_insensitive(&pattern, &contents), vec!["Rust:", "Trust me."]);
}

#[test]
fn line_with_pattern_is_found() {
    let text = "alpha\nbeta gamma\ndelta";
    for line in text.lines() {
        for start in 0..line.len() {
            for end in start..=line.len() {
                let pattern = &line[start..end];
                assert!(search_with(pattern, text, true).contains(&line));
            }
        }
    }
}

#[test]
fn empty_pattern_finds_every_line() {
    assert_eq!(
        search_with("", FOUR_LINES, true),
        vec!["", "Rust:", "safe, fast, productive", "Pick three.", "Trust me."]
    );
    assert_eq!(search_with("", "a\n\nb\n", true), vec!["a", "", "b"]);
    assert_eq!(search_with("", "a\n\nb\n", false), vec!["a", "", "b"]);
}

#[test]
fn case_of_pattern_is_left_aside() {
    let upper = search_with("RUST", FOUR_LINES, false);
    let lower = search_with("rust", FOUR_LINES, false);
    let mixed = search_with("RuSt", FOUR_LINES, false);
    assert_eq!(upper, vec!["Rust:", "Trust me."]);
    assert_eq!(upper, lower);
    assert_eq!(lower, mixed);
}

#[test]
fn case_of_line_is_left_aside() {
    assert_eq!(search_with("pick", "PICK one\npick two\nPiCk three\npack", false), vec![
        "PICK one",
        "pick two",
        "PiCk three"
    ]);
}

#[test]
fn lowering_reaches_beyond_ascii() {
    let text = "\u{c9}COLE\n\u{e9}cole\nschool";
    assert_eq!(search_with("\u{e9}COLE", text, false), vec!["\u{c9}COLE", "\u{e9}cole"]);
    assert_eq!(search_with("\u{e9}cole", text, true), vec!["\u{e9}cole"]);
}

#[test]
fn order_and_repeats_are_kept() {
    let text = "b1\na\nb2\nb1\nc\nb1\nb0";
    assert_eq!(search_with("b", text, true), vec!["b1", "b2", "b1", "b1", "b0"]);
    assert_eq!(search_with("B", text, false), vec!["b1", "b2", "b1", "b1", "b0"]);
}

#[test]
fn empty_text_gives_nothing() {
    assert!(search_with("a", "", true).is_empty());
    assert!(search_with("a", "", false).is_empty());
    assert!(search_with("", "", true).is_empty());
    assert!(search_with("", "", false).is_empty());
}

#[test]
fn pattern_never_spans_lines() {
    assert!(search_with("a\nb", "a\nb", true).is_empty());
    assert!(search_with("\n", "a\nb\n", true).is_empty());
}

#[test]
fn results_share_the_text() {
    let text = String::from(FOUR_LINES);
    let found = search_with("st", &text, true);
    let begin = text.as_ptr() as usize;
    let end = begin + text.len();
    assert_eq!(found.len(), 3);
    for line in found {
        let at = line.as_ptr() as usize;
        assert!(begin <= at && at + line.len() <= end);
        assert_eq!(&text[at - begin..at - begin + line.len()], line);
    }
}

#[test]
fn text_of_many_bytes_per_character() {
    let text = "\u{65e5}\u{672c}\u{8a9e}\n\u{1f980} crab\n\u{672c}";
    assert_eq!(search_with("\u{672c}", text, true), vec!["\u{65e5}\u{672c}\u{8a9e}", "\u{672c}"]);
    assert_eq!(search_with("\u{1f980}", text, true), vec!["\u{1f980} crab"]);
    assert_eq!(search_with("CRAB", text, false), vec!["\u{1f980} crab"]);
}

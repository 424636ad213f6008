use minigrep::{contains, search_case_insensitive, search_case_sensitive, split_lines};

const POEM: &str = "\
Rust, a language bold and new,
Memory-safe and fast, it's true.
With syntax clean and easy to view,
Coding in Rust, a pleasure to pursue.";

#[test]
fn case_sensitive() {
    let query = "bold";
    let contents = "\
Rust, a language bold and new,
Memory-safe and fast, it's true.
With syntax clean and easy to view,
Coding in Rust, a pleasure to pursue.";
    assert_eq!(
        vec!["Rust, a language bold and new,"],
        search_case_sensitive(query, contents)
    );
}

#[test]
fn case_insensitive() {
    let query = "BoLd";
    let contents = "\
Rust, a language bold and new,
Memory-safe and fast, it's true.
With syntax clean and easy to view,
Coding in Rust, a pleasure to pursue.";
    assert_eq!(
        vec!["Rust, a language bold and new,"],
        search_case_insensitive(query, contents)
    );
}

#[test]
fn mixed_case_query_misses_when_case_matters() {
    assert!(search_case_sensitive("BoLd", POEM).is_empty());
}

#[test]
fn uppercase_query_finds_lowercase_line() {
    assert_eq!(
        vec!["Coding in Rust, a pleasure to pursue."],
        search_case_insensitive("PLEASURE", POEM)
    );
    assert_eq!(
        vec!["with a CAPITAL"],
        search_case_insensitive("capital", "with a CAPITAL\nsmall")
    );
}

#[test]
fn repeated_match_on_two_lines_keeps_both_in_order() {
    let contents = "safe first\nnothing here\nsafe and safe again";
    let expected = vec!["safe first", "safe and safe again"];
    assert_eq!(expected, search_case_sensitive("safe", contents));
    assert_eq!(expected, search_case_insensitive("SAFE", contents));
}

#[test]
fn identical_lines_both_appear() {
    let contents = "same\nsame\nother";
    assert_eq!(vec!["same", "same"], search_case_sensitive("same", contents));
}

#[test]
fn empty_query_returns_every_line() {
    let lines: Vec<&str> = POEM.lines().collect();
    assert_eq!(lines, search_case_sensitive("", POEM));
    assert_eq!(lines, search_case_insensitive("", POEM));
}

#[test]
fn empty_contents_returns_nothing() {
    assert!(search_case_sensitive("rust", "").is_empty());
    assert!(search_case_insensitive("rust", "").is_empty());
    assert!(search_case_sensitive("", "").is_empty());
    assert!(search_case_insensitive("", "").is_empty());
}

#[test]
fn insensitive_result_includes_sensitive_result() {
    let exact = search_case_sensitive("Rust", POEM);
    let folded = search_case_insensitive("Rust", POEM);
    assert_eq!(2, exact.len());
    for line in &exact {
        assert!(folded.contains(line));
    }
}

#[test]
fn every_returned_line_is_a_line_of_the_contents() {
    let all: Vec<&str> = POEM.lines().collect();
    for line in search_case_sensitive("and", POEM) {
        assert!(line.contains("and"));
        assert!(all.contains(&line));
    }
    assert_eq!(3, search_case_sensitive("and", POEM).len());
}

#[test]
fn query_across_lines_does_not_match() {
    assert!(search_case_sensitive("new,\nMemory", POEM).is_empty());
}

#[test]
fn split_lines_drops_terminators() {
    assert_eq!(vec!["a", "b"], split_lines("a\nb"));
    assert_eq!(vec!["a", "b"], split_lines("a\r\nb\n"));
    assert_eq!(vec!["", "x", ""], split_lines("\nx\n\n"));
    assert_eq!(vec!["a\r"], split_lines("a\r"));
    assert_eq!(vec!["a\rb"], split_lines("a\rb"));
    assert!(split_lines("").is_empty());
}

#[test]
fn split_lines_agrees_with_std_lines() {
    let samples = ["", "\n", "x", "x\n", "x\r\ny\r\n", "é\nü\r\n\n ", "a\r", "\r\n\r"];
    for s in samples {
        let expected: Vec<&str> = s.lines().collect();
        assert_eq!(expected, split_lines(s));
    }
}

#[test]
fn crlf_lines_match_without_carriage_return() {
    assert_eq!(vec!["one", "two"], search_case_sensitive("o", "one\r\ntwo\r\nsix\r\n"));
}

#[test]
fn contains_is_a_literal_substring_test() {
    assert!(contains("language bold", "bold"));
    assert!(contains("abc", ""));
    assert!(contains("", ""));
    assert!(!contains("", "a"));
    assert!(!contains("Bold", "bold"));
    assert!(contains("aab", "ab"));
    assert!(!contains("ab", "abc"));
    assert!(contains("straße", "aß"));
}

use minigrep::config::{Config, ConfigError};
use minigrep::search::{run, search, search_case_insensitive};
use minigrep::text::contains;

fn args(tokens: &[&str]) -> Vec<String> {
    tokens.iter().map(|t| t.to_string()).collect()
}

#[test]
fn one_result() {
    let query = "duct";
    let contents = "\
Rust:
safe, fast, productive.
Pick three.";

    assert_eq!(vec!["safe, fast, productive."], search(query, contents))
}

#[test]
fn case_sensitive() {
    let query = "duct";
    let contents = "\
Rust:
safe, fast, productive.
Pick three.
Duct tape.";

    assert_eq!(vec!["safe, fast, productive."], search(query, contents))
}

#[test]
fn case_insensitive() {
    let query = "rUst";
    let contents = "\
Rust:
safe, fast, productive.
Pick three.
Trust me.";

    assert_eq!(vec!["Rust:", "Trust me."], search_case_insensitive(query, contents))
}

#[test]
fn duct_matches_one_line() {
    let r = search("duct", "Rust:\nsafe, fast, productive.\nPick three.");
    assert_eq!(r, vec!["safe, fast, productive."]);
}

#[test]
fn rust_matches_two_lines_ignoring_case() {
    let r = search_case_insensitive("rUst", "Rust:\nsafe, fast, productive.\nPick three.\nTrust me.");
    assert_eq!(r, vec!["Rust:", "Trust me."]);
}

#[test]
fn empty_query_matches_every_line() {
    assert_eq!(search("", "a\nb\nc"), vec!["a", "b", "c"]);
    assert_eq!(search_case_insensitive("", "a\nb\nc"), vec!["a", "b", "c"]);
}

#[test]
fn empty_text_has_no_match() {
    assert!(search("a", "").is_empty());
    assert!(search("", "").is_empty());
    assert!(search_case_insensitive("a", "").is_empty());
}

#[test]
fn no_match_is_empty_not_error() {
    assert!(search("zebra", "one\ntwo\nthree").is_empty());
}

#[test]
fn line_with_two_occurrences_appears_once() {
    assert_eq!(search("ab", "abab\nx\nab"), vec!["abab", "ab"]);
}

#[test]
fn carriage_return_before_line_feed_is_dropped() {
    assert_eq!(search("a", "a\r\nba\r\nc"), vec!["a", "ba"]);
    assert_eq!(search("\r", "a\r\nb\rc\n"), vec!["b\rc"]);
}

#[test]
fn trailing_line_feed_opens_no_line() {
    assert_eq!(search("", "a\nb\n"), vec!["a", "b"]);
    assert_eq!(search("", "a\n\nb"), vec!["a", "", "b"]);
    assert_eq!(search("", "\n"), vec![""]);
}

#[test]
fn results_are_slices_of_the_text() {
    let text = String::from("first\nsecond match\nthird");
    let r = search("match", &text);
    assert_eq!(r.len(), 1);
    let start = text.as_ptr() as usize;
    let at = r[0].as_ptr() as usize;
    assert_eq!(at - start, 6);
}

#[test]
fn non_ascii_lines() {
    assert_eq!(search("é", "café\ntea\nrésumé"), vec!["café", "résumé"]);
    assert_eq!(search_case_insensitive("ÉT", "été\nÉTÉ\nthé"), vec!["été", "ÉTÉ"]);
}

#[test]
fn ignoring_case_returns_lines_unfolded() {
    assert_eq!(search_case_insensitive("HELLO", "Hello World\nbye"), vec!["Hello World"]);
    assert!(search("HELLO", "Hello World\nbye").is_empty());
}

#[test]
fn searching_twice_gives_the_same_lines() {
    let text = "alpha\nbeta\nalphabet";
    assert_eq!(search("alpha", text), search("alpha", text));
    assert_eq!(search_case_insensitive("ALPHA", text), search_case_insensitive("ALPHA", text));
}

#[test]
fn contains_finds_runs() {
    assert!(contains("productive", "duct"));
    assert!(contains("abc", ""));
    assert!(contains("", ""));
    assert!(!contains("", "a"));
    assert!(!contains("ab", "abc"));
    assert!(!contains("Duct", "duct"));
    assert!(contains("aab", "ab"));
}

#[test]
fn config_without_query() {
    assert_eq!(Config::new(&args(&["prog"]), false).err(), Some(ConfigError::MissingQuery));
    assert_eq!(Config::new(&args(&[]), true).err(), Some(ConfigError::MissingQuery));
}

#[test]
fn config_without_filename() {
    assert_eq!(Config::new(&args(&["prog", "term"]), false).err(), Some(ConfigError::MissingFilename));
}

#[test]
fn config_takes_query_and_filename() {
    let c = Config::new(&args(&["prog", "term", "poem.txt", "extra"]), false).ok().unwrap();
    assert_eq!(c.query, "term");
    assert_eq!(c.filename, "poem.txt");
    assert!(c.case_sensitive);
    let c = Config::new(&args(&["prog", "", "f"]), true).ok().unwrap();
    assert_eq!(c.query, "");
    assert!(!c.case_sensitive);
}

#[test]
fn config_error_messages() {
    assert_eq!(ConfigError::MissingQuery.message(), "no query given");
    assert_eq!(ConfigError::MissingFilename.message(), "no file name given");
}

#[test]
fn run_picks_the_search() {
    let text = "Rust:\nTrust me.";
    let sensitive = Config::new(&args(&["prog", "rust", "f"]), false).ok().unwrap();
    assert_eq!(run(&sensitive, text), vec!["Trust me."]);
    let insensitive = Config::new(&args(&["prog", "rust", "f"]), true).ok().unwrap();
    assert_eq!(run(&insensitive, text), vec!["Rust:", "Trust me."]);
}

#[test]
fn final_sigma_folds_apart() {
    assert_eq!(search("Σ", "ΑΣ"), vec!["ΑΣ"]);
    assert!(search_case_insensitive("Σ", "ΑΣ").is_empty());
}

use frust::config::Config;
use frust::substitution::contains_token;
use frust::substitution::join;
use frust::substitution::replace_token;
use frust::substitution::update_file_version;
use frust::substitution::update_line;
use frust::substitution::update_lines;
use frust::substitution::IoFailure;

fn chars(s: &str) -> Vec<char> {
    s.chars().collect()
}

fn text(chars: Vec<char>) -> String {
    chars.into_iter().collect()
}

fn lines(items: &[&str]) -> Vec<String> {
    items.iter().map(|s| s.to_string()).collect()
}

fn config(token: &str) -> Config {
    Config::new("demo".to_string(), "/tmp/demo.txt".to_string(), token.to_string())
}

#[test]
fn apply_replaces_token_in_matching_lines() {
    let updated = update_lines(&lines(&["v=1.0.0", "name=foo"]), "1.0.0", "2.0.0");
    assert_eq!(updated, lines(&["v=2.0.0", "name=foo"]));
}

#[test]
fn apply_replaces_every_occurrence_on_a_line() {
    assert_eq!(update_line("1.0.0 and 1.0.0", "1.0.0", "2.0.0"), "2.0.0 and 2.0.0");
}

#[test]
fn update_file_version_joins_lines_with_line_feeds() {
    let content = update_file_version(
        &config("1.0.0"),
        &"2.0.0".to_string(),
        &lines(&["v=1.0.0", "name=foo"]),
    );
    assert_eq!(content, "v=2.0.0\nname=foo");
}

#[test]
fn update_file_version_of_no_lines_is_empty() {
    let content = update_file_version(&config("1.0.0"), &"2.0.0".to_string(), &Vec::new());
    assert_eq!(content, "");
}

#[test]
fn update_file_version_keeps_empty_lines() {
    let content = update_file_version(
        &config("1.0.0"),
        &"2.0.0".to_string(),
        &lines(&["", "version 1.0.0", "", ""]),
    );
    assert_eq!(content, "\nversion 2.0.0\n\n");
}

#[test]
fn update_file_version_equals_std_replace_line_by_line() {
    let input = lines(&["image: app:1.2.3", "# 1.2.3 → 1.2.31.2.3", "nothing here", "1.2."]);
    let expected: Vec<String> = input.iter().map(|l| l.replace("1.2.3", "10.0.0-β")).collect();
    let content = update_file_version(&config("1.2.3"), &"10.0.0-β".to_string(), &input);
    assert_eq!(content, expected.join("\n"));
}

#[test]
fn lines_without_token_pass_through() {
    let input = lines(&["alpha", "1.0", "1.0.1", ""]);
    assert_eq!(update_lines(&input, "1.0.0", "2.0.0"), input);
}

#[test]
fn replacement_reads_from_the_left_without_overlap() {
    assert_eq!(update_line("aaa", "aa", "b"), "ba");
    assert_eq!(update_line("aaaa", "aa", "b"), "bb");
    assert_eq!(update_line("abababa", "aba", "x"), "xbx");
}

#[test]
fn replacement_may_grow_or_shrink_the_line() {
    assert_eq!(update_line("v1;v1", "v1", "version-one"), "version-one;version-one");
    assert_eq!(update_line("long-long", "long", ""), "-");
}

#[test]
fn replacement_text_is_not_searched_again() {
    assert_eq!(update_line("1.0", "1.0", "1.0.1.0"), "1.0.1.0");
}

#[test]
fn token_at_both_ends_of_a_line() {
    assert_eq!(update_line("1.0.0-1.0.0", "1.0.0", "7"), "7-7");
    assert_eq!(update_line("1.0.0", "1.0.0", "2.0.0"), "2.0.0");
}

#[test]
fn multibyte_text_is_replaced_by_scalar_values() {
    assert_eq!(update_line("年=令和5 é", "令和5", "令和6"), "年=令和6 é");
    assert_eq!(update_line("😀😀😀", "😀😀", "x"), "x😀");
}

#[test]
fn empty_token_matches_between_all_characters() {
    assert_eq!(update_line("abc", "", "-"), "-a-b-c-");
    assert_eq!(update_line("", "", "-"), "-");
    assert_eq!(update_line("abc", "", "-"), "abc".replace("", "-"));
}

#[test]
fn contains_token_finds_occurrences() {
    assert!(contains_token(&chars("v=1.0.0"), &chars("1.0.0")));
    assert!(contains_token(&chars("1.0.0"), &chars("1.0.0")));
    assert!(contains_token(&chars("abc"), &chars("")));
    assert!(contains_token(&chars(""), &chars("")));
    assert!(!contains_token(&chars("1.0.1"), &chars("1.0.0")));
    assert!(!contains_token(&chars("1.0"), &chars("1.0.0")));
    assert!(!contains_token(&chars(""), &chars("a")));
}

#[test]
fn replace_token_on_characters() {
    assert_eq!(text(replace_token(&chars("a.b.c"), &chars("."), &chars("::"))), "a::b::c");
    assert_eq!(text(replace_token(&chars("abc"), &chars("x"), &chars("y"))), "abc");
    assert_eq!(text(replace_token(&chars(""), &chars("x"), &chars("y"))), "");
}

#[test]
fn join_puts_one_line_feed_between_lines() {
    assert_eq!(join(&lines(&[])), "");
    assert_eq!(join(&lines(&["only"])), "only");
    assert_eq!(join(&lines(&["a", "b", "c"])), "a\nb\nc");
    assert_eq!(join(&lines(&["", ""])), "\n");
}

#[test]
fn failures_are_told_in_words() {
    assert_eq!(IoFailure::Unreadable.describe(), "the file could not be read");
    assert_eq!(IoFailure::Unwritable.describe(), "the file could not be written");
}

use grep_rs::matcher::find_lines;
use grep_rs::output::process_source;
use grep_rs::pattern::CompiledPattern;

#[test]
fn multi_source_lines_are_prefixed() {
    let matches = vec!["Lorem\n".to_string(), "DOLOR".to_string()];
    let out = process_source("a.txt", &matches, false, true);
    assert_eq!(out, vec!["a.txt:Lorem\n", "a.txt:DOLOR"]);
    let out = process_source("b.txt", &matches, false, true);
    assert_eq!(out, vec!["b.txt:Lorem\n", "b.txt:DOLOR"]);
}

#[test]
fn single_source_lines_are_verbatim() {
    let matches = vec!["Lorem\n".to_string(), "DOLOR".to_string()];
    let out = process_source("a.txt", &matches, false, false);
    assert_eq!(out, vec!["Lorem\n", "DOLOR"]);
}

#[test]
fn count_mode_emits_one_line() {
    let matches = vec!["Lorem\n".to_string(), "DOLOR".to_string()];
    assert_eq!(process_source("a.txt", &matches, true, true), vec!["a.txt:2\n"]);
    assert_eq!(process_source("a.txt", &matches, true, false), vec!["2\n"]);
    let none: Vec<String> = vec![];
    assert_eq!(process_source("a.txt", &none, true, false), vec!["0\n"]);
}

#[test]
fn count_mode_agrees_with_list_mode() {
    let text = "Lorem\nIpsum\r\nDOLOR";
    let re = CompiledPattern::compile("or", true).unwrap();
    let matches = find_lines(text, &re, false);
    let counted = process_source("src", &matches, true, false);
    assert_eq!(counted, vec![format!("{}\n", matches.len())]);
}

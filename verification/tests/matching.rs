use grep_rs::matcher::find_lines;
use grep_rs::matcher::match_count;
use grep_rs::matcher::split_lines;
use grep_rs::pattern::CompiledPattern;

#[test]
fn test_find_lines() {
    let text = "Lorem\nIpsum\r\nDOLOR";

    let re1 = CompiledPattern::compile("or", false).unwrap();

    let matches = find_lines(text, &re1, false);
    assert_eq!(matches.len(), 1);

    let matches = find_lines(text, &re1, true);
    assert_eq!(matches.len(), 2);

    let re2 = CompiledPattern::compile("or", true).unwrap();

    let matches = find_lines(text, &re2, false);
    assert_eq!(matches.len(), 2);

    let matches = find_lines(text, &re2, true);
    assert_eq!(matches.len(), 1);
}

#[test]
fn end_to_end_scenario() {
    let text = "Lorem\nIpsum\r\nDOLOR";

    let sensitive = CompiledPattern::compile("or", false).unwrap();
    assert_eq!(find_lines(text, &sensitive, false), vec!["Lorem\n"]);

    let insensitive = CompiledPattern::compile("or", true).unwrap();
    assert_eq!(find_lines(text, &insensitive, false), vec!["Lorem\n", "DOLOR"]);
    assert_eq!(find_lines(text, &insensitive, true), vec!["Ipsum\r\n"]);
}

#[test]
fn case_insensitive_matches_superset() {
    let text = "Lorem\nIpsum\r\nDOLOR";
    let sensitive = CompiledPattern::compile("or", false).unwrap();
    let insensitive = CompiledPattern::compile("or", true).unwrap();
    let with_case = find_lines(text, &sensitive, false);
    let without_case = find_lines(text, &insensitive, false);
    assert!(with_case.len() < without_case.len());
    for line in &with_case {
        assert!(without_case.contains(line));
    }
}

#[test]
fn invert_partitions_lines() {
    let text = "Lorem\nIpsum\r\nDOLOR";
    let re = CompiledPattern::compile("or", false).unwrap();
    let kept = find_lines(text, &re, false);
    let dropped = find_lines(text, &re, true);
    let lines = split_lines(text);
    assert_eq!(kept.len() + dropped.len(), lines.len());
    for line in &lines {
        assert!(kept.contains(line) != dropped.contains(line));
    }
}

#[test]
fn count_equals_list_length() {
    let text = "Lorem\nIpsum\r\nDOLOR";
    let re = CompiledPattern::compile("or", true).unwrap();
    assert_eq!(match_count(text, &re, false), find_lines(text, &re, false).len());
    assert_eq!(match_count(text, &re, true), find_lines(text, &re, true).len());
    let empty_re = CompiledPattern::compile("x", false).unwrap();
    assert_eq!(match_count("", &empty_re, false), 0);
}

#[test]
fn invalid_pattern_is_one_error() {
    let err = match CompiledPattern::compile("*[", false) {
        Err(e) => e,
        Ok(_) => panic!("an invalid pattern must not compile"),
    };
    assert_eq!(err, "Invalid pattern \"*[\"");
    assert!(CompiledPattern::compile("or", false).is_ok());
}

#[test]
fn split_keeps_terminators() {
    let lines = split_lines("a\nbc\r\nd");
    assert_eq!(lines, vec!["a\n", "bc\r\n", "d"]);
    let empty: Vec<String> = split_lines("");
    assert_eq!(empty.len(), 0);
    assert_eq!(split_lines("\n\n"), vec!["\n", "\n"]);
    assert_eq!(split_lines("tail\n"), vec!["tail\n"]);
}

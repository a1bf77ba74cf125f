use grep_rs::textcount::count;
use grep_rs::textcount::format_field;
use grep_rs::textcount::FileInfo;

#[test]
fn test_count() {
    let text = "I don't want the world. I just want your half.\r\n";
    let info = count(text);
    let expected = FileInfo { num_bytes: 48, num_lines: 1, num_chars: 48, num_words: 10 };
    assert_eq!(info, expected);
}

#[test]
fn test_format_field() {
    assert_eq!(format_field(1, false), "");
    assert_eq!(format_field(3, true), "       3");
    assert_eq!(format_field(10, true), "      10");
}

#[test]
fn count_tells_bytes_from_chars() {
    let info = count("h\u{e9}llo\n");
    assert_eq!(info.num_bytes, 7);
    assert_eq!(info.num_chars, 6);
    assert_eq!(info.num_lines, 1);
    assert_eq!(info.num_words, 1);
}

#[test]
fn count_of_empty_text() {
    let info = count("");
    let expected = FileInfo { num_bytes: 0, num_lines: 0, num_chars: 0, num_words: 0 };
    assert_eq!(info, expected);
}

#[test]
fn wide_value_is_not_truncated() {
    assert_eq!(format_field(123456789, true), "123456789");
    assert_eq!(format_field(0, true), "       0");
}

use zeek_language_server::text::{first_line, qualify, text_between_offsets};

fn line(text: &str) -> Option<String> {
    first_line(text)
}

#[test]
fn an_empty_text_has_no_line() {
    assert_eq!(line(""), None);
}

#[test]
fn a_line_ends_before_its_line_ending() {
    assert_eq!(line("/usr/share/zeek"), Some("/usr/share/zeek".to_string()));
    assert_eq!(line("/usr/share/zeek\n"), Some("/usr/share/zeek".to_string()));
    assert_eq!(line("one\ntwo\n"), Some("one".to_string()));
    assert_eq!(line("one\r\ntwo\r\n"), Some("one".to_string()));
    assert_eq!(line("äöü\nß"), Some("äöü".to_string()));
}

#[test]
fn a_line_can_be_empty() {
    assert_eq!(line("\n"), Some(String::new()));
    assert_eq!(line("\r\n"), Some(String::new()));
    assert_eq!(line("\nnext"), Some(String::new()));
}

#[test]
fn a_carriage_return_alone_ends_no_line() {
    assert_eq!(line("one\rtwo"), Some("one\rtwo".to_string()));
    assert_eq!(line("one\r"), Some("one\r".to_string()));
    assert_eq!(line("one\r\r\n"), Some("one\r".to_string()));
}

#[test]
fn first_lines_agree_with_the_standard_library() {
    for text in ["", "a", "a\n", "a\r\n", "\r", "\n\n", "\r\r\n", "a\nb\r\nc", "ä\r\nb"] {
        assert_eq!(line(text), text.lines().next().map(String::from));
    }
}

#[test]
fn text_is_cut_by_bytes() {
    assert_eq!(text_between_offsets("global x;", 7, 8), Some("x".to_string()));
    assert_eq!(text_between_offsets("global x;", 0, 9), Some("global x;".to_string()));
    assert_eq!(text_between_offsets("global x;", 4, 4), Some(String::new()));
    assert_eq!(text_between_offsets("aäb", 1, 3), Some("ä".to_string()));
}

#[test]
fn a_cut_inside_a_character_is_no_text() {
    assert_eq!(text_between_offsets("aäb", 0, 2), None);
    assert_eq!(text_between_offsets("aäb", 2, 4), None);
}

#[test]
fn names_are_qualified_by_their_module() {
    assert_eq!(qualify(&"Log".to_string(), &"ID".to_string()), "Log::ID");
    assert_eq!(qualify(&String::new(), &String::new()), "::");
}

use relay_middleware::decimal::{read_position, write_position};
use relay_middleware::pointer::{
    escape_json_pointer_segment, json_pointer_segments, render_json_pointer_path,
    unescape_json_pointer_segment,
};

fn strings(parts: &[&str]) -> Vec<String> {
    parts.iter().map(|part| part.to_string()).collect()
}

#[test]
fn escapes_tilde_and_slash() {
    assert_eq!(escape_json_pointer_segment("a/b~c"), "a~1b~0c");
    assert_eq!(escape_json_pointer_segment("~1"), "~01");
    assert_eq!(escape_json_pointer_segment(""), "");
    assert_eq!(escape_json_pointer_segment("plain"), "plain");
}

#[test]
fn unescapes_slash_before_tilde() {
    assert_eq!(unescape_json_pointer_segment("a~1b~0c"), "a/b~c");
    assert_eq!(unescape_json_pointer_segment("~01"), "~1");
    assert_eq!(unescape_json_pointer_segment("~~1"), "~/");
    assert_eq!(unescape_json_pointer_segment("~2~"), "~2~");
    assert_eq!(unescape_json_pointer_segment("~00"), "~0");
}

#[test]
fn unescape_undoes_escape() {
    for key in ["", "~", "/", "~/", "/~", "~0", "~1", "~01", "~10", "a~b/c", "é/~ü"] {
        let segment = escape_json_pointer_segment(key);
        assert!(!segment.contains('/'));
        assert_eq!(unescape_json_pointer_segment(&segment), key);
    }
}

#[test]
fn a_pointer_starts_with_a_slash() {
    assert_eq!(json_pointer_segments(""), None);
    assert_eq!(json_pointer_segments("a/b"), None);
    assert_eq!(json_pointer_segments("/"), Some(strings(&[""])));
    assert_eq!(json_pointer_segments("/a/b"), Some(strings(&["a", "b"])));
    assert_eq!(json_pointer_segments("/a//b/"), Some(strings(&["a", "", "b", ""])));
    assert_eq!(json_pointer_segments("/m~0n/a~1b"), Some(strings(&["m~n", "a/b"])));
}

#[test]
fn renders_segments_as_they_are() {
    assert_eq!(render_json_pointer_path(&[]), "");
    assert_eq!(render_json_pointer_path(&strings(&["a"])), "/a");
    assert_eq!(render_json_pointer_path(&strings(&["a", "", "~1"])), "/a//~1");
}

#[test]
fn keys_come_back_from_their_pointer() {
    let keys = strings(&["messages", "0", "a/b", "~", ""]);
    let segments: Vec<String> = keys.iter().map(|key| escape_json_pointer_segment(key)).collect();
    assert_eq!(json_pointer_segments(&render_json_pointer_path(&segments)), Some(keys));
}

#[test]
fn different_paths_are_rendered_differently() {
    let one = render_json_pointer_path(&strings(&["a~1b"]));
    let two = render_json_pointer_path(&strings(&["a", "b"]));
    assert_ne!(one, two);
}

#[test]
fn positions_are_written_in_decimal() {
    assert_eq!(write_position(0), "0");
    assert_eq!(write_position(10), "10");
    assert_eq!(write_position(usize::MAX), usize::MAX.to_string());
}

#[test]
fn positions_are_read_as_numbers() {
    assert_eq!(read_position("0"), Some(0));
    assert_eq!(read_position("007"), Some(7));
    assert_eq!(read_position("+3"), Some(3));
    assert_eq!(read_position(""), None);
    assert_eq!(read_position("+"), None);
    assert_eq!(read_position("-1"), None);
    assert_eq!(read_position("1a"), None);
    assert_eq!(read_position(&usize::MAX.to_string()), Some(usize::MAX));
    assert_eq!(read_position("99999999999999999999999"), None);
    assert_eq!(read_position(&write_position(451)), Some(451));
}

#[test]
fn joined_lists_are_rendered_one_after_the_other() {
    let first = strings(&["a", "b~1c"]);
    let second = strings(&["", "0"]);
    let both: Vec<String> = first.iter().chain(second.iter()).cloned().collect();
    assert_eq!(
        render_json_pointer_path(&both),
        render_json_pointer_path(&first) + &render_json_pointer_path(&second)
    );
}

use romoto::resize::{parse_resize_escape, resize_escape};

#[test]
fn test_parse_resize_escape_valid() {
    let data = b"\x1b]romoto;resize;120;40\x07";
    assert_eq!(parse_resize_escape(data), Some((120, 40)));
}

#[test]
fn test_parse_resize_escape_small() {
    let data = b"\x1b]romoto;resize;80;24\x07";
    assert_eq!(parse_resize_escape(data), Some((80, 24)));
}

#[test]
fn test_parse_resize_escape_invalid_prefix() {
    let data = b"\x1b[romoto;resize;80;24\x07";
    assert_eq!(parse_resize_escape(data), None);
}

#[test]
fn test_parse_resize_escape_no_suffix() {
    let data = b"\x1b]romoto;resize;80;24";
    assert_eq!(parse_resize_escape(data), None);
}

#[test]
fn test_parse_resize_escape_not_numbers() {
    let data = b"\x1b]romoto;resize;abc;def\x07";
    assert_eq!(parse_resize_escape(data), None);
}

#[test]
fn test_parse_resize_escape_random_data() {
    let data = b"hello world";
    assert_eq!(parse_resize_escape(data), None);
}

#[test]
fn resize_escape_bytes() {
    assert_eq!(resize_escape(120, 40), b"\x1b]romoto;resize;120;40\x07".to_vec());
    assert_eq!(resize_escape(0, 4294967295), b"\x1b]romoto;resize;0;4294967295\x07".to_vec());
}

#[test]
fn resize_escape_is_read_back() {
    assert_eq!(parse_resize_escape(&resize_escape(65535, 1)), Some((65535, 1)));
    assert_eq!(parse_resize_escape(&resize_escape(65536, 1)), None);
    assert_eq!(parse_resize_escape(&resize_escape(1, 70000)), None);
}

#[test]
fn parse_resize_escape_edges() {
    assert_eq!(parse_resize_escape(b"\x1b]romoto;resize;+80;0024\x07"), Some((80, 24)));
    assert_eq!(parse_resize_escape(b"\x1b]romoto;resize;80;24;rest\x07"), Some((80, 24)));
    assert_eq!(parse_resize_escape(b"\x1b]romoto;resize;80;24;\xc3\xa9\x07"), Some((80, 24)));
    assert_eq!(parse_resize_escape(b"\x1b]romoto;resize;80;24;\xff\x07"), None);
    assert_eq!(parse_resize_escape(b"\x1b]romoto;resize;80\x07"), None);
    assert_eq!(parse_resize_escape(b"\x1b]romoto;resize;80;\x07"), None);
    assert_eq!(parse_resize_escape(b"\x1b]romoto;resize;;24\x07"), None);
    assert_eq!(parse_resize_escape(b"\x1b]romoto;resize;+;24\x07"), None);
    assert_eq!(parse_resize_escape(b"\x1b]romoto;resize;-1;24\x07"), None);
    assert_eq!(parse_resize_escape(b"\x1b]romoto;resize;\x07"), None);
    assert_eq!(parse_resize_escape(b"\x1b]romoto;resize;"), None);
    assert_eq!(parse_resize_escape(b""), None);
}

use codex_host::decimal::{decimal_text, parse_usize};
use codex_host::ids::{attachment_text, is_uuid, new_attachment_id, SegmentId, ThreadId};
use codex_host::json::push_string;
use codex_host::text::{byte_len, strip_prefix, strip_suffix, trim, truncate_utf8_to_bytes};

#[test]
fn identifiers_have_their_usual_text() {
    let value: u128 = 0x0123_4567_89ab_cdef_0123_4567_89ab_cdef;
    let text = "01234567-89ab-cdef-0123-456789abcdef";
    assert_eq!(ThreadId { value }.text(), text);
    assert_eq!(SegmentId { value }.text(), text);
    assert_eq!(attachment_text(value), text);
    assert!(is_uuid(text));
}

#[test]
fn ways_to_write_an_identifier() {
    assert!(is_uuid("0123456789abcdef0123456789ABCDEF"));
    assert!(is_uuid("{01234567-89ab-cdef-0123-456789abcdef}"));
    assert!(is_uuid("urn:uuid:01234567-89ab-cdef-0123-456789abcdef"));
    assert!(!is_uuid(""));
    assert!(!is_uuid("01234567-89ab-cdef-0123-456789abcde"));
    assert!(!is_uuid("01234567-89ab-cdef-0123-456789abcdeg"));
    assert!(!is_uuid("0123456-789ab-cdef-0123-456789abcdef"));
    assert!(!is_uuid("{0123456789abcdef0123456789abcdef}"));
    assert!(!is_uuid("urn:uuid:0123456789abcdef0123456789abcdef"));
    assert!(!is_uuid(" 0123456789abcdef0123456789abcdef"));
}

#[test]
fn urn_prefixes_in_capitals() {
    assert!(is_uuid("URN:UUID:01234567-89ab-cdef-0123-456789abcdef"));
    assert!(is_uuid("Urn:uuiD:01234567-89ab-cdef-0123-456789abcdef"));
    assert!(!is_uuid("urn-uuid:01234567-89ab-cdef-0123-456789abcdef"));
    // As many bytes as a UUID has, but not as many characters.
    assert!(!is_uuid("\u{e9}1234567-89ab-cdef-0123-456789abcde"));
}

#[test]
fn new_identifiers_have_their_version() {
    for _ in 0..50 {
        let attachment = attachment_text(new_attachment_id());
        assert_eq!(attachment.as_bytes()[14], b'4');
        assert!(matches!(attachment.as_bytes()[19], b'8' | b'9' | b'a' | b'b'));
        assert!(is_uuid(&attachment));
        let segment = SegmentId::new().text();
        assert_eq!(segment.as_bytes()[14], b'7');
        assert!(matches!(segment.as_bytes()[19], b'8' | b'9' | b'a' | b'b'));
    }
    assert_ne!(new_attachment_id(), new_attachment_id());
    assert_ne!(SegmentId::new(), SegmentId::new());
}

#[test]
fn numbers_come_back_from_their_text() {
    for n in [0, 1, 9, 10, 255, 1000, usize::MAX] {
        assert_eq!(decimal_text(n), n.to_string());
        assert_eq!(parse_usize(&decimal_text(n)), Some(n));
    }
}

#[test]
fn numbers_are_read_as_std_reads_them() {
    for s in ["", "+", "-", "+5", "-0", "007", " 1", "1_0", "0x1", "18446744073709551616", "\u{661}"] {
        assert_eq!(parse_usize(s), s.parse::<usize>().ok());
    }
}

#[test]
fn white_space_is_trimmed_as_std_trims_it() {
    for s in ["", " ", "a", " a b ", "\u{a0}a\u{2028}", "\u{85}\u{1680}x\u{3000}", "\u{200b}a", "\t\r\n\u{b}\u{c}y"] {
        assert_eq!(trim(s), s.trim());
    }
    for code in 0..0x3100u32 {
        let c = char::from_u32(code).expect("char");
        let s = format!("{c}x{c}");
        assert_eq!(trim(&s), s.trim());
    }
}

#[test]
fn texts_are_cut_between_characters() {
    assert_eq!(truncate_utf8_to_bytes("abc", 3), ("abc".to_string(), false));
    assert_eq!(truncate_utf8_to_bytes("abc", 2), ("ab".to_string(), true));
    assert_eq!(truncate_utf8_to_bytes("a\u{20ac}b", 3), ("a".to_string(), true));
    assert_eq!(truncate_utf8_to_bytes("\u{20ac}", 0), (String::new(), true));
    assert_eq!(truncate_utf8_to_bytes("", 0), (String::new(), false));
}

#[test]
fn byte_lengths_and_affixes() {
    assert_eq!(byte_len("a\u{e9}\u{20ac}\u{1f600}"), 10);
    assert_eq!(strip_prefix("rollout-x", "rollout-"), Some("x"));
    assert_eq!(strip_prefix("roll", "rollout-"), None);
    assert_eq!(strip_suffix("x.jsonl", ".jsonl"), Some("x"));
    assert_eq!(strip_suffix("x.json", ".jsonl"), None);
}

#[test]
fn strings_are_written_as_json() {
    let mut out = "=".to_string();
    push_string(&mut out, "a\"\\/\u{8}\u{c}\n\r\t\u{1f}\u{7f}\u{e9}");
    assert_eq!(out, "=\"a\\\"\\\\/\\b\\f\\n\\r\\t\\u001f\u{7f}\u{e9}\"");
}

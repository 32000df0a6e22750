use poll_program::bytes::{copy_into, zeroed};
use poll_program::text::{pad, text_of};

#[test]
fn pad_fills_the_field_with_spaces() {
    assert_eq!(pad("Red", 8), Some(String::from("Red     ")));
    assert_eq!(pad("", 3), Some(String::from("   ")));
    assert_eq!(pad("exact", 5), Some(String::from("exact")));
}

#[test]
fn pad_counts_bytes_not_characters() {
    // "né" takes three bytes.
    let field = pad("né", 5).unwrap();
    assert_eq!(field, "né  ");
    assert_eq!(field.len(), 5);
}

#[test]
fn pad_refuses_a_text_wider_than_the_field() {
    assert_eq!(pad("toolong", 6), None);
    assert_eq!(pad("né", 2), None);
}

#[test]
fn text_of_reads_utf8() {
    assert_eq!(text_of(b"Blue"), Some(String::from("Blue")));
    assert_eq!(text_of(&[0xc3, 0xa9]), Some(String::from("é")));
    assert_eq!(text_of(&[]), Some(String::new()));
    assert_eq!(text_of(&[0, 0, 0]), Some(String::from("\0\0\0")));
}

#[test]
fn text_of_refuses_what_is_not_utf8() {
    assert_eq!(text_of(&[0xff]), None);
    assert_eq!(text_of(&[b'a', 0xc3]), None);
    assert_eq!(text_of(&[0xed, 0xa0, 0x80]), None);
    assert_eq!(text_of(&[0xc0, 0x80]), None);
}

#[test]
fn copy_into_overwrites_at_the_offset() {
    let mut buffer = vec![9u8; 6];
    copy_into(&mut buffer, 2, &[1, 2, 3]);
    assert_eq!(buffer, vec![9, 9, 1, 2, 3, 9]);
    copy_into(&mut buffer, 6, &[]);
    assert_eq!(buffer, vec![9, 9, 1, 2, 3, 9]);
}

#[test]
fn zeroed_gives_zero_bytes() {
    assert_eq!(zeroed(4), vec![0u8; 4]);
    assert_eq!(zeroed(0), Vec::<u8>::new());
}

#[test]
fn write_text_pads_the_field() {
    let mut buffer = vec![9u8; 8];
    poll_program::text::write_text(&mut buffer, 1, "Red", 5);
    assert_eq!(buffer, vec![9, b'R', b'e', b'd', b' ', b' ', 9, 9]);
    poll_program::text::write_text(&mut buffer, 0, "", 2);
    assert_eq!(buffer, vec![b' ', b' ', b'e', b'd', b' ', b' ', 9, 9]);
    poll_program::text::write_text(&mut buffer, 5, "né", 3);
    assert_eq!(buffer, vec![b' ', b' ', b'e', b'd', b' ', b'n', 0xc3, 0xa9]);
}

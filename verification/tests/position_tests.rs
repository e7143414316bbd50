use owui_lint::server::position::{byte_to_utf16, char_to_utf16, utf16_len};

#[test]
fn ascii_matches_raw_counts() {
    let line = "def search():";
    assert_eq!(utf16_len(line), 13);
    assert_eq!(char_to_utf16(line, 4), 4);
    assert_eq!(byte_to_utf16(line, line.find("search").unwrap()), 4);
}

#[test]
fn astral_char_counts_two_utf16_units() {
    // "🦀" is one `char`, four UTF-8 bytes, two UTF-16 code units.
    let line = "🦀 def x():";
    assert_eq!(utf16_len(line), "🦀 def x():".encode_utf16().count() as u32);
    // The char before "def" (crab + space) is 2 + 1 = 3 UTF-16 units.
    assert_eq!(char_to_utf16(line, 2), 3);
    // `find` returns a byte offset (crab is 4 bytes, space 1 -> 5).
    let byte = line.find("def").unwrap();
    assert_eq!(byte, 5);
    assert_eq!(byte_to_utf16(line, byte), 3);
}

#[test]
fn char_offset_past_end_keeps_excess() {
    // Column pointing past a short/blank line keeps the extra columns.
    assert_eq!(char_to_utf16("", 2), 2);
    assert_eq!(char_to_utf16("ab", 5), 5);
}

#[test]
fn byte_offset_clamps_to_char_boundary() {
    let line = "🦀x";
    // A byte offset landing inside the crab rounds down to its start (0).
    assert_eq!(byte_to_utf16(line, 2), 0);
    // Past the end clamps to the full UTF-16 length.
    assert_eq!(byte_to_utf16(line, 999), utf16_len(line));
}

#[test]
fn two_byte_and_three_byte_chars_are_one_unit() {
    let line = "é€x";
    assert_eq!(utf16_len(line), 3);
    assert_eq!(byte_to_utf16(line, 2), 1);
    assert_eq!(byte_to_utf16(line, 4), 1);
    assert_eq!(byte_to_utf16(line, 5), 2);
    assert_eq!(char_to_utf16(line, 3), 3);
}

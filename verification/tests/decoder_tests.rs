use onionbell::char_total_len;
use onionbell::LineFrameDecoder;
use onionbell::LINE_TERMINATOR;

/// Feed a raw byte stream to the decoder the way the reader would: one
/// character at a time, sized by `char_total_len`. Returns each completed
/// line and how many bytes were consumed.
fn drive(bytes: &[u8]) -> (Vec<String>, usize) {
    let mut decoder = LineFrameDecoder::new();
    let mut lines = Vec::new();
    let mut pos = 0;
    while pos < bytes.len() {
        let n = char_total_len(bytes[pos]);
        if pos + n > bytes.len() {
            break;
        }
        let ch: Vec<u8> = bytes[pos..pos + n].to_vec();
        pos += n;
        if let Some(line) = decoder.push_char(&ch) {
            lines.push(line);
        }
    }
    (lines, pos)
}

#[test]
fn complete_line_decodes_to_its_characters() {
    let (lines, consumed) = drive(b"bell>>1a2b3c\n");
    assert_eq!(lines, vec!["bell>>1a2b3c".to_string()]);
    assert_eq!(consumed, 13);
}

#[test]
fn terminator_is_consumed_and_not_reread() {
    let mut decoder = LineFrameDecoder::new();
    assert_eq!(decoder.push_char(&vec![b'a']), None);
    let line = decoder.push_char(&vec![LINE_TERMINATOR]);
    assert_eq!(line, Some("a".to_string()));
    // The next line starts fresh: nothing of the first line, nor the
    // terminator, is carried over.
    assert_eq!(decoder.push_char(&vec![b'b']), None);
    assert_eq!(decoder.push_char(&vec![LINE_TERMINATOR]), Some("b".to_string()));
}

#[test]
fn split_two_byte_character() {
    // The bytes 0xC3 0xA9 0x0A arrive one read at a time: the first byte
    // announces a 2-byte character, so one more byte is fetched before the
    // character is complete.
    assert_eq!(char_total_len(0xC3), 2);
    let mut decoder = LineFrameDecoder::new();
    assert_eq!(decoder.push_char(&vec![0xC3, 0xA9]), None);
    let line = decoder.push_char(&vec![0x0A]);
    assert_eq!(line, Some("é".to_string()));
}

#[test]
fn multibyte_line_via_driver() {
    let (lines, _) = drive("héllo\n".as_bytes());
    assert_eq!(lines, vec!["héllo".to_string()]);
}

#[test]
fn char_total_len_widths() {
    assert_eq!(char_total_len(b'a'), 1);
    assert_eq!(char_total_len(0x0A), 1);
    assert_eq!(char_total_len(0xC3), 2); // 110xxxxx
    assert_eq!(char_total_len(0xE3), 3); // 1110xxxx
    assert_eq!(char_total_len(0xF0), 4); // 1111xxxx
}

#[test]
fn invalid_sequence_is_replaced_not_rejected() {
    let mut decoder = LineFrameDecoder::new();
    // A lone continuation byte is not valid UTF-8; the decoder replaces it
    // rather than failing.
    assert_eq!(decoder.push_char(&vec![0x80]), None);
    let line = decoder.push_char(&vec![LINE_TERMINATOR]);
    assert_eq!(line, Some("\u{FFFD}".to_string()));
}

#[test]
fn several_lines_in_sequence() {
    let (lines, _) = drive(b"bell>>aa\nworkspace>>2\nbell>>bb\n");
    assert_eq!(
        lines,
        vec![
            "bell>>aa".to_string(),
            "workspace>>2".to_string(),
            "bell>>bb".to_string(),
        ]
    );
}

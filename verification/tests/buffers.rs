use js_string::{CStringBuffer, DecodeBuffer, SMALL_STRING_SIZE};

#[test]
fn threshold_is_128() {
    assert_eq!(SMALL_STRING_SIZE, 128);
}

#[test]
fn small_string_is_padded_to_the_stack_buffer() {
    let buffer = CStringBuffer::new("abc");
    let bytes = buffer.as_bytes();
    assert_eq!(bytes.len(), 129);
    assert_eq!(&bytes[..4], b"abc\0");
    assert!(bytes[4..].iter().all(|b| *b == 0));
}

#[test]
fn empty_string_is_a_lone_terminator() {
    let buffer = CStringBuffer::new("");
    assert_eq!(buffer.as_bytes().len(), 129);
    assert!(buffer.as_bytes().iter().all(|b| *b == 0));
}

#[test]
fn largest_small_string_fills_the_stack_buffer() {
    let s = "x".repeat(127);
    let buffer = CStringBuffer::new(&s);
    let bytes = buffer.as_bytes();
    assert_eq!(bytes.len(), 129);
    assert_eq!(&bytes[..127], s.as_bytes());
    assert_eq!(bytes[127], 0);
    assert_eq!(bytes[128], 0);
}

#[test]
fn large_string_gets_an_exact_heap_buffer() {
    for len in [128, 129, 1000] {
        let s = "x".repeat(len);
        let buffer = CStringBuffer::new(&s);
        let bytes = buffer.as_bytes();
        assert_eq!(bytes.len(), len + 1);
        assert_eq!(&bytes[..len], s.as_bytes());
        assert_eq!(bytes[len], 0);
    }
}

#[test]
fn buffer_holds_utf8_bytes() {
    let buffer = CStringBuffer::new("é😄");
    assert_eq!(&buffer.as_bytes()[..7], &[0xc3, 0xa9, 0xf0, 0x9f, 0x98, 0x84, 0]);
}

#[test]
fn decode_buffer_size_follows_the_bound() {
    for bound in [0, 1, 127, 128] {
        let mut buffer = DecodeBuffer::with_bound(bound);
        assert_eq!(buffer.as_mut_bytes().len(), 128);
        assert!(buffer.as_mut_bytes().iter().all(|b| *b == 0));
    }
    for bound in [129, 130, 4096] {
        let mut buffer = DecodeBuffer::with_bound(bound);
        assert_eq!(buffer.as_mut_bytes().len(), bound);
        assert!(buffer.as_mut_bytes().iter().all(|b| *b == 0));
    }
}

fn filled(bound: usize, bytes: &[u8]) -> DecodeBuffer {
    let mut buffer = DecodeBuffer::with_bound(bound);
    buffer.as_mut_bytes()[..bytes.len()].copy_from_slice(bytes);
    buffer
}

#[test]
fn filled_buffer_becomes_a_string_without_its_terminator() {
    for bound in [16, 300] {
        assert_eq!(filled(bound, b"abc\0").into_string(4), Some("abc".to_owned()));
        assert_eq!(filled(bound, b"\0").into_string(1), Some(String::new()));
        let text = "∀𝑥∈ℝ";
        let mut bytes = text.as_bytes().to_vec();
        bytes.push(0);
        assert_eq!(filled(bound, &bytes).into_string(bytes.len()), Some(text.to_owned()));
    }
}

#[test]
fn only_the_written_bytes_count() {
    for bound in [16, 300] {
        assert_eq!(filled(bound, b"abcdef\0").into_string(3), Some("ab".to_owned()));
        // Bytes behind the written ones are not looked at, valid or not.
        assert_eq!(filled(bound, b"ab\0\xff\xff").into_string(3), Some("ab".to_owned()));
    }
}

#[test]
fn nothing_written_is_no_string() {
    assert_eq!(filled(16, b"abc\0").into_string(0), None);
    assert_eq!(filled(300, b"abc\0").into_string(0), None);
}

#[test]
fn more_written_than_fits_is_no_string() {
    assert_eq!(DecodeBuffer::with_bound(16).into_string(129), None);
    assert_eq!(DecodeBuffer::with_bound(300).into_string(301), None);
    // The whole buffer may be used.
    assert_eq!(DecodeBuffer::with_bound(16).into_string(128), Some("\0".repeat(127)));
    assert_eq!(DecodeBuffer::with_bound(300).into_string(300), Some("\0".repeat(299)));
}

#[test]
fn invalid_utf8_is_no_string() {
    for bound in [16, 300] {
        // A lone continuation byte, a truncated sequence, an overlong form,
        // a surrogate, and a value past the last scalar.
        assert_eq!(filled(bound, b"a\x80\0").into_string(3), None);
        assert_eq!(filled(bound, b"\xe2\x88\0").into_string(3), None);
        assert_eq!(filled(bound, b"\xc0\x80\0").into_string(3), None);
        assert_eq!(filled(bound, b"\xed\xa0\x80\0").into_string(4), None);
        assert_eq!(filled(bound, b"\xf4\x90\x80\x80\0").into_string(5), None);
    }
}

use rjvm_vm::text::{decode_narrow, encode_utf16};

#[test]
fn a_char_below_0x10000_takes_one_code_unit() {
    assert_eq!(vec![0x48u16, 0x69], encode_utf16("Hi"));
    assert_eq!(vec![0x20acu16], encode_utf16("\u{20ac}"));
    assert_eq!(vec![0xffffu16], encode_utf16("\u{ffff}"));
    assert_eq!(vec![0u16], encode_utf16("\u{0}"));
}

#[test]
fn a_char_from_0x10000_on_takes_a_surrogate_pair() {
    assert_eq!(vec![0xd800u16, 0xdc00], encode_utf16("\u{10000}"));
    assert_eq!(vec![0xd834u16, 0xdd1e], encode_utf16("\u{1d11e}"));
    assert_eq!(vec![0xdbffu16, 0xdfff], encode_utf16("\u{10ffff}"));
}

#[test]
fn the_empty_text_has_no_code_units() {
    assert_eq!(Vec::<u16>::new(), encode_utf16(""));
    assert_eq!("", decode_narrow(&Vec::new()));
}

#[test]
fn encoding_agrees_with_the_standard_library() {
    for text in ["", "Hi", "java/lang/String", "h\u{e9}llo \u{4e16}\u{754c} \u{1f600}!"] {
        let expected: Vec<u16> = text.encode_utf16().collect();
        assert_eq!(expected, encode_utf16(text));
    }
}

#[test]
fn narrow_decoding_takes_the_low_byte_of_each_unit() {
    assert_eq!("Hi", decode_narrow(&vec![0x48, 0x69]));
    assert_eq!("\u{ac}", decode_narrow(&vec![0x20ac]));
    assert_eq!("A\u{ff}\u{0}", decode_narrow(&vec![0x41, 0xff, 0x100]));
}

#[test]
fn narrow_texts_are_read_back_as_written() {
    for text in ["", "Hi", "java/lang/Class", "caf\u{e9} \u{ff}\u{80}\u{7f}"] {
        assert_eq!(text, decode_narrow(&encode_utf16(text)));
    }
}

#[test]
fn wide_texts_are_not_read_back() {
    assert_eq!("\u{ac}", decode_narrow(&encode_utf16("\u{20ac}")));
    assert_eq!("\u{34}\u{1e}", decode_narrow(&encode_utf16("\u{1d11e}")));
}

use fast_fec_rust::fec::{collect_line_info, decode_line, LineInfo};

#[test]
fn fec_line_info_new_is_the_empty_line() {
    let info = LineInfo::new();
    assert!(!info.ascii28);
    assert!(info.ascii_only);
    assert!(info.valid_utf8);
    assert_eq!(info.length, 0);
}

#[test]
fn fec_collect_line_info_flags() {
    let info = collect_line_info(b"a\x1cb");
    assert!(info.ascii28 && info.ascii_only && info.valid_utf8);
    assert_eq!(info.length, 3);

    let info = collect_line_info("ni\u{f1}o".as_bytes());
    assert!(!info.ascii28 && !info.ascii_only && info.valid_utf8);
    assert_eq!(info.length, 5);

    // an unfinished scalar is not valid UTF-8
    let info = collect_line_info(&[0x41, 0xC3]);
    assert!(!info.valid_utf8);
    assert_eq!(info.length, 2);
}

#[test]
fn fec_decode_line_valid_and_fallback() {
    let (text, info) = decode_line("El Ni\u{f1}o".as_bytes());
    assert_eq!(text, "El Ni\u{f1}o");
    assert!(info.valid_utf8);
    assert_eq!(info.length, 8);

    let (text, info) = decode_line(&[0x48, 0x69, 0x20, 0xE9, 28]);
    assert_eq!(text, "Hi \u{e9}\u{1c}");
    assert!(!info.valid_utf8);
    assert!(info.ascii28);
    assert!(!info.ascii_only);
    assert_eq!(info.length, 5);

    let (text, info) = decode_line(b"");
    assert_eq!(text, "");
    assert!(info.valid_utf8 && info.ascii_only && !info.ascii28);
}

#[test]
fn fec_decode_agrees_with_encoding_decode() {
    let lines: Vec<Vec<u8>> = vec![
        b"abc".to_vec(),
        vec![0xF0, 0x28, 0x9F],
        vec![0xC3],
        "\u{20ac}".as_bytes().to_vec(),
        vec![0xE2, 0x82],
    ];
    for line in lines {
        let (text, info) = decode_line(&line);
        let (other, flag) = fast_fec_rust::encoding::decode_line(&line);
        assert_eq!(text, other);
        assert_eq!(info.ascii28, flag);
    }
}

use glyphrev::scan::{
    scan1, scan1_white, scan2, scan2_white, scan3, scan_alpha, scan_identifier, scan_integer,
    scan_nonneg_integer, scan_white_space, IdClass, LexClass, Scan, ScanBuffer, ScanRes,
};

fn buffer_of(bytes: &[u8]) -> ScanBuffer {
    ScanBuffer { chars: bytes.to_vec(), init: 0, start: 0, pos: 0 }
}

#[test]
fn lex_classes() {
    assert_eq!(LexClass::of(b' '), LexClass::Whitespace);
    assert_eq!(LexClass::of(b'\t'), LexClass::Whitespace);
    assert_eq!(LexClass::of(b'7'), LexClass::Numeric);
    assert_eq!(LexClass::of(b'g'), LexClass::Alpha);
    assert_eq!(LexClass::of(b'Q'), LexClass::Alpha);
    assert_eq!(LexClass::of(b'~'), LexClass::SepChar);
    assert_eq!(LexClass::of(b'-'), LexClass::SepChar);
    assert_eq!(LexClass::of(1), LexClass::Illegal);
    assert_eq!(LexClass::of(b'+'), LexClass::Other);
}

#[test]
fn id_classes() {
    assert_eq!(IdClass::of(b'a'), IdClass::LegalIdChar);
    assert_eq!(IdClass::of(b'5'), IdClass::LegalIdChar);
    assert_eq!(IdClass::of(b'_'), IdClass::LegalIdChar);
    assert_eq!(IdClass::of(b'"'), IdClass::IllegalIdChar);
    assert_eq!(IdClass::of(b'{'), IdClass::IllegalIdChar);
    assert_eq!(IdClass::of(b'='), IdClass::IllegalIdChar);
    assert_eq!(IdClass::of(b' '), IdClass::IllegalIdChar);
}

#[test]
fn match_char_combines_classes_and_bytes() {
    let chars = [b','];
    let scan = Scan::new(&chars).class(LexClass::Whitespace);
    assert!(scan.match_char(b','));
    assert!(scan.match_char(b' '));
    assert!(!scan.match_char(b'x'));
    let chars2: [u8; 0] = [];
    let not_alpha = Scan::new(&chars2).not_class(LexClass::Alpha);
    assert!(not_alpha.match_char(b'1'));
    assert!(!not_alpha.match_char(b'z'));
}

#[test]
fn scan1_finds_byte_and_sets_cursors() {
    let mut buf = buffer_of(b"hello,world");
    let last = buf.chars.len();
    assert!(scan1(b',', &mut buf, last));
    assert_eq!(buf.start, 0);
    assert_eq!(buf.pos, 5);
    // continue past the comma: no further comma, scan runs to last.
    buf.pos = 6;
    assert!(!scan1(b',', &mut buf, last));
    assert_eq!(buf.start, 6);
    assert_eq!(buf.pos, last);
}

#[test]
fn scan1_white_stops_at_whitespace_too() {
    let mut buf = buffer_of(b"ab cd,e");
    let last = buf.chars.len();
    assert!(scan1_white(b',', &mut buf, last));
    assert_eq!(buf.pos, 2);
}

#[test]
fn scan2_and_scan3_stop_at_any_given_byte() {
    let mut buf = buffer_of(b"abcxdef");
    let last = buf.chars.len();
    assert!(scan2(b'x', b'c', &mut buf, last));
    assert_eq!(buf.pos, 2);
    let mut buf = buffer_of(b"abcdef");
    assert!(scan3(b'f', b'e', b'd', &mut buf, 6));
    assert_eq!(buf.pos, 3);
}

#[test]
fn scan2_white_stops_at_whitespace_or_bytes() {
    let mut buf = buffer_of(b"ab d,e");
    let last = buf.chars.len();
    assert!(scan2_white(b',', b'd', &mut buf, last));
    assert_eq!(buf.pos, 2);
}

#[test]
fn scan_alpha_consumes_letter_run() {
    let mut buf = buffer_of(b"abc12");
    let last = buf.chars.len();
    assert!(scan_alpha(&mut buf, last));
    assert_eq!(buf.start, 0);
    assert_eq!(buf.pos, 3);
    // now at a digit: no letters to consume.
    assert!(!scan_alpha(&mut buf, last));
    assert_eq!(buf.pos, 3);
}

#[test]
fn scan_white_space_skips_blanks() {
    let mut buf = buffer_of(b"   x");
    let last = buf.chars.len();
    assert!(scan_white_space(&mut buf, last));
    assert_eq!(buf.pos, 3);
    let mut buf = buffer_of(b"    ");
    assert!(!scan_white_space(&mut buf, 4));
    assert_eq!(buf.pos, 4);
}

#[test]
fn scan_nonneg_integer_consumes_digit_run() {
    let mut buf = buffer_of(b"123x");
    let last = buf.chars.len();
    assert!(scan_nonneg_integer(&mut buf, last));
    assert_eq!(buf.pos, 3);
    assert!(!scan_nonneg_integer(&mut buf, last));
}

#[test]
fn scan_identifier_classifies_stop() {
    let mut buf = buffer_of(b"name=value");
    let last = buf.chars.len();
    let res = scan_identifier(b'=', b'#', b'#', &mut buf, last);
    assert!(matches!(res, ScanRes::SpecifiedCharAdjacent));
    assert_eq!(buf.start, 0);
    assert_eq!(buf.pos, 4);

    let mut buf = buffer_of(b"name value");
    let res = scan_identifier(b'=', b'#', b'#', &mut buf, 10);
    assert!(matches!(res, ScanRes::WhitespaceAdjacent));
    assert_eq!(buf.pos, 4);

    let mut buf = buffer_of(b"name");
    let res = scan_identifier(b'=', b'#', b'#', &mut buf, 4);
    assert!(matches!(res, ScanRes::WhitespaceAdjacent));

    let mut buf = buffer_of(b"name\"x");
    let res = scan_identifier(b'=', b'#', b'#', &mut buf, 6);
    assert!(matches!(res, ScanRes::OtherCharAdjacent));

    // a leading digit scans nothing.
    let mut buf = buffer_of(b"1abc");
    let res = scan_identifier(b'=', b'#', b'#', &mut buf, 4);
    assert!(matches!(res, ScanRes::IdNull));
    assert_eq!(buf.pos, 0);

    let mut buf = buffer_of(b"{abc");
    let res = scan_identifier(b'=', b'#', b'#', &mut buf, 4);
    assert!(matches!(res, ScanRes::IdNull));
}

#[test]
fn scan_integer_parses_signed_decimals() {
    let mut value: i32 = 0;
    let mut buf = buffer_of(b"123 rest");
    assert!(scan_integer(&mut value, &mut buf, 8));
    assert_eq!(value, 123);
    assert_eq!(buf.pos, 3);

    let mut buf = buffer_of(b"-456,");
    assert!(scan_integer(&mut value, &mut buf, 5));
    assert_eq!(value, -456);
    assert_eq!(buf.pos, 4);

    // a lone minus sign consumes the sign but reports no integer.
    let mut buf = buffer_of(b"-x");
    assert!(!scan_integer(&mut value, &mut buf, 2));
    assert_eq!(value, 0);
    assert_eq!(buf.pos, 1);

    // no digits at all.
    let mut buf = buffer_of(b"xy");
    assert!(!scan_integer(&mut value, &mut buf, 2));
    assert_eq!(value, 0);
    assert_eq!(buf.pos, 0);
}

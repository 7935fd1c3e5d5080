use dual_pane::preview::{hexdump, is_probably_text, preview_of_bytes};
use dual_pane::window::compute_window_rows;

#[test]
fn empty_buffer_is_text() {
    assert!(is_probably_text(&[]));
    assert_eq!(preview_of_bytes(Vec::new()), Vec::<u8>::new());
}

#[test]
fn nul_byte_forces_hex_dump() {
    let mut data = b"mostly printable text".to_vec();
    data.push(0x00);
    assert!(!is_probably_text(&data));
    assert_eq!(preview_of_bytes(data.clone()), hexdump(&data));
}

#[test]
fn printable_ratio_boundary_is_strict() {
    // 86 printable of 100: ratio 0.86 > 0.85, still text.
    let mut data = vec![b'a'; 86];
    data.extend(std::iter::repeat(0x01u8).take(14));
    assert!(is_probably_text(&data));
    assert_eq!(preview_of_bytes(data.clone()), data);

    // 85 printable of 100: ratio 0.85 is not above the boundary, binary.
    let mut data2 = vec![b'a'; 85];
    data2.extend(std::iter::repeat(0x01u8).take(15));
    assert!(!is_probably_text(&data2));
    assert_eq!(preview_of_bytes(data2.clone()), hexdump(&data2));
}

#[test]
fn tabs_and_newlines_count_as_printable() {
    let data = b"line one\nline two\r\n\tindented".to_vec();
    assert!(is_probably_text(&data));
}

#[test]
fn hexdump_full_line_format() {
    let data: Vec<u8> = (0x41..0x51).collect(); // "ABCDEFGHIJKLMNOP"
    let expected = "00000000: 41 42 43 44 45 46 47 48  49 4a 4b 4c 4d 4e 4f 50  ABCDEFGHIJKLMNOP\n";
    assert_eq!(hexdump(&data), expected.as_bytes().to_vec());
}

#[test]
fn hexdump_partial_line_pads_cells() {
    let data = vec![0x51u8, 0x52u8, 0x00u8]; // "QR" plus one NUL
    let mut expected = String::new();
    expected.push_str("00000000: 51 52 00 ");
    // cells 3..=7 are absent: three spaces each
    for _ in 3..8 {
        expected.push_str("   ");
    }
    expected.push(' '); // the gap after the eighth cell
    for _ in 8..16 {
        expected.push_str("   ");
    }
    expected.push(' ');
    expected.push_str("QR.");
    expected.push('\n');
    assert_eq!(hexdump(&data), expected.as_bytes().to_vec());
}

#[test]
fn hexdump_second_line_offset() {
    let data = vec![0x61u8; 17];
    let out = hexdump(&data);
    let text = String::from_utf8(out).unwrap();
    let lines: Vec<&str> = text.lines().collect();
    assert_eq!(lines.len(), 2);
    assert!(lines[0].starts_with("00000000: "));
    assert!(lines[1].starts_with("00000010: 61 "));
    assert!(lines[0].ends_with("aaaaaaaaaaaaaaaa"));
    assert!(lines[1].ends_with(" a"));
}

#[test]
fn window_rows_from_pixels() {
    // Unmeasured viewport or row height: the fixed fallback.
    assert_eq!(compute_window_rows(0, 24), 10);
    assert_eq!(compute_window_rows(240, 0), 10);
    // Ordinary measurements: floor of the quotient, at least one.
    assert_eq!(compute_window_rows(240, 24), 10);
    assert_eq!(compute_window_rows(239, 24), 9);
    assert_eq!(compute_window_rows(23, 24), 1);
    assert_eq!(compute_window_rows(25, 24), 1);
    assert_eq!(compute_window_rows(48, 24), 2);
}

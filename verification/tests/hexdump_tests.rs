use microps::util::hexdump;

const BORDER: &str = "+------+-------------------------------------------------+------------------+\n";

fn as_text(bytes: Vec<u8>) -> String {
    String::from_utf8(bytes).unwrap()
}

#[test]
fn empty_input_renders_only_the_borders() {
    let out = hexdump(&[]);
    assert_eq!(as_text(out), format!("{}{}", BORDER, BORDER));
}

#[test]
fn short_row_is_padded_to_full_width() {
    let out = hexdump(b"ABC");
    let row = format!("| 0000 | 41 42 43 {}| ABC{} |\n", " ".repeat(39), " ".repeat(13));
    assert_eq!(as_text(out), format!("{}{}{}", BORDER, row, BORDER));
}

#[test]
fn second_row_starts_at_offset_sixteen() {
    let data: Vec<u8> = (0u8..17).collect();
    let out = hexdump(&data);
    let row1 = "| 0000 | 00 01 02 03 04 05 06 07 08 09 0a 0b 0c 0d 0e 0f | ................ |\n";
    let row2 = format!("| 0010 | 10 {}| .{} |\n", " ".repeat(45), " ".repeat(15));
    assert_eq!(as_text(out), format!("{}{}{}{}", BORDER, row1, row2, BORDER));
}

#[test]
fn only_graphic_bytes_show_in_the_ascii_column() {
    // Space and DEL sit just outside the graphic range and render as dots.
    let out = hexdump(&[0x20, 0x21, 0x7e, 0x7f]);
    let row = format!("| 0000 | 20 21 7e 7f {}| .!~.{} |\n", " ".repeat(36), " ".repeat(12));
    assert_eq!(as_text(out), format!("{}{}{}", BORDER, row, BORDER));
}

#[test]
fn full_row_has_no_padding() {
    let data: Vec<u8> = vec![0x41; 16];
    let out = hexdump(&data);
    let row = format!("| 0000 | {}| {} |\n", "41 ".repeat(16), "A".repeat(16));
    assert_eq!(as_text(out), format!("{}{}{}", BORDER, row, BORDER));
}

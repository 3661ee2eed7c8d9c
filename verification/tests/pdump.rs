use bootsim::pdump::{hex_dump, HexDump};

#[test]
fn samples() {
    "Hello".as_bytes().dump();
    "This is a much longer string".as_bytes().dump();
    "\x00\x01\x02\x03\x04\x05\x06\x07\x08\x09\x0a\x0b\x0c\x0d\x0e\x0f".as_bytes().dump();
}

#[test]
fn dump_of_short_line() {
    let text = "Hello".as_bytes().dump();
    let want = format!("{:06x} {:-49} |{}|\n", 0, " 48 65 6c 6c 6f", "Hello");
    assert_eq!(text, want);
    assert_eq!(
        text,
        "000000  48 65 6c 6c 6f                                   |Hello|\n"
    );
}

#[test]
fn dump_of_two_lines() {
    let text = "This is a much longer string".as_bytes().to_vec().dump();
    assert_eq!(
        text,
        "000000  54 68 69 73 20 69 73 20  61 20 6d 75 63 68 20 6c |This is a much l|\n\
         000010  6f 6e 67 65 72 20 73 74  72 69 6e 67             |onger string|\n"
    );
}

#[test]
fn dump_of_unprintable_bytes() {
    let bytes: Vec<u8> = (0u8..16).collect();
    assert_eq!(
        hex_dump(&bytes),
        "000000  00 01 02 03 04 05 06 07  08 09 0a 0b 0c 0d 0e 0f |................|\n"
    );
    assert_eq!(hex_dump(&[0x7e, 0x7f, 0x20, 0x1f, 0xff]),
        "000000  7e 7f 20 1f ff                                   |~. ..|\n");
}

#[test]
fn dump_of_nothing_is_empty() {
    assert_eq!(hex_dump(&[]), "");
}

#[test]
fn dump_offsets_count_in_sixteens() {
    let bytes = vec![0x41u8; 33];
    let text = hex_dump(&bytes);
    let lines: Vec<&str> = text.lines().collect();
    assert_eq!(lines.len(), 3);
    assert!(lines[0].starts_with("000000 "));
    assert!(lines[1].starts_with("000010 "));
    assert!(lines[2].starts_with("000020  41 "));
    assert!(lines[2].ends_with("|A|"));
}

use virtualcli::code;
use virtualcli::Op;

#[test]
fn erase_entire_display_bytes() {
    assert_eq!(code(&[Op::EraseEntireDisplay]), b"\x1b[2J".to_vec());
}

#[test]
fn resize_emits_no_bytes() {
    assert_eq!(code(&[Op::Resize(80, 24)]), Vec::<u8>::new());
}

#[test]
fn put_ascii_is_literal() {
    assert_eq!(code(&[Op::Put('X')]), b"X".to_vec());
}

#[test]
fn put_multibyte_is_utf8() {
    assert_eq!(code(&[Op::Put('\u{2500}')]), vec![0xE2, 0x94, 0x80]);
    assert_eq!(code(&[Op::Put('\u{e9}')]), vec![0xC3, 0xA9]);
    assert_eq!(code(&[Op::Put('\u{1F600}')]), vec![0xF0, 0x9F, 0x98, 0x80]);
}

#[test]
fn cursor_position_is_one_based_decimal() {
    assert_eq!(code(&[Op::CursorPosition(0, 0)]), b"\x1b[1;1H".to_vec());
    assert_eq!(code(&[Op::CursorPosition(11, 99)]), b"\x1b[12;100H".to_vec());
}

#[test]
fn operations_concatenate_in_order() {
    let ops = [Op::EraseEntireDisplay, Op::CursorPosition(1, 1), Op::Put('a'), Op::Put('b')];
    assert_eq!(code(&ops), b"\x1b[2J\x1b[2;2Hab".to_vec());
}

#[test]
fn encoding_is_deterministic() {
    let ops = [
        Op::CursorPosition(3, 7),
        Op::Put('k'),
        Op::Resize(10, 10),
        Op::EraseEntireDisplay,
    ];
    assert_eq!(code(&ops), code(&ops));
}

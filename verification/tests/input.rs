use virtualcli::Decoder;
use virtualcli::Key;

#[test]
fn escape_bracket_a_is_arrow_up() {
    let mut d = Decoder::new();
    assert_eq!(d.feed(0x1b), Ok(vec![]));
    assert_eq!(d.feed(b'['), Ok(vec![]));
    assert_eq!(d.feed(b'A'), Ok(vec![Key::Up]));
}

#[test]
fn all_recognized_final_bytes() {
    for (fin, key) in [
        (b'3', Key::Del),
        (b'4', Key::End),
        (b'A', Key::Up),
        (b'B', Key::Down),
        (b'C', Key::Right),
        (b'D', Key::Left),
        (b'H', Key::Home),
    ] {
        let mut d = Decoder::new();
        assert_eq!(d.feed(0x1b), Ok(vec![]));
        assert_eq!(d.feed(b'['), Ok(vec![]));
        assert_eq!(d.feed(fin), Ok(vec![key]));
    }
}

#[test]
fn unrecognized_final_byte_is_an_error() {
    let mut d = Decoder::new();
    assert_eq!(d.feed(0x1b), Ok(vec![]));
    assert_eq!(d.feed(b'['), Ok(vec![]));
    assert_eq!(d.feed(b'Z'), Err(b'Z'));
    // The pending buffer was discarded: decoding resynchronizes.
    assert_eq!(d.feed(b'x'), Ok(vec![Key::Chr('x')]));
}

#[test]
fn plain_bytes_are_literal_characters() {
    let mut d = Decoder::new();
    assert_eq!(d.feed(b'h'), Ok(vec![Key::Chr('h')]));
    assert_eq!(d.feed(b'i'), Ok(vec![Key::Chr('i')]));
}

#[test]
fn escape_followed_by_plain_byte_flushes_both() {
    let mut d = Decoder::new();
    assert_eq!(d.feed(0x1b), Ok(vec![]));
    assert_eq!(d.feed(b'x'), Ok(vec![Key::Chr('\u{1b}'), Key::Chr('x')]));
}

#[test]
fn escape_bracket_then_sequence_again() {
    let mut d = Decoder::new();
    assert_eq!(d.feed(0x1b), Ok(vec![]));
    assert_eq!(d.feed(b'['), Ok(vec![]));
    assert_eq!(d.feed(b'B'), Ok(vec![Key::Down]));
    assert_eq!(d.feed(0x1b), Ok(vec![]));
    assert_eq!(d.feed(b'['), Ok(vec![]));
    assert_eq!(d.feed(b'D'), Ok(vec![Key::Left]));
}

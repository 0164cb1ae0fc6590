use kodade_cli::event::KeyCode;
use kodade_cli::keys::{from_code, literal, parse, parse_all};

#[test]
fn key_names_cover_specials_and_chords() {
    assert_eq!(parse("Enter").unwrap(), b"\r");
    assert_eq!(parse("Escape").unwrap(), b"\x1b");
    assert_eq!(parse("F5").unwrap(), b"\x1b[15~");
    assert_eq!(parse("F12").unwrap(), b"\x1b[24~");
    assert_eq!(parse("Home").unwrap(), b"\x1b[H");
    assert_eq!(parse("End").unwrap(), b"\x1b[F");
    assert_eq!(parse("PageUp").unwrap(), b"\x1b[5~");
    assert_eq!(parse("PageDown").unwrap(), b"\x1b[6~");
    assert_eq!(parse("Delete").unwrap(), b"\x1b[3~");
    assert_eq!(parse("Insert").unwrap(), b"\x1b[2~");
    assert_eq!(parse("C-c").unwrap(), vec![3]);
    assert_eq!(parse("M-x").unwrap(), b"\x1bx");
    assert_eq!(parse("M-Enter").unwrap(), b"\x1b\r");
}

#[test]
fn literal_text_passes_through_but_bad_key_names_error() {
    assert_eq!(parse("npm test").unwrap(), b"npm test");
    assert_eq!(parse("y").unwrap(), b"y");
    // Looks like a key name, is not one: better to fail than to type it.
    assert!(parse("Entr").is_err());
    assert!(parse("C-ctrl").is_err());
    assert!(parse("M-Nope").is_err());
    // The escape hatch for capitalized text.
    assert_eq!(literal(&vec!["Hello".into(), "world".into()]), b"Hello world");
}

#[test]
fn arguments_concatenate_in_order() {
    assert_eq!(
        parse_all(&["npm test".into(), "Enter".into()]).unwrap(),
        b"npm test\r"
    );
}

#[test]
fn key_codes_and_names_agree() {
    // The TUI and `send-keys` must produce identical bytes for a key.
    assert_eq!(
        from_code(KeyCode::PageUp).unwrap(),
        parse("PageUp").unwrap()
    );
    assert_eq!(from_code(KeyCode::F(7)).unwrap(), parse("F7").unwrap());
    assert_eq!(
        from_code(KeyCode::Delete).unwrap(),
        parse("Delete").unwrap()
    );
    assert!(from_code(KeyCode::F(13)).is_none());
}

#[test]
fn meta_is_an_escape_before_the_key() {
    let mut plain = parse("C-x").unwrap();
    plain.insert(0, 27);
    assert_eq!(parse("M-C-x").unwrap(), plain);
    assert_eq!(parse("Tab").unwrap(), b"\t");
    assert_eq!(parse("Space").unwrap(), b" ");
}

#[test]
fn one_bad_name_spoils_the_arguments() {
    let error = parse_all(&["Enter".into(), "Entr".into()]).unwrap_err();
    assert!(error.contains("Entr"), "{error}");
}

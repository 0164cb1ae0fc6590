use kodade_cli::paste::{chunks, sanitize, wrap, CHUNK_SIZE};

#[test]
fn sanitize_strips_osc52_attack_and_controls() {
    // An OSC 52 clipboard write embedded in otherwise plain text.
    let attack = "safe\x1b]52;c;ZXZpbA==\x07 text\x00\x07 end";
    assert_eq!(sanitize(attack), "safe text end");
}

#[test]
fn sanitize_strips_csi_and_keeps_tabs_newlines() {
    // CSI cursor move dropped; tab and newline kept.
    let input = "a\x1b[2J\tb\r\nc\rd";
    assert_eq!(sanitize(input), "a\tb\ncd");
}

#[test]
fn sanitize_normalizes_crlf() {
    assert_eq!(sanitize("one\r\ntwo\r\n"), "one\ntwo\n");
}

#[test]
fn wrap_brackets_or_translates_newlines() {
    assert_eq!(wrap("hi\nthere", true), b"\x1b[200~hi\nthere\x1b[201~");
    assert_eq!(wrap("hi\nthere", false), b"hi\rthere".to_vec());
}

#[test]
fn chunks_split_a_large_paste() {
    // A 200 KB paste splits into 64 KB chunks with the tail preserved.
    let bytes = vec![b'x'; 200 * 1024];
    let parts = chunks(&bytes, CHUNK_SIZE);
    assert_eq!(parts.len(), 4);
    assert_eq!(parts[0].len(), CHUNK_SIZE);
    assert_eq!(parts[3].len(), 200 * 1024 - 3 * CHUNK_SIZE);
    assert_eq!(parts.iter().map(Vec::len).sum::<usize>(), bytes.len());
    assert!(chunks(&[], CHUNK_SIZE).is_empty());
}

#[test]
fn large_paste_round_trips_through_sanitize() {
    // 200 KB of plain text passes sanitize untouched and wraps once bracketed.
    let text = "a".repeat(200 * 1024);
    let clean = sanitize(&text);
    assert_eq!(clean.len(), text.len());
    let wrapped = wrap(&clean, true);
    assert_eq!(chunks(&wrapped, CHUNK_SIZE).len(), 4);
}

#[test]
fn clean_text_is_kept_as_it_is() {
    let text = "plain\ttext\nwith ümlauts";
    assert_eq!(sanitize(text), text);
    let once = sanitize("a\x1b[31mb\x1bPq\x1b\\c");
    assert_eq!(sanitize(&once), once);
}

#[test]
fn chunks_give_the_paste_back() {
    let bytes: Vec<u8> = (0..10).collect();
    let parts = chunks(&bytes, 4);
    assert!(parts[..parts.len() - 1].iter().all(|part| part.len() == 4));
    assert_eq!(parts, vec![vec![0, 1, 2, 3], vec![4, 5, 6, 7], vec![8, 9]]);
    assert_eq!(parts.concat(), bytes);
}

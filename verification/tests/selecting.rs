use kodade_cli::event::{KeyModifiers, MouseButton, MouseEventKind};
use kodade_cli::proto::{PaneId, Screen};
use kodade_cli::selection::{link_at, sgr_mouse, Selection, SelectionMode};

fn screen(contents: &str) -> Screen {
    Screen {
        contents: contents.into(),
        ..Screen::default()
    }
}

#[test]
fn char_selection_spans_lines_and_includes_the_head_cell() {
    let screen = screen("hello world\nsecond line");
    let mut selection = Selection::new(PaneId(1), (0, 6), SelectionMode::Char, &screen);
    selection.set_head((1, 2), &screen);
    assert_eq!(selection.text(&screen), "world\nsec");
    assert!(selection.contains(0, 6));
    assert!(!selection.contains(0, 5));
    assert!(selection.contains(1, 2));
    assert!(!selection.contains(1, 3));
}

#[test]
fn reversed_drag_selects_the_same_text() {
    let screen = screen("hello world\nsecond line");
    let mut forward = Selection::new(PaneId(1), (0, 6), SelectionMode::Char, &screen);
    forward.set_head((1, 2), &screen);
    let mut backward = Selection::new(PaneId(1), (1, 2), SelectionMode::Char, &screen);
    backward.set_head((0, 6), &screen);
    assert_eq!(forward.text(&screen), backward.text(&screen));
}

#[test]
fn word_selection_expands_both_ends() {
    let screen = screen("run ./build.sh now");
    // Double-click in the middle of `./build.sh` grabs the whole token.
    let selection = Selection::new(PaneId(1), (0, 7), SelectionMode::Word, &screen);
    assert_eq!(selection.text(&screen), "./build.sh");
    // Dragging on to the next word keeps whole words at both ends.
    let mut dragged = selection.clone();
    dragged.set_head((0, 16), &screen);
    assert_eq!(dragged.text(&screen), "./build.sh now");
    // A click on whitespace selects just that cell.
    let space = Selection::new(PaneId(1), (0, 3), SelectionMode::Word, &screen);
    assert_eq!(space.text(&screen), " ");
}

#[test]
fn line_selection_takes_whole_lines() {
    let screen = screen("first\nsecond\nthird");
    let mut selection = Selection::new(PaneId(1), (0, 3), SelectionMode::Line, &screen);
    assert_eq!(selection.text(&screen), "first");
    selection.set_head((1, 1), &screen);
    assert_eq!(selection.text(&screen), "first\nsecond");
    assert!(selection.contains(1, 5));
    assert!(!selection.contains(2, 0));
}

#[test]
fn a_press_and_release_on_one_cell_is_a_click() {
    let screen = screen("abc");
    let mut selection = Selection::new(PaneId(1), (0, 1), SelectionMode::Char, &screen);
    assert!(selection.is_click());
    selection.set_head((0, 2), &screen);
    assert!(!selection.is_click());
}

#[test]
fn links_are_extracted_and_trimmed() {
    let screen = screen("see (https://example.com/a_b). done\nno link here");
    assert_eq!(
        link_at(&screen, 0, 12).as_deref(),
        Some("https://example.com/a_b")
    );
    assert_eq!(link_at(&screen, 1, 3), None);
    assert_eq!(link_at(&screen, 0, 200), None);
}

#[test]
fn sgr_encoding_matches_the_1006_protocol() {
    let control = KeyModifiers {
        shift: false,
        control: true,
        alt: false,
    };
    assert_eq!(
        sgr_mouse(
            MouseEventKind::Down(MouseButton::Left),
            KeyModifiers::none(),
            0,
            0
        ),
        b"\x1b[<0;1;1M".to_vec()
    );
    assert_eq!(
        sgr_mouse(
            MouseEventKind::Up(MouseButton::Right),
            KeyModifiers::none(),
            4,
            9
        ),
        b"\x1b[<2;5;10m".to_vec()
    );
    assert_eq!(
        sgr_mouse(MouseEventKind::Drag(MouseButton::Left), control, 1, 1),
        b"\x1b[<48;2;2M".to_vec()
    );
    assert_eq!(
        sgr_mouse(MouseEventKind::ScrollUp, KeyModifiers::none(), 2, 3),
        b"\x1b[<64;3;4M".to_vec()
    );
}

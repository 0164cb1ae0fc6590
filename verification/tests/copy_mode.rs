use kodade_cli::mode::{
    menu_hit, menu_origin_x, osc52, CopyMode, Cursor, Menu, MenuTarget, Search, SelectKind,
    OSC52_LIMIT,
};
use kodade_cli::proto::PaneId;

fn copy(lines: &[&str], height: usize) -> CopyMode {
    CopyMode::new(
        PaneId(1),
        lines.iter().map(|s| s.to_string()).collect(),
        height,
    )
}

#[test]
fn char_and_line_selection_yank_the_right_text() {
    let mut cm = copy(&["abc", "def"], 4);
    cm.cursor = Cursor { row: 0, col: 1 };
    cm.anchor = Some(cm.cursor);
    cm.select = SelectKind::Char;
    cm.cursor = Cursor { row: 1, col: 2 };
    assert_eq!(cm.yank_text(), "bc\nde");
    cm.select = SelectKind::Line;
    assert_eq!(cm.yank_text(), "abc\ndef");
}

#[test]
fn block_selection_yanks_a_column_range() {
    let mut cm = copy(&["abcd", "efgh", "ijkl"], 4);
    cm.cursor = Cursor { row: 0, col: 1 };
    cm.anchor = Some(cm.cursor);
    cm.select = SelectKind::Block;
    cm.cursor = Cursor { row: 2, col: 3 };
    assert_eq!(cm.yank_text(), "bc\nfg\njk");
}

#[test]
fn word_motions_handle_punctuation_and_spaces() {
    let mut cm = copy(&["foo   bar.baz"], 4);
    cm.cursor = Cursor { row: 0, col: 0 };
    cm.next_word(false);
    assert_eq!(cm.cursor.col, 6, "w skips the run of spaces to 'bar'");
    cm.next_word(false);
    assert_eq!(cm.cursor.col, 9, "w stops on the '.' punctuation");
    cm.next_word(false);
    assert_eq!(cm.cursor.col, 10, "w stops on 'baz'");
    cm.end_word(false);
    assert_eq!(cm.cursor.col, 12, "e lands on the last char of 'baz'");
    cm.prev_word(false);
    assert_eq!(cm.cursor.col, 10, "b returns to 'baz' start");
    cm.prev_word(true);
    assert_eq!(cm.cursor.col, 6, "B treats bar.baz as one WORD");
}

#[test]
fn word_motion_crosses_line_boundaries() {
    let mut cm = copy(&["foo", "bar"], 4);
    cm.cursor = Cursor { row: 0, col: 0 };
    cm.next_word(false);
    assert_eq!(
        (cm.cursor.row, cm.cursor.col),
        (1, 0),
        "w wraps to next line"
    );
}

#[test]
fn search_finds_and_steps_through_matches() {
    let mut cm = copy(&["alpha", "beta needle", "gamma NEEDLE end"], 4);
    cm.cursor = Cursor { row: 0, col: 0 };
    cm.set_search("needle", true);
    let hits = cm.search.as_ref().expect("search set").matches.len();
    assert_eq!(hits, 2, "case-insensitive match on both lines");
    cm.search_jump(true);
    assert_eq!((cm.cursor.row, cm.cursor.col), (1, 5));
    cm.search_jump(true);
    assert_eq!((cm.cursor.row, cm.cursor.col), (2, 6));
    cm.search_jump(true);
    assert_eq!(
        (cm.cursor.row, cm.cursor.col),
        (1, 5),
        "forward wraps around"
    );
    cm.search_jump(false);
    assert_eq!(
        (cm.cursor.row, cm.cursor.col),
        (2, 6),
        "backward wraps around"
    );
}

#[test]
fn search_reaches_deep_scrollback() {
    let mut lines: Vec<&str> = vec!["filler"; 3000];
    lines[2900] = "the needle here";
    let mut cm = copy(&lines, 24);
    cm.cursor = Cursor { row: 0, col: 0 };
    cm.set_search("needle", true);
    cm.search_jump(true);
    assert_eq!(cm.cursor.row, 2900);
    // The viewport followed the cursor 2900 lines back.
    assert!(cm.top <= 2900 && 2900 < cm.top + cm.height);
}

#[test]
fn osc52_encodes_and_limits() {
    assert_eq!(osc52("hi").0, "\x1b]52;c;aGk=\x07");
    assert!(osc52(&"a".repeat(OSC52_LIMIT + 1)).1);
}

#[test]
fn menu_hit_tests_popup_bounds() {
    let menu = Menu {
        target: MenuTarget::Pane(PaneId(1)),
        x: 3,
        y: 4,
        selected: 0,
    };
    assert_eq!(menu_hit(&menu, 4, 6, 80), Some(2));
    assert_eq!(menu_hit(&menu, 20, 4, 80), None);
}

#[test]
fn menu_flips_left_near_the_right_edge() {
    // With room to the right the menu opens at the click column.
    assert_eq!(menu_origin_x(3, 80), 3);
    // x + 14 past the edge flips the menu left of the click.
    assert_eq!(menu_origin_x(70, 80), 56);
    let menu = Menu {
        target: MenuTarget::Pane(PaneId(1)),
        x: 70,
        y: 4,
        selected: 0,
    };
    // Hit-testing agrees with the flipped origin (56..70), not 70..84.
    assert_eq!(menu_hit(&menu, 57, 4, 80), Some(0));
    assert_eq!(menu_hit(&menu, 71, 4, 80), None);
}

#[test]
fn motions_stay_inside_the_buffer() {
    let mut cm = copy(&["  one", "", "three"], 2);
    assert_eq!((cm.cursor.row, cm.top), (2, 1));
    cm.goto_top();
    assert_eq!((cm.cursor.row, cm.top), (0, 0));
    cm.goto_first_nonblank();
    assert_eq!(cm.cursor.col, 2);
    cm.goto_line_end();
    cm.move_cols(9);
    assert_eq!(cm.cursor.col, 5);
    cm.move_rows(-4);
    assert_eq!(cm.cursor.row, 0);
    cm.paragraph(true);
    assert_eq!(cm.cursor.row, 1);
    cm.goto_bottom();
    cm.half_page(false);
    assert_eq!(cm.cursor.row, 1);
    cm.page(true);
    assert_eq!(cm.cursor.row, 2);
}

#[test]
fn matches_come_in_reading_order() {
    let mut cm = copy(&["aa a", "ba"], 4);
    cm.set_search("a", true);
    let found = cm.search.as_ref().expect("search set");
    let at: Vec<(usize, usize)> = found.matches.iter().map(|c| (c.row, c.col)).collect();
    assert_eq!(at, vec![(0, 0), (0, 1), (0, 3), (1, 1)]);
    assert_eq!(cm.search_spans(0), vec![(0, 1), (1, 2), (3, 4)]);
}

#[test]
fn refreshed_text_keeps_the_cursor_in_range() {
    let mut cm = copy(&["one", "two", "three"], 2);
    cm.refresh(vec!["only".to_string()], 2);
    assert_eq!(cm.cursor.row, 0);
    cm.refresh(Vec::new(), 0);
    assert_eq!((cm.line_count(), cm.height), (1, 1));
}

#[test]
fn a_refreshed_search_keeps_its_query() {
    let mut cm = CopyMode::new(PaneId(1), vec!["Aa aA".into()], 4);
    cm.set_search("AA", false);
    assert_eq!(cm.search_spans(0), vec![(0, 2), (3, 5)]);
    cm.refresh(vec!["none".into(), "xAAAa".into()], 4);
    let search = cm.search.as_ref().expect("a search");
    assert_eq!(search.query, "aa");
    assert!(!search.forward);
    assert_eq!(cm.search_spans(0), vec![]);
    assert_eq!(cm.search_spans(1), vec![(1, 3), (3, 5)]);
    cm.clear_search();
    assert_eq!(cm.search_spans(1), vec![]);
    cm.refresh(vec!["one".into(), "two".into()], usize::MAX);
    assert_eq!((cm.top, cm.height), (0, usize::MAX));
    assert_eq!(cm.shown_lines(), vec!["one", "two"]);
}

#[test]
fn a_refresh_searches_for_the_stored_query_anew() {
    let mut cm = CopyMode::new(PaneId(1), vec!["ab".into()], 4);
    cm.search = Some(Search { query: "AB".into(), forward: true, matches: Vec::new() });
    cm.refresh(vec!["xab".into()], 4);
    let search = cm.search.as_ref().expect("a search");
    assert_eq!((search.query.as_str(), search.forward), ("ab", true));
    assert_eq!(cm.search_spans(0), vec![(1, 3)]);
    cm.search = Some(Search { query: String::new(), forward: true, matches: Vec::new() });
    cm.refresh(vec!["xab".into()], 4);
    assert!(cm.search.is_none());
    cm.set_search("ÄB", false);
    cm.refresh(vec!["xäb".into()], 4);
    assert_eq!(cm.search_spans(0), vec![(1, 3)]);
}

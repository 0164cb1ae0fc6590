use kodade_cli::event::{KeyCode, KeyEvent, KeyModifiers};
use kodade_cli::geometry::Rect;
use kodade_cli::overlay::{
    clip, contains, fit_row, list_area, overlay_key, overlay_rect, render_overlay, render_picker,
    row_at, window_start, BoxView, Overlay, OverlayEvent, OverlayRow, OverlayTarget,
};
use kodade_cli::theme::{Color, Theme};
use ratatui::text::Span;

fn key(code: KeyCode) -> KeyEvent {
    KeyEvent {
        code,
        modifiers: KeyModifiers::none(),
    }
}

fn overlay() -> Overlay {
    Overlay::new(
        "settings",
        (0..5)
            .map(|index| {
                OverlayRow::new(
                    format!("row {index}"),
                    "on".to_string(),
                    OverlayTarget::Index(index),
                )
            })
            .collect(),
    )
}

#[test]
fn movement_clamps_and_selects() {
    let mut overlay = overlay();
    assert_eq!(
        overlay_key(&mut overlay, key(KeyCode::Up)),
        OverlayEvent::Moved
    );
    assert_eq!(overlay.selected, 0);
    for _ in 0..10 {
        overlay_key(&mut overlay, key(KeyCode::Down));
    }
    assert_eq!(overlay.selected, 4);
    assert_eq!(
        overlay_key(&mut overlay, key(KeyCode::Enter)),
        OverlayEvent::Select
    );
    assert_eq!(overlay.current().unwrap().target, OverlayTarget::Index(4));
    assert_eq!(
        overlay_key(&mut overlay, key(KeyCode::Esc)),
        OverlayEvent::Cancel
    );
}

#[test]
fn vi_keys_move_only_without_a_filter() {
    let mut overlay = overlay();
    overlay_key(&mut overlay, key(KeyCode::Char('j')));
    assert_eq!(overlay.selected, 1);
    assert_eq!(
        overlay_key(&mut overlay, key(KeyCode::Char('q'))),
        OverlayEvent::Cancel
    );

    overlay.filter = Some(String::new());
    assert_eq!(
        overlay_key(&mut overlay, key(KeyCode::Char('j'))),
        OverlayEvent::Filtered
    );
    assert_eq!(overlay.selected, 1);
    assert_eq!(overlay.filter.as_deref(), Some("j"));
    overlay_key(&mut overlay, key(KeyCode::Char('q')));
    assert_eq!(overlay.filter.as_deref(), Some("jq"));
    assert_eq!(
        overlay_key(&mut overlay, key(KeyCode::Backspace)),
        OverlayEvent::Filtered
    );
    assert_eq!(overlay.filter.as_deref(), Some("j"));
    // ctrl+n / ctrl+p keep working while filtering.
    assert_eq!(
        overlay_key(
            &mut overlay,
            KeyEvent {
                code: KeyCode::Char('n'),
                modifiers: KeyModifiers {
                    shift: false,
                    control: true,
                    alt: false,
                },
            }
        ),
        OverlayEvent::Moved
    );
    assert_eq!(overlay.selected, 2);
}

#[test]
fn window_follows_the_selection_and_clicks_hit_rows() {
    let mut overlay = Overlay::new(
        "long",
        (0..20)
            .map(|index| {
                OverlayRow::new(
                    format!("row {index}"),
                    String::new(),
                    OverlayTarget::Index(index),
                )
            })
            .collect(),
    );
    assert_eq!(window_start(0, 5), 0);
    assert_eq!(window_start(4, 5), 0);
    assert_eq!(window_start(9, 5), 5);
    // A click maps to the row drawn under it, scrolled window included.
    let area = Rect::new(0, 0, 40, 12);
    overlay.selected = 19;
    let rect = overlay_rect(area, &overlay);
    let list = list_area(rect, &overlay);
    let first = row_at(area, &overlay, rect.x + 2, list.y).expect("row under the click");
    assert_eq!(first, window_start(19, list.height as usize));
    // Outside the box, and on the border, there is no row.
    assert!(row_at(area, &overlay, 0, 0).is_none());
    assert!(row_at(area, &overlay, rect.x, rect.y).is_none());
    assert!(contains(area, &overlay, rect.x, rect.y));
    assert!(!contains(area, &overlay, 0, 0));
}

#[test]
fn wide_labels_are_cut_by_the_cells_they_take() {
    // Each of these characters takes two cells.
    assert_eq!(clip("日本語", 5), ("日本".to_string(), 4));
    assert_eq!(clip("abc", 2), ("ab".to_string(), 2));
    let row = OverlayRow::new(
        " 日本語のとても長いラベルです日本語のとても長いラベルです".to_string(),
        "オン ".to_string(),
        OverlayTarget::Index(0),
    );
    let fitted = fit_row(&row, 20);
    let taken: usize = fitted
        .label
        .chars()
        .chain(fitted.hint.chars())
        .map(|c| if c.is_ascii() { 1 } else { 2 })
        .sum();
    assert!(taken + fitted.pad <= 20, "{taken}");
}

fn theme() -> Theme {
    let color = |n: u8| Color::Rgb(n, n, n);
    Theme {
        name: "test".into(),
        accent: color(1),
        border: color(2),
        text: color(3),
        dim: color(4),
        blocked: color(5),
        working: color(6),
        done: color(7),
        idle: color(8),
        tabbar_bg: color(9),
        status_bg: color(10),
        bg: color(11),
        surface: color(12),
        selection: color(13),
        cursor: color(14),
        menu_bg: color(15),
        menu_fg: color(16),
        tab_active_fg: color(17),
        tab_active_bg: color(18),
        sidebar_bg: color(19),
        ansi: (0..16).map(|n| Color::Rgb(0, n, 0)).collect(),
    }
}

/// Every line of a box as plain text.
fn texts(view: &BoxView) -> Vec<String> {
    view.lines
        .iter()
        .map(|line| line.spans.iter().map(|span| span.text.as_str()).collect())
        .collect()
}

#[test]
fn wide_characters_stay_inside_the_border() {
    let overlay = Overlay::new(
        "テーマ",
        vec![OverlayRow::new(
            " 日本語のとても長いラベルです日本語のとても長いラベルです".to_string(),
            "オン ".to_string(),
            OverlayTarget::Index(0),
        )],
    );
    let view = render_overlay(Rect::new(0, 0, 30, 8), &overlay, &theme());
    let rect = overlay_rect(Rect::new(0, 0, 30, 8), &overlay);
    // The right border survives: the label was clipped by display width.
    let right = rect.x + rect.width - 1;
    let list = list_area(rect, &overlay);
    assert_eq!(view.lines[0].area.y, list.y);
    let cells: usize = view.lines[0]
        .spans
        .iter()
        .map(|span| Span::raw(span.text.as_str()).width())
        .sum();
    assert_eq!(list.x + cells as u16, right);
}

#[test]
fn renders_a_centered_box_with_the_selection_visible() {
    let theme = theme();
    let mut overlay = overlay();
    overlay.selected = 4;
    let view = render_overlay(Rect::new(0, 0, 40, 12), &overlay, &theme);
    assert!(view.title.contains("settings"));
    assert!(texts(&view).iter().any(|line| line.contains("row 4")));
    // The box is centered: the first row stays empty.
    assert!(view.area.y > 0 && view.area.x > 0);
    let selected = view.lines.last().expect("a line");
    assert_eq!(selected.spans[0].style.bg, Some(theme.accent));
    assert_eq!(view.lines[0].spans[0].style.bg, Some(theme.menu_bg));
}

#[test]
fn marks_lead_the_rows_of_a_picker() {
    let theme = theme();
    let mut overlay = overlay();
    overlay.filter = Some("row".to_string());
    overlay.selected = 1;
    let marks = vec![("● ", theme.blocked); 5];
    let view = render_picker(Rect::new(0, 0, 40, 12), &overlay, &theme, &marks);
    let lines = texts(&view);
    assert_eq!(lines[0], "> row");
    assert!(lines[1].starts_with("● row 0") && lines[1].ends_with("on"));
    assert_eq!(view.lines[1].spans[0].style.fg, Some(theme.blocked));
    assert_eq!(view.lines[1].spans[3].style.fg, Some(theme.dim));
    assert_eq!(view.lines[2].spans[0].style.bg, Some(theme.accent));
    let width = view.lines[1].area.width as usize;
    assert_eq!(Span::raw(lines[1].as_str()).width(), width);
}

#[test]
fn a_hint_keeps_its_cells_unless_it_would_take_them_all() {
    let row = OverlayRow::new(
        "a label much longer than the box".to_string(),
        "alt+x".to_string(),
        OverlayTarget::Index(0),
    );
    let fitted = fit_row(&row, 24);
    assert_eq!(fitted.label, "a label much longer");
    assert_eq!((fitted.pad, fitted.hint.as_str()), (0, "alt+x"));
    let fitted = fit_row(&row, 6);
    assert_eq!((fitted.label.as_str(), fitted.hint.as_str()), ("a", "alt+x"));
    // Here the hint alone would fill the row.
    let fitted = fit_row(&row, 5);
    assert_eq!((fitted.label.as_str(), fitted.hint.as_str()), ("a lab", ""));
    let row = OverlayRow::new("ab".to_string(), "12345".to_string(), OverlayTarget::Nothing);
    let fitted = fit_row(&row, 4);
    assert_eq!((fitted.label.as_str(), fitted.hint.as_str()), ("ab", "12"));
    assert_eq!(fitted.pad, 0);
}

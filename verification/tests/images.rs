use kodade_cli::geometry::Rect;
use kodade_cli::graphics::{clip, brought, supported, upload, Key, Loaded, Renderer};
use kodade_cli::proto::{
    AgentStateKind, ImageData, ImagePlacement, LayoutSnapshot, LayoutTree, PaneId, PaneSnapshot,
    Screen, ServerMessage, TabId, WorkspaceId,
};

#[test]
fn crop_scrolled_image_to_pane_without_changing_pixel_scale() {
    let source = ImagePlacement {
        image: 1,
        revision: 1,
        placement: 1,
        row: -2,
        col: 3,
        cols: 8,
        rows: 8,
        source_x: 0,
        source_y: 0,
        source_width: 80,
        source_height: 80,
        z: 0,
    };
    let (cropped, rect) = clip(&source, Rect::new(20, 4, 10, 4)).unwrap();
    assert_eq!(rect, Rect::new(23, 4, 7, 4));
    assert_eq!(
        (
            cropped.source_x,
            cropped.source_y,
            cropped.source_width,
            cropped.source_height
        ),
        (0, 20, 70, 40)
    );
    assert!(clip(&source, Rect::new(0, 0, 2, 4)).is_none());
}
#[test]
fn host_upload_uses_owned_ids_and_bounded_quiet_chunks() {
    let mut output = Vec::new();
    upload(
        &mut output,
        500,
        &ImageData {
            id: 7,
            revision: 1,
            format: 24,
            width: 2000,
            height: 1,
            data: "A".repeat(8000),
        },
    );
    let output = String::from_utf8(output).unwrap();
    assert!(output.starts_with("\x1b_Ga=t,t=d,f=24,s=2000,v=1,i=500,q=2,m=1;"));
    assert!(output.contains("\x1b_Gm=0,q=2;"));
    assert_eq!(output.matches("\x1b\\").count(), 2);
}

#[test]
fn images_are_asked_for_once_and_drawn_when_they_come() {
    assert!(!supported(
        &Some("off".to_string()),
        &Some("xterm-kitty".to_string()),
        &None
    ));
    let placement = ImagePlacement {
        image: 7,
        revision: 1,
        placement: 1,
        row: 0,
        col: 0,
        cols: 2,
        rows: 2,
        source_x: 0,
        source_y: 0,
        source_width: 2,
        source_height: 1,
        z: 0,
    };
    let layout = LayoutSnapshot {
        active_workspace: WorkspaceId(1),
        active_tab: TabId(2),
        workspaces: vec![],
        tabs: vec![],
        tree: LayoutTree::Leaf { pane: PaneId(3) },
        panes: vec![PaneSnapshot {
            id: PaneId(3),
            title: "zsh".into(),
            focused: true,
            scroll_offset: 0,
            screen: Screen {
                graphics: vec![placement],
                ..Screen::default()
            },
            agent: None,
            agent_generation: 0,
            activity_revision: 0,
            state: AgentStateKind::Idle,
            state_reason: String::new(),
            state_age_secs: 0,
            cwd: None,
        }],
        zoomed: false,
        restored: false,
    };
    let rects = vec![(PaneId(3), Rect::new(0, 0, 20, 10))];
    let mut renderer = Renderer::new(true);
    let (_, asked) = renderer.draw("s", Some(&layout), &rects, Vec::new(), 0);
    assert_eq!(asked.len(), 1);
    let (_, again) = renderer.draw("s", Some(&layout), &rects, Vec::new(), 1);
    assert!(again.is_empty());
    let image = ImageData {
        id: 7,
        revision: 1,
        format: 24,
        width: 2,
        height: 1,
        data: "AAAAAAAA".into(),
    };
    let key = Key {
        socket: "s".into(),
        pane: PaneId(3),
        image: 7,
        revision: 1,
    };
    let loaded = vec![Loaded {
        key,
        image: Some(image),
    }];
    let (bytes, _) = renderer.draw("s", Some(&layout), &rects, loaded, 2);
    let drawn = String::from_utf8(bytes).unwrap();
    assert!(drawn.contains("a=t"), "{drawn}");
    assert!(!renderer.clear().is_empty());
    assert!(renderer.assets.is_empty());
}

#[test]
fn only_sound_images_of_the_right_revision_are_taken() {
    let key = Key {
        socket: "s".into(),
        pane: PaneId(3),
        image: 7,
        revision: 1,
    };
    let image = || ImageData {
        id: 7,
        revision: 1,
        format: 24,
        width: 2,
        height: 1,
        data: "AAAAAAAA".into(),
    };
    let reply = |pane: u64, image: ImageData| ServerMessage::Image {
        pane: PaneId(pane),
        image,
    };
    assert_eq!(brought(&key, reply(3, image()), 64, None), Some(image()));
    // Another pane, another revision, too large, not base64, or not enough pixels.
    assert_eq!(brought(&key, reply(4, image()), 64, None), None);
    assert_eq!(brought(&key, reply(3, ImageData { revision: 2, ..image() }), 64, None), None);
    assert_eq!(brought(&key, reply(3, image()), 5, None), None);
    assert_eq!(brought(&key, reply(3, ImageData { data: "AAAA=AAA".into(), ..image() }), 64, None), None);
    assert_eq!(brought(&key, reply(3, ImageData { width: 3, ..image() }), 64, None), None);
    // A PNG has the dimensions that it is declared to have.
    let png = ImageData { format: 100, ..image() };
    assert_eq!(brought(&key, reply(3, png.clone()), 64, Some((2, 1))), Some(png.clone()));
    assert_eq!(brought(&key, reply(3, png), 64, Some((1, 2))), None);
    assert_eq!(brought(&key, ServerMessage::Shutdown, 64, None), None);
}

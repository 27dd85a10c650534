use oxwm::atom::WmProtocols;
use oxwm::client::ClientState;
use oxwm::drag::{begin_drag, drag_geometry, Corner, Drag, DragType};
use oxwm::hints::{Dimensions, SizeHints};
use oxwm::request::WindowChanges;

fn state(x: i16, y: i16, width: u16, height: u16, hints: SizeHints) -> ClientState {
    ClientState {
        x,
        y,
        width,
        height,
        is_viewable: true,
        wm_protocols: WmProtocols::new(),
        wm_state: None,
        wm_normal_hints: hints,
    }
}

/// Apply the changes as the server would confirm them.
fn confirm(st: &ClientState, ch: &WindowChanges) -> ClientState {
    ClientState {
        x: ch.x.map(|v| v as i16).unwrap_or(st.x),
        y: ch.y.map(|v| v as i16).unwrap_or(st.y),
        width: ch.width.map(|v| v as u16).unwrap_or(st.width),
        height: ch.height.map(|v| v as u16).unwrap_or(st.height),
        ..*st
    }
}

fn pinned(c: Corner, st: &ClientState) -> (i32, i32) {
    let right = st.x as i32 + st.width as i32;
    let bottom = st.y as i32 + st.height as i32;
    match c {
        Corner::LeftTop => (right, bottom),
        Corner::LeftBottom => (right, st.y as i32),
        Corner::RightTop => (st.x as i32, bottom),
        Corner::RightBottom => (st.x as i32, st.y as i32),
    }
}

#[test]
fn begin_drag_picks_kind_and_corner() {
    let st = state(100, 100, 400, 300, SizeHints::new());
    let mv = begin_drag(7, 1, 30, 40, &st).unwrap();
    assert_eq!(mv, Drag { type_: DragType::Move, window: 7, x: 30, y: 40 });
    let lt = begin_drag(7, 3, 10, 10, &st).unwrap();
    assert_eq!(lt, Drag { type_: DragType::Resize(Corner::LeftTop), window: 7, x: 10, y: 10 });
    let lb = begin_drag(7, 3, 10, 290, &st).unwrap();
    assert_eq!(lb, Drag { type_: DragType::Resize(Corner::LeftBottom), window: 7, x: 10, y: -10 });
    let rt = begin_drag(7, 3, 390, 10, &st).unwrap();
    assert_eq!(rt, Drag { type_: DragType::Resize(Corner::RightTop), window: 7, x: -10, y: 10 });
    let rb = begin_drag(7, 3, 200, 150, &st).unwrap();
    assert_eq!(rb, Drag { type_: DragType::Resize(Corner::RightBottom), window: 7, x: -200, y: -150 });
    assert_eq!(begin_drag(7, 2, 10, 10, &st), None);
}

#[test]
fn move_follows_the_pointer() {
    let st = state(100, 100, 400, 300, SizeHints::new());
    let d = begin_drag(7, 1, 30, 40, &st).unwrap();
    let ch = drag_geometry(&d, &st, 500, 600);
    assert_eq!(ch, WindowChanges { x: Some(470), y: Some(560), ..WindowChanges::new() });
}

#[test]
fn resize_bottom_right_extends_from_origin() {
    let st = state(100, 100, 400, 300, SizeHints::new());
    // Pressed exactly on the bottom-right corner (root 500, 400).
    let d = begin_drag(7, 3, 400, 300, &st).unwrap();
    let ch = drag_geometry(&d, &st, 600, 450);
    assert_eq!(ch, WindowChanges { width: Some(500), height: Some(350), ..WindowChanges::new() });
}

#[test]
fn resize_top_left_grows_and_clamps_keeping_bottom_right() {
    let st = state(100, 100, 400, 300, SizeHints::new());
    let d = begin_drag(7, 3, 0, 0, &st).unwrap();
    let grow = drag_geometry(&d, &st, 50, 80);
    assert_eq!(
        grow,
        WindowChanges { x: Some(50), y: Some(80), width: Some(450), height: Some(320), ..WindowChanges::new() }
    );
    // Dragged far past the opposite corner: clamped to the 256 minimum, pinned.
    let shrink = drag_geometry(&d, &st, 490, 390);
    assert_eq!(
        shrink,
        WindowChanges { x: Some(244), y: Some(144), width: Some(256), height: Some(256), ..WindowChanges::new() }
    );
}

#[test]
fn opposite_corner_stays_pinned_across_samples() {
    let hints = SizeHints {
        min_size: Some(Dimensions { width: 125, height: 94 }),
        max_size: Some(Dimensions { width: 705, height: 500 }),
        base_size: Some(Dimensions { width: 5, height: 3 }),
        size_increment: Some(Dimensions { width: 10, height: 7 }),
    };
    let samples: [(i16, i16); 6] = [(0, 0), (900, 900), (-400, -400), (305, 222), (120, 80), (1500, -30)];
    for (px, py) in [(5i16, 5i16), (5, 295), (395, 5), (395, 295)] {
        let mut st = state(200, 150, 400, 300, hints);
        let d = begin_drag(9, 3, px, py, &st).unwrap();
        let corner = match d.type_ {
            DragType::Resize(c) => c,
            DragType::Move => panic!("expected a resize"),
        };
        let start = pinned(corner, &st);
        for (rx, ry) in samples.iter() {
            let ch = drag_geometry(&d, &st, *rx, *ry);
            st = confirm(&st, &ch);
            assert_eq!(pinned(corner, &st), start);
            // The bounds lie on the resize grid, so snapping stays within them.
            assert!(st.width >= 125 && st.width <= 705);
            assert!(st.height >= 94 && st.height <= 500);
            assert_eq!((st.width - 5) % 10, 0);
            assert_eq!((st.height - 3) % 7, 0);
        }
    }
}

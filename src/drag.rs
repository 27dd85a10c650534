//! Interactive move and resize: the drag state and the geometry that each
//! pointer sample asks for.
use vstd::prelude::*;
use crate::atom::Window;
use crate::client::ClientState;
use crate::hints::SizeHints;
use crate::request::WindowChanges;

verus! {

/// The corner of a window that a resize drags.
#[derive(PartialEq, Eq, Structural, Clone, Copy, Debug)]
pub enum Corner {
    LeftTop,
    LeftBottom,
    RightTop,
    RightBottom,
}

/// What a drag does.
#[derive(PartialEq, Eq, Structural, Clone, Copy, Debug)]
pub enum DragType {
    Move,
    Resize(Corner),
}

/// An active drag.
#[derive(PartialEq, Eq, Structural, Clone, Copy, Debug)]
pub struct Drag {
    /// The kind of drag.
    pub type_: DragType,
    /// The window being dragged.
    pub window: Window,
    /// Horizontal position of the pointer relative to the dragged corner.
    pub x: i32,
    /// Vertical position of the pointer relative to the dragged corner.
    pub y: i32,
}

/// A window's geometry as whole numbers: (x, y, width, height).
pub type Geometry = (int, int, int, int);

impl Corner {
    /// Whether the corner is on the left edge.
    pub open spec fn is_left(self) -> bool {
        self is LeftTop || self is LeftBottom
    }

    /// Whether the corner is on the top edge.
    pub open spec fn is_top(self) -> bool {
        self is LeftTop || self is RightTop
    }

    /// The corner nearest to a point given relative to the window's origin.
    pub open spec fn nearest_spec(x: int, y: int, width: int, height: int) -> Corner {
        let right = x >= width / 2;
        let bottom = y >= height / 2;
        if !right && !bottom {
            Corner::LeftTop
        } else if !right {
            Corner::LeftBottom
        } else if !bottom {
            Corner::RightTop
        } else {
            Corner::RightBottom
        }
    }

    /// The corner's position relative to the window's origin.
    pub open spec fn relative_spec(self, width: int, height: int) -> (int, int) {
        (if self.is_left() {
            0
        } else {
            width
        }, if self.is_top() {
            0
        } else {
            height
        })
    }

    /// The corner's position relative to the window's origin.
    pub fn relative(&self, st: &ClientState) -> (r: (i32, i32))
        ensures
            (r.0 as int, r.1 as int) == self.relative_spec(st.width as int, st.height as int),
    {
        match self {
            Corner::LeftTop => (0, 0),
            Corner::LeftBottom => (0, st.height as i32),
            Corner::RightTop => (st.width as i32, 0),
            Corner::RightBottom => (st.width as i32, st.height as i32),
        }
    }
}

/// The corner that a resize drag holds still: the one diagonally opposite
/// the dragged corner.
pub open spec fn pinned_corner(c: Corner, g: Geometry) -> (int, int) {
    (if c.is_left() {
        g.0 + g.2
    } else {
        g.0
    }, if c.is_top() {
        g.1 + g.3
    } else {
        g.1
    })
}

/// The geometry that a resize from corner `c` asks for when the dragged
/// corner is at `p`: the far edges stay, the size is fitted to the hints,
/// and the dragged edges follow the fitted size.
pub open spec fn resize_geometry(c: Corner, hints: SizeHints, g: Geometry, p: (int, int)) -> Geometry {
    let right = g.0 + g.2;
    let bottom = g.1 + g.3;
    let w = if c.is_left() {
        hints.fit_width_spec(right - p.0)
    } else {
        hints.fit_width_spec(p.0 - g.0)
    };
    let h = if c.is_top() {
        hints.fit_height_spec(bottom - p.1)
    } else {
        hints.fit_height_spec(p.1 - g.1)
    };
    (if c.is_left() {
        right - w
    } else {
        g.0
    }, if c.is_top() {
        bottom - h
    } else {
        g.1
    }, w, h)
}

/// The geometry after a sequence of samples, each confirmed before the next.
pub open spec fn resize_through(
    c: Corner,
    hints: SizeHints,
    g: Geometry,
    samples: Seq<(int, int)>,
) -> Geometry
    decreases samples.len(),
{
    if samples.len() == 0 {
        g
    } else {
        resize_through(c, hints, resize_geometry(c, hints, g, samples[0]), samples.drop_first())
    }
}

/// The drag, if any, that a press of `button` at (x, y) relative to the
/// window starts: button 1 moves, button 3 resizes from the nearest corner.
pub open spec fn drag_for_press(
    window: Window,
    button: u8,
    x: i16,
    y: i16,
    width: u16,
    height: u16,
) -> Option<Drag> {
    if button == 1 {
        Some(Drag { type_: DragType::Move, window, x: x as i32, y: y as i32 })
    } else if button == 3 {
        let c = Corner::nearest_spec(x as int, y as int, width as int, height as int);
        let o = c.relative_spec(width as int, height as int);
        Some(Drag { type_: DragType::Resize(c), window, x: (x - o.0) as i32, y: (y - o.1) as i32 })
    } else {
        None
    }
}

/// The changes that a pointer sample at (root_x, root_y) asks for.
pub open spec fn drag_changes(d: Drag, st: ClientState, root_x: i16, root_y: i16) -> WindowChanges {
    let px = root_x - d.x;
    let py = root_y - d.y;
    match d.type_ {
        DragType::Move => WindowChanges { x: Some(px as i32), y: Some(py as i32), ..WindowChanges::none() },
        DragType::Resize(c) => {
            let g = resize_geometry(
                c,
                st.wm_normal_hints,
                (st.x as int, st.y as int, st.width as int, st.height as int),
                (px, py),
            );
            WindowChanges {
                x: if c.is_left() {
                    Some(g.0 as i32)
                } else {
                    None
                },
                y: if c.is_top() {
                    Some(g.1 as i32)
                } else {
                    None
                },
                width: Some(g.2 as u32),
                height: Some(g.3 as u32),
                ..WindowChanges::none()
            }
        },
    }
}

/// Start a drag for a press of `button` at (x, y) relative to the window.
pub fn begin_drag(window: Window, button: u8, x: i16, y: i16, st: &ClientState) -> (r: Option<Drag>)
    ensures
        r == drag_for_press(window, button, x, y, st.width, st.height),
{
    let type_ = if button == 1 {
        DragType::Move
    } else if button == 3 {
        let right = x as i32 >= (st.width / 2) as i32;
        let bottom = y as i32 >= (st.height / 2) as i32;
        let c = if !right && !bottom {
            Corner::LeftTop
        } else if !right {
            Corner::LeftBottom
        } else if !bottom {
            Corner::RightTop
        } else {
            Corner::RightBottom
        };
        DragType::Resize(c)
    } else {
        return None;
    };
    let (cx, cy) = match type_ {
        DragType::Move => (0i32, 0i32),
        DragType::Resize(c) => c.relative(st),
    };
    Some(Drag { type_, window, x: x as i32 - cx, y: y as i32 - cy })
}

/// The changes that a pointer sample asks for during a drag.
pub fn drag_geometry(d: &Drag, st: &ClientState, root_x: i16, root_y: i16) -> (r: WindowChanges)
    requires
        -100000 <= d.x <= 100000,
        -100000 <= d.y <= 100000,
    ensures
        r == drag_changes(*d, *st, root_x, root_y),
{
    let px: i32 = root_x as i32 - d.x;
    let py: i32 = root_y as i32 - d.y;
    match d.type_ {
        DragType::Move => WindowChanges { x: Some(px), y: Some(py), ..WindowChanges::new() },
        DragType::Resize(c) => {
            let right: i32 = st.x as i32 + st.width as i32;
            let bottom: i32 = st.y as i32 + st.height as i32;
            let left = c == Corner::LeftTop || c == Corner::LeftBottom;
            let top = c == Corner::LeftTop || c == Corner::RightTop;
            let want_w: i64 = if left {
                right as i64 - px as i64
            } else {
                px as i64 - st.x as i64
            };
            let want_h: i64 = if top {
                bottom as i64 - py as i64
            } else {
                py as i64 - st.y as i64
            };
            let (w, h) = st.wm_normal_hints.fit_size(want_w, want_h);
            WindowChanges {
                x: if left {
                    Some(right - w as i32)
                } else {
                    None
                },
                y: if top {
                    Some(bottom - h as i32)
                } else {
                    None
                },
                width: Some(w as u32),
                height: Some(h as u32),
                ..WindowChanges::new()
            }
        },
    }
}

/// A resize never moves the corner opposite the dragged one, whatever
/// clamping or snapping the hints cause.
pub proof fn lemma_corner_pinned(c: Corner, hints: SizeHints, g: Geometry, p: (int, int))
    ensures
        pinned_corner(c, resize_geometry(c, hints, g, p)) == pinned_corner(c, g),
{
}

/// Corner pin: across any sequence of pointer samples, each confirmed
/// before the next, the corner opposite the dragged one stays where it was.
pub proof fn lemma_corner_pinned_through(
    c: Corner,
    hints: SizeHints,
    g: Geometry,
    samples: Seq<(int, int)>,
)
    ensures
        pinned_corner(c, resize_through(c, hints, g, samples)) == pinned_corner(c, g),
    decreases samples.len(),
{
    if samples.len() > 0 {
        lemma_corner_pinned(c, hints, g, samples[0]);
        lemma_corner_pinned_through(
            c,
            hints,
            resize_geometry(c, hints, g, samples[0]),
            samples.drop_first(),
        );
    }
}

/// A drag that a press starts keeps its offsets within the bounds that the
/// geometry computation needs.
pub proof fn lemma_press_offsets(window: Window, button: u8, x: i16, y: i16, width: u16, height: u16)
    ensures
        drag_for_press(window, button, x, y, width, height) matches Some(d) ==> -100000 <= d.x
            <= 100000 && -100000 <= d.y <= 100000,
{
}

} // verus!

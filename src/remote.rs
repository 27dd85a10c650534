//! The snapshot that the administrative interface reads: each top-level
//! window's geometry and name.
use vstd::prelude::*;
use std::collections::HashMap;
use crate::atom::Window;
use crate::control::Event;

verus! {

broadcast use vstd::std_specs::hash::group_hash_axioms;

/// A top-level window as the administrative interface reports it.
#[derive(Debug)]
pub struct Client {
    /// Horizontal position.
    pub x: i16,
    /// Vertical position.
    pub y: i16,
    /// Horizontal extent.
    pub width: u16,
    /// Vertical extent.
    pub height: u16,
    /// The window's WM_NAME, as read.
    pub name: Vec<u8>,
}

/// `b` is `a` with the geometry of `window` replaced and its name kept.
pub open spec fn geometry_set(
    a: Map<Window, Client>,
    b: Map<Window, Client>,
    window: Window,
    x: i16,
    y: i16,
    width: u16,
    height: u16,
) -> bool {
    &&& b.dom() == a.dom()
    &&& b[window].x == x
    &&& b[window].y == y
    &&& b[window].width == width
    &&& b[window].height == height
    &&& b[window].name@ == a[window].name@
    &&& forall|w: Window| w != window && #[trigger] a.contains_key(w) ==> b[w] == a[w]
}

/// A point-in-time snapshot of the windows, by window id.
#[derive(Debug)]
pub struct OxWMState {
    pub clients: HashMap<Window, Client>,
}

impl OxWMState {
    /// An empty snapshot.
    pub fn new() -> (r: OxWMState)
        ensures
            r.clients@ == Map::<Window, Client>::empty(),
    {
        OxWMState { clients: HashMap::new() }
    }

    /// Record a window with its geometry and name, replacing what was
    /// recorded for it.
    pub fn record(&mut self, window: Window, x: i16, y: i16, width: u16, height: u16, name: Vec<u8>)
        ensures
            final(self).clients@ == old(self).clients@.insert(
                window,
                Client { x, y, width, height, name },
            ),
    {
        self.clients.insert(window, Client { x, y, width, height, name });
    }

    /// Update the geometry of a recorded window, keeping its name; nothing
    /// happens for a window that is not recorded.
    pub fn set_geometry(&mut self, window: Window, x: i16, y: i16, width: u16, height: u16)
        ensures
            old(self).clients@.contains_key(window) ==> geometry_set(
                old(self).clients@,
                final(self).clients@,
                window,
                x,
                y,
                width,
                height,
            ),
            !old(self).clients@.contains_key(window) ==> final(self).clients@ == old(self).clients@,
    {
        let name = match self.clients.get(&window) {
            Some(c) => c.name.clone(),
            None => {
                return;
            },
        };
        self.clients.insert(window, Client { x, y, width, height, name });
        assert(self.clients@.dom() =~= old(self).clients@.dom());
    }

    /// Forget a window.
    pub fn forget(&mut self, window: Window)
        ensures
            final(self).clients@ == old(self).clients@.remove(window),
    {
        self.clients.remove(&window);
    }
    /// Whether following `ev` records a new window, and so needs its name.
    pub open spec fn needs_name_spec(ev: Event) -> bool {
        ev matches Event::CreateNotify { override_redirect, .. } && !override_redirect
    }

    /// Whether following `ev` records a new window, and so needs its name.
    pub fn needs_name(ev: &Event) -> (r: bool)
        ensures
            r == OxWMState::needs_name_spec(*ev),
    {
        match ev {
            Event::CreateNotify { override_redirect, .. } => !*override_redirect,
            _ => false,
        }
    }

    /// Follow one event: a managed window that is created is recorded with
    /// `name`, a configured window gets its new geometry, a destroyed one is
    /// forgotten; other events change nothing.
    pub fn follow(&mut self, ev: &Event, name: Vec<u8>)
        ensures
            match *ev {
                Event::CreateNotify { window, x, y, width, height, override_redirect } =>
                    if override_redirect {
                        final(self).clients@ == old(self).clients@
                    } else {
                        final(self).clients@ == old(self).clients@.insert(
                            window,
                            Client { x, y, width, height, name },
                        )
                    },
                Event::ConfigureNotify { window, x, y, width, height, .. } => if old(
                    self,
                ).clients@.contains_key(window) {
                    geometry_set(
                        old(self).clients@,
                        final(self).clients@,
                        window,
                        x,
                        y,
                        width,
                        height,
                    )
                } else {
                    final(self).clients@ == old(self).clients@
                },
                Event::DestroyNotify { window } => final(self).clients@ == old(
                    self,
                ).clients@.remove(window),
                _ => final(self).clients@ == old(self).clients@,
            },
    {
        match *ev {
            Event::CreateNotify { window, x, y, width, height, override_redirect } => {
                if !override_redirect {
                    self.record(window, x, y, width, height, name);
                }
            },
            Event::ConfigureNotify { window, x, y, width, height, .. } => {
                self.set_geometry(window, x, y, width, height);
            },
            Event::DestroyNotify { window } => {
                self.forget(window);
            },
            _ => {},
        }
    }
}

} // verus!

//! The event loop's decisions: for each event, how the local state changes
//! and which requests go to the server. The loop itself, which waits for
//! events and performs the requests, runs outside this library.
use vstd::prelude::*;
use crate::atom::{Atom, Atoms, ClientMessage, Window, WmProtocols, WmState, WmStateState};
use crate::client::{
    moved_above,
    moved_to_bottom,
    position,
    removed,
    tracks,
    with_state,
    Client,
    ClientState,
    Clients,
};
use crate::config::{Action, FocusModel, Keybinds};
use crate::drag::{begin_drag, drag_changes, drag_for_press, drag_geometry, lemma_press_offsets, Drag};
use crate::hints::SizeHints;
use crate::request::{StackMode, WindowChanges};

verus! {

/// A property of a client that the manager keeps a copy of.
#[derive(PartialEq, Eq, Structural, Clone, Copy, Debug)]
pub enum Property {
    WmProtocols,
    WmState,
    WmNormalHints,
}

/// A freshly read property value.
#[derive(PartialEq, Eq, Structural, Clone, Copy, Debug)]
pub enum PropertyValue {
    WmProtocols(WmProtocols),
    WmState(Option<WmState>),
    WmNormalHints(SizeHints),
}

/// An event from the server, with the fields that the manager reads.
#[derive(PartialEq, Eq, Structural, Clone, Copy, Debug)]
pub enum Event {
    ButtonPress { window: Window, button: u8, state: u16, event_x: i16, event_y: i16 },
    ButtonRelease,
    MotionNotify { root_x: i16, root_y: i16 },
    CreateNotify {
        window: Window,
        x: i16,
        y: i16,
        width: u16,
        height: u16,
        override_redirect: bool,
    },
    ConfigureNotify {
        window: Window,
        above_sibling: Window,
        x: i16,
        y: i16,
        width: u16,
        height: u16,
    },
    ConfigureRequest { window: Window, changes: WindowChanges },
    DestroyNotify { window: Window },
    EnterNotify { window: Window },
    FocusIn { window: Window },
    FocusOut,
    KeyPress { keycode: u8, child: Window },
    MapNotify { window: Window },
    MapRequest { window: Window },
    PropertyNotify { window: Window, atom: Atom },
    UnmapNotify { window: Window },
    Other,
}

/// A request for the connection to perform.
#[derive(PartialEq, Eq, Clone, Copy, Debug)]
pub enum Request {
    /// Give the input focus to a window.
    SetInputFocus(Window),
    /// Configure a window.
    Configure(Window, WindowChanges),
    /// Let the pointer event that the synchronous grab froze reach the client.
    ReplayPointer,
    /// Map a window.
    MapWindow(Window),
    /// Write a window's WM_STATE.
    SetWmState(Window, WmState),
    /// Send a client message.
    SendMessage(ClientMessage),
    /// Close a client's connection.
    KillClient(Window),
    /// Grab a pointer button on a window (synchronously or not).
    GrabButton { window: Window, button: u8, modifiers: u16, sync: bool },
    /// Select enter, focus and property events on a client window.
    SelectClientEvents(Window),
    /// Select substructure notify and redirect on the root window.
    SelectRootEvents(Window),
    /// Grab a key on the root window.
    GrabKey { keycode: u8, modifiers: u16 },
    /// Read a property of a window and hand it back.
    ReadProperty(Window, Property),
}

/// Raise a window to the top.
pub open spec fn raise(w: Window) -> Request {
    Request::Configure(w, WindowChanges { stack_mode: Some(StackMode::Above), ..WindowChanges::none() })
}

/// The WM_STATE that a managed window is given from its viewability.
pub open spec fn initial_wm_state(st: ClientState) -> WmState {
    WmState {
        state: if st.is_viewable {
            WmStateState::Normal
        } else {
            WmStateState::Withdrawn
        },
        icon: 0,
    }
}

/// The requests that start managing a window: a configure that fits its
/// size to its hints (only when that changes it), its initial WM_STATE, the
/// plain-click grab, the modifier grabs for move and resize, and its event
/// selection.
pub open spec fn manage_plan(window: Window, st: ClientState, mod_mask: u16) -> Seq<Request> {
    let w = st.wm_normal_hints.fit_width_spec(st.width as int);
    let h = st.wm_normal_hints.fit_height_spec(st.height as int);
    (if w != st.width || h != st.height {
        seq![
            Request::Configure(
                window,
                WindowChanges { width: Some(w as u32), height: Some(h as u32), ..WindowChanges::none() },
            ),
        ]
    } else {
        Seq::empty()
    }) + seq![
        Request::SetWmState(window, initial_wm_state(st)),
        Request::GrabButton { window, button: 1, modifiers: 0, sync: true },
        Request::GrabButton { window, button: 1, modifiers: mod_mask, sync: false },
        Request::GrabButton { window, button: 3, modifiers: mod_mask, sync: false },
        Request::SelectClientEvents(window),
    ]
}

/// The manage requests for every managed window of a stack, bottom first.
pub open spec fn adopt_plan(s: Seq<Client>, mod_mask: u16) -> Seq<Request>
    decreases s.len(),
{
    if s.len() == 0 {
        Seq::empty()
    } else {
        adopt_plan(s.drop_last(), mod_mask) + match s.last().state {
            Some(st) => manage_plan(s.last().window, st, mod_mask),
            None => Seq::empty(),
        }
    }
}

/// The topmost managed, viewable window among the lowest `n`, other than
/// `skip`.
pub open spec fn topmost_viewable(s: Seq<Client>, skip: Window, n: int) -> Option<Window>
    decreases n,
{
    if n <= 0 {
        None
    } else if s[n - 1].window != skip && (s[n - 1].state matches Some(st) && st.is_viewable) {
        Some(s[n - 1].window)
    } else {
        topmost_viewable(s, skip, n - 1)
    }
}

/// The window that takes the focus when the focused window `w` goes.
pub open spec fn refocus_target(s: Seq<Client>, w: Window) -> Option<Window> {
    topmost_viewable(s, w, s.len() as int)
}

/// A client as CreateNotify announces it.
pub open spec fn created_client(
    window: Window,
    x: i16,
    y: i16,
    width: u16,
    height: u16,
    override_redirect: bool,
) -> Client {
    Client {
        window,
        state: if override_redirect {
            None
        } else {
            Some(
                ClientState {
                    x,
                    y,
                    width,
                    height,
                    is_viewable: false,
                    wm_protocols: WmProtocols { take_focus: false, delete_window: false },
                    wm_state: None,
                    wm_normal_hints: SizeHints {
                        min_size: None,
                        max_size: None,
                        base_size: None,
                        size_increment: None,
                    },
                },
            )
        },
    }
}

/// The stack after ConfigureNotify reports that `w` is just above
/// `sibling` (0 for none: at the bottom). A sibling that is not tracked
/// leaves the order as it is.
pub open spec fn restacked(s: Seq<Client>, w: Window, sibling: Window) -> Seq<Client> {
    if sibling == 0 {
        moved_to_bottom(s, w)
    } else if tracks(s, sibling) && sibling != w {
        moved_above(s, w, sibling)
    } else {
        s
    }
}

/// The stack with the geometry of `w` replaced, where `w` is managed.
pub open spec fn with_geometry(
    s: Seq<Client>,
    w: Window,
    x: i16,
    y: i16,
    width: u16,
    height: u16,
) -> Seq<Client> {
    match s[position(s, w)].state {
        Some(st) => with_state(s, w, ClientState { x, y, width, height, ..st }),
        None => s,
    }
}

/// A ConfigureRequest's changes as the manager passes them on: for a
/// managed window a requested size is fitted to its hints (an axis not
/// requested keeps the current extent for the fitting).
pub open spec fn fitted_changes(ch: WindowChanges, m: Option<ClientState>) -> WindowChanges {
    match m {
        None => ch,
        Some(st) => {
            let w = st.wm_normal_hints.fit_width_spec(
                match ch.width {
                    Some(v) => v as int,
                    None => st.width as int,
                },
            );
            let h = st.wm_normal_hints.fit_height_spec(
                match ch.height {
                    Some(v) => v as int,
                    None => st.height as int,
                },
            );
            WindowChanges {
                width: if ch.width is Some {
                    Some(w as u32)
                } else {
                    None
                },
                height: if ch.height is Some {
                    Some(h as u32)
                } else {
                    None
                },
                ..ch
            }
        },
    }
}

/// The property that a PropertyNotify's atom names, if it is one that the
/// manager keeps.
pub open spec fn property_of(atoms: Atoms, atom: Atom) -> Option<Property> {
    if atom == atoms.wm_protocols {
        Some(Property::WmProtocols)
    } else if atom == atoms.wm_state {
        Some(Property::WmState)
    } else if atom == atoms.wm_normal_hints {
        Some(Property::WmNormalHints)
    } else {
        None
    }
}

/// A managed client's state with a property replaced.
pub open spec fn with_property(st: ClientState, v: PropertyValue) -> ClientState {
    match v {
        PropertyValue::WmProtocols(p) => ClientState { wm_protocols: p, ..st },
        PropertyValue::WmState(s) => ClientState { wm_state: s, ..st },
        PropertyValue::WmNormalHints(h) => ClientState { wm_normal_hints: h, ..st },
    }
}

/// ButtonPress: focus and raise the window; without the modifier replay the
/// click to the client, with it start a drag on a managed window.
pub open spec fn press_effect(
    a: Manager,
    b: Manager,
    window: Window,
    button: u8,
    state: u16,
    event_x: i16,
    event_y: i16,
    r: Seq<Request>,
) -> bool {
    let plain = state & a.mod_mask_spec() == 0;
    let started = match a.managed(window) {
        Some(st) => drag_for_press(window, button, event_x, event_y, st.width, st.height),
        None => None,
    };
    &&& r == seq![Request::SetInputFocus(window), raise(window)] + if plain {
        seq![Request::ReplayPointer]
    } else {
        Seq::empty()
    }
    &&& b.stack() == a.stack()
    &&& b.focused() == a.focused()
    &&& b.running() == a.running()
    &&& b.dragging() == if !plain && started is Some {
        started
    } else {
        a.dragging()
    }
}

/// MotionNotify: during a drag (whose window `wf` keeps managed), configure
/// the window to the geometry that the sample asks for.
pub open spec fn motion_effect(a: Manager, b: Manager, root_x: i16, root_y: i16, r: Seq<Request>) -> bool {
    &&& b.stack() == a.stack()
    &&& b.focused() == a.focused()
    &&& b.running() == a.running()
    &&& match a.dragging() {
        Some(d) => {
            &&& r == seq![
                Request::Configure(
                    d.window,
                    drag_changes(d, a.managed(d.window)->Some_0, root_x, root_y),
                ),
            ]
            &&& b.dragging() == a.dragging()
        },
        None => r == Seq::<Request>::empty() && b.dragging() is None,
    }
}

/// CreateNotify: track a new window on top and, if it is managed, manage it.
/// A window already tracked, or the root window, changes nothing.
pub open spec fn create_effect(
    a: Manager,
    b: Manager,
    c: Client,
    r: Seq<Request>,
) -> bool {
    if tracks(a.stack(), c.window) || c.window == a.root_spec() {
        b.same_state(a) && r == Seq::<Request>::empty()
    } else {
        &&& b.stack() == a.stack().push(c)
        &&& b.focused() == a.focused()
        &&& b.dragging() == a.dragging()
        &&& b.running() == a.running()
        &&& r == match c.state {
            Some(st) => manage_plan(c.window, st, a.mod_mask_spec()),
            None => Seq::empty(),
        }
    }
}

/// ConfigureNotify: follow the reported stacking and geometry.
pub open spec fn configure_notify_effect(
    a: Manager,
    b: Manager,
    window: Window,
    sibling: Window,
    x: i16,
    y: i16,
    width: u16,
    height: u16,
    r: Seq<Request>,
) -> bool {
    &&& r == Seq::<Request>::empty()
    &&& b.focused() == a.focused()
    &&& b.dragging() == a.dragging()
    &&& b.running() == a.running()
    &&& b.stack() == if tracks(a.stack(), window) {
        with_geometry(restacked(a.stack(), window, sibling), window, x, y, width, height)
    } else {
        a.stack()
    }
}

/// DestroyNotify: forget the window and its drag; if it had the focus, give
/// the focus to the topmost other viewable managed window.
pub open spec fn destroy_effect(a: Manager, b: Manager, window: Window, r: Seq<Request>) -> bool {
    &&& b.stack() == removed(a.stack(), window)
    &&& b.running() == a.running()
    &&& b.dragging() == match a.dragging() {
        Some(d) => if d.window == window {
            None
        } else {
            Some(d)
        },
        None => None,
    }
    &&& if a.focused() == Some(window) {
        &&& b.focused() == refocus_target(a.stack(), window)
        &&& r == match refocus_target(a.stack(), window) {
            Some(t) => seq![Request::SetInputFocus(t)],
            None => Seq::empty(),
        }
    } else {
        b.focused() == a.focused() && r == Seq::<Request>::empty()
    }
}

/// What the kill action sends for `child`: the polite WM_DELETE_WINDOW
/// message where the client supports it, else a forced kill; nothing for
/// an untracked window.
pub open spec fn kill_effect(a: Manager, child: Window, r: Seq<Request>) -> bool {
    if !tracks(a.stack(), child) {
        r == Seq::<Request>::empty()
    } else if a.managed(child) matches Some(st) && st.wm_protocols.delete_window {
        &&& r.len() == 1
        &&& r[0] matches Request::SendMessage(m)
        &&& m.window == child
        &&& m.message_type == a.atoms_spec().wm_protocols
        &&& m.data@ == seq![a.atoms_spec().wm_delete_window, 0u32, 0u32, 0u32, 0u32]
    } else {
        r == seq![Request::KillClient(child)]
    }
}

/// KeyPress: run the bound action, if any.
pub open spec fn key_effect(a: Manager, b: Manager, keycode: u8, child: Window, r: Seq<Request>) -> bool {
    &&& b.stack() == a.stack()
    &&& b.focused() == a.focused()
    &&& b.dragging() == a.dragging()
    &&& match a.binding(keycode) {
        None => b.running() == a.running() && r == Seq::<Request>::empty(),
        Some(Action::Quit) => !b.running() && r == Seq::<Request>::empty(),
        Some(Action::Kill) => b.running() == a.running() && kill_effect(a, child, r),
    }
}

/// MapNotify and UnmapNotify: mark a managed window viewable (or not) and
/// set its WM_STATE to Normal (or Withdrawn).
pub open spec fn viewable_effect(
    a: Manager,
    b: Manager,
    window: Window,
    viewable: bool,
    r: Seq<Request>,
) -> bool {
    &&& b.dragging() == a.dragging()
    &&& b.running() == a.running()
    &&& match a.managed(window) {
        Some(st) => {
            &&& b.stack() == with_state(a.stack(), window, ClientState { is_viewable: viewable, ..st })
            &&& r == seq![
                Request::SetWmState(
                    window,
                    WmState {
                        state: if viewable {
                            WmStateState::Normal
                        } else {
                            WmStateState::Withdrawn
                        },
                        icon: 0,
                    },
                ),
            ]
        },
        None => b.stack() == a.stack() && r == Seq::<Request>::empty(),
    }
}

/// The effect of one event.
pub open spec fn step_effect(a: Manager, b: Manager, ev: Event, r: Seq<Request>) -> bool {
    match ev {
        Event::ButtonPress { window, button, state, event_x, event_y } => press_effect(
            a,
            b,
            window,
            button,
            state,
            event_x,
            event_y,
            r,
        ),
        Event::ButtonRelease => {
            &&& b.stack() == a.stack()
            &&& b.focused() == a.focused()
            &&& b.running() == a.running()
            &&& b.dragging() is None
            &&& r == Seq::<Request>::empty()
        },
        Event::MotionNotify { root_x, root_y } => motion_effect(a, b, root_x, root_y, r),
        Event::CreateNotify { window, x, y, width, height, override_redirect } => create_effect(
            a,
            b,
            created_client(window, x, y, width, height, override_redirect),
            r,
        ),
        Event::ConfigureNotify { window, above_sibling, x, y, width, height } =>
            configure_notify_effect(a, b, window, above_sibling, x, y, width, height, r),
        Event::ConfigureRequest { window, changes } => {
            &&& b.same_state(a)
            &&& r == seq![Request::Configure(window, fitted_changes(changes, a.managed(window)))]
        },
        Event::DestroyNotify { window } => destroy_effect(a, b, window, r),
        Event::EnterNotify { window } => {
            &&& b.same_state(a)
            &&& r == if a.focus_model_spec() == FocusModel::Autofocus {
                seq![Request::SetInputFocus(window)]
            } else {
                Seq::empty()
            }
        },
        Event::FocusIn { window } => {
            &&& b.stack() == a.stack()
            &&& b.dragging() == a.dragging()
            &&& b.running() == a.running()
            &&& b.focused() == if tracks(a.stack(), window) {
                Some(window)
            } else {
                None
            }
            &&& r == Seq::<Request>::empty()
        },
        Event::FocusOut => {
            &&& b.stack() == a.stack()
            &&& b.dragging() == a.dragging()
            &&& b.running() == a.running()
            &&& b.focused() is None
            &&& r == Seq::<Request>::empty()
        },
        Event::KeyPress { keycode, child } => key_effect(a, b, keycode, child, r),
        Event::MapNotify { window } => b.focused() == a.focused() && viewable_effect(
            a,
            b,
            window,
            true,
            r,
        ),
        Event::MapRequest { window } => b.same_state(a) && r == seq![Request::MapWindow(window)],
        Event::PropertyNotify { window, atom } => {
            &&& b.same_state(a)
            &&& r == match (a.managed(window), property_of(a.atoms_spec(), atom)) {
                (Some(_), Some(p)) => seq![Request::ReadProperty(window, p)],
                _ => Seq::empty(),
            }
        },
        Event::UnmapNotify { window } => {
            &&& b.focused() == if a.focused() == Some(window) {
                None
            } else {
                a.focused()
            }
            &&& viewable_effect(a, b, window, false, r)
        },
        Event::Other => b.same_state(a) && r == Seq::<Request>::empty(),
    }
}

/// The requests that start managing a window.
pub fn manage_requests(window: Window, st: &ClientState, mod_mask: u16) -> (r: Vec<Request>)
    ensures
        r@ == manage_plan(window, *st, mod_mask),
{
    let mut r: Vec<Request> = Vec::new();
    let (w, h) = st.wm_normal_hints.fit_size(st.width as i64, st.height as i64);
    if w != st.width || h != st.height {
        r.push(
            Request::Configure(
                window,
                WindowChanges { width: Some(w as u32), height: Some(h as u32), ..WindowChanges::new() },
            ),
        );
    }
    let state = if st.is_viewable {
        WmStateState::Normal
    } else {
        WmStateState::Withdrawn
    };
    r.push(Request::SetWmState(window, WmState { state, icon: 0 }));
    r.push(Request::GrabButton { window, button: 1, modifiers: 0, sync: true });
    r.push(Request::GrabButton { window, button: 1, modifiers: mod_mask, sync: false });
    r.push(Request::GrabButton { window, button: 3, modifiers: mod_mask, sync: false });
    r.push(Request::SelectClientEvents(window));
    assert(r@ =~= manage_plan(window, *st, mod_mask));
    r
}

/// A window that the refocus scan finds is tracked and is not the one
/// skipped.
proof fn lemma_topmost_tracked(s: Seq<Client>, skip: Window, n: int)
    requires
        0 <= n <= s.len(),
    ensures
        topmost_viewable(s, skip, n) matches Some(t) ==> t != skip && tracks(s, t),
    decreases n,
{
    if n > 0 {
        lemma_topmost_tracked(s, skip, n - 1);
        assert(s[n - 1].window == s[n - 1].window);
    }
}

/// Scan from the top for the window that takes the focus from `skip`.
fn find_refocus_target(s: &Vec<Client>, skip: Window) -> (r: Option<Window>)
    ensures
        r == refocus_target(s@, skip),
{
    let mut i: usize = s.len();
    while i > 0
        invariant
            i <= s@.len(),
            refocus_target(s@, skip) == topmost_viewable(s@, skip, i as int),
        decreases i,
    {
        let c = s[i - 1];
        if c.window != skip {
            match c.state {
                Some(st) => {
                    if st.is_viewable {
                        return Some(c.window);
                    }
                },
                None => {},
            }
        }
        i -= 1;
    }
    None
}

/// The quit action: the loop stops after the current event; nothing else
/// changes.
pub fn quit(m: &mut Manager)
    requires
        old(m).wf(),
    ensures
        final(m).wf(),
        final(m).same_setup(*old(m)),
        !final(m).running(),
        final(m).stack() == old(m).stack(),
        final(m).focused() == old(m).focused(),
        final(m).dragging() == old(m).dragging(),
{
    m.keep_going = false;
}

/// The state of the window manager: its setup, the mirrored clients, the
/// active drag and the run flag.
#[derive(Debug)]
pub struct Manager {
    root: Window,
    atoms: Atoms,
    mod_mask: u16,
    focus_model: FocusModel,
    keybinds: Keybinds,
    clients: Clients,
    keep_going: bool,
    drag: Option<Drag>,
}

impl Manager {
    /// The mirrored stack, bottom to top.
    pub closed spec fn stack(&self) -> Seq<Client> {
        self.clients.stack_spec()
    }

    /// The focused window.
    pub closed spec fn focused(&self) -> Option<Window> {
        self.clients.focus_spec()
    }

    /// The active drag.
    pub closed spec fn dragging(&self) -> Option<Drag> {
        self.drag
    }

    /// Whether the loop goes on.
    pub closed spec fn running(&self) -> bool {
        self.keep_going
    }

    /// The root window.
    pub closed spec fn root_spec(&self) -> Window {
        self.root
    }

    /// The interned atoms.
    pub closed spec fn atoms_spec(&self) -> Atoms {
        self.atoms
    }

    /// The modifier mask of the manager's bindings.
    pub closed spec fn mod_mask_spec(&self) -> u16 {
        self.mod_mask
    }

    /// The focus model.
    pub closed spec fn focus_model_spec(&self) -> FocusModel {
        self.focus_model
    }

    /// The action bound to a keycode.
    pub closed spec fn binding(&self, k: u8) -> Option<Action> {
        self.keybinds.binding(k)
    }

    /// The keybindings.
    pub closed spec fn keybinds_spec(&self) -> Keybinds {
        self.keybinds
    }

    /// The invariant: the registry's and the keybindings' invariants, the
    /// root window never in the stack, and an active drag on a managed
    /// window with offsets within the bounds that a press can give.
    pub closed spec fn wf(&self) -> bool {
        &&& self.clients.wf()
        &&& !tracks(self.clients.stack_spec(), self.root)
        &&& self.keybinds.wf()
        &&& match self.drag {
            Some(d) => {
                &&& -100000 <= d.x <= 100000
                &&& -100000 <= d.y <= 100000
                &&& self.managed(d.window) is Some
            },
            None => true,
        }
    }

    /// The state of `w` where it is a tracked, managed window.
    pub open spec fn managed(&self, w: Window) -> Option<ClientState> {
        if tracks(self.stack(), w) {
            self.stack()[position(self.stack(), w)].state
        } else {
            None
        }
    }

    /// The setup is the same in both.
    pub open spec fn same_setup(&self, other: Manager) -> bool {
        &&& self.root_spec() == other.root_spec()
        &&& self.atoms_spec() == other.atoms_spec()
        &&& self.mod_mask_spec() == other.mod_mask_spec()
        &&& self.focus_model_spec() == other.focus_model_spec()
        &&& self.keybinds_spec() == other.keybinds_spec()
        &&& forall|k: u8| #[trigger] self.binding(k) == other.binding(k)
    }

    /// Stack, focus, drag and run flag are the same in both.
    pub open spec fn same_state(&self, other: Manager) -> bool {
        &&& self.stack() == other.stack()
        &&& self.focused() == other.focused()
        &&& self.dragging() == other.dragging()
        &&& self.running() == other.running()
    }

    /// A manager over the given setup and clients, running, with no drag.
    pub fn new(
        root: Window,
        atoms: Atoms,
        mod_mask: u16,
        focus_model: FocusModel,
        keybinds: Keybinds,
        clients: Clients,
    ) -> (r: Manager)
        requires
            clients.wf(),
            keybinds.wf(),
            !tracks(clients.stack_spec(), root),
        ensures
            r.wf(),
            r.root_spec() == root,
            r.atoms_spec() == atoms,
            r.mod_mask_spec() == mod_mask,
            r.focus_model_spec() == focus_model,
            forall|k: u8| #[trigger] r.binding(k) == keybinds.binding(k),
            r.stack() == clients.stack_spec(),
            r.focused() == clients.focus_spec(),
            r.dragging() is None,
            r.running(),
    {
        Manager {
            root,
            atoms,
            mod_mask,
            focus_model,
            keybinds,
            clients,
            keep_going: true,
            drag: None,
        }
    }

    /// The mirrored clients.
    pub fn clients(&self) -> (r: &Clients)
        requires
            self.wf(),
        ensures
            r.wf(),
            r.stack_spec() == self.stack(),
            r.focus_spec() == self.focused(),
    {
        &self.clients
    }

    /// The active drag.
    pub fn drag(&self) -> (r: Option<Drag>)
        ensures
            r == self.dragging(),
    {
        self.drag
    }

    /// Whether the loop should go on.
    pub fn keep_going(&self) -> (r: bool)
        ensures
            r == self.running(),
    {
        self.keep_going
    }

    /// The root window.
    pub fn root(&self) -> (r: Window)
        ensures
            r == self.root_spec(),
    {
        self.root
    }

    /// The interned atoms.
    pub fn atoms(&self) -> (r: Atoms)
        ensures
            r == self.atoms_spec(),
    {
        self.atoms
    }

    /// The manage requests for every managed window of the bulk-loaded
    /// stack, bottom first.
    pub fn adopt_requests(&self) -> (r: Vec<Request>)
        requires
            self.wf(),
        ensures
            r@ == adopt_plan(self.stack(), self.mod_mask_spec()),
    {
        let s = self.clients.stack();
        let mut r: Vec<Request> = Vec::new();
        let mut i: usize = 0;
        while i < s.len()
            invariant
                i <= s@.len(),
                s@ == self.stack(),
                r@ == adopt_plan(s@.subrange(0, i as int), self.mod_mask),
            decreases s@.len() - i,
        {
            let c = s[i];
            proof {
                let t = s@.subrange(0, i + 1);
                assert(t.drop_last() =~= s@.subrange(0, i as int));
                assert(t.last() == c);
            }
            match c.state {
                Some(st) => {
                    let mut m = manage_requests(c.window, &st, self.mod_mask);
                    r.append(&mut m);
                },
                None => {
                    assert(r@ =~= r@ + Seq::<Request>::empty());
                },
            }
            i += 1;
        }
        assert(s@.subrange(0, s@.len() as int) =~= s@);
        r
    }

    /// The root window's event selection and the key grabs for every bound
    /// keycode.
    pub fn global_setup_requests(&self) -> (r: Vec<Request>)
        requires
            self.wf(),
        ensures
            r@.len() >= 1,
            r@[0] == Request::SelectRootEvents(self.root_spec()),
            forall|i: int|
                1 <= i < r@.len() ==> (#[trigger] r@[i] matches Request::GrabKey { keycode, modifiers }
                    && modifiers == self.mod_mask_spec() && self.binding(keycode) is Some),
            forall|k: u8|
                #[trigger] self.binding(k) is Some ==> r@.contains(
                    Request::GrabKey { keycode: k, modifiers: self.mod_mask_spec() },
                ),
            r@.len() == 1 + self.keybinds_spec().count(),
            r@.drop_first().no_duplicates(),
    {
        let codes = self.keybinds.keycodes();
        let mut r: Vec<Request> = Vec::new();
        r.push(Request::SelectRootEvents(self.root));
        let mut i: usize = 0;
        while i < codes.len()
            invariant
                i <= codes@.len(),
                r@.len() == i + 1,
                r@[0] == Request::SelectRootEvents(self.root),
                forall|j: int|
                    0 <= j < i ==> r@[j + 1] == (Request::GrabKey {
                        keycode: #[trigger] codes@[j],
                        modifiers: self.mod_mask,
                    }),
            decreases codes@.len() - i,
        {
            r.push(Request::GrabKey { keycode: codes[i], modifiers: self.mod_mask });
            i += 1;
        }
        assert forall|i: int|
            1 <= i < r@.len() implies (#[trigger] r@[i] matches Request::GrabKey {
            keycode,
            modifiers,
        } && modifiers == self.mod_mask_spec() && self.binding(keycode) is Some) by {
            assert(r@[i] == Request::GrabKey { keycode: codes@[i - 1], modifiers: self.mod_mask });
            assert(codes@.contains(codes@[i - 1]));
        }
        assert forall|k: u8| #[trigger] self.binding(k) is Some implies r@.contains(
            Request::GrabKey { keycode: k, modifiers: self.mod_mask_spec() },
        ) by {
            assert(codes@.contains(k));
            let j = choose|j: int| 0 <= j < codes@.len() && codes@[j] == k;
            assert(r@[j + 1] == Request::GrabKey { keycode: codes@[j], modifiers: self.mod_mask });
        }
        assert forall|a: int, b: int|
            0 <= a < r@.drop_first().len() && 0 <= b < r@.drop_first().len() && a != b implies r@.drop_first()[a]
            != r@.drop_first()[b] by {
            assert(r@.drop_first()[a] == Request::GrabKey { keycode: codes@[a], modifiers: self.mod_mask });
            assert(r@.drop_first()[b] == Request::GrabKey { keycode: codes@[b], modifiers: self.mod_mask });
        }
        r
    }

    /// Store a property value that a ReadProperty request fetched; nothing
    /// changes for a window that is not managed.
    pub fn update_property(&mut self, window: Window, v: PropertyValue)
        requires
            old(self).wf(),
        ensures
            final(self).wf(),
            final(self).same_setup(*old(self)),
            final(self).focused() == old(self).focused(),
            final(self).dragging() == old(self).dragging(),
            final(self).running() == old(self).running(),
            final(self).stack() == match old(self).managed(window) {
                Some(st) => with_state(old(self).stack(), window, with_property(st, v)),
                None => old(self).stack(),
            },
    {
        match self.managed_state(window) {
            Some(st) => {
                let nst = match v {
                    PropertyValue::WmProtocols(p) => ClientState { wm_protocols: p, ..st },
                    PropertyValue::WmState(w) => ClientState { wm_state: w, ..st },
                    PropertyValue::WmNormalHints(h) => ClientState { wm_normal_hints: h, ..st },
                };
                let ghost s = self.clients.stack_spec();
                proof {
                    crate::client::lemma_with_state_keeps_clients(s, window, nst);
                }
                self.clients.set_state(window, nst);
            },
            None => {},
        }
    }

    fn on_button_press(&mut self, window: Window, button: u8, state: u16, event_x: i16, event_y: i16) -> (r: Vec<Request>)
        requires
            old(self).wf(),
        ensures
            final(self).wf(),
            final(self).same_setup(*old(self)),
            press_effect(*old(self), *final(self), window, button, state, event_x, event_y, r@),
    {
        let mut r: Vec<Request> = Vec::new();
        r.push(Request::SetInputFocus(window));
        r.push(
            Request::Configure(
                window,
                WindowChanges { stack_mode: Some(StackMode::Above), ..WindowChanges::new() },
            ),
        );
        if state & self.mod_mask == 0 {
            r.push(Request::ReplayPointer);
            assert(r@ =~= seq![Request::SetInputFocus(window), raise(window)] + seq![
                Request::ReplayPointer,
            ]);
        } else {
            assert(r@ =~= seq![Request::SetInputFocus(window), raise(window)] + Seq::<
                Request,
            >::empty());
            match self.managed_state(window) {
                Some(st) => {
                    match begin_drag(window, button, event_x, event_y, &st) {
                        Some(d) => {
                            proof {
                                lemma_press_offsets(
                                    window,
                                    button,
                                    event_x,
                                    event_y,
                                    st.width,
                                    st.height,
                                );
                            }
                            self.drag = Some(d);
                        },
                        None => {},
                    }
                },
                None => {},
            }
        }
        r
    }

    fn on_motion(&mut self, root_x: i16, root_y: i16) -> (r: Vec<Request>)
        requires
            old(self).wf(),
        ensures
            final(self).wf(),
            final(self).same_setup(*old(self)),
            motion_effect(*old(self), *final(self), root_x, root_y, r@),
    {
        let mut r: Vec<Request> = Vec::new();
        match self.drag {
            Some(d) => match self.managed_state(d.window) {
                Some(st) => {
                    r.push(Request::Configure(d.window, drag_geometry(&d, &st, root_x, root_y)));
                },
                None => {
                    // `wf` keeps the dragged window managed; should that ever
                    // fail, the drag ends rather than act on a lost window.
                    self.drag = None;
                },
            },
            None => {},
        }
        r
    }

    fn on_create(
        &mut self,
        window: Window,
        x: i16,
        y: i16,
        width: u16,
        height: u16,
        override_redirect: bool,
    ) -> (r: Vec<Request>)
        requires
            old(self).wf(),
        ensures
            final(self).wf(),
            final(self).same_setup(*old(self)),
            create_effect(
                *old(self),
                *final(self),
                created_client(window, x, y, width, height, override_redirect),
                r@,
            ),
    {
        if self.clients.has_client(window) || window == self.root {
            return Vec::new();
        }
        let state = if override_redirect {
            None
        } else {
            Some(
                ClientState {
                    x,
                    y,
                    width,
                    height,
                    is_viewable: false,
                    wm_protocols: WmProtocols::new(),
                    wm_state: None,
                    wm_normal_hints: SizeHints::new(),
                },
            )
        };
        let c = Client { window, state };
        assert(c == created_client(window, x, y, width, height, override_redirect));
        let ghost s = self.clients.stack_spec();
        proof {
            crate::client::lemma_insert(s, s.len() as int, c);
            crate::client::lemma_insert_keeps_clients(s, s.len() as int, c);
            assert(s.insert(s.len() as int, c) =~= s.push(c));
        }
        self.clients.push(c);
        proof {
            if let Some(d) = self.drag {
                assert(tracks(s, d.window));
                assert(crate::client::client_of(s.push(c), d.window) == crate::client::client_of(
                    s,
                    d.window,
                ));
            }
        }
        match state {
            Some(st) => manage_requests(window, &st, self.mod_mask),
            None => Vec::new(),
        }
    }

    #[verifier::rlimit(40)]
    fn on_configure_notify(
        &mut self,
        window: Window,
        sibling: Window,
        x: i16,
        y: i16,
        width: u16,
        height: u16,
    )
        requires
            old(self).wf(),
        ensures
            final(self).wf(),
            final(self).same_setup(*old(self)),
            configure_notify_effect(
                *old(self),
                *final(self),
                window,
                sibling,
                x,
                y,
                width,
                height,
                Seq::empty(),
            ),
    {
        if !self.clients.has_client(window) {
            return;
        }
        let ghost s = self.clients.stack_spec();
        proof {
            let after = sibling != 0 && tracks(s, sibling) && sibling != window;
            let i = position(s, window);
            crate::client::lemma_move(s, i, after, sibling);
            let t = s.remove(i);
            crate::client::lemma_move_keeps_clients(
                s,
                i,
                if after {
                    position(t, sibling) + 1
                } else {
                    0
                },
            );
        }
        if sibling == 0 {
            self.clients.move_to_bottom(window);
        } else if sibling != window && self.clients.has_client(sibling) {
            self.clients.move_to_above(window, sibling);
        }
        let c = self.clients.get(window);
        match c.state {
            Some(st) => {
                let ghost s2 = self.clients.stack_spec();
                proof {
                    crate::client::lemma_with_state_keeps_clients(
                        s2,
                        window,
                        ClientState { x, y, width, height, ..st },
                    );
                    if let Some(d) = self.drag {
                        assert(tracks(s, d.window));
                        assert(tracks(s2, d.window));
                        assert(crate::client::client_of(s2, d.window) == crate::client::client_of(
                            s,
                            d.window,
                        ));
                    }
                }
                self.clients.set_state(window, ClientState { x, y, width, height, ..st });
            },
            None => {},
        }
    }

    fn on_destroy(&mut self, window: Window) -> (r: Vec<Request>)
        requires
            old(self).wf(),
        ensures
            final(self).wf(),
            final(self).same_setup(*old(self)),
            destroy_effect(*old(self), *final(self), window, r@),
    {
        let mut r: Vec<Request> = Vec::new();
        let ghost s = self.clients.stack_spec();
        let target = if self.clients.focus() == Some(window) {
            find_refocus_target(self.clients.stack(), window)
        } else {
            None
        };
        proof {
            lemma_topmost_tracked(s, window, s.len() as int);
            if tracks(s, window) {
                crate::client::lemma_remove(s, position(s, window));
            }
        }
        self.clients.remove(window);
        match target {
            Some(t) => {
                self.clients.set_focus(Some(t));
                r.push(Request::SetInputFocus(t));
            },
            None => {},
        }
        match self.drag {
            Some(d) => {
                if d.window == window {
                    self.drag = None;
                }
            },
            None => {},
        }
        r
    }

    fn kill_requests(&self, child: Window) -> (r: Vec<Request>)
        requires
            self.wf(),
        ensures
            kill_effect(*self, child, r@),
    {
        let mut r: Vec<Request> = Vec::new();
        if !self.clients.has_client(child) {
            return r;
        }
        match self.managed_state(child) {
            Some(st) => {
                if st.wm_protocols.delete_window {
                    r.push(Request::SendMessage(self.atoms.delete_window(child)));
                    return r;
                }
            },
            None => {},
        }
        r.push(Request::KillClient(child));
        r
    }

    fn on_key_press(&mut self, keycode: u8, child: Window) -> (r: Vec<Request>)
        requires
            old(self).wf(),
        ensures
            final(self).wf(),
            final(self).same_setup(*old(self)),
            key_effect(*old(self), *final(self), keycode, child, r@),
    {
        match self.keybinds.lookup(keycode) {
            None => Vec::new(),
            Some(Action::Quit) => {
                quit(self);
                Vec::new()
            },
            Some(Action::Kill) => self.kill_requests(child),
        }
    }

    fn on_viewable(&mut self, window: Window, viewable: bool) -> (r: Vec<Request>)
        requires
            old(self).wf(),
        ensures
            final(self).wf(),
            final(self).same_setup(*old(self)),
            final(self).focused() == old(self).focused(),
            viewable_effect(*old(self), *final(self), window, viewable, r@),
    {
        let mut r: Vec<Request> = Vec::new();
        match self.managed_state(window) {
            Some(st) => {
                let ghost s = self.clients.stack_spec();
                proof {
                    crate::client::lemma_with_state_keeps_clients(
                        s,
                        window,
                        ClientState { is_viewable: viewable, ..st },
                    );
                }
                self.clients.set_state(window, ClientState { is_viewable: viewable, ..st });
                let state = if viewable {
                    WmStateState::Normal
                } else {
                    WmStateState::Withdrawn
                };
                r.push(Request::SetWmState(window, WmState { state, icon: 0 }));
            },
            None => {},
        }
        r
    }

    /// Handle one event: update the local state and return the requests to
    /// perform, in order.
    pub fn step(&mut self, ev: Event) -> (r: Vec<Request>)
        requires
            old(self).wf(),
        ensures
            final(self).wf(),
            final(self).same_setup(*old(self)),
            step_effect(*old(self), *final(self), ev, r@),
    {
        match ev {
            Event::ButtonPress { window, button, state, event_x, event_y } => self.on_button_press(
                window,
                button,
                state,
                event_x,
                event_y,
            ),
            Event::ButtonRelease => {
                self.drag = None;
                Vec::new()
            },
            Event::MotionNotify { root_x, root_y } => self.on_motion(root_x, root_y),
            Event::CreateNotify { window, x, y, width, height, override_redirect } => self.on_create(
                window,
                x,
                y,
                width,
                height,
                override_redirect,
            ),
            Event::ConfigureNotify { window, above_sibling, x, y, width, height } => {
                self.on_configure_notify(window, above_sibling, x, y, width, height);
                Vec::new()
            },
            Event::ConfigureRequest { window, changes } => {
                let out = match self.managed_state(window) {
                    None => changes,
                    Some(st) => {
                        let want_w: i64 = match changes.width {
                            Some(v) => v as i64,
                            None => st.width as i64,
                        };
                        let want_h: i64 = match changes.height {
                            Some(v) => v as i64,
                            None => st.height as i64,
                        };
                        let (w, h) = st.wm_normal_hints.fit_size(want_w, want_h);
                        WindowChanges {
                            width: if changes.width.is_some() {
                                Some(w as u32)
                            } else {
                                None
                            },
                            height: if changes.height.is_some() {
                                Some(h as u32)
                            } else {
                                None
                            },
                            ..changes
                        }
                    },
                };
                let mut r: Vec<Request> = Vec::new();
                r.push(Request::Configure(window, out));
                r
            },
            Event::DestroyNotify { window } => self.on_destroy(window),
            Event::EnterNotify { window } => {
                let mut r: Vec<Request> = Vec::new();
                if self.focus_model == FocusModel::Autofocus {
                    r.push(Request::SetInputFocus(window));
                }
                r
            },
            Event::FocusIn { window } => {
                if self.clients.has_client(window) {
                    self.clients.set_focus(Some(window));
                } else {
                    self.clients.set_focus(None);
                }
                Vec::new()
            },
            Event::FocusOut => {
                self.clients.set_focus(None);
                Vec::new()
            },
            Event::KeyPress { keycode, child } => self.on_key_press(keycode, child),
            Event::MapNotify { window } => self.on_viewable(window, true),
            Event::MapRequest { window } => {
                let mut r: Vec<Request> = Vec::new();
                r.push(Request::MapWindow(window));
                r
            },
            Event::PropertyNotify { window, atom } => {
                let mut r: Vec<Request> = Vec::new();
                if self.managed_state(window).is_some() {
                    let p = if atom == self.atoms.wm_protocols {
                        Some(Property::WmProtocols)
                    } else if atom == self.atoms.wm_state {
                        Some(Property::WmState)
                    } else if atom == self.atoms.wm_normal_hints {
                        Some(Property::WmNormalHints)
                    } else {
                        None
                    };
                    match p {
                        Some(p) => r.push(Request::ReadProperty(window, p)),
                        None => {},
                    }
                }
                r
            },
            Event::UnmapNotify { window } => {
                if self.clients.focus() == Some(window) {
                    self.clients.set_focus(None);
                }
                self.on_viewable(window, false)
            },
            Event::Other => Vec::new(),
        }
    }

    fn managed_state(&self, w: Window) -> (r: Option<ClientState>)
        requires
            self.wf(),
        ensures
            r == self.managed(w),
    {
        if self.clients.has_client(w) {
            self.clients.get(w).state
        } else {
            None
        }
    }
}

/// Focus invariant: in every state that the manager reaches (each `step`
/// keeps `wf`), the focus is none or a window in the stack, never the root
/// window, and no window occurs twice in the stack; an active drag is on a
/// managed window.
pub proof fn lemma_focus_tracked(m: Manager)
    requires
        m.wf(),
    ensures
        m.focused() matches Some(f) ==> tracks(m.stack(), f),
        m.focused() != Some(m.root_spec()),
        !tracks(m.stack(), m.root_spec()),
        m.dragging() matches Some(d) ==> m.managed(d.window) is Some,
        crate::client::windows_distinct(m.stack()),
{
}

/// Destroying the focused window never leaves the focus on it: the focus
/// moves to the replacement the scan finds, or to none.
pub proof fn lemma_destroy_clears_focus(a: Manager, b: Manager, window: Window, r: Seq<Request>)
    requires
        a.wf(),
        destroy_effect(a, b, window, r),
    ensures
        b.focused() != Some(window),
{
    lemma_topmost_tracked(a.stack(), window, a.stack().len() as int);
}

/// Destroying the window of an active drag ends the drag: the pointer
/// motion that follows configures nothing.
pub proof fn lemma_destroy_ends_drag(
    a: Manager,
    b: Manager,
    c: Manager,
    window: Window,
    root_x: i16,
    root_y: i16,
    r1: Seq<Request>,
    r2: Seq<Request>,
)
    requires
        a.dragging() matches Some(d) && d.window == window,
        destroy_effect(a, b, window, r1),
        motion_effect(b, c, root_x, root_y, r2),
    ensures
        b.dragging() is None,
        c.dragging() is None,
        r2 == Seq::<Request>::empty(),
{
}

} // verus!

use oxwm::atom::{Atoms, WmProtocols, WmState, WmStateState};
use oxwm::client::{Client, ClientState, Clients};
use oxwm::config::{Action, FocusModel, Keybinds};
use oxwm::control::{manage_requests, quit, Event, Manager, Property, PropertyValue, Request};
use oxwm::drag::{Drag, DragType};
use oxwm::hints::{Dimensions, SizeHints};
use oxwm::request::{StackMode, WindowChanges};

const MOD4: u16 = 64;

fn atoms() -> Atoms {
    Atoms {
        wm_delete_window: 300,
        wm_protocols: 301,
        wm_save_yourself: 302,
        wm_state: 303,
        wm_take_focus: 304,
        wm_normal_hints: 40,
    }
}

fn st(width: u16, height: u16, is_viewable: bool) -> ClientState {
    ClientState {
        x: 0,
        y: 0,
        width,
        height,
        is_viewable,
        wm_protocols: WmProtocols::new(),
        wm_state: None,
        wm_normal_hints: SizeHints::new(),
    }
}

fn managed(window: u32, is_viewable: bool) -> Client {
    Client { window, state: Some(st(400, 300, is_viewable)) }
}

fn manager(stack: Vec<Client>, focus: u32, model: FocusModel) -> Manager {
    let mut keys = Keybinds::new();
    keys.insert(24, Action::Quit);
    keys.insert(25, Action::Kill);
    Manager::new(1, atoms(), MOD4, model, keys, Clients::bulk_load(stack, focus))
}

fn windows(m: &Manager) -> Vec<u32> {
    m.clients().stack().iter().map(|c| c.window).collect()
}

#[test]
fn adopt_and_clamp() {
    let mut small = st(50, 50, true);
    small.wm_normal_hints.min_size = Some(Dimensions { width: 256, height: 256 });
    let m = manager(vec![Client { window: 5, state: Some(small) }], 0, FocusModel::Click);
    let reqs = m.adopt_requests();
    let configured = reqs.iter().any(|r| match r {
        Request::Configure(5, ch) => ch.width.unwrap_or(0) >= 256 && ch.height.unwrap_or(0) >= 256,
        _ => false,
    });
    assert!(configured);
    assert_eq!(
        reqs[0],
        Request::Configure(5, WindowChanges { width: Some(256), height: Some(256), ..WindowChanges::new() })
    );
    assert_eq!(reqs[1], Request::SetWmState(5, WmState { state: WmStateState::Normal, icon: 0 }));
}

#[test]
fn adopt_skips_unmanaged_windows() {
    let m = manager(vec![Client { window: 3, state: None }, managed(4, false)], 0, FocusModel::Click);
    let reqs = m.adopt_requests();
    assert_eq!(reqs, manage_requests(4, &st(400, 300, false), MOD4));
    assert_eq!(reqs.len(), 5);
    assert_eq!(reqs[0], Request::SetWmState(4, WmState { state: WmStateState::Withdrawn, icon: 0 }));
    assert_eq!(reqs[1], Request::GrabButton { window: 4, button: 1, modifiers: 0, sync: true });
    assert_eq!(reqs[2], Request::GrabButton { window: 4, button: 1, modifiers: MOD4, sync: false });
    assert_eq!(reqs[3], Request::GrabButton { window: 4, button: 3, modifiers: MOD4, sync: false });
    assert_eq!(reqs[4], Request::SelectClientEvents(4));
}

#[test]
fn destroy_while_focused() {
    let mut m = manager(vec![managed(10, true), managed(11, false), managed(12, true)], 12, FocusModel::Click);
    assert_eq!(m.clients().focus(), Some(12));
    let reqs = m.step(Event::DestroyNotify { window: 12 });
    assert_eq!(reqs, vec![Request::SetInputFocus(10)]);
    assert_eq!(m.clients().focus(), Some(10));
    assert_eq!(windows(&m), vec![10, 11]);
}

#[test]
fn destroy_unfocused_keeps_focus() {
    let mut m = manager(vec![managed(10, true), managed(11, true)], 10, FocusModel::Click);
    let reqs = m.step(Event::DestroyNotify { window: 11 });
    assert!(reqs.is_empty());
    assert_eq!(m.clients().focus(), Some(10));
    assert_eq!(windows(&m), vec![10]);
    assert!(m.step(Event::DestroyNotify { window: 99 }).is_empty());
}

#[test]
fn drag_then_destroy() {
    let mut m = manager(vec![managed(20, true)], 0, FocusModel::Click);
    let reqs = m.step(Event::ButtonPress { window: 20, button: 1, state: MOD4, event_x: 5, event_y: 6 });
    assert_eq!(reqs.len(), 2);
    assert_eq!(m.drag(), Some(Drag { type_: DragType::Move, window: 20, x: 5, y: 6 }));
    let moved = m.step(Event::MotionNotify { root_x: 100, root_y: 100 });
    assert_eq!(moved, vec![Request::Configure(20, WindowChanges { x: Some(95), y: Some(94), ..WindowChanges::new() })]);
    m.step(Event::DestroyNotify { window: 20 });
    assert_eq!(m.drag(), None);
    assert!(m.step(Event::MotionNotify { root_x: 120, root_y: 130 }).is_empty());
}

#[test]
fn plain_click_focuses_raises_and_replays() {
    let mut m = manager(vec![managed(20, true)], 0, FocusModel::Click);
    let reqs = m.step(Event::ButtonPress { window: 20, button: 1, state: 0, event_x: 5, event_y: 6 });
    assert_eq!(
        reqs,
        vec![
            Request::SetInputFocus(20),
            Request::Configure(20, WindowChanges { stack_mode: Some(StackMode::Above), ..WindowChanges::new() }),
            Request::ReplayPointer,
        ]
    );
    assert_eq!(m.drag(), None);
}

#[test]
fn release_ends_drag() {
    let mut m = manager(vec![managed(20, true)], 0, FocusModel::Click);
    m.step(Event::ButtonPress { window: 20, button: 3, state: MOD4, event_x: 390, event_y: 290 });
    assert!(m.drag().is_some());
    assert!(m.step(Event::ButtonRelease).is_empty());
    assert_eq!(m.drag(), None);
}

#[test]
fn create_tracks_and_manages() {
    let mut m = manager(vec![], 0, FocusModel::Click);
    let reqs = m.step(Event::CreateNotify { window: 30, x: 1, y: 2, width: 40, height: 500, override_redirect: false });
    assert_eq!(windows(&m), vec![30]);
    assert_eq!(
        reqs[0],
        Request::Configure(30, WindowChanges { width: Some(256), height: Some(500), ..WindowChanges::new() })
    );
    assert_eq!(reqs.len(), 6);
    let none = m.step(Event::CreateNotify { window: 31, x: 0, y: 0, width: 5, height: 5, override_redirect: true });
    assert!(none.is_empty());
    assert_eq!(windows(&m), vec![30, 31]);
    assert!(m.clients().get(31).override_redirect());
    // A repeated announcement changes nothing.
    assert!(m.step(Event::CreateNotify { window: 30, x: 0, y: 0, width: 5, height: 5, override_redirect: true }).is_empty());
    assert_eq!(windows(&m), vec![30, 31]);
}

#[test]
fn configure_notify_restacks_and_updates_geometry() {
    let mut m = manager(vec![managed(1, true), managed(2, true), managed(3, true)], 0, FocusModel::Click);
    m.step(Event::ConfigureNotify { window: 3, above_sibling: 0, x: 7, y: 8, width: 300, height: 301 });
    assert_eq!(windows(&m), vec![3, 1, 2]);
    let s = m.clients().get(3).state.unwrap();
    assert_eq!((s.x, s.y, s.width, s.height), (7, 8, 300, 301));
    m.step(Event::ConfigureNotify { window: 3, above_sibling: 2, x: 7, y: 8, width: 300, height: 301 });
    assert_eq!(windows(&m), vec![1, 2, 3]);
    m.step(Event::ConfigureNotify { window: 1, above_sibling: 99, x: 0, y: 0, width: 300, height: 300 });
    assert_eq!(windows(&m), vec![1, 2, 3]);
}

#[test]
fn configure_request_is_clamped_for_managed_windows() {
    let mut m = manager(vec![managed(1, true), Client { window: 2, state: None }], 0, FocusModel::Click);
    let ch = WindowChanges { x: Some(3), width: Some(10), ..WindowChanges::new() };
    assert_eq!(
        m.step(Event::ConfigureRequest { window: 1, changes: ch }),
        vec![Request::Configure(1, WindowChanges { x: Some(3), width: Some(256), ..WindowChanges::new() })]
    );
    assert_eq!(
        m.step(Event::ConfigureRequest { window: 2, changes: ch }),
        vec![Request::Configure(2, ch)]
    );
}

#[test]
fn enter_focuses_only_when_following_the_pointer() {
    let mut click = manager(vec![managed(1, true)], 0, FocusModel::Click);
    assert!(click.step(Event::EnterNotify { window: 1 }).is_empty());
    let mut follow = manager(vec![managed(1, true)], 0, FocusModel::Autofocus);
    assert_eq!(follow.step(Event::EnterNotify { window: 1 }), vec![Request::SetInputFocus(1)]);
}

#[test]
fn focus_in_and_out() {
    let mut m = manager(vec![managed(1, true)], 0, FocusModel::Click);
    m.step(Event::FocusIn { window: 1 });
    assert_eq!(m.clients().focus(), Some(1));
    m.step(Event::FocusIn { window: 77 });
    assert_eq!(m.clients().focus(), None);
    m.step(Event::FocusIn { window: 1 });
    m.step(Event::FocusOut);
    assert_eq!(m.clients().focus(), None);
}

#[test]
fn key_actions() {
    let mut polite = st(400, 300, true);
    polite.wm_protocols = WmProtocols { take_focus: false, delete_window: true };
    let mut m = manager(vec![managed(1, true), Client { window: 2, state: Some(polite) }], 0, FocusModel::Click);
    assert_eq!(m.step(Event::KeyPress { keycode: 25, child: 1 }), vec![Request::KillClient(1)]);
    let sent = m.step(Event::KeyPress { keycode: 25, child: 2 });
    assert_eq!(sent.len(), 1);
    match sent[0] {
        Request::SendMessage(msg) => {
            assert_eq!(msg.window, 2);
            assert_eq!(msg.message_type, 301);
            assert_eq!(msg.data, [300, 0, 0, 0, 0]);
        }
        _ => panic!("expected a client message"),
    }
    assert!(m.step(Event::KeyPress { keycode: 25, child: 0 }).is_empty());
    assert!(m.step(Event::KeyPress { keycode: 90, child: 1 }).is_empty());
    assert!(m.keep_going());
    assert!(m.step(Event::KeyPress { keycode: 24, child: 1 }).is_empty());
    assert!(!m.keep_going());
}

#[test]
fn map_and_unmap_set_wm_state() {
    let mut m = manager(vec![managed(1, false)], 0, FocusModel::Click);
    assert_eq!(
        m.step(Event::MapNotify { window: 1 }),
        vec![Request::SetWmState(1, WmState { state: WmStateState::Normal, icon: 0 })]
    );
    assert!(m.clients().get(1).state.unwrap().is_viewable);
    m.step(Event::FocusIn { window: 1 });
    assert_eq!(
        m.step(Event::UnmapNotify { window: 1 }),
        vec![Request::SetWmState(1, WmState { state: WmStateState::Withdrawn, icon: 0 })]
    );
    assert!(!m.clients().get(1).state.unwrap().is_viewable);
    assert_eq!(m.clients().focus(), None);
    assert_eq!(m.step(Event::MapRequest { window: 5 }), vec![Request::MapWindow(5)]);
    assert!(m.step(Event::Other).is_empty());
}

#[test]
fn property_notify_asks_for_a_fresh_read() {
    let mut m = manager(vec![managed(1, true), Client { window: 2, state: None }], 0, FocusModel::Click);
    assert_eq!(m.step(Event::PropertyNotify { window: 1, atom: 301 }), vec![Request::ReadProperty(1, Property::WmProtocols)]);
    assert_eq!(m.step(Event::PropertyNotify { window: 1, atom: 303 }), vec![Request::ReadProperty(1, Property::WmState)]);
    assert_eq!(m.step(Event::PropertyNotify { window: 1, atom: 40 }), vec![Request::ReadProperty(1, Property::WmNormalHints)]);
    assert!(m.step(Event::PropertyNotify { window: 1, atom: 5 }).is_empty());
    assert!(m.step(Event::PropertyNotify { window: 2, atom: 301 }).is_empty());
    let p = WmProtocols { take_focus: true, delete_window: true };
    m.update_property(1, PropertyValue::WmProtocols(p));
    assert_eq!(m.clients().get(1).state.unwrap().wm_protocols, p);
    let s = Some(WmState { state: WmStateState::Iconic, icon: 4 });
    m.update_property(1, PropertyValue::WmState(s));
    assert_eq!(m.clients().get(1).state.unwrap().wm_state, s);
    m.update_property(2, PropertyValue::WmState(s));
    assert!(m.clients().get(2).state.is_none());
}

#[test]
fn global_setup_selects_root_and_grabs_keys() {
    let m = manager(vec![], 0, FocusModel::Click);
    let reqs = m.global_setup_requests();
    assert_eq!(reqs[0], Request::SelectRootEvents(1));
    assert_eq!(reqs.len(), 3);
    assert!(reqs.contains(&Request::GrabKey { keycode: 24, modifiers: MOD4 }));
    assert!(reqs.contains(&Request::GrabKey { keycode: 25, modifiers: MOD4 }));
    assert_eq!(m.root(), 1);
    assert_eq!(m.atoms().wm_state, 303);
}

#[test]
fn quit_stops_the_loop_and_keeps_the_rest() {
    let mut m = manager(vec![managed(1, true)], 1, FocusModel::Click);
    quit(&mut m);
    assert!(!m.keep_going());
    assert_eq!(windows(&m), vec![1]);
    assert_eq!(m.clients().focus(), Some(1));
}

#[test]
fn root_window_is_never_tracked_or_focused() {
    let mut m = manager(vec![managed(2, true)], 0, FocusModel::Click);
    assert!(m.step(Event::CreateNotify { window: 1, x: 0, y: 0, width: 50, height: 50, override_redirect: false }).is_empty());
    assert_eq!(windows(&m), vec![2]);
    m.step(Event::FocusIn { window: 1 });
    assert_eq!(m.clients().focus(), None);
}

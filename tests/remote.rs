use oxwm::control::Event;
use oxwm::remote::OxWMState;
use oxwm::request::event_mask_to_u16;

#[test]
fn snapshot_records_updates_and_forgets() {
    let mut s = OxWMState::new();
    s.record(5, 1, 2, 30, 40, b"xterm".to_vec());
    s.set_geometry(5, 9, 8, 70, 60);
    let c = &s.clients[&5];
    assert_eq!((c.x, c.y, c.width, c.height), (9, 8, 70, 60));
    assert_eq!(c.name, b"xterm".to_vec());
    s.set_geometry(6, 0, 0, 1, 1);
    assert_eq!(s.clients.len(), 1);
    s.forget(5);
    assert!(s.clients.is_empty());
}

#[test]
fn event_masks_fit_in_sixteen_bits() {
    assert_eq!(event_mask_to_u16(4 | 8 | 64), 76);
    assert_eq!(event_mask_to_u16(0), 0);
}

#[test]
fn snapshot_follows_events() {
    let mut s = OxWMState::new();
    let create = Event::CreateNotify { window: 3, x: 1, y: 2, width: 10, height: 20, override_redirect: false };
    assert!(OxWMState::needs_name(&create));
    s.follow(&create, b"clock".to_vec());
    assert_eq!(s.clients[&3].name, b"clock".to_vec());
    let popup = Event::CreateNotify { window: 4, x: 0, y: 0, width: 5, height: 5, override_redirect: true };
    assert!(!OxWMState::needs_name(&popup));
    s.follow(&popup, Vec::new());
    assert_eq!(s.clients.len(), 1);
    s.follow(&Event::ConfigureNotify { window: 3, above_sibling: 0, x: 7, y: 8, width: 30, height: 40 }, Vec::new());
    let c = &s.clients[&3];
    assert_eq!((c.x, c.y, c.width, c.height), (7, 8, 30, 40));
    assert_eq!(c.name, b"clock".to_vec());
    assert!(!OxWMState::needs_name(&Event::DestroyNotify { window: 3 }));
    s.follow(&Event::DestroyNotify { window: 3 }, Vec::new());
    assert!(s.clients.is_empty());
}

use oxwm::atom::{Atoms, ProtocolAtom, WmProtocols, WmState, WmStateState};

fn atoms() -> Atoms {
    Atoms {
        wm_delete_window: 300,
        wm_protocols: 301,
        wm_save_yourself: 302,
        wm_state: 303,
        wm_take_focus: 304,
        wm_normal_hints: 40,
    }
}

#[test]
fn wm_state_round_trip() {
    for state in [WmStateState::Withdrawn, WmStateState::Normal, WmStateState::Iconic] {
        let s = WmState { state, icon: 0x1234 };
        let words = s.to_words();
        assert_eq!(WmState::from_words(&words), Some(s));
    }
    let normal = WmState { state: WmStateState::Normal, icon: 77 };
    assert_eq!(normal.to_words(), [1, 77]);
    assert_eq!(WmState { state: WmStateState::Iconic, icon: 0 }.to_words(), [3, 0]);
}

#[test]
fn wm_state_rejects_unused_value_and_bad_length() {
    assert_eq!(WmStateState::from_code(2), None);
    assert_eq!(WmStateState::from_code(4), None);
    assert_eq!(WmState::from_words(&[2, 5]), None);
    assert_eq!(WmState::from_words(&[1]), None);
    assert_eq!(WmState::from_words(&[1, 2, 3]), None);
    assert_eq!(Atoms::decode_wm_state(None), None);
    assert_eq!(
        Atoms::decode_wm_state(Some(&[0, 9])),
        Some(WmState { state: WmStateState::Withdrawn, icon: 9 })
    );
}

#[test]
fn wm_protocols_decode() {
    let a = atoms();
    let none = WmProtocols { take_focus: false, delete_window: false };
    assert_eq!(a.decode_wm_protocols(Some(&[a.wm_save_yourself])), none);
    assert_eq!(
        a.decode_wm_protocols(Some(&[a.wm_take_focus, a.wm_delete_window])),
        WmProtocols { take_focus: true, delete_window: true }
    );
    assert_eq!(a.decode_wm_protocols(None), none);
    assert_eq!(a.decode_wm_protocols(Some(&[])), none);
    assert_eq!(
        a.decode_wm_protocols(Some(&[999, a.wm_delete_window, 1000])),
        WmProtocols { take_focus: false, delete_window: true }
    );
    assert_eq!(WmProtocols::new(), none);
}

#[test]
fn classify_atoms() {
    let a = atoms();
    assert_eq!(a.classify(304), ProtocolAtom::TakeFocus);
    assert_eq!(a.classify(302), ProtocolAtom::SaveYourself);
    assert_eq!(a.classify(300), ProtocolAtom::DeleteWindow);
    assert_eq!(a.classify(1), ProtocolAtom::Unknown);
}

#[test]
fn delete_window_message() {
    let a = atoms();
    let m = a.delete_window(42);
    assert_eq!(m.window, 42);
    assert_eq!(m.message_type, 301);
    assert_eq!(m.data, [300, 0, 0, 0, 0]);
}

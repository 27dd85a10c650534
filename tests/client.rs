use oxwm::atom::WmProtocols;
use oxwm::client::{Client, ClientState, Clients};
use oxwm::hints::SizeHints;

fn managed(window: u32, is_viewable: bool) -> Client {
    Client {
        window,
        state: Some(ClientState {
            x: 1,
            y: 1,
            width: 10,
            height: 10,
            is_viewable,
            wm_protocols: WmProtocols::new(),
            wm_state: None,
            wm_normal_hints: SizeHints::new(),
        }),
    }
}

fn windows(clients: &Clients) -> Vec<u32> {
    clients.stack().iter().map(|c| c.window).collect()
}

#[test]
fn can_remove_focused_window() {
    let mut clients = Clients::new();
    clients.push(managed(100, true));
    clients.push(managed(200, true));
    clients.push(managed(250, false));
    clients.push(managed(300, true));

    clients.set_focus(Some(300));
    assert_eq!(clients.get_focus().unwrap().window, 300);

    clients.remove(100);
    assert_eq!(clients.get_focus().unwrap().window, 300);

    clients.remove(300);
    assert!(clients.get_focus().is_none());

    clients.set_focus(Some(200));
    clients.remove(250);
    assert_eq!(clients.get_focus().unwrap().window, 200);

    clients.remove(200);
    assert!(clients.get_focus().is_none());
}

#[test]
fn remove_missing_window_is_a_no_op() {
    let mut clients = Clients::new();
    clients.push(managed(1, true));
    clients.set_focus(Some(1));
    clients.remove(7);
    assert_eq!(windows(&clients), vec![1]);
    assert_eq!(clients.focus(), Some(1));
}

#[test]
fn stack_operations_keep_ids_distinct_and_count() {
    let mut clients = Clients::new();
    for w in [1u32, 2, 3, 4] {
        clients.push(managed(w, true));
    }
    clients.move_to_above(1, 3);
    assert_eq!(windows(&clients), vec![2, 3, 1, 4]);
    clients.move_to_bottom(4);
    assert_eq!(windows(&clients), vec![4, 2, 3, 1]);
    clients.move_to_top(2);
    assert_eq!(windows(&clients), vec![4, 3, 1, 2]);
    clients.remove(3);
    clients.push(managed(5, false));
    assert_eq!(windows(&clients), vec![4, 1, 2, 5]);
    // 4 pushes + 1 push - 1 remove
    assert_eq!(clients.len(), 4 + 1 - 1);
    let mut ids = windows(&clients);
    ids.sort();
    ids.dedup();
    assert_eq!(ids.len(), clients.len());
}

#[test]
fn moves_that_change_nothing() {
    let mut clients = Clients::new();
    for w in [1u32, 2, 3] {
        clients.push(managed(w, true));
    }
    clients.move_to_above(2, 1);
    assert_eq!(windows(&clients), vec![1, 2, 3]);
    clients.move_to_bottom(1);
    assert_eq!(windows(&clients), vec![1, 2, 3]);
    clients.move_to_top(3);
    assert_eq!(windows(&clients), vec![1, 2, 3]);
    clients.move_to_above(3, 1);
    assert_eq!(windows(&clients), vec![1, 3, 2]);
}

#[test]
fn bulk_load_keeps_order_and_reads_focus() {
    let stack = vec![managed(10, true), Client { window: 11, state: None }, managed(12, false)];
    let clients = Clients::bulk_load(stack.clone(), 11);
    assert_eq!(windows(&clients), vec![10, 11, 12]);
    assert_eq!(clients.focus(), Some(11));
    assert!(clients.get(11).override_redirect());
    assert!(!clients.get(10).override_redirect());
    assert_eq!(clients.top().window, 12);
    let root_focused = Clients::bulk_load(stack, 1);
    assert_eq!(root_focused.focus(), None);
}

#[test]
fn has_get_and_set_state() {
    let mut clients = Clients::new();
    clients.push(managed(5, false));
    assert!(clients.has_client(5));
    assert!(!clients.has_client(6));
    let mut st = clients.get(5).state.unwrap();
    st.width = 99;
    st.is_viewable = true;
    clients.set_state(5, st);
    assert_eq!(clients.get(5).state.unwrap().width, 99);
    assert!(clients.get(5).state.unwrap().is_viewable);
}

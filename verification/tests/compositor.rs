use squeak::compositor::{
    add_toplevel_view, bindings_apply, handle_keybinding, raise_view, remove_view, render_order, seat_capabilities,
    xkb_keycode, CursorMode, KeyBinding, XKB_KEY_ESCAPE, XKB_KEY_F1,
};

#[test]
fn escape_terminates() {
    assert_eq!(handle_keybinding(XKB_KEY_ESCAPE, 0, 0), KeyBinding::Terminate);
    assert!(handle_keybinding(XKB_KEY_ESCAPE, 0, 0).handled());
}

#[test]
fn f1_cycles_through_two_or_more_views() {
    assert_eq!(handle_keybinding(XKB_KEY_F1, 3, 0), KeyBinding::FocusView(1));
    assert_eq!(handle_keybinding(XKB_KEY_F1, 3, 2), KeyBinding::FocusView(0));
    assert_eq!(handle_keybinding(XKB_KEY_F1, 2, 0), KeyBinding::FocusView(1));
    assert_eq!(handle_keybinding(XKB_KEY_F1, 2, 1), KeyBinding::FocusView(0));
    assert_eq!(handle_keybinding(XKB_KEY_F1, 1, 0), KeyBinding::Nothing);
    assert!(handle_keybinding(XKB_KEY_F1, 1, 0).handled());
}

#[test]
fn other_keys_go_to_the_client() {
    assert_eq!(handle_keybinding(0x61, 5, 0), KeyBinding::Unhandled);
    assert!(!handle_keybinding(0x61, 5, 0).handled());
}

#[test]
fn bindings_need_alt_and_a_press() {
    assert!(bindings_apply(8, true));
    assert!(bindings_apply(8 | 1, true));
    assert!(!bindings_apply(8, false));
    assert!(!bindings_apply(4, true));
}

#[test]
fn keycodes_shift_by_eight() {
    assert_eq!(xkb_keycode(30), 38);
}

#[test]
fn seat_always_has_a_pointer() {
    assert_eq!(seat_capabilities(false), 1);
    assert_eq!(seat_capabilities(true), 3);
}

#[test]
fn raising_moves_a_view_to_the_front() {
    let mut views = vec![10, 20, 30, 20];
    raise_view(&mut views, 20);
    assert_eq!(views, vec![20, 10, 30, 20]);
    raise_view(&mut views, 99);
    assert_eq!(views, vec![20, 10, 30, 20]);
    raise_view(&mut views, 30);
    assert_eq!(views, vec![30, 20, 10, 20]);
}

#[test]
fn removing_takes_the_first_occurrence() {
    let mut views = vec![1, 2, 3, 2];
    remove_view(&mut views, 2);
    assert_eq!(views, vec![1, 3, 2]);
}

#[test]
fn frames_render_mapped_views_back_to_front() {
    assert_eq!(render_order(&vec![true, false, true, true]), vec![3, 2, 0]);
    assert_eq!(render_order(&vec![false, false]), Vec::<usize>::new());
    assert_eq!(render_order(&vec![]), Vec::<usize>::new());
}

#[test]
fn cursor_modes_compare() {
    assert_ne!(CursorMode::Move, CursorMode::Resize);
    assert_eq!(CursorMode::Passthrough, CursorMode::Passthrough);
}

#[test]
fn only_toplevel_surfaces_get_a_view_at_the_back() {
    let mut views = vec![1, 2];
    add_toplevel_view(&mut views, 3, true);
    assert_eq!(views, vec![1, 2, 3]);
    add_toplevel_view(&mut views, 4, false);
    assert_eq!(views, vec![1, 2, 3]);
}

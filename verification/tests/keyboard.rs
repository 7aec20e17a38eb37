use photo_viewer::keyboard::action::{KeyboardAction, KeyboardResult};
use photo_viewer::keyboard::binding::{
    resolve_binding, Key, KeyCombo, KeyboardScope, ALT_MASK, CONTROL_MASK, META_MASK, SHIFT_MASK,
};
use photo_viewer::keyboard::router::{
    propagation_after, route_key, scope_for_focus, FocusedWidget, Propagation,
};

fn widget(class_chain: Vec<Vec<String>>) -> FocusedWidget {
    FocusedWidget {
        is_editable: false,
        is_text_view: false,
        is_search_entry: false,
        is_entry: false,
        class_chain,
    }
}

fn entry() -> FocusedWidget {
    let mut focused = widget(vec![vec![]]);
    focused.is_editable = true;
    focused.is_entry = true;
    focused
}

fn button_in_menu_layer() -> FocusedWidget {
    widget(vec![vec!["text-button".to_string()], vec!["glass-context-menu-layer".to_string()], vec![]])
}

#[test]
fn binding_viewer_arrows_resolve_to_media_navigation() {
    assert_eq!(
        resolve_binding(KeyboardScope::Viewer, KeyCombo::plain(Key::Right)),
        Some(KeyboardAction::ViewerNext)
    );
    assert_eq!(
        resolve_binding(KeyboardScope::Viewer, KeyCombo::plain(Key::Left)),
        Some(KeyboardAction::ViewerPrevious)
    );
}

#[test]
fn tests_viewer_arrows_resolve_to_media_navigation() {
    assert_eq!(
        resolve_binding(KeyboardScope::Viewer, KeyCombo::plain(Key::Right)),
        Some(KeyboardAction::ViewerNext)
    );
    assert_eq!(
        resolve_binding(KeyboardScope::Viewer, KeyCombo::plain(Key::Left)),
        Some(KeyboardAction::ViewerPrevious)
    );
}

#[test]
fn binding_viewer_chrome_shortcuts_resolve_to_actions() {
    let viewer = KeyboardScope::Viewer;
    assert_eq!(
        resolve_binding(viewer, KeyCombo::plain(Key::Space)),
        Some(KeyboardAction::ViewerTogglePlayback)
    );
    assert_eq!(
        resolve_binding(viewer, KeyCombo::plain(Key::Plus)),
        Some(KeyboardAction::ViewerZoomIn)
    );
    assert_eq!(
        resolve_binding(viewer, KeyCombo::new(Key::Plus, SHIFT_MASK)),
        Some(KeyboardAction::ViewerZoomIn)
    );
    assert_eq!(
        resolve_binding(viewer, KeyCombo::new(Key::Equal, SHIFT_MASK)),
        Some(KeyboardAction::ViewerZoomIn)
    );
    assert_eq!(
        resolve_binding(viewer, KeyCombo::new(Key::UpperR, SHIFT_MASK)),
        Some(KeyboardAction::ViewerRotateLeft)
    );
    assert_eq!(
        resolve_binding(viewer, KeyCombo::plain(Key::LowerI)),
        Some(KeyboardAction::ViewerToggleDetails)
    );
    assert_eq!(
        resolve_binding(viewer, KeyCombo::plain(Key::LowerH)),
        Some(KeyboardAction::ViewerToggleFavorite)
    );
}

#[test]
fn tests_viewer_chrome_shortcuts_resolve_to_actions() {
    let viewer = KeyboardScope::Viewer;
    assert_eq!(
        resolve_binding(viewer, KeyCombo::plain(Key::Space)),
        Some(KeyboardAction::ViewerTogglePlayback)
    );
    assert_eq!(
        resolve_binding(viewer, KeyCombo::plain(Key::Plus)),
        Some(KeyboardAction::ViewerZoomIn)
    );
    assert_eq!(
        resolve_binding(viewer, KeyCombo::new(Key::Plus, SHIFT_MASK)),
        Some(KeyboardAction::ViewerZoomIn)
    );
    assert_eq!(
        resolve_binding(viewer, KeyCombo::new(Key::Equal, SHIFT_MASK)),
        Some(KeyboardAction::ViewerZoomIn)
    );
    assert_eq!(
        resolve_binding(viewer, KeyCombo::new(Key::UpperR, SHIFT_MASK)),
        Some(KeyboardAction::ViewerRotateLeft)
    );
    assert_eq!(
        resolve_binding(viewer, KeyCombo::plain(Key::LowerI)),
        Some(KeyboardAction::ViewerToggleDetails)
    );
    assert_eq!(
        resolve_binding(viewer, KeyCombo::plain(Key::LowerH)),
        Some(KeyboardAction::ViewerToggleFavorite)
    );
}

#[test]
fn binding_browsing_arrows_resolve_to_grid_navigation() {
    assert_eq!(
        resolve_binding(KeyboardScope::Browsing, KeyCombo::plain(Key::Right)),
        Some(KeyboardAction::BrowseRight)
    );
    assert_eq!(
        resolve_binding(KeyboardScope::Browsing, KeyCombo::plain(Key::Up)),
        Some(KeyboardAction::BrowseUp)
    );
}

#[test]
fn tests_browsing_arrows_resolve_to_grid_navigation() {
    assert_eq!(
        resolve_binding(KeyboardScope::Browsing, KeyCombo::plain(Key::Right)),
        Some(KeyboardAction::BrowseRight)
    );
    assert_eq!(
        resolve_binding(KeyboardScope::Browsing, KeyCombo::plain(Key::Up)),
        Some(KeyboardAction::BrowseUp)
    );
}

#[test]
fn binding_text_input_suppresses_printable_app_shortcuts() {
    assert_eq!(resolve_binding(KeyboardScope::TextInput, KeyCombo::plain(Key::LowerF)), None);
    assert_eq!(
        resolve_binding(KeyboardScope::TextInput, KeyCombo::new(Key::LowerF, CONTROL_MASK)),
        None
    );
}

#[test]
fn tests_text_input_suppresses_printable_app_shortcuts() {
    assert_eq!(resolve_binding(KeyboardScope::TextInput, KeyCombo::plain(Key::LowerF)), None);
    assert_eq!(
        resolve_binding(KeyboardScope::TextInput, KeyCombo::new(Key::LowerF, CONTROL_MASK)),
        None
    );
}

#[test]
fn binding_non_modal_non_text_scopes_fall_back_to_global_actions() {
    assert_eq!(
        resolve_binding(KeyboardScope::Viewer, KeyCombo::new(Key::Comma, CONTROL_MASK)),
        Some(KeyboardAction::OpenSettings)
    );
    assert_eq!(
        resolve_binding(KeyboardScope::Browsing, KeyCombo::new(Key::LowerF, CONTROL_MASK)),
        Some(KeyboardAction::Search)
    );
}

#[test]
fn tests_non_modal_non_text_scopes_fall_back_to_global_actions() {
    assert_eq!(
        resolve_binding(KeyboardScope::Viewer, KeyCombo::new(Key::Comma, CONTROL_MASK)),
        Some(KeyboardAction::OpenSettings)
    );
    assert_eq!(
        resolve_binding(KeyboardScope::Browsing, KeyCombo::new(Key::LowerF, CONTROL_MASK)),
        Some(KeyboardAction::Search)
    );
}

#[test]
fn binding_modal_and_editor_scopes_do_not_fall_back_to_global_actions() {
    assert_eq!(
        resolve_binding(KeyboardScope::Modal, KeyCombo::new(Key::LowerF, CONTROL_MASK)),
        None
    );
    assert_eq!(
        resolve_binding(KeyboardScope::Editor, KeyCombo::new(Key::Comma, CONTROL_MASK)),
        None
    );
    assert_eq!(
        resolve_binding(KeyboardScope::Modal, KeyCombo::plain(Key::Escape)),
        Some(KeyboardAction::CancelOrClose)
    );
}

#[test]
fn tests_modal_and_editor_scopes_do_not_fall_back_to_global_actions() {
    assert_eq!(
        resolve_binding(KeyboardScope::Modal, KeyCombo::new(Key::LowerF, CONTROL_MASK)),
        None
    );
    assert_eq!(
        resolve_binding(KeyboardScope::Editor, KeyCombo::new(Key::Comma, CONTROL_MASK)),
        None
    );
    assert_eq!(
        resolve_binding(KeyboardScope::Modal, KeyCombo::plain(Key::Escape)),
        Some(KeyboardAction::CancelOrClose)
    );
}

#[test]
fn router_focused_entry_resolves_text_input_scope() {
    assert_eq!(scope_for_focus(&Some(entry())), KeyboardScope::TextInput);
}

#[test]
fn router_focused_glass_context_menu_layer_resolves_modal_scope() {
    assert_eq!(scope_for_focus(&Some(button_in_menu_layer())), KeyboardScope::Modal);
}

#[test]
fn tests_focused_entry_resolves_text_input_scope() {
    assert_eq!(scope_for_focus(&Some(entry())), KeyboardScope::TextInput);
}

#[test]
fn tests_focused_glass_context_menu_layer_resolves_modal_scope() {
    assert_eq!(scope_for_focus(&Some(button_in_menu_layer())), KeyboardScope::Modal);
}

#[test]
fn without_focus_shortcuts_are_global() {
    assert_eq!(scope_for_focus(&None), KeyboardScope::Global);
}

#[test]
fn text_input_wins_over_an_open_menu() {
    let mut focused = button_in_menu_layer();
    focused.is_text_view = true;
    assert_eq!(scope_for_focus(&Some(focused)), KeyboardScope::TextInput);
}

#[test]
fn modifiers_are_read_off_the_state_bits() {
    let combo = KeyCombo::new(Key::LowerA, CONTROL_MASK | SHIFT_MASK);
    assert!(combo.ctrl && combo.shift && !combo.alt);
    assert!(KeyCombo::new(Key::LowerA, ALT_MASK).alt);
    assert!(KeyCombo::new(Key::LowerA, META_MASK).alt);
    assert!(KeyCombo::new(Key::LowerA, 0x2) == KeyCombo::plain(Key::LowerA));
}

#[test]
fn key_values_name_their_keys() {
    assert_eq!(Key::from_keyval(0xff1b), Key::Escape);
    assert_eq!(Key::from_keyval(0x20), Key::Space);
    assert_eq!(Key::from_keyval(0x7a), Key::Other(0x7a));
}

#[test]
fn only_handled_shortcuts_stop_the_key() {
    assert_eq!(propagation_after(Some(KeyboardResult::Handled)), Propagation::Stop);
    assert_eq!(propagation_after(Some(KeyboardResult::Ignored)), Propagation::Proceed);
    assert_eq!(propagation_after(None), Propagation::Proceed);
}

#[test]
fn keys_are_routed_by_scope() {
    assert_eq!(
        route_key(KeyboardScope::Viewer, KeyCombo::plain(Key::Right)),
        Some(KeyboardAction::ViewerNext)
    );
    assert_eq!(route_key(KeyboardScope::TextInput, KeyCombo::plain(Key::Right)), None);
}

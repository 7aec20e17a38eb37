use photo_viewer::glass_context_menu::{
    build_menu_panel_for_tests, class_for_kind, GlassMenuItem, GlassMenuItemKind, MenuSizes,
    OpenMenu,
};
use photo_viewer::keyboard::binding::Key;
use photo_viewer::keyboard::router::Propagation;

const OVERLAY_A: u64 = 1;
const LAYER_A: u64 = 10;
const OVERLAY_B: u64 = 2;
const LAYER_B: u64 = 20;
const ANCHOR: u64 = 30;

fn sizes() -> MenuSizes {
    MenuSizes { panel_width: 150, panel_height: 100, overlay_width: 320, overlay_height: 240 }
}

fn check_second_menu_dismisses_first() {
    let mut menu = OpenMenu::new();
    menu.remember_open_menu(OVERLAY_A, LAYER_A);
    assert_eq!(
        menu.dismiss_open_menu(),
        Some((OVERLAY_A, LAYER_A)),
        "opening another context menu should remove the previous one even on a different overlay"
    );
    menu.remember_open_menu(OVERLAY_B, LAYER_B);
    assert!(menu.is_open(), "new context menu layer should remain open");
    assert_eq!(menu.dismiss_open_menu(), Some((OVERLAY_B, LAYER_B)));
    assert!(!menu.is_open());
}

#[test]
fn glass_context_menu_opening_menu_on_new_overlay_dismisses_previous_overlay_menu() {
    check_second_menu_dismisses_first();
}

#[test]
fn tests_opening_menu_on_new_overlay_dismisses_previous_overlay_menu() {
    check_second_menu_dismisses_first();
}

#[test]
fn context_menu_keeps_focus_on_its_anchor() {
    let mut menu = OpenMenu::new();
    menu.focus_moved(Some(ANCHOR));
    let opening = menu.show(OVERLAY_A, LAYER_A, Some((1, 1)), sizes());
    assert!(opening.place.is_some());
    assert!(menu.is_open(), "context menu should be marked open");
    assert_eq!(
        menu.focus,
        Some(ANCHOR),
        "opening the menu must not transfer focus to its overlay layer"
    );
    menu.dismiss_open_menu();
    assert!(!menu.is_open(), "closed context menu must clear its modal state");
    assert_eq!(
        menu.focus,
        Some(ANCHOR),
        "closing the menu must keep focus on the triggering control"
    );
}

#[test]
fn showing_a_menu_takes_the_open_one_away() {
    let mut menu = OpenMenu::new();
    assert_eq!(menu.show(OVERLAY_A, LAYER_A, Some((1, 1)), sizes()).dismissed, None);
    let second = menu.show(OVERLAY_B, LAYER_B, Some((1, 1)), sizes());
    assert_eq!(second.dismissed, Some((OVERLAY_A, LAYER_A)));
    let third = menu.show(OVERLAY_A, LAYER_A, None, sizes());
    assert_eq!(third.dismissed, Some((OVERLAY_B, LAYER_B)));
    assert_eq!(third.place, None);
    assert!(!menu.is_open());
}

#[test]
fn menus_stay_inside_their_overlay() {
    let mut menu = OpenMenu::new();
    let (left, top) = menu.show(OVERLAY_A, LAYER_A, Some((310, 230)), sizes()).place.unwrap();
    assert!(left >= 0 && left + 150 <= 320);
    assert!(top >= 0 && top + 100 <= 240);
    let (left, top) = menu.show(OVERLAY_A, LAYER_A, Some((-50, -50)), sizes()).place.unwrap();
    assert!(left >= 0 && top >= 0);
}

#[test]
fn escape_closes_its_own_menu_alone() {
    let mut menu = OpenMenu::new();
    menu.remember_open_menu(OVERLAY_B, LAYER_B);
    assert_eq!(menu.key_pressed(LAYER_A, Key::Escape), Propagation::Stop);
    assert!(menu.is_open());
    assert_eq!(menu.key_pressed(LAYER_B, Key::Return), Propagation::Proceed);
    assert!(menu.is_open());
    assert_eq!(menu.key_pressed(LAYER_B, Key::Escape), Propagation::Stop);
    assert!(!menu.is_open());
}

#[test]
fn items_carry_the_class_of_their_kind() {
    assert_eq!(class_for_kind(GlassMenuItemKind::Normal), None);
    let items = vec![
        GlassMenuItem::new("open".to_string(), GlassMenuItemKind::Suggested),
        GlassMenuItem::new("delete".to_string(), GlassMenuItemKind::Danger),
    ];
    let buttons = build_menu_panel_for_tests(&items);
    assert_eq!(buttons.len(), 2);
    assert_eq!(buttons[0].label, "open");
    assert_eq!(buttons[0].extra_class, Some("glass-context-menu-item-suggested"));
    assert_eq!(buttons[1].extra_class, Some("glass-context-menu-item-danger"));
}

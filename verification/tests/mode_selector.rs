use photo_viewer::keyboard::binding::Key;
use photo_viewer::keyboard::router::Propagation;
use photo_viewer::mode_selector::{
    indicator_row_width, indicator_x_for, mode_name_for_index, LastSync, ModeSelector, SetActive, StackBinding,
    StackNotify,
};

/// A stack of pages that tells the selector which page it shows.
struct Stack {
    id: u64,
    visible: String,
}

impl Stack {
    fn new(visible: &str) -> Stack {
        Stack { id: 1, visible: visible.to_string() }
    }

    fn show(&mut self, sel: &mut ModeSelector, name: &str) {
        self.visible = name.to_string();
        sel.stack_notify(&self.visible);
    }
}

fn bind(sel: &mut ModeSelector, stack: &Stack) {
    let bound = sel.set_stack(stack.id, &Some(stack.visible.clone()));
    assert_eq!(bound, StackBinding::Bound(None));
}

fn turn(sel: &mut ModeSelector, stack: &mut Stack, index: u32) {
    if sel.set_active_index(index) == SetActive::SetStackChild {
        stack.show(sel, mode_name_for_index(index));
    }
}

fn press(sel: &mut ModeSelector, stack: &mut Stack, key: Key) {
    let (propagation, outcome) = sel.key_pressed(key);
    assert_eq!(propagation, Propagation::Stop);
    if outcome == SetActive::SetStackChild {
        let name = mode_name_for_index(sel.active_index());
        stack.show(sel, name);
    }
}

#[test]
fn mode_selector_default_active_index_is_zero() {
    let sel = ModeSelector::new();
    assert_eq!(sel.active_index(), 0);
}

#[test]
fn tests_default_active_index_is_zero() {
    let sel = ModeSelector::new();
    assert_eq!(sel.active_index(), 0);
}

#[test]
fn mode_selector_set_active_index_updates_active_index() {
    let mut sel = ModeSelector::new();
    sel.set_active_index(1);
    assert_eq!(sel.active_index(), 1);
    sel.set_active_index(2);
    assert_eq!(sel.active_index(), 2);
    sel.set_active_index(0);
    assert_eq!(sel.active_index(), 0);
}

#[test]
fn tests_set_active_index_updates_active_index() {
    let mut sel = ModeSelector::new();
    sel.set_active_index(1);
    assert_eq!(sel.active_index(), 1);
    sel.set_active_index(2);
    assert_eq!(sel.active_index(), 2);
    sel.set_active_index(0);
    assert_eq!(sel.active_index(), 0);
}

#[test]
fn mode_selector_set_active_index_toggles_label_active_class() {
    let mut sel = ModeSelector::new();
    assert!(sel.is_label_active(0));
    assert!(!sel.is_label_active(1));
    assert!(!sel.is_label_active(2));
    sel.set_active_index(2);
    assert!(!sel.is_label_active(0));
    assert!(!sel.is_label_active(1));
    assert!(sel.is_label_active(2));
}

#[test]
fn tests_set_active_index_toggles_label_active_class() {
    let mut sel = ModeSelector::new();
    assert!(sel.is_label_active(0));
    assert!(!sel.is_label_active(1));
    assert!(!sel.is_label_active(2));
    sel.set_active_index(2);
    assert!(!sel.is_label_active(0));
    assert!(!sel.is_label_active(1));
    assert!(sel.is_label_active(2));
}

#[test]
fn mode_selector_indicator_x_centers_under_active_label() {
    assert_eq!(indicator_x_for(0, 120, 24), 48);
    assert_eq!(indicator_x_for(1, 120, 24), 168);
    assert_eq!(indicator_x_for(2, 120, 24), 288);
}

#[test]
fn tests_indicator_x_centers_under_active_label() {
    assert_eq!(indicator_x_for(0, 120, 24), 48);
    assert_eq!(indicator_x_for(1, 120, 24), 168);
    assert_eq!(indicator_x_for(2, 120, 24), 288);
}

#[test]
fn mode_selector_day_seeded_indicator_is_positioned_before_first_allocation() {
    let mut sel = ModeSelector::new();
    let stack = Stack::new("day");
    bind(&mut sel, &stack);
    assert_eq!(sel.active_index(), 2);
    assert!(
        sel.indicator_target_x(indicator_row_width(0, Some(360), 0), 24).unwrap() > 0,
        "binding to an already-Day stack should seed a Day-side indicator target before the first allocation"
    );
}

#[test]
fn tests_day_seeded_indicator_is_positioned_before_first_allocation() {
    let mut sel = ModeSelector::new();
    let stack = Stack::new("day");
    bind(&mut sel, &stack);
    assert_eq!(sel.active_index(), 2);
    assert!(
        sel.indicator_target_x(indicator_row_width(0, Some(360), 0), 24).unwrap() > 0,
        "binding to an already-Day stack should seed a Day-side indicator target before the first allocation"
    );
}

#[test]
fn mode_selector_set_light_background_toggles_contrast_class() {
    let mut sel = ModeSelector::new();
    assert!(!sel.light_background);
    sel.set_light_background(true);
    assert!(sel.light_background);
    sel.set_light_background(false);
    assert!(!sel.light_background);
}

#[test]
fn tests_set_light_background_toggles_contrast_class() {
    let mut sel = ModeSelector::new();
    assert!(!sel.light_background);
    sel.set_light_background(true);
    assert!(sel.light_background);
    sel.set_light_background(false);
    assert!(!sel.light_background);
}

#[test]
fn mode_selector_set_active_index_clamps_out_of_range() {
    let mut sel = ModeSelector::new();
    sel.set_active_index(99);
    assert_eq!(sel.active_index(), 0, "out-of-range should be a no-op");
    sel.set_active_index(2);
    sel.set_active_index(3);
    assert_eq!(sel.active_index(), 2, "out-of-range should not change current");
}

#[test]
fn tests_set_active_index_clamps_out_of_range() {
    let mut sel = ModeSelector::new();
    sel.set_active_index(99);
    assert_eq!(sel.active_index(), 0, "out-of-range should be a no-op");
    sel.set_active_index(2);
    sel.set_active_index(3);
    assert_eq!(sel.active_index(), 2, "out-of-range should not change current");
}

#[test]
fn mode_selector_set_active_index_drives_stack_visible_child() {
    let mut sel = ModeSelector::new();
    let mut stack = Stack::new("year");
    bind(&mut sel, &stack);
    turn(&mut sel, &mut stack, 2);
    assert_eq!(stack.visible, "day");
    turn(&mut sel, &mut stack, 0);
    assert_eq!(stack.visible, "year");
}

#[test]
fn tests_set_active_index_drives_stack_visible_child() {
    let mut sel = ModeSelector::new();
    let mut stack = Stack::new("year");
    bind(&mut sel, &stack);
    turn(&mut sel, &mut stack, 2);
    assert_eq!(stack.visible, "day");
    turn(&mut sel, &mut stack, 0);
    assert_eq!(stack.visible, "year");
}

#[test]
fn mode_selector_stack_visible_child_change_drives_active_index() {
    let mut sel = ModeSelector::new();
    let mut stack = Stack::new("year");
    bind(&mut sel, &stack);
    stack.show(&mut sel, "month");
    assert_eq!(sel.active_index(), 1);
}

#[test]
fn tests_stack_visible_child_change_drives_active_index() {
    let mut sel = ModeSelector::new();
    let mut stack = Stack::new("year");
    bind(&mut sel, &stack);
    stack.show(&mut sel, "month");
    assert_eq!(sel.active_index(), 1);
}

#[test]
fn mode_selector_set_stack_seeds_active_index_from_current_child() {
    let mut sel = ModeSelector::new();
    let stack = Stack::new("day");
    bind(&mut sel, &stack);
    assert_eq!(sel.active_index(), 2);
}

#[test]
fn tests_set_stack_seeds_active_index_from_current_child() {
    let mut sel = ModeSelector::new();
    let stack = Stack::new("day");
    bind(&mut sel, &stack);
    assert_eq!(sel.active_index(), 2);
}

#[test]
fn mode_selector_loop_guard_prevents_recursive_set() {
    let mut sel = ModeSelector::new();
    let mut stack = Stack::new("year");
    bind(&mut sel, &stack);
    assert_eq!(sel.last_sync_state(), LastSync::Synced(0));
    turn(&mut sel, &mut stack, 1);
    assert_eq!(
        sel.last_sync_state(),
        LastSync::Synced(1),
        "self-induced notify should consume SelfPending → Synced"
    );
    assert_eq!(sel.active_index(), 1);
    assert_eq!(sel.stack_notify(&"month".to_string()), StackNotify::SyncedEcho);
    assert_eq!(sel.last_sync_state(), LastSync::Synced(1));
    assert_eq!(sel.active_index(), 1);
    stack.show(&mut sel, "day");
    assert_eq!(
        sel.last_sync_state(),
        LastSync::Synced(2),
        "external change should propagate to active_index + Synced"
    );
    assert_eq!(sel.active_index(), 2);
}

#[test]
fn tests_loop_guard_prevents_recursive_set() {
    let mut sel = ModeSelector::new();
    let mut stack = Stack::new("year");
    bind(&mut sel, &stack);
    assert_eq!(sel.last_sync_state(), LastSync::Synced(0));
    turn(&mut sel, &mut stack, 1);
    assert_eq!(
        sel.last_sync_state(),
        LastSync::Synced(1),
        "self-induced notify should consume SelfPending → Synced"
    );
    assert_eq!(sel.active_index(), 1);
    assert_eq!(sel.stack_notify(&"month".to_string()), StackNotify::SyncedEcho);
    assert_eq!(sel.last_sync_state(), LastSync::Synced(1));
    assert_eq!(sel.active_index(), 1);
    stack.show(&mut sel, "day");
    assert_eq!(
        sel.last_sync_state(),
        LastSync::Synced(2),
        "external change should propagate to active_index + Synced"
    );
    assert_eq!(sel.active_index(), 2);
}

#[test]
fn mode_selector_clicking_label_cell_triggers_active_index_change() {
    let mut sel = ModeSelector::new();
    assert_eq!(sel.set_active_index(1), SetActive::SelectorOnly);
    assert_eq!(sel.active_index(), 1);
}

#[test]
fn tests_clicking_label_cell_triggers_active_index_change() {
    let mut sel = ModeSelector::new();
    assert_eq!(sel.set_active_index(1), SetActive::SelectorOnly);
    assert_eq!(sel.active_index(), 1);
}

#[test]
fn mode_selector_race_double_set_active_index_probe() {
    let mut sel = ModeSelector::new();
    let mut stack = Stack::new("year");
    bind(&mut sel, &stack);
    turn(&mut sel, &mut stack, 2);
    turn(&mut sel, &mut stack, 1);
    assert_eq!(sel.active_index(), 1);
    assert_eq!(stack.visible, "month");
    assert_eq!(
        sel.last_sync_state(),
        LastSync::Synced(1),
        "the second SelfPending must consume cleanly to Synced(1)"
    );
    sel.stack_notify(&stack.visible);
    assert_eq!(sel.active_index(), 1);
    assert_eq!(stack.visible, "month");
}

#[test]
fn tests_race_double_set_active_index_probe() {
    let mut sel = ModeSelector::new();
    let mut stack = Stack::new("year");
    bind(&mut sel, &stack);
    turn(&mut sel, &mut stack, 2);
    turn(&mut sel, &mut stack, 1);
    assert_eq!(sel.active_index(), 1);
    assert_eq!(stack.visible, "month");
    assert_eq!(
        sel.last_sync_state(),
        LastSync::Synced(1),
        "the second SelfPending must consume cleanly to Synced(1)"
    );
    sel.stack_notify(&stack.visible);
    assert_eq!(sel.active_index(), 1);
    assert_eq!(stack.visible, "month");
}

#[test]
fn mode_selector_right_arrow_advances_active_index_with_wrap() {
    let mut sel = ModeSelector::new();
    let mut stack = Stack::new("year");
    bind(&mut sel, &stack);
    press(&mut sel, &mut stack, Key::Right);
    assert_eq!(sel.active_index(), 1);
    press(&mut sel, &mut stack, Key::Right);
    assert_eq!(sel.active_index(), 2);
    press(&mut sel, &mut stack, Key::Right);
    assert_eq!(sel.active_index(), 0);
}

#[test]
fn tests_right_arrow_advances_active_index_with_wrap() {
    let mut sel = ModeSelector::new();
    let mut stack = Stack::new("year");
    bind(&mut sel, &stack);
    press(&mut sel, &mut stack, Key::Right);
    assert_eq!(sel.active_index(), 1);
    press(&mut sel, &mut stack, Key::Right);
    assert_eq!(sel.active_index(), 2);
    press(&mut sel, &mut stack, Key::Right);
    assert_eq!(sel.active_index(), 0);
}

#[test]
fn mode_selector_left_arrow_retreats_active_index_with_wrap() {
    let mut sel = ModeSelector::new();
    let mut stack = Stack::new("year");
    bind(&mut sel, &stack);
    press(&mut sel, &mut stack, Key::Left);
    assert_eq!(sel.active_index(), 2);
    press(&mut sel, &mut stack, Key::Left);
    assert_eq!(sel.active_index(), 1);
}

#[test]
fn tests_left_arrow_retreats_active_index_with_wrap() {
    let mut sel = ModeSelector::new();
    let mut stack = Stack::new("year");
    bind(&mut sel, &stack);
    press(&mut sel, &mut stack, Key::Left);
    assert_eq!(sel.active_index(), 2);
    press(&mut sel, &mut stack, Key::Left);
    assert_eq!(sel.active_index(), 1);
}

#[test]
fn a_late_notify_of_an_older_page_is_not_followed() {
    let mut sel = ModeSelector::new();
    let stack = Stack::new("year");
    bind(&mut sel, &stack);
    assert_eq!(sel.set_active_index(2), SetActive::SetStackChild);
    assert_eq!(sel.set_active_index(1), SetActive::SetStackChild);
    assert_eq!(sel.stack_notify(&"day".to_string()), StackNotify::StaleSelfPending);
    assert_eq!(sel.active_index(), 1);
    assert_eq!(sel.last_sync_state(), LastSync::SelfPending(1));
    assert_eq!(sel.stack_notify(&"month".to_string()), StackNotify::SelfEcho);
    assert_eq!(sel.last_sync_state(), LastSync::Synced(1));
}

#[test]
fn pages_that_are_no_view_and_other_keys_are_ignored() {
    let mut sel = ModeSelector::new();
    assert_eq!(sel.stack_notify(&"search".to_string()), StackNotify::UnsupportedChild);
    assert_eq!(sel.key_pressed(Key::Up).0, Propagation::Proceed);
    assert_eq!(sel.active_index(), 0);
    assert_eq!(sel.set_active_index(0), SetActive::AlreadyActive);
    assert_eq!(sel.set_active_index(3), SetActive::OutOfRange);
}

#[test]
fn binding_the_same_stack_again_changes_nothing() {
    let mut sel = ModeSelector::new();
    let stack = Stack::new("month");
    bind(&mut sel, &stack);
    assert_eq!(sel.set_stack(1, &Some("day".to_string())), StackBinding::SameStack);
    assert_eq!(sel.active_index(), 1);
    assert_eq!(sel.set_stack(2, &None), StackBinding::Bound(Some(1)));
}

#[test]
fn the_row_has_the_width_it_was_given_or_asks_for() {
    assert_eq!(indicator_row_width(300, Some(360), 90), 300);
    assert_eq!(indicator_row_width(0, Some(360), 90), 360);
    assert_eq!(indicator_row_width(0, Some(0), 90), 90);
    assert_eq!(indicator_row_width(-1, None, 90), 90);
}

#[test]
fn a_row_without_width_has_no_indicator() {
    let sel = ModeSelector::new();
    assert_eq!(sel.indicator_target_x(0, 24), None);
    assert_eq!(sel.indicator_target_x(360, 24), Some(48));
    assert!(LastSync::default() == LastSync::Synced(0));
}

#[test]
fn former_stacks_no_longer_move_the_switch() {
    let mut sel = ModeSelector::new();
    sel.set_stack(1, &Some("year".to_string()));
    assert_eq!(sel.stack_changed(1, &"month".to_string()), Some(StackNotify::ExternalChange));
    assert_eq!(sel.active_index(), 1);
    sel.set_stack(2, &Some("day".to_string()));
    assert_eq!(sel.stack_changed(1, &"year".to_string()), None);
    assert_eq!(sel.active_index(), 2);
    assert_eq!(sel.stack_changed(2, &"year".to_string()), Some(StackNotify::ExternalChange));
    assert_eq!(sel.active_index(), 0);
}

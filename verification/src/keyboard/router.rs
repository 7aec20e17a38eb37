//! Routing a key press: which scope is in charge, and whether the press goes
//! on to other handlers.

use super::action::{KeyboardAction, KeyboardResult};
#[allow(unused_imports)]
use super::binding::bound_action;
use super::binding::{resolve_binding, KeyCombo, KeyboardScope};
use vstd::prelude::*;

verus! {

/// What becomes of a key press after a handler saw it.
#[derive(Debug, Clone, Copy, PartialEq, Eq, Structural)]
pub enum Propagation {
    Proceed,
    Stop,
}

/// The widget that holds the keyboard focus: what it is, and the style classes
/// of the widget itself and of each of its ancestors, innermost first.
pub struct FocusedWidget {
    pub is_editable: bool,
    pub is_text_view: bool,
    pub is_search_entry: bool,
    pub is_entry: bool,
    pub class_chain: Vec<Vec<String>>,
}

/// Can the user type into the widget?
pub open spec fn takes_text(focus: FocusedWidget) -> bool {
    focus.is_editable || focus.is_text_view || focus.is_search_entry || focus.is_entry
}

/// Does a list of style classes hold `class_name`?
pub open spec fn has_class(classes: Seq<String>, class_name: Seq<char>) -> bool {
    exists|i: int| 0 <= i < classes.len() && (#[trigger] classes[i])@ == class_name
}

/// Does the widget or one of its ancestors carry `class_name`?
pub open spec fn inside_class(focus: FocusedWidget, class_name: Seq<char>) -> bool {
    exists|level: int|
        0 <= level < focus.class_chain@.len() && has_class(
            (#[trigger] focus.class_chain@[level])@,
            class_name,
        )
}

/// The scope that the keyboard focus puts in charge.
pub open spec fn focus_scope(focus: Option<FocusedWidget>) -> KeyboardScope {
    match focus {
        None => KeyboardScope::Global,
        Some(widget) => if takes_text(widget) {
            KeyboardScope::TextInput
        } else if inside_class(widget, "glass-context-menu-layer"@) {
            KeyboardScope::Modal
        } else {
            KeyboardScope::Global
        },
    }
}

/// The scope that the keyboard focus puts in charge: a text field keeps its
/// keys, an open context menu is modal, anything else is global.
pub fn scope_for_focus(focus: &Option<FocusedWidget>) -> (scope: KeyboardScope)
    ensures
        scope == focus_scope(*focus),
{
    match focus {
        None => KeyboardScope::Global,
        Some(widget) => {
            if focus_is_text_input(widget) {
                KeyboardScope::TextInput
            } else if focus_has_ancestor_class(widget, "glass-context-menu-layer") {
                KeyboardScope::Modal
            } else {
                KeyboardScope::Global
            }
        },
    }
}

fn focus_is_text_input(focus: &FocusedWidget) -> (text: bool)
    ensures
        text == takes_text(*focus),
{
    focus.is_editable || focus.is_text_view || focus.is_search_entry || focus.is_entry
}

fn focus_has_ancestor_class(focus: &FocusedWidget, class_name: &str) -> (found: bool)
    ensures
        found == inside_class(*focus, class_name@),
{
    let wanted: String = class_name.to_owned();
    let mut level: usize = 0;
    while level < focus.class_chain.len()
        invariant
            level <= focus.class_chain@.len(),
            wanted@ == class_name@,
            forall|l: int|
                0 <= l < level ==> !has_class((#[trigger] focus.class_chain@[l])@, class_name@),
        decreases focus.class_chain@.len() - level,
    {
        let classes: &Vec<String> = &focus.class_chain[level];
        let mut i: usize = 0;
        while i < classes.len()
            invariant
                i <= classes@.len(),
                level < focus.class_chain@.len(),
                *classes == focus.class_chain@[level as int],
                wanted@ == class_name@,
                forall|j: int| 0 <= j < i ==> (#[trigger] classes@[j])@ != class_name@,
            decreases classes@.len() - i,
        {
            if classes[i] == wanted {
                assert(has_class(focus.class_chain@[level as int]@, class_name@));
                return true;
            }
            i += 1;
        }
        level += 1;
    }
    false
}

/// The action a key press asks for, if it asks for one.
pub fn route_key(focus_scope: KeyboardScope, combo: KeyCombo) -> (action: Option<KeyboardAction>)
    ensures
        action == bound_action(focus_scope, combo),
{
    resolve_binding(focus_scope, combo)
}

/// Whether a key press goes on to other handlers, given what became of the
/// action it asked for. A press without an action, and one whose action nobody
/// took, go on.
pub fn propagation_after(outcome: Option<KeyboardResult>) -> (propagation: Propagation)
    ensures
        propagation == Propagation::Stop <==> outcome == Some(KeyboardResult::Handled),
{
    match outcome {
        Some(result) => {
            if result.is_handled() {
                Propagation::Stop
            } else {
                Propagation::Proceed
            }
        },
        None => Propagation::Proceed,
    }
}

/// Whatever the user can type into keeps its keys, even in an open menu. An open
/// menu is modal, and everywhere else the global shortcuts hold.
pub proof fn the_focus_decides_the_scope(widget: FocusedWidget)
    ensures
        widget.is_editable || widget.is_text_view || widget.is_search_entry || widget.is_entry
            <==> focus_scope(Some(widget)) == KeyboardScope::TextInput,
        focus_scope(Some(widget)) == KeyboardScope::Modal <==> !widget.is_editable
            && !widget.is_text_view && !widget.is_search_entry && !widget.is_entry && exists|
            level: int,
            i: int,
        |
            0 <= level < widget.class_chain@.len() && 0 <= i < widget.class_chain@[level]@.len()
                && (#[trigger] widget.class_chain@[level]@[i])@ == "glass-context-menu-layer"@,
        focus_scope(Some(widget)) == KeyboardScope::TextInput || focus_scope(Some(widget))
            == KeyboardScope::Modal || focus_scope(Some(widget)) == KeyboardScope::Global,
        focus_scope(None) == KeyboardScope::Global,
{
    let layer = "glass-context-menu-layer"@;
    if inside_class(widget, layer) {
        let level = choose|level: int|
            0 <= level < widget.class_chain@.len() && has_class(
                (#[trigger] widget.class_chain@[level])@,
                layer,
            );
        let classes = widget.class_chain@[level]@;
        let i = choose|i: int| 0 <= i < classes.len() && (#[trigger] classes[i])@ == layer;
        assert(widget.class_chain@[level]@[i]@ == layer);
    }
    if exists|level: int, i: int|
        0 <= level < widget.class_chain@.len() && 0 <= i < widget.class_chain@[level]@.len() && (
        #[trigger] widget.class_chain@[level]@[i])@ == layer {
        let (level, i) = choose|level: int, i: int|
            0 <= level < widget.class_chain@.len() && 0 <= i < widget.class_chain@[level]@.len()
                && (#[trigger] widget.class_chain@[level]@[i])@ == layer;
        assert(has_class(widget.class_chain@[level]@, layer));
    }
}

} // verus!

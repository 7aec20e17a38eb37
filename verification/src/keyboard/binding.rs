//! The shortcut tables: one per scope, with the global table as the fallback
//! of the browsing and viewer scopes.

use super::action::KeyboardAction;
use vstd::prelude::*;

verus! {

/// Modifier bits of a key event.
pub const SHIFT_MASK: u32 = 0x1;

pub const CONTROL_MASK: u32 = 0x4;

pub const ALT_MASK: u32 = 0x8;

pub const META_MASK: u32 = 0x1000_0000;

#[derive(Debug, Clone, Copy, PartialEq, Eq, Structural, Hash)]
pub enum KeyboardScope {
    TextInput,
    Modal,
    Editor,
    Viewer,
    Browsing,
    Global,
}

/// A key, named where a shortcut uses it. `Other` carries the key value of any
/// other key.
#[derive(Debug, Clone, Copy, PartialEq, Eq, Structural)]
pub enum Key {
    Escape,
    Left,
    KpLeft,
    Right,
    KpRight,
    Up,
    KpUp,
    Down,
    KpDown,
    Return,
    KpEnter,
    Space,
    KpSpace,
    Delete,
    Comma,
    Plus,
    KpAdd,
    Equal,
    Minus,
    KpSubtract,
    Digit0,
    Kp0,
    LowerA,
    UpperA,
    LowerE,
    LowerF,
    UpperF,
    LowerH,
    LowerI,
    LowerR,
    UpperR,
    Other(u32),
}

/// The key value of a named key, as the windowing system numbers keys.
pub open spec fn keyval(key: Key) -> u32 {
    match key {
        Key::Escape => 0xff1b,
        Key::Left => 0xff51,
        Key::KpLeft => 0xff96,
        Key::Right => 0xff53,
        Key::KpRight => 0xff98,
        Key::Up => 0xff52,
        Key::KpUp => 0xff97,
        Key::Down => 0xff54,
        Key::KpDown => 0xff99,
        Key::Return => 0xff0d,
        Key::KpEnter => 0xff8d,
        Key::Space => 0x20,
        Key::KpSpace => 0xff80,
        Key::Delete => 0xffff,
        Key::Comma => 0x2c,
        Key::Plus => 0x2b,
        Key::KpAdd => 0xffab,
        Key::Equal => 0x3d,
        Key::Minus => 0x2d,
        Key::KpSubtract => 0xffad,
        Key::Digit0 => 0x30,
        Key::Kp0 => 0xffb0,
        Key::LowerA => 0x61,
        Key::UpperA => 0x41,
        Key::LowerE => 0x65,
        Key::LowerF => 0x66,
        Key::UpperF => 0x46,
        Key::LowerH => 0x68,
        Key::LowerI => 0x69,
        Key::LowerR => 0x72,
        Key::UpperR => 0x52,
        Key::Other(value) => value,
    }
}

impl Key {
    /// The key with key value `value`, under its name where it has one.
    pub fn from_keyval(value: u32) -> (key: Key)
        ensures
            keyval(key) == value,
            forall|named: Key| named !is Other && keyval(named) == value ==> key == named,
    {
        match value {
            0xff1b => Key::Escape,
            0xff51 => Key::Left,
            0xff96 => Key::KpLeft,
            0xff53 => Key::Right,
            0xff98 => Key::KpRight,
            0xff52 => Key::Up,
            0xff97 => Key::KpUp,
            0xff54 => Key::Down,
            0xff99 => Key::KpDown,
            0xff0d => Key::Return,
            0xff8d => Key::KpEnter,
            0x20 => Key::Space,
            0xff80 => Key::KpSpace,
            0xffff => Key::Delete,
            0x2c => Key::Comma,
            0x2b => Key::Plus,
            0xffab => Key::KpAdd,
            0x3d => Key::Equal,
            0x2d => Key::Minus,
            0xffad => Key::KpSubtract,
            0x30 => Key::Digit0,
            0xffb0 => Key::Kp0,
            0x61 => Key::LowerA,
            0x41 => Key::UpperA,
            0x65 => Key::LowerE,
            0x66 => Key::LowerF,
            0x46 => Key::UpperF,
            0x68 => Key::LowerH,
            0x69 => Key::LowerI,
            0x72 => Key::LowerR,
            0x52 => Key::UpperR,
            _ => Key::Other(value),
        }
    }
}

/// A key together with the modifiers held down with it.
#[derive(Debug, Clone, Copy, PartialEq, Eq, Structural)]
pub struct KeyCombo {
    pub key: Key,
    pub ctrl: bool,
    pub shift: bool,
    pub alt: bool,
}

/// The combination of `key` with no modifier.
pub open spec fn plain_combo(key: Key) -> KeyCombo {
    KeyCombo { key, ctrl: false, shift: false, alt: false }
}

impl KeyCombo {
    /// The combination of a key event with modifier bits `state`. Alt and Meta
    /// count as one modifier.
    pub fn new(key: Key, state: u32) -> (combo: KeyCombo)
        ensures
            combo.key == key,
            combo.ctrl == (state & CONTROL_MASK == CONTROL_MASK),
            combo.shift == (state & SHIFT_MASK == SHIFT_MASK),
            combo.alt == (state & ALT_MASK == ALT_MASK || state & META_MASK == META_MASK),
    {
        KeyCombo {
            key,
            ctrl: state & CONTROL_MASK == CONTROL_MASK,
            shift: state & SHIFT_MASK == SHIFT_MASK,
            alt: state & ALT_MASK == ALT_MASK || state & META_MASK == META_MASK,
        }
    }

    /// The combination of `key` with no modifier.
    pub fn plain(key: Key) -> (combo: KeyCombo)
        ensures
            combo == plain_combo(key),
    {
        KeyCombo { key, ctrl: false, shift: false, alt: false }
    }
}

/// Is no modifier held?
pub open spec fn unmodified(combo: KeyCombo) -> bool {
    !combo.ctrl && !combo.shift && !combo.alt
}

/// Is Ctrl held, with Shift exactly when the key is an upper case letter?
pub open spec fn ctrl_letter(combo: KeyCombo, lower: Key, upper: Key) -> bool {
    &&& combo.ctrl && !combo.alt
    &&& combo.key == lower && !combo.shift || combo.key == upper && combo.shift
}

/// What a combination means everywhere outside text fields, dialogs and the
/// editor.
pub open spec fn global_action(combo: KeyCombo) -> Option<KeyboardAction> {
    if combo == plain_combo(Key::Escape) {
        Some(KeyboardAction::CancelOrClose)
    } else if (combo.key == Key::Left || combo.key == Key::KpLeft) && combo.alt && !combo.ctrl
        && !combo.shift {
        Some(KeyboardAction::NavigateBack)
    } else if ctrl_letter(combo, Key::LowerF, Key::UpperF) {
        Some(KeyboardAction::Search)
    } else if combo.key == Key::Comma && combo.ctrl && !combo.alt && !combo.shift {
        Some(KeyboardAction::OpenSettings)
    } else {
        None
    }
}

/// What a combination means in a photo grid.
pub open spec fn browsing_action(combo: KeyCombo) -> Option<KeyboardAction> {
    if ctrl_letter(combo, Key::LowerA, Key::UpperA) {
        Some(KeyboardAction::SelectAll)
    } else if !unmodified(combo) {
        None
    } else {
        match combo.key {
            Key::Up | Key::KpUp => Some(KeyboardAction::BrowseUp),
            Key::Down | Key::KpDown => Some(KeyboardAction::BrowseDown),
            Key::Left | Key::KpLeft => Some(KeyboardAction::BrowseLeft),
            Key::Right | Key::KpRight => Some(KeyboardAction::BrowseRight),
            Key::Return | Key::KpEnter => Some(KeyboardAction::ActivateFocused),
            Key::Space | Key::KpSpace => Some(KeyboardAction::ToggleSelection),
            Key::Delete => Some(KeyboardAction::Delete),
            _ => None,
        }
    }
}

/// What a combination means in the viewer. Zooming in ignores Shift, because
/// some layouts need it to type a plus sign.
pub open spec fn viewer_action(combo: KeyCombo) -> Option<KeyboardAction> {
    if (combo.key == Key::Plus || combo.key == Key::KpAdd || combo.key == Key::Equal) && !combo.ctrl
        && !combo.alt {
        Some(KeyboardAction::ViewerZoomIn)
    } else if combo.key == Key::UpperR && combo.shift && !combo.ctrl && !combo.alt {
        Some(KeyboardAction::ViewerRotateLeft)
    } else if !unmodified(combo) {
        None
    } else {
        match combo.key {
            Key::Left | Key::KpLeft => Some(KeyboardAction::ViewerPrevious),
            Key::Right | Key::KpRight => Some(KeyboardAction::ViewerNext),
            Key::Escape => Some(KeyboardAction::CancelOrClose),
            Key::Space | Key::KpSpace => Some(KeyboardAction::ViewerTogglePlayback),
            Key::Minus | Key::KpSubtract => Some(KeyboardAction::ViewerZoomOut),
            Key::Digit0 | Key::Kp0 => Some(KeyboardAction::ViewerZoomReset),
            Key::LowerR => Some(KeyboardAction::ViewerRotateRight),
            Key::LowerF => Some(KeyboardAction::ViewerFullscreenPreview),
            Key::LowerI => Some(KeyboardAction::ViewerToggleDetails),
            Key::LowerE => Some(KeyboardAction::ViewerToggleEdit),
            Key::LowerH => Some(KeyboardAction::ViewerToggleFavorite),
            Key::Delete => Some(KeyboardAction::Delete),
            _ => None,
        }
    }
}

/// What a combination means by a scope's own table.
pub open spec fn own_action(scope: KeyboardScope, combo: KeyCombo) -> Option<KeyboardAction> {
    match scope {
        KeyboardScope::TextInput => None,
        KeyboardScope::Modal | KeyboardScope::Editor => if combo == plain_combo(Key::Escape) {
            Some(KeyboardAction::CancelOrClose)
        } else {
            None
        },
        KeyboardScope::Viewer => viewer_action(combo),
        KeyboardScope::Browsing => browsing_action(combo),
        KeyboardScope::Global => global_action(combo),
    }
}

/// Does a scope hand what it does not know to the global table?
pub open spec fn falls_back(scope: KeyboardScope) -> bool {
    scope == KeyboardScope::Viewer || scope == KeyboardScope::Browsing
}

/// What a combination means in a scope.
pub open spec fn bound_action(scope: KeyboardScope, combo: KeyCombo) -> Option<KeyboardAction> {
    match own_action(scope, combo) {
        Some(action) => Some(action),
        None => if falls_back(scope) { global_action(combo) } else { None },
    }
}

/// What a key combination means in `scope`: the scope's own table first, then,
/// for the viewer and the browsing scopes, the global table.
pub fn resolve_binding(scope: KeyboardScope, combo: KeyCombo) -> (action: Option<KeyboardAction>)
    ensures
        action == bound_action(scope, combo),
{
    match scoped_binding(scope, combo) {
        Some(action) => Some(action),
        None => match scope {
            KeyboardScope::Global
            | KeyboardScope::TextInput
            | KeyboardScope::Modal
            | KeyboardScope::Editor => None,
            KeyboardScope::Viewer | KeyboardScope::Browsing => scoped_binding(
                KeyboardScope::Global,
                combo,
            ),
        },
    }
}

fn scoped_binding(scope: KeyboardScope, combo: KeyCombo) -> (action: Option<KeyboardAction>)
    ensures
        action == own_action(scope, combo),
{
    match scope {
        KeyboardScope::TextInput => None,
        KeyboardScope::Modal | KeyboardScope::Editor => if combo == KeyCombo::plain(Key::Escape) {
            Some(KeyboardAction::CancelOrClose)
        } else {
            None
        },
        KeyboardScope::Viewer => viewer_binding(combo),
        KeyboardScope::Browsing => browsing_binding(combo),
        KeyboardScope::Global => global_binding(combo),
    }
}

fn global_binding(combo: KeyCombo) -> (action: Option<KeyboardAction>)
    ensures
        action == global_action(combo),
{
    match (combo.key, combo.ctrl, combo.shift, combo.alt) {
        (Key::Escape, false, false, false) => Some(KeyboardAction::CancelOrClose),
        (Key::Left, false, false, true) => Some(KeyboardAction::NavigateBack),
        (Key::KpLeft, false, false, true) => Some(KeyboardAction::NavigateBack),
        (Key::LowerF, true, false, false) => Some(KeyboardAction::Search),
        (Key::UpperF, true, true, false) => Some(KeyboardAction::Search),
        (Key::Comma, true, false, false) => Some(KeyboardAction::OpenSettings),
        _ => None,
    }
}

fn browsing_binding(combo: KeyCombo) -> (action: Option<KeyboardAction>)
    ensures
        action == browsing_action(combo),
{
    match (combo.key, combo.ctrl, combo.shift, combo.alt) {
        (Key::Up | Key::KpUp, false, false, false) => Some(KeyboardAction::BrowseUp),
        (Key::Down | Key::KpDown, false, false, false) => Some(KeyboardAction::BrowseDown),
        (Key::Left | Key::KpLeft, false, false, false) => Some(KeyboardAction::BrowseLeft),
        (Key::Right | Key::KpRight, false, false, false) => Some(KeyboardAction::BrowseRight),
        (Key::Return | Key::KpEnter, false, false, false) => Some(KeyboardAction::ActivateFocused),
        (Key::Space | Key::KpSpace, false, false, false) => Some(KeyboardAction::ToggleSelection),
        (Key::LowerA, true, false, false) => Some(KeyboardAction::SelectAll),
        (Key::UpperA, true, true, false) => Some(KeyboardAction::SelectAll),
        (Key::Delete, false, false, false) => Some(KeyboardAction::Delete),
        _ => None,
    }
}

fn viewer_binding(combo: KeyCombo) -> (action: Option<KeyboardAction>)
    ensures
        action == viewer_action(combo),
{
    match (combo.key, combo.ctrl, combo.shift, combo.alt) {
        (Key::Left | Key::KpLeft, false, false, false) => Some(KeyboardAction::ViewerPrevious),
        (Key::Right | Key::KpRight, false, false, false) => Some(KeyboardAction::ViewerNext),
        (Key::Escape, false, false, false) => Some(KeyboardAction::CancelOrClose),
        (Key::Space | Key::KpSpace, false, false, false) => Some(
            KeyboardAction::ViewerTogglePlayback,
        ),
        (Key::Plus | Key::KpAdd | Key::Equal, false, _, false) => Some(KeyboardAction::ViewerZoomIn),
        (Key::Minus | Key::KpSubtract, false, false, false) => Some(KeyboardAction::ViewerZoomOut),
        (Key::Digit0 | Key::Kp0, false, false, false) => Some(KeyboardAction::ViewerZoomReset),
        (Key::LowerR, false, false, false) => Some(KeyboardAction::ViewerRotateRight),
        (Key::UpperR, false, true, false) => Some(KeyboardAction::ViewerRotateLeft),
        (Key::LowerF, false, false, false) => Some(KeyboardAction::ViewerFullscreenPreview),
        (Key::LowerI, false, false, false) => Some(KeyboardAction::ViewerToggleDetails),
        (Key::LowerE, false, false, false) => Some(KeyboardAction::ViewerToggleEdit),
        (Key::LowerH, false, false, false) => Some(KeyboardAction::ViewerToggleFavorite),
        (Key::Delete, false, false, false) => Some(KeyboardAction::Delete),
        _ => None,
    }
}

/// A text field keeps every key for itself.
pub proof fn text_input_suppresses_all_shortcuts(combo: KeyCombo)
    ensures
        bound_action(KeyboardScope::TextInput, combo) is None,
{
}

/// Dialogs and the editor know nothing but Escape; global shortcuts do not
/// reach through them.
pub proof fn dialogs_and_editor_only_know_escape(combo: KeyCombo)
    ensures
        bound_action(KeyboardScope::Modal, combo) is Some <==> combo == plain_combo(Key::Escape),
        bound_action(KeyboardScope::Editor, combo) == bound_action(KeyboardScope::Modal, combo),
{
}

/// Escape cancels or closes in every scope but a text field.
pub proof fn escape_cancels_outside_text_input(scope: KeyboardScope)
    requires
        scope != KeyboardScope::TextInput,
    ensures
        bound_action(scope, plain_combo(Key::Escape)) == Some(KeyboardAction::CancelOrClose),
{
}

/// The viewer and the browsing scopes fall back to the global table for what
/// they do not bind themselves, and only for that.
pub proof fn viewer_and_browsing_fall_back_to_global(scope: KeyboardScope, combo: KeyCombo)
    requires
        scope == KeyboardScope::Viewer || scope == KeyboardScope::Browsing,
    ensures
        own_action(scope, combo) is None ==> bound_action(scope, combo) == bound_action(
            KeyboardScope::Global,
            combo,
        ),
        own_action(scope, combo) is Some ==> bound_action(scope, combo) == own_action(scope, combo),
{
}

/// A key of the numeric keypad and its twin on the main block mean the same in
/// every scope.
pub proof fn keypad_keys_match_their_twins(scope: KeyboardScope, combo: KeyCombo)
    ensures
        ({
            let with = |key: Key| bound_action(scope, KeyCombo { key, ..combo });
            &&& with(Key::KpLeft) == with(Key::Left)
            &&& with(Key::KpRight) == with(Key::Right)
            &&& with(Key::KpUp) == with(Key::Up)
            &&& with(Key::KpDown) == with(Key::Down)
            &&& with(Key::KpEnter) == with(Key::Return)
            &&& with(Key::KpSpace) == with(Key::Space)
            &&& with(Key::KpAdd) == with(Key::Plus)
            &&& with(Key::KpSubtract) == with(Key::Minus)
            &&& with(Key::Kp0) == with(Key::Digit0)
        }),
{
}

/// In the viewer the arrows step through the photos, plus and minus zoom, and the
/// letters do what they stand for. Each of these actions has these keys and no
/// others.
pub proof fn viewer_keys_do_what_they_name(combo: KeyCombo)
    ensures
        bound_action(KeyboardScope::Viewer, combo) == Some(KeyboardAction::ViewerPrevious) <==> (combo.key == Key::Left || combo.key == Key::KpLeft) && !combo.ctrl && !combo.shift && !combo.alt,
        bound_action(KeyboardScope::Viewer, combo) == Some(KeyboardAction::ViewerNext) <==> (combo.key == Key::Right || combo.key == Key::KpRight) && !combo.ctrl && !combo.shift && !combo.alt,
        bound_action(KeyboardScope::Viewer, combo) == Some(KeyboardAction::ViewerZoomIn) <==> (combo.key == Key::Plus || combo.key == Key::KpAdd || combo.key == Key::Equal) && !combo.ctrl && !combo.alt,
        bound_action(KeyboardScope::Viewer, combo) == Some(KeyboardAction::ViewerZoomOut) <==> (combo.key == Key::Minus || combo.key == Key::KpSubtract) && !combo.ctrl && !combo.shift && !combo.alt,
        bound_action(KeyboardScope::Viewer, combo) == Some(KeyboardAction::ViewerZoomReset) <==> (combo.key == Key::Digit0 || combo.key == Key::Kp0) && !combo.ctrl && !combo.shift && !combo.alt,
        bound_action(KeyboardScope::Viewer, combo) == Some(KeyboardAction::ViewerRotateRight) <==> (combo.key == Key::LowerR) && !combo.ctrl && !combo.shift && !combo.alt,
        bound_action(KeyboardScope::Viewer, combo) == Some(KeyboardAction::ViewerRotateLeft) <==> (combo.key == Key::UpperR) && !combo.ctrl && combo.shift && !combo.alt,
        bound_action(KeyboardScope::Viewer, combo) == Some(KeyboardAction::ViewerFullscreenPreview) <==> (combo.key == Key::LowerF) && !combo.ctrl && !combo.shift && !combo.alt,
        bound_action(KeyboardScope::Viewer, combo) == Some(KeyboardAction::ViewerToggleDetails) <==> (combo.key == Key::LowerI) && !combo.ctrl && !combo.shift && !combo.alt,
        bound_action(KeyboardScope::Viewer, combo) == Some(KeyboardAction::ViewerToggleEdit) <==> (combo.key == Key::LowerE) && !combo.ctrl && !combo.shift && !combo.alt,
        bound_action(KeyboardScope::Viewer, combo) == Some(KeyboardAction::ViewerToggleFavorite) <==> (combo.key == Key::LowerH) && !combo.ctrl && !combo.shift && !combo.alt,
        bound_action(KeyboardScope::Viewer, combo) == Some(KeyboardAction::ViewerTogglePlayback) <==> (combo.key == Key::Space || combo.key == Key::KpSpace) && !combo.ctrl && !combo.shift && !combo.alt,
        bound_action(KeyboardScope::Viewer, combo) == Some(KeyboardAction::Delete) <==> (combo.key == Key::Delete) && !combo.ctrl && !combo.shift && !combo.alt,
        bound_action(KeyboardScope::Viewer, combo) == Some(KeyboardAction::CancelOrClose) <==> (combo.key == Key::Escape) && !combo.ctrl && !combo.shift && !combo.alt,
{
}

/// In a photo grid the arrows move the cursor their way, and the other keys select
/// and open. Each of these actions has these keys and no others.
pub proof fn browsing_keys_do_what_they_name(combo: KeyCombo)
    ensures
        bound_action(KeyboardScope::Browsing, combo) == Some(KeyboardAction::BrowseUp) <==> (combo.key == Key::Up || combo.key == Key::KpUp) && !combo.ctrl && !combo.shift && !combo.alt,
        bound_action(KeyboardScope::Browsing, combo) == Some(KeyboardAction::BrowseDown) <==> (combo.key == Key::Down || combo.key == Key::KpDown) && !combo.ctrl && !combo.shift && !combo.alt,
        bound_action(KeyboardScope::Browsing, combo) == Some(KeyboardAction::BrowseLeft) <==> (combo.key == Key::Left || combo.key == Key::KpLeft) && !combo.ctrl && !combo.shift && !combo.alt,
        bound_action(KeyboardScope::Browsing, combo) == Some(KeyboardAction::BrowseRight) <==> (combo.key == Key::Right || combo.key == Key::KpRight) && !combo.ctrl && !combo.shift && !combo.alt,
        bound_action(KeyboardScope::Browsing, combo) == Some(KeyboardAction::ActivateFocused) <==> (combo.key == Key::Return || combo.key == Key::KpEnter) && !combo.ctrl && !combo.shift && !combo.alt,
        bound_action(KeyboardScope::Browsing, combo) == Some(KeyboardAction::ToggleSelection) <==> (combo.key == Key::Space || combo.key == Key::KpSpace) && !combo.ctrl && !combo.shift && !combo.alt,
        bound_action(KeyboardScope::Browsing, combo) == Some(KeyboardAction::Delete) <==> (combo.key == Key::Delete) && !combo.ctrl && !combo.shift && !combo.alt,
        bound_action(KeyboardScope::Browsing, combo) == Some(KeyboardAction::SelectAll) <==> combo.ctrl && !combo.alt && (combo.key == Key::LowerA && !combo.shift || combo.key == Key::UpperA && combo.shift),
        bound_action(KeyboardScope::Browsing, combo) == Some(KeyboardAction::CancelOrClose) <==> (combo.key == Key::Escape) && !combo.ctrl && !combo.shift && !combo.alt,
{
}

/// Everywhere else Alt with the left arrow leads back, Ctrl with F searches, Ctrl
/// with the comma opens the settings, and Escape closes.
pub proof fn global_keys_do_what_they_name(combo: KeyCombo)
    ensures
        bound_action(KeyboardScope::Global, combo) == Some(KeyboardAction::NavigateBack) <==> (combo.key == Key::Left || combo.key == Key::KpLeft) && !combo.ctrl && !combo.shift && combo.alt,
        bound_action(KeyboardScope::Global, combo) == Some(KeyboardAction::Search) <==> combo.ctrl && !combo.alt && (combo.key == Key::LowerF && !combo.shift || combo.key == Key::UpperF && combo.shift),
        bound_action(KeyboardScope::Global, combo) == Some(KeyboardAction::OpenSettings) <==> (combo.key == Key::Comma) && combo.ctrl && !combo.shift && !combo.alt,
        bound_action(KeyboardScope::Global, combo) == Some(KeyboardAction::CancelOrClose) <==> (combo.key == Key::Escape) && !combo.ctrl && !combo.shift && !combo.alt,
        bound_action(KeyboardScope::Global, combo) == Some(KeyboardAction::Delete) <==> false,
{
}

/// Keys with a character have its number. The arrows follow each other from left
/// to up, right and down, on the number pad too, and the other keys of the number
/// pad lie above the characters they stand for.
pub proof fn key_values_follow_their_characters()
    ensures
        keyval(Key::Space) == ' ' as u32,
        keyval(Key::Comma) == ',' as u32,
        keyval(Key::Plus) == '+' as u32,
        keyval(Key::Minus) == '-' as u32,
        keyval(Key::Equal) == '=' as u32,
        keyval(Key::Digit0) == '0' as u32,
        keyval(Key::LowerA) == 'a' as u32 && keyval(Key::UpperA) == 'A' as u32,
        keyval(Key::LowerE) == 'e' as u32,
        keyval(Key::LowerF) == 'f' as u32 && keyval(Key::UpperF) == 'F' as u32,
        keyval(Key::LowerH) == 'h' as u32,
        keyval(Key::LowerI) == 'i' as u32,
        keyval(Key::LowerR) == 'r' as u32 && keyval(Key::UpperR) == 'R' as u32,
        keyval(Key::Up) == keyval(Key::Left) + 1,
        keyval(Key::Right) == keyval(Key::Left) + 2,
        keyval(Key::Down) == keyval(Key::Left) + 3,
        keyval(Key::KpUp) == keyval(Key::KpLeft) + 1,
        keyval(Key::KpRight) == keyval(Key::KpLeft) + 2,
        keyval(Key::KpDown) == keyval(Key::KpLeft) + 3,
        keyval(Key::Return) == 0xff00 + '\r' as u32,
        keyval(Key::Escape) == 0xff00 + '\u{1b}' as u32,
        keyval(Key::KpAdd) == 0xff80 + '+' as u32,
        keyval(Key::KpSubtract) == 0xff80 + '-' as u32,
        keyval(Key::Kp0) == 0xff80 + '0' as u32,
        keyval(Key::KpEnter) == 0xff80 + '\r' as u32,
        forall|value: u32| #[trigger] keyval(Key::Other(value)) == value,
{
}

} // verus!

//! The context menu: its buttons, where it opens, and which menu is open.

use crate::keyboard::router::Propagation;
use crate::keyboard::Key;
use vstd::prelude::*;

verus! {

/// How a menu item is emphasised.
#[derive(Clone, Copy, Debug, PartialEq, Eq, Structural)]
pub enum GlassMenuItemKind {
    Normal,
    Suggested,
    Danger,
}

/// An item of a menu.
pub struct GlassMenuItem {
    pub label: String,
    pub kind: GlassMenuItemKind,
}

impl GlassMenuItem {
    pub fn new(label: String, kind: GlassMenuItemKind) -> (item: GlassMenuItem)
        ensures
            item.label == label,
            item.kind == kind,
    {
        GlassMenuItem { label, kind }
    }
}

/// The style class that a kind adds to the button of its item.
pub open spec fn kind_class(kind: GlassMenuItemKind) -> Option<Seq<char>> {
    match kind {
        GlassMenuItemKind::Normal => None,
        GlassMenuItemKind::Suggested => Some("glass-context-menu-item-suggested"@),
        GlassMenuItemKind::Danger => Some("glass-context-menu-item-danger"@),
    }
}

/// A button of a menu. Besides the class of all menu buttons it may carry one
/// for its kind.
pub struct MenuButton {
    pub label: String,
    pub extra_class: Option<&'static str>,
}

/// The style class that a kind adds to the button of its item.
pub fn class_for_kind(kind: GlassMenuItemKind) -> (class_name: Option<&'static str>)
    ensures
        class_name is Some <==> kind_class(kind) is Some,
        class_name matches Some(name) ==> name@ == kind_class(kind)->0,
{
    match kind {
        GlassMenuItemKind::Normal => None,
        GlassMenuItemKind::Suggested => Some("glass-context-menu-item-suggested"),
        GlassMenuItemKind::Danger => Some("glass-context-menu-item-danger"),
    }
}

/// The buttons of a menu, in the order of its items.
pub fn build_menu_panel_for_tests(items: &Vec<GlassMenuItem>) -> (buttons: Vec<MenuButton>)
    ensures
        buttons@.len() == items@.len(),
        forall|i: int|
            0 <= i < buttons@.len() ==> {
                &&& (#[trigger] buttons@[i]).label@ == items@[i].label@
                &&& buttons@[i].extra_class is Some <==> kind_class(items@[i].kind) is Some
                &&& buttons@[i].extra_class matches Some(name) ==> name@ == kind_class(
                    items@[i].kind,
                )->0
            },
{
    let mut buttons: Vec<MenuButton> = Vec::new();
    let mut i: usize = 0;
    while i < items.len()
        invariant
            i <= items@.len(),
            buttons@.len() == i,
            forall|k: int|
                0 <= k < i ==> {
                    &&& (#[trigger] buttons@[k]).label@ == items@[k].label@
                    &&& buttons@[k].extra_class is Some <==> kind_class(items@[k].kind) is Some
                    &&& buttons@[k].extra_class matches Some(name) ==> name@ == kind_class(
                        items@[k].kind,
                    )->0
                },
        decreases items@.len() - i,
    {
        buttons.push(
            MenuButton {
                label: items[i].label.clone(),
                extra_class: class_for_kind(items[i].kind),
            },
        );
        i += 1;
    }
    buttons
}

/// Sizes in pixels that decide where a menu opens.
#[derive(Clone, Copy, Debug, PartialEq, Eq, Structural)]
pub struct MenuSizes {
    pub panel_width: i32,
    pub panel_height: i32,
    pub overlay_width: i32,
    pub overlay_height: i32,
}

/// `value`, held between zero and the room that is left of `available`.
pub open spec fn held_inside(value: int, size: int, available: int) -> int {
    let room = if available > size { available - size } else { 0 };
    if value < 0 {
        0
    } else if value > room {
        room
    } else {
        value
    }
}

/// The larger of two numbers.
pub open spec fn larger(a: int, b: int) -> int {
    if a > b { a } else { b }
}

/// Where a menu opens: at the anchor, moved as far as needed to stay inside the
/// overlay. Menus are at least 128 pixels wide.
pub open spec fn menu_place(x: int, y: int, sizes: MenuSizes) -> (int, int) {
    (
        held_inside(x, larger(sizes.panel_width as int, 128), larger(sizes.overlay_width as int, 1)),
        held_inside(y, larger(sizes.panel_height as int, 1), larger(sizes.overlay_height as int, 1)),
    )
}

fn max_of(a: i32, b: i32) -> (most: i32)
    ensures
        most == larger(a as int, b as int),
{
    if a > b {
        a
    } else {
        b
    }
}

fn hold_inside(value: i32, size: i32, available: i32) -> (held: i32)
    requires
        size >= 0,
        available >= 0,
    ensures
        held == held_inside(value as int, size as int, available as int),
{
    let room: i32 = if available > size {
        available - size
    } else {
        0
    };
    if value < 0 {
        0
    } else if value > room {
        room
    } else {
        value
    }
}

/// The menu that is open, if any, and the keyboard focus, which menus leave
/// where it is.
pub struct OpenMenu {
    /// The overlay that the menu lies on, and its layer.
    pub open: Option<(u64, u64)>,
    /// The widget that has the keyboard focus.
    pub focus: Option<u64>,
}

/// What opening a menu does.
#[derive(Clone, Copy, Debug)]
pub struct MenuOpening {
    /// The menu to take away, as overlay and layer.
    pub dismissed: Option<(u64, u64)>,
    /// Where the new menu opens; without an anchor on the overlay it does not.
    pub place: Option<(i32, i32)>,
}

/// The menu that is open after the one on `layer` was closed.
pub open spec fn left_open(open: Option<(u64, u64)>, layer: u64) -> Option<(u64, u64)> {
    match open {
        Some((_, current)) => if current == layer {
            None
        } else {
            open
        },
        None => None,
    }
}

impl OpenMenu {
    /// No menu open.
    pub fn new() -> (menu: OpenMenu)
        ensures
            menu.open is None,
            menu.focus is None,
    {
        OpenMenu { open: None, focus: None }
    }

    /// Note which widget has the keyboard focus.
    pub fn focus_moved(&mut self, widget: Option<u64>)
        ensures
            *final(self) == (OpenMenu { focus: widget, ..*old(self) }),
    {
        self.focus = widget;
    }

    /// Whether a menu is open.
    pub fn is_open(&self) -> (open: bool)
        ensures
            open == self.open is Some,
    {
        self.open.is_some()
    }

    /// Note that a menu has opened.
    pub fn remember_open_menu(&mut self, overlay: u64, layer: u64)
        ensures
            final(self).open == Some((overlay, layer)),
            final(self).focus == old(self).focus,
    {
        self.open = Some((overlay, layer));
    }

    /// Close whatever menu is open. Returns it, so that its layer can be taken
    /// away.
    pub fn dismiss_open_menu(&mut self) -> (dismissed: Option<(u64, u64)>)
        ensures
            dismissed == old(self).open,
            final(self).open is None,
            final(self).focus == old(self).focus,
    {
        let dismissed: Option<(u64, u64)> = self.open;
        self.open = None;
        dismissed
    }

    /// Note that the menu on `layer` was closed. Another menu stays open.
    pub fn close_menu_layer(&mut self, layer: u64)
        ensures
            final(self).open == match old(self).open {
                Some((_, current)) => if current == layer {
                    None
                } else {
                    old(self).open
                },
                None => None,
            },
            final(self).open == left_open(old(self).open, layer),
            final(self).focus == old(self).focus,
    {
        match self.open {
            Some((_, current)) => {
                if current == layer {
                    self.open = None;
                }
            },
            None => {},
        }
    }

    /// Open a menu on `layer` of `overlay` at `anchor`, a point of the overlay.
    /// The menu that was open goes, wherever it was. The keyboard focus stays
    /// where it is.
    pub fn show(
        &mut self,
        overlay: u64,
        layer: u64,
        anchor: Option<(i32, i32)>,
        sizes: MenuSizes,
    ) -> (opening: MenuOpening)
        ensures
            opening.dismissed == old(self).open,
            opening.place is Some <==> anchor is Some,
            anchor matches Some((x, y)) ==> opening.place matches Some((left, top)) && (
                left as int,
                top as int,
            ) == menu_place(x as int, y as int, sizes),
            final(self).open == if anchor is Some {
                Some((overlay, layer))
            } else {
                None
            },
            final(self).focus == old(self).focus,
    {
        let dismissed: Option<(u64, u64)> = self.dismiss_open_menu();
        match anchor {
            Some((x, y)) => {
                self.remember_open_menu(overlay, layer);
                let left: i32 = hold_inside(
                    x,
                    max_of(sizes.panel_width, 128),
                    max_of(sizes.overlay_width, 1),
                );
                let top: i32 = hold_inside(
                    y,
                    max_of(sizes.panel_height, 1),
                    max_of(sizes.overlay_height, 1),
                );
                MenuOpening { dismissed, place: Some((left, top)) }
            },
            None => MenuOpening { dismissed, place: None },
        }
    }

    /// Answer a key press on the menu on `layer`: Escape closes it.
    pub fn key_pressed(&mut self, layer: u64, key: Key) -> (propagation: Propagation)
        ensures
            propagation == Propagation::Stop <==> key == Key::Escape,
            final(self).open == if key == Key::Escape && (old(self).open matches Some((_, current))
                && current == layer) {
                None
            } else {
                old(self).open
            },
            final(self).focus == old(self).focus,
    {
        if key == Key::Escape {
            self.close_menu_layer(layer);
            Propagation::Stop
        } else {
            Propagation::Proceed
        }
    }
}

/// A menu that is not larger than its overlay opens completely inside it.
pub proof fn menus_open_inside_their_overlay(x: int, y: int, sizes: MenuSizes)
    requires
        sizes.overlay_width >= 128,
        sizes.overlay_height >= 1,
        sizes.panel_width <= sizes.overlay_width,
        sizes.panel_height <= sizes.overlay_height,
    ensures
        0 <= menu_place(x, y, sizes).0,
        menu_place(x, y, sizes).0 + sizes.panel_width <= sizes.overlay_width,
        0 <= menu_place(x, y, sizes).1,
        menu_place(x, y, sizes).1 + sizes.panel_height <= sizes.overlay_height,
{
}

/// A menu opens at its anchor where there is room for it, and touches the edge of
/// the overlay where there is not.
pub proof fn menus_open_at_their_anchor(x: int, y: int, sizes: MenuSizes)
    requires
        sizes.panel_width >= 128,
        sizes.panel_height >= 1,
        sizes.panel_width <= sizes.overlay_width,
        sizes.panel_height <= sizes.overlay_height,
    ensures
        ({
            let (left, top) = menu_place(x, y, sizes);
            &&& 0 <= x && x + sizes.panel_width <= sizes.overlay_width ==> left == x
            &&& 0 <= y && y + sizes.panel_height <= sizes.overlay_height ==> top == y
            &&& x < 0 ==> left == 0
            &&& y < 0 ==> top == 0
            &&& x + sizes.panel_width > sizes.overlay_width && x >= 0 ==> left + sizes.panel_width
                == sizes.overlay_width
            &&& y + sizes.panel_height > sizes.overlay_height && y >= 0 ==> top
                + sizes.panel_height == sizes.overlay_height
        }),
{
}

/// Closing a menu closes that menu: word of one that was closed before does not
/// close the one that is open now.
pub proof fn closing_closes_one_menu(overlay: u64, layer: u64, other: u64)
    ensures
        left_open(Some((overlay, layer)), layer) is None,
        other != layer ==> left_open(Some((overlay, layer)), other) == Some((overlay, layer)),
        left_open(None, layer) is None,
{
}

} // verus!

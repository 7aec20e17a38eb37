use photo_viewer::grid_css::cursor::{
    focus_child_at, move_cursor, CursorMove, KeyboardNav, TileBox,
};
use photo_viewer::grid_css::material::{
    material_pieces, shorten_number, write_material, FilterNumbers, Piece, Scaled,
};
use photo_viewer::grid_css::style::{GridStyle, StyleSheets};
use photo_viewer::keyboard::binding::Key;

fn chars(text: &str) -> Vec<char> {
    text.chars().collect()
}

fn text(chars: &[char]) -> String {
    chars.iter().collect()
}

fn number(value: f64, keep_zero: bool) -> Vec<char> {
    shorten_number(&chars(&format!("{value:.3}")), keep_zero)
}

/// Scale a material as the grid does for a transparency between 0 and 1.
fn scale(material: &str, transparency: f64) -> String {
    let left = 1.0 - transparency;
    let pieces = material_pieces(&chars(material));
    let scaled: Vec<Scaled> = pieces
        .iter()
        .map(|piece| match piece {
            Piece::Text(_) => Scaled::Keep,
            Piece::Alpha(call) => match text(&call.value).parse::<f64>() {
                Ok(alpha) => {
                    let floor: f64 = if call.edge { 0.10 } else { 0.0 };
                    Scaled::Alpha(number((alpha * left).max(alpha.min(floor)).clamp(0.0, 1.0), true))
                }
                Err(_) => Scaled::Keep,
            },
            Piece::Filter(line) => {
                let parse = |found: &Option<Vec<char>>| {
                    found.as_ref().and_then(|value| text(value).parse::<f64>().ok()).unwrap_or(1.0)
                };
                let saturate = 1.0 + (parse(&line.saturate) - 1.0) * left;
                let brightness = 1.0 + (parse(&line.brightness) - 1.0) * left;
                match text(&line.blur).parse::<f64>() {
                    Ok(blur) => Scaled::Filter(FilterNumbers {
                        blur: number(blur * left, false),
                        saturate: number(saturate, false),
                        brightness: number(brightness, false),
                    }),
                    Err(_) => Scaled::Keep,
                }
            }
        })
        .collect();
    text(&write_material(&pieces, &scaled))
}

const MATERIAL: &str = ".glass-toolbar-button {\n  background: alpha(@window_bg_color, 0.48);\n  border: 1px solid alpha(@window_fg_color, 0.16);\n  box-shadow:\n    0 12px 32px alpha(black, 0.24),\n    inset 0 1px alpha(@window_fg_color,0.58);\n  color: alpha(@window_fg_color, 0.72);\n  backdrop-filter: blur(28px) saturate(1.22) brightness(1.06);\n}\n";

#[test]
fn half_transparency_halves_the_material_and_nothing_else() {
    let css = scale(MATERIAL, 0.5);
    assert!(css.contains("  background: alpha(@window_bg_color, 0.24);\n"));
    assert!(css.contains("0 12px 32px alpha(black, 0.12)"));
    assert!(css.contains("inset 0 1px alpha(@window_fg_color, 0.29);"));
    assert!(css.contains("  color: alpha(@window_fg_color, 0.72);\n"));
}

#[test]
fn full_transparency_keeps_edges_visible() {
    let css = scale(MATERIAL, 1.0);
    assert!(css.contains("background: alpha(@window_bg_color, 0.0);"));
    assert!(css.contains("border: 1px solid alpha(@window_fg_color, 0.1);"));
    assert!(css.contains("0 12px 32px alpha(black, 0.1)"));
    assert!(css.contains("backdrop-filter: blur(0px) saturate(1) brightness(1);"));
    assert!(!css.contains("backdrop-filter: none"));
}

#[test]
fn high_transparency_fades_the_filter() {
    let css = scale(MATERIAL, 0.9);
    assert!(css.contains("  backdrop-filter: blur(2.8px) saturate(1.022) brightness(1.006);\n"));
}

#[test]
fn pieces_that_are_kept_make_the_same_sheet() {
    let pieces = material_pieces(&chars(MATERIAL));
    let scaled: Vec<Scaled> = pieces.iter().map(|_| Scaled::Keep).collect();
    assert_eq!(text(&write_material(&pieces, &scaled)), MATERIAL);
}

#[test]
fn lines_end_with_line_feeds_alone() {
    let pieces = material_pieces(&chars("a\r\nb"));
    let scaled: Vec<Scaled> = pieces.iter().map(|_| Scaled::Keep).collect();
    assert_eq!(text(&write_material(&pieces, &scaled)), "a\nb\n");
}

#[test]
fn calls_without_a_number_or_an_end_are_kept() {
    for line in [
        "background: alpha(red);\n",
        "background: alpha(red, lots);\n",
        "background: alpha(red, 0.5\n",
        "backdrop-filter: none;\n",
    ] {
        assert_eq!(scale(line, 0.5), line);
    }
    assert_eq!(scale("background: alpha(a,b , 0.5 );\n", 0.5), "background: alpha(a,b , 0.25);\n");
}

#[test]
fn a_shadow_ends_with_its_semicolon() {
    let css = "box-shadow: 0 0 alpha(a, 1.0),\n  0 0 alpha(b, 1.0);\ncolor: alpha(c, 1.0);\n";
    assert_eq!(
        scale(css, 0.5),
        "box-shadow: 0 0 alpha(a, 0.5),\n  0 0 alpha(b, 0.5);\ncolor: alpha(c, 1.0);\n"
    );
}

#[test]
fn numbers_lose_their_last_zeros() {
    assert_eq!(text(&shorten_number(&chars("0.240"), true)), "0.24");
    assert_eq!(text(&shorten_number(&chars("1.000"), true)), "1.0");
    assert_eq!(text(&shorten_number(&chars("1.000"), false)), "1");
    assert_eq!(text(&shorten_number(&chars("100"), false)), "100");
}

fn sheets() -> StyleSheets {
    StyleSheets {
        base: "base".to_string(),
        liquid: "liquid".to_string(),
        plain: "plain".to_string(),
        accessibility: "a11y".to_string(),
    }
}

#[test]
fn sheets_share_everything_but_the_material() {
    assert_eq!(sheets().build_css(true), "base\nliquid\na11y");
    assert_eq!(sheets().build_css(false), "base\nplain\na11y");
    assert_eq!(sheets().assemble("scaled"), "base\nscaled\na11y");
}

#[test]
fn the_style_is_installed_once_and_replaced_on_demand() {
    let mut style = GridStyle::new();
    assert!(!style.is_installed());
    let first = style.install(true);
    assert!(first.install_new && !first.remove_active);
    assert!(style.is_installed());
    assert!(!style.install(true).install_new);
    let swapped = style.reapply(true);
    assert!(swapped.install_new && swapped.remove_active);
    let mut headless = GridStyle::new();
    assert!(!headless.install(false).install_new);
    assert!(headless.is_installed());
}

/// Rows of three, three and one tile.
fn tiles() -> Vec<TileBox> {
    let tile = |x: i32, y: i32| TileBox { x, y, width: 100, height: 100 };
    vec![
        tile(0, 0),
        tile(110, 0),
        tile(220, 0),
        tile(0, 110),
        tile(110, 110),
        tile(220, 110),
        tile(60, 220),
    ]
}

#[test]
fn arrows_move_through_the_tiles() {
    let tiles = tiles();
    assert_eq!(move_cursor(&tiles, Some(1), Key::Left), CursorMove::Focus(0));
    assert_eq!(move_cursor(&tiles, Some(0), Key::Left), CursorMove::Stay);
    assert_eq!(move_cursor(&tiles, Some(2), Key::KpRight), CursorMove::Focus(3));
    assert_eq!(move_cursor(&tiles, Some(6), Key::Right), CursorMove::Stay);
    assert_eq!(move_cursor(&tiles, Some(1), Key::Down), CursorMove::Focus(4));
    assert_eq!(move_cursor(&tiles, Some(5), Key::Down), CursorMove::Focus(6));
    assert_eq!(move_cursor(&tiles, Some(6), Key::Down), CursorMove::Stay);
    assert_eq!(move_cursor(&tiles, Some(6), Key::Up), CursorMove::Focus(4));
    assert_eq!(move_cursor(&tiles, Some(2), Key::KpUp), CursorMove::Stay);
}

#[test]
fn keys_go_on_where_there_is_nothing_to_move() {
    assert_eq!(move_cursor(&tiles(), None, Key::Down), CursorMove::Proceed);
    assert_eq!(move_cursor(&tiles(), None, Key::Space), CursorMove::Proceed);
    assert_eq!(move_cursor(&vec![], None, Key::Down), CursorMove::Proceed);
    assert_eq!(move_cursor(&tiles(), Some(0), Key::Space), CursorMove::Proceed);
}

#[test]
fn the_first_of_two_tiles_as_near_is_taken() {
    let tile = |x: i32, y: i32| TileBox { x, y, width: 100, height: 100 };
    let tiles = vec![tile(0, 0), tile(100, 0), tile(50, 110)];
    assert_eq!(move_cursor(&tiles, Some(2), Key::Up), CursorMove::Focus(0));
}

#[test]
fn the_pointer_and_the_keyboard_take_turns() {
    let mut nav = KeyboardNav::attach_kbd_nav();
    assert_eq!(nav.key_pressed(&tiles(), Some(0), Key::LowerA), CursorMove::Proceed);
    assert!(!nav.kbd_nav);
    assert_eq!(nav.key_pressed(&tiles(), Some(0), Key::Right), CursorMove::Focus(1));
    assert!(nav.kbd_nav);
    nav.pointer_gone();
    assert!(nav.pointer_left && nav.kbd_nav);
    assert_eq!(nav.pointer_moved(&tiles(), 115, 5), Some(1));
    assert!(!nav.kbd_nav && !nav.pointer_left);
    assert_eq!(focus_child_at(&tiles(), 105, 5), None);
    assert_eq!(focus_child_at(&tiles(), 100, 0), None);
    assert_eq!(focus_child_at(&tiles(), 99, 99), Some(0));
}

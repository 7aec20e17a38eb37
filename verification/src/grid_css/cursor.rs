//! The keyboard cursor of a thumbnail grid.

use crate::keyboard::binding::Key;
use vstd::prelude::*;

verus! {

/// Where a tile stands.
#[derive(Clone, Copy, Debug, PartialEq, Eq, Structural)]
pub struct TileBox {
    pub x: i32,
    pub y: i32,
    pub width: i32,
    pub height: i32,
}

/// Half of a length, rounded towards zero.
pub open spec fn half(length: int) -> int {
    if length >= 0 {
        length / 2
    } else {
        -((-length) / 2)
    }
}

/// The middle of a tile, from left to right.
pub open spec fn middle(tile: TileBox) -> int {
    tile.x + half(tile.width as int)
}

/// How far the middles of two tiles are apart, from left to right.
pub open spec fn apart(a: TileBox, b: TileBox) -> int {
    let d = middle(a) - middle(b);
    if d < 0 {
        -d
    } else {
        d
    }
}

/// Is `row` the nearest row above (or below) a tile at `y`? Tiles at the same
/// height make a row.
pub open spec fn is_next_row(tiles: Seq<TileBox>, y: int, up: bool, row: int) -> bool {
    &&& exists|k: int| 0 <= k < tiles.len() && (#[trigger] tiles[k]).y == row
    &&& if up {
        row < y && forall|k: int|
            0 <= k < tiles.len() && (#[trigger] tiles[k]).y < y ==> tiles[k].y <= row
    } else {
        row > y && forall|k: int|
            0 <= k < tiles.len() && (#[trigger] tiles[k]).y > y ==> tiles[k].y >= row
    }
}

/// Is there no row above (or below) a tile at `y`?
pub open spec fn is_edge_row(tiles: Seq<TileBox>, y: int, up: bool) -> bool {
    forall|k: int|
        0 <= k < tiles.len() ==> if up {
            (#[trigger] tiles[k]).y >= y
        } else {
            tiles[k].y <= y
        }
}

/// Is the tile at `place` the one of a row that is nearest to `from`, the first
/// one where several are?
pub open spec fn is_nearest(tiles: Seq<TileBox>, row: int, from: TileBox, place: int) -> bool {
    &&& 0 <= place < tiles.len()
    &&& tiles[place].y == row
    &&& forall|k: int|
        0 <= k < tiles.len() && (#[trigger] tiles[k]).y == row ==> apart(tiles[k], from) >= apart(
            tiles[place],
            from,
        )
    &&& forall|k: int|
        0 <= k < place && (#[trigger] tiles[k]).y == row ==> apart(tiles[k], from) > apart(
            tiles[place],
            from,
        )
}

/// What a key press does.
#[derive(Clone, Copy, Debug, PartialEq, Eq, Structural)]
pub enum CursorMove {
    /// The key is for others.
    Proceed,
    /// The key is used up, and the cursor stays.
    Stay,
    /// The key is used up, and the cursor goes to this tile.
    Focus(usize),
}

/// Which way an arrow key points.
#[derive(Clone, Copy, Debug, PartialEq, Eq, Structural)]
pub enum Arrow {
    Left,
    Right,
    Up,
    Down,
}

/// Which way a key points, if it is an arrow key.
pub open spec fn arrow_of(key: Key) -> Option<Arrow> {
    match key {
        Key::Left | Key::KpLeft => Some(Arrow::Left),
        Key::Right | Key::KpRight => Some(Arrow::Right),
        Key::Up | Key::KpUp => Some(Arrow::Up),
        Key::Down | Key::KpDown => Some(Arrow::Down),
        _ => None,
    }
}

fn arrow_for(key: Key) -> (arrow: Option<Arrow>)
    ensures
        arrow == arrow_of(key),
{
    match key {
        Key::Left | Key::KpLeft => Some(Arrow::Left),
        Key::Right | Key::KpRight => Some(Arrow::Right),
        Key::Up | Key::KpUp => Some(Arrow::Up),
        Key::Down | Key::KpDown => Some(Arrow::Down),
        _ => None,
    }
}

/// Is this what an arrow key does while the cursor is on the tile at `at`?
/// Left and right go along the tiles. Up and down go to the next row, to the
/// tile whose middle is nearest. At an edge the cursor stays.
pub open spec fn arrow_goes(tiles: Seq<TileBox>, at: int, arrow: Arrow, to: CursorMove) -> bool {
    match arrow {
        Arrow::Left => to == if at > 0 {
            CursorMove::Focus((at - 1) as usize)
        } else {
            CursorMove::Stay
        },
        Arrow::Right => to == if at + 1 < tiles.len() {
            CursorMove::Focus((at + 1) as usize)
        } else {
            CursorMove::Stay
        },
        Arrow::Up | Arrow::Down => {
            let up = arrow == Arrow::Up;
            let y = tiles[at].y as int;
            match to {
                CursorMove::Proceed => false,
                CursorMove::Stay => is_edge_row(tiles, y, up),
                CursorMove::Focus(place) => place < tiles.len() && is_next_row(
                    tiles,
                    y,
                    up,
                    tiles[place as int].y as int,
                ) && is_nearest(tiles, tiles[place as int].y as int, tiles[at], place as int),
            }
        },
    }
}

/// Is this what a key press does?
pub open spec fn key_goes(
    tiles: Seq<TileBox>,
    focused: Option<usize>,
    key: Key,
    to: CursorMove,
) -> bool {
    if tiles.len() == 0 {
        to == CursorMove::Proceed
    } else {
        match focused {
            None => to == CursorMove::Proceed,
            Some(at) => match arrow_of(key) {
                None => to == CursorMove::Proceed,
                Some(arrow) => arrow_goes(tiles, at as int, arrow, to),
            },
        }
    }
}

fn half_of(length: i32) -> (part: i64)
    ensures
        part == half(length as int),
{
    if length >= 0 {
        (length / 2) as i64
    } else {
        -((-(length as i64)) / 2)
    }
}

fn distance(a: &TileBox, b: &TileBox) -> (distance: i64)
    ensures
        distance == apart(*a, *b),
{
    let d: i64 = (a.x as i64 + half_of(a.width)) - (b.x as i64 + half_of(b.width));
    if d < 0 {
        -d
    } else {
        d
    }
}

/// The nearest row above (or below) a height.
fn next_row(tiles: &Vec<TileBox>, y: i32, up: bool) -> (row: Option<i32>)
    ensures
        row is None <==> is_edge_row(tiles@, y as int, up),
        row matches Some(found) ==> is_next_row(tiles@, y as int, up, found as int),
{
    let mut row: Option<i32> = None;
    let mut i: usize = 0;
    while i < tiles.len()
        invariant
            i <= tiles@.len(),
            row is None ==> forall|k: int|
                0 <= k < i ==> if up {
                    (#[trigger] tiles@[k]).y >= y
                } else {
                    tiles@[k].y <= y
                },
            row matches Some(found) ==> {
                &&& exists|k: int| 0 <= k < i && (#[trigger] tiles@[k]).y == found
                &&& if up {
                    found < y && forall|k: int|
                        0 <= k < i && (#[trigger] tiles@[k]).y < y ==> tiles@[k].y <= found
                } else {
                    found > y && forall|k: int|
                        0 <= k < i && (#[trigger] tiles@[k]).y > y ==> tiles@[k].y >= found
                }
            },
        decreases tiles@.len() - i,
    {
        let here: i32 = tiles[i].y;
        let beyond: bool = if up {
            here < y
        } else {
            here > y
        };
        if beyond {
            let nearer: bool = match row {
                None => true,
                Some(found) => if up {
                    here > found
                } else {
                    here < found
                },
            };
            if nearer {
                assert(tiles@[i as int].y == here);
                row = Some(here);
            }
        }
        i += 1;
    }
    row
}

/// The tile of a row that is nearest to another one.
fn nearest_in_row(tiles: &Vec<TileBox>, row: i32, from: &TileBox) -> (place: Option<usize>)
    ensures
        place is None <==> forall|k: int|
            0 <= k < tiles@.len() ==> (#[trigger] tiles@[k]).y != row,
        place matches Some(found) ==> is_nearest(tiles@, row as int, *from, found as int),
{
    let mut best: Option<usize> = None;
    let mut i: usize = 0;
    while i < tiles.len()
        invariant
            i <= tiles@.len(),
            best is None ==> forall|k: int| 0 <= k < i ==> (#[trigger] tiles@[k]).y != row,
            best matches Some(found) ==> {
                &&& found < i
                &&& tiles@[found as int].y == row
                &&& forall|k: int|
                    0 <= k < i && (#[trigger] tiles@[k]).y == row ==> apart(tiles@[k], *from)
                        >= apart(tiles@[found as int], *from)
                &&& forall|k: int|
                    0 <= k < found && (#[trigger] tiles@[k]).y == row ==> apart(tiles@[k], *from)
                        > apart(tiles@[found as int], *from)
            },
        decreases tiles@.len() - i,
    {
        if tiles[i].y == row {
            let better: bool = match best {
                None => true,
                Some(found) => distance(&tiles[i], from) < distance(&tiles[found], from),
            };
            if better {
                best = Some(i);
            }
        }
        i += 1;
    }
    best
}

/// Move the cursor by a key. `tiles` are the tiles of the grid in their order,
/// `focused` is the one with the cursor. Keys other than arrows go on, and so
/// does every key while no tile has the cursor.
pub fn move_cursor(tiles: &Vec<TileBox>, focused: Option<usize>, key: Key) -> (to: CursorMove)
    requires
        focused matches Some(at) ==> at < tiles@.len(),
    ensures
        key_goes(tiles@, focused, key, to),
{
    if tiles.is_empty() {
        return CursorMove::Proceed;
    }
    let at: usize = match focused {
        None => {
            return CursorMove::Proceed;
        },
        Some(at) => at,
    };
    let arrow: Arrow = match arrow_for(key) {
        None => {
            return CursorMove::Proceed;
        },
        Some(arrow) => arrow,
    };
    match arrow {
        Arrow::Left => if at > 0 {
            CursorMove::Focus(at - 1)
        } else {
            CursorMove::Stay
        },
        Arrow::Right => if at < tiles.len() - 1 {
            CursorMove::Focus(at + 1)
        } else {
            CursorMove::Stay
        },
        Arrow::Up | Arrow::Down => {
            let up: bool = matches!(arrow, Arrow::Up);
            match next_row(tiles, tiles[at].y, up) {
                None => CursorMove::Stay,
                Some(row) => match nearest_in_row(tiles, row, &tiles[at]) {
                    Some(place) => CursorMove::Focus(place),
                    None => {
                        assert(false);
                        CursorMove::Stay
                    },
                },
            }
        },
    }
}

/// Does a tile hold a point?
pub open spec fn holds_point(tile: TileBox, x: int, y: int) -> bool {
    tile.x <= x < tile.x + tile.width && tile.y <= y < tile.y + tile.height
}

/// The first tile that holds a point.
pub fn focus_child_at(tiles: &Vec<TileBox>, x: i32, y: i32) -> (place: Option<usize>)
    ensures
        match place {
            Some(found) => found < tiles@.len() && holds_point(
                tiles@[found as int],
                x as int,
                y as int,
            ) && forall|k: int|
                0 <= k < found ==> !holds_point(#[trigger] tiles@[k], x as int, y as int),
            None => forall|k: int|
                0 <= k < tiles@.len() ==> !holds_point(#[trigger] tiles@[k], x as int, y as int),
        },
{
    let mut i: usize = 0;
    while i < tiles.len()
        invariant
            i <= tiles@.len(),
            forall|k: int|
                0 <= k < i ==> !holds_point(#[trigger] tiles@[k], x as int, y as int),
        decreases tiles@.len() - i,
    {
        let tile: &TileBox = &tiles[i];
        if x >= tile.x && (x as i64) < tile.x as i64 + tile.width as i64 && y >= tile.y && (
        y as i64) < tile.y as i64 + tile.height as i64 {
            return Some(i);
        }
        i += 1;
    }
    None
}

/// Whether the keyboard or the pointer has the highlight of a grid.
#[derive(Clone, Copy, Debug, PartialEq, Eq, Structural)]
pub struct KeyboardNav {
    /// The highlight follows the keyboard cursor.
    pub kbd_nav: bool,
    /// The pointer is outside; its highlight does not show.
    pub pointer_left: bool,
}

impl KeyboardNav {
    /// A grid that nothing has happened to yet.
    pub fn attach_kbd_nav() -> (nav: KeyboardNav)
        ensures
            !nav.kbd_nav && !nav.pointer_left,
    {
        KeyboardNav { kbd_nav: false, pointer_left: false }
    }

    /// A key was pressed. Arrow keys hand the highlight to the keyboard.
    pub fn key_pressed(
        &mut self,
        tiles: &Vec<TileBox>,
        focused: Option<usize>,
        key: Key,
    ) -> (to: CursorMove)
        requires
            focused matches Some(at) ==> at < tiles@.len(),
        ensures
            *final(self) == (KeyboardNav {
                kbd_nav: old(self).kbd_nav || arrow_of(key) is Some,
                ..*old(self)
            }),
            arrow_of(key) is None ==> to == CursorMove::Proceed,
            arrow_of(key) is Some ==> key_goes(tiles@, focused, key, to),
    {
        if arrow_for(key).is_none() {
            return CursorMove::Proceed;
        }
        self.kbd_nav = true;
        move_cursor(tiles, focused, key)
    }

    /// The pointer came or moved: it has the highlight. Returns the tile under
    /// it, which gets the cursor.
    pub fn pointer_moved(&mut self, tiles: &Vec<TileBox>, x: i32, y: i32) -> (place: Option<usize>)
        ensures
            *final(self) == (KeyboardNav { kbd_nav: false, pointer_left: false }),
            match place {
                Some(found) => found < tiles@.len() && holds_point(
                    tiles@[found as int],
                    x as int,
                    y as int,
                ) && forall|k: int|
                    0 <= k < found ==> !holds_point(#[trigger] tiles@[k], x as int, y as int),
                None => forall|k: int|
                    0 <= k < tiles@.len() ==> !holds_point(
                        #[trigger] tiles@[k],
                        x as int,
                        y as int,
                    ),
            },
    {
        self.kbd_nav = false;
        self.pointer_left = false;
        focus_child_at(tiles, x, y)
    }

    /// The pointer went away. The cursor stays where it is.
    pub fn pointer_gone(&mut self)
        ensures
            *final(self) == (KeyboardNav { pointer_left: true, ..*old(self) }),
    {
        self.pointer_left = true;
    }
}

/// A key press has one result only.
pub proof fn the_cursor_goes_one_way(
    tiles: Seq<TileBox>,
    focused: Option<usize>,
    key: Key,
    a: CursorMove,
    b: CursorMove,
)
    requires
        focused matches Some(at) ==> at < tiles.len(),
        key_goes(tiles, focused, key, a),
        key_goes(tiles, focused, key, b),
    ensures
        a == b,
{
}

/// Going up and then down (or down and then up) leads back to the row that the
/// cursor came from.
pub proof fn going_up_and_down_stays_in_the_row(
    tiles: Seq<TileBox>,
    at: int,
    up: bool,
    there: usize,
    back: CursorMove,
)
    requires
        0 <= at < tiles.len(),
        arrow_goes(
            tiles,
            at,
            if up {
                Arrow::Up
            } else {
                Arrow::Down
            },
            CursorMove::Focus(there),
        ),
        arrow_goes(
            tiles,
            there as int,
            if up {
                Arrow::Down
            } else {
                Arrow::Up
            },
            back,
        ),
    ensures
        back matches CursorMove::Focus(place) && place < tiles.len() && tiles[place as int].y
            == tiles[at].y,
{
    if back == CursorMove::Stay {
        assert(is_edge_row(tiles, tiles[there as int].y as int, !up));
    }
}

/// Going left and then right leads back to the tile that the cursor came from.
pub proof fn going_left_and_right_leads_back(tiles: Seq<TileBox>, at: int)
    requires
        0 < at < tiles.len(),
        tiles.len() <= usize::MAX,
    ensures
        arrow_goes(tiles, at, Arrow::Left, CursorMove::Focus((at - 1) as usize)),
        arrow_goes(tiles, at - 1, Arrow::Right, CursorMove::Focus(at as usize)),
{
}

/// The cursor goes the way the key points: up to the nearest row above and down
/// to the nearest row below, where there is one, and left and right to the tile
/// before and behind. The keys of the number pad do the same, and no other key
/// moves it.
pub proof fn arrows_point_their_way(tiles: Seq<TileBox>, at: usize, key: Key, to: CursorMove)
    requires
        at < tiles.len() <= usize::MAX,
        key_goes(tiles, Some(at), key, to),
    ensures
        key == Key::Up || key == Key::KpUp ==> match to {
            CursorMove::Focus(place) => place < tiles.len() && tiles[place as int].y
                < tiles[at as int].y && forall|k: int|
                0 <= k < tiles.len() && (#[trigger] tiles[k]).y < tiles[at as int].y ==> tiles[k].y
                    <= tiles[place as int].y,
            _ => to == CursorMove::Stay && forall|k: int|
                0 <= k < tiles.len() ==> (#[trigger] tiles[k]).y >= tiles[at as int].y,
        },
        key == Key::Down || key == Key::KpDown ==> match to {
            CursorMove::Focus(place) => place < tiles.len() && tiles[place as int].y
                > tiles[at as int].y && forall|k: int|
                0 <= k < tiles.len() && (#[trigger] tiles[k]).y > tiles[at as int].y ==> tiles[k].y
                    >= tiles[place as int].y,
            _ => to == CursorMove::Stay && forall|k: int|
                0 <= k < tiles.len() ==> (#[trigger] tiles[k]).y <= tiles[at as int].y,
        },
        key == Key::Left || key == Key::KpLeft ==> match to {
            CursorMove::Focus(place) => place + 1 == at,
            _ => to == CursorMove::Stay && at == 0,
        },
        key == Key::Right || key == Key::KpRight ==> match to {
            CursorMove::Focus(place) => place == at + 1 && place < tiles.len(),
            _ => to == CursorMove::Stay && at + 1 == tiles.len(),
        },
        to == CursorMove::Proceed <==> !(key == Key::Up || key == Key::KpUp || key == Key::Down
            || key == Key::KpDown || key == Key::Left || key == Key::KpLeft || key == Key::Right
            || key == Key::KpRight),
{
}

/// In the row that an arrow leads to, no tile of the same width lies nearer to
/// the tile that the cursor came from than the one it goes to.
pub proof fn the_nearest_tile_is_reached(
    tiles: Seq<TileBox>,
    at: usize,
    key: Key,
    place: usize,
    other: int,
)
    requires
        at < tiles.len(),
        key == Key::Up || key == Key::KpUp || key == Key::Down || key == Key::KpDown,
        key_goes(tiles, Some(at), key, CursorMove::Focus(place)),
        0 <= other < tiles.len(),
        tiles[other].y == tiles[place as int].y,
        tiles[other].width == tiles[at as int].width,
        tiles[place as int].width == tiles[at as int].width,
    ensures
        ({
            let from = tiles[at as int].x;
            let there = tiles[place as int].x;
            let x = tiles[other].x;
            (if there < from { from - there } else { there - from }) <= (if x < from {
                from - x
            } else {
                x - from
            })
        }),
{
    assert(tiles[other].y == tiles[place as int].y);
}

/// The middle of a tile is as far from its left edge as from its right one, up to
/// the rounding to whole pixels.
pub proof fn middles_lie_between_the_edges(tile: TileBox)
    requires
        tile.width >= 0,
    ensures
        0 <= (tile.x + tile.width - middle(tile)) - (middle(tile) - tile.x) <= 1,
{
}

/// A tile holds its corners, and none of two tiles beside or above each other
/// holds a point of the other.
pub proof fn points_belong_to_one_tile(a: TileBox, b: TileBox, x: int, y: int)
    requires
        a.width > 0,
        a.height > 0,
    ensures
        holds_point(a, a.x as int, a.y as int),
        holds_point(a, a.x + a.width - 1, a.y + a.height - 1),
        holds_point(a, x, y) && (b.x >= a.x + a.width || b.y >= a.y + a.height || b.x + b.width
            <= a.x || b.y + b.height <= a.y) ==> !holds_point(b, x, y),
{
}

} // verus!

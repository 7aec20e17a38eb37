//! The rows with which the editor adjusts colours.

use vstd::prelude::*;

verus! {

/// A titled row with a scale.
pub struct ScaleRow {
    pub title: String,
    pub lowest: i32,
    pub highest: i32,
    pub value: i32,
    pub width_request: i32,
    pub draw_value: bool,
    pub activatable: bool,
}

/// A row whose scale goes from -100 to 100, stands at 0 and shows its value.
pub fn make_scale_row(title: &str) -> (row: ScaleRow)
    ensures
        row.title@ == title@,
        row.lowest == -100,
        row.highest == 100,
        row.value == 0,
        row.width_request == 200,
        row.draw_value,
        !row.activatable,
{
    ScaleRow {
        title: title.to_owned(),
        lowest: -100,
        highest: 100,
        value: 0,
        width_request: 200,
        draw_value: true,
        activatable: false,
    }
}

} // verus!

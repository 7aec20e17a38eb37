# photo_viewer

The logic of a photo viewer for large local libraries, verified with Verus: the
sectioned thumbnail grid and how it follows the media list and pages through the
library, albums, the editor, the mode selector, context menus, keyboard routing
and the style sheet of the glass surfaces.

- `src/` is the verified library. Each module holds the types and functions of
  one part, with contracts over mathematical models, and the laws that relate
  them (`*_laws.rs`, or beside the functions).
- `app/` holds the GTK widgets around it, and what computes on floating point
  numbers.
- `tests/` runs the library on concrete values.

What is trusted: the calendar date that `chrono` gives for a timestamp
(`src/calendar.rs`), and what the `image` crate does with pixels
(`src/editor/pixels.rs`).

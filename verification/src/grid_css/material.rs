//! Making the material of the glass surfaces more transparent: finding the
//! numbers in its style sheet that count, and writing others in their place.

use vstd::prelude::*;

verus! {

// ---------------------------------------------------------------------------
// Text

/// Is this white space?
pub open spec fn is_space(c: char) -> bool {
    ||| '\u{9}' <= c <= '\u{d}'
    ||| c == ' '
    ||| c == '\u{85}'
    ||| c == '\u{a0}'
    ||| c == '\u{1680}'
    ||| '\u{2000}' <= c <= '\u{200a}'
    ||| c == '\u{2028}'
    ||| c == '\u{2029}'
    ||| c == '\u{202f}'
    ||| c == '\u{205f}'
    ||| c == '\u{3000}'
}

fn is_white_space(c: char) -> (space: bool)
    ensures
        space == is_space(c),
{
    ('\u{9}' <= c && c <= '\u{d}') || c == ' ' || c == '\u{85}' || c == '\u{a0}' || c == '\u{1680}'
        || ('\u{2000}' <= c && c <= '\u{200a}') || c == '\u{2028}' || c == '\u{2029}' || c
        == '\u{202f}' || c == '\u{205f}' || c == '\u{3000}'
}

/// The place of the first character from `from` on that is no white space.
pub open spec fn skip_space(text: Seq<char>, from: int) -> int
    decreases text.len() - from,
{
    if 0 <= from < text.len() && is_space(text[from]) {
        skip_space(text, from + 1)
    } else {
        from
    }
}

/// The place behind the last character before `end` that is no white space, but
/// not before `from`.
pub open spec fn drop_space(text: Seq<char>, from: int, end: int) -> int
    decreases end - from,
{
    if from < end && is_space(text[end - 1]) {
        drop_space(text, from, end - 1)
    } else {
        end
    }
}

/// The text without white space at its ends.
pub open spec fn trimmed(text: Seq<char>) -> Seq<char> {
    let first = skip_space(text, 0);
    text.subrange(first, drop_space(text, first, text.len() as int))
}

/// Does `word` stand in the text at `at`?
pub open spec fn stands_at(text: Seq<char>, word: Seq<char>, at: int) -> bool {
    0 <= at && at + word.len() <= text.len() && text.subrange(at, at + word.len()) == word
}

/// The first place from `from` on at which `word` stands.
pub open spec fn find(text: Seq<char>, word: Seq<char>, from: int) -> Option<int>
    decreases text.len() - from + 1,
{
    if from > text.len() {
        None
    } else if stands_at(text, word, from) {
        Some(from)
    } else {
        find(text, word, from + 1)
    }
}

/// The last place from `from` on and before `end` with a comma.
pub open spec fn last_comma(text: Seq<char>, from: int, end: int) -> Option<int>
    decreases end - from,
{
    if end <= from {
        None
    } else if text[end - 1] == ',' {
        Some(end - 1)
    } else {
        last_comma(text, from, end - 1)
    }
}

proof fn lemma_find(text: Seq<char>, word: Seq<char>, from: int)
    requires
        0 <= from,
    ensures
        find(text, word, from) matches Some(at) ==> from <= at && stands_at(text, word, at),
    decreases text.len() - from + 1,
{
    if from <= text.len() && !stands_at(text, word, from) {
        lemma_find(text, word, from + 1);
    }
}

fn skip_white_space(text: &Vec<char>, from: usize) -> (place: usize)
    requires
        from <= text@.len(),
    ensures
        place == skip_space(text@, from as int),
        from <= place <= text@.len(),
{
    let mut i: usize = from;
    while i < text.len() && is_white_space(text[i])
        invariant
            from <= i <= text@.len(),
            skip_space(text@, i as int) == skip_space(text@, from as int),
        decreases text@.len() - i,
    {
        i += 1;
    }
    i
}

fn drop_white_space(text: &Vec<char>, from: usize, end: usize) -> (place: usize)
    requires
        from <= end <= text@.len(),
    ensures
        place == drop_space(text@, from as int, end as int),
        from <= place <= end,
{
    let mut i: usize = end;
    while from < i && is_white_space(text[i - 1])
        invariant
            from <= i <= end <= text@.len(),
            drop_space(text@, from as int, i as int) == drop_space(text@, from as int, end as int),
        decreases i,
    {
        i -= 1;
    }
    i
}

fn word_stands_at(text: &Vec<char>, word: &str, at: usize) -> (stands: bool)
    requires
        at <= text@.len(),
    ensures
        stands == stands_at(text@, word@, at as int),
        stands ==> at + word@.len() <= usize::MAX,
{
    let n: usize = word.unicode_len();
    let len: usize = text.len();
    if len - at < n {
        return false;
    }
    let mut i: usize = 0;
    while i < n
        invariant
            i <= n,
            n == word@.len(),
            len == text@.len(),
            at + n <= len,
            forall|k: int| 0 <= k < i ==> text@[at + k] == word@[k],
        decreases n - i,
    {
        if text[at + i] != word.get_char(i) {
            assert(text@.subrange(at as int, at + word@.len())[i as int] != word@[i as int]);
            return false;
        }
        i += 1;
    }
    assert(text@.subrange(at as int, at + word@.len()) =~= word@);
    true
}

fn find_word(text: &Vec<char>, word: &str, from: usize) -> (place: Option<usize>)
    requires
        from <= text@.len(),
    ensures
        place is Some <==> find(text@, word@, from as int) is Some,
        place matches Some(at) ==> {
            &&& Some(at as int) == find(text@, word@, from as int)
            &&& from <= at
            &&& at + word@.len() <= usize::MAX
            &&& stands_at(text@, word@, at as int)
        },
{
    let mut i: usize = from;
    loop
        invariant
            from <= i <= text@.len(),
            find(text@, word@, i as int) == find(text@, word@, from as int),
        decreases text@.len() - i,
    {
        if word_stands_at(text, word, i) {
            return Some(i);
        }
        if i == text.len() {
            assert(find(text@, word@, i + 1) is None);
            return None;
        }
        i += 1;
    }
}

fn find_last_comma(text: &Vec<char>, from: usize, end: usize) -> (place: Option<usize>)
    requires
        from <= end <= text@.len(),
    ensures
        place is Some <==> last_comma(text@, from as int, end as int) is Some,
        place matches Some(at) ==> Some(at as int) == last_comma(text@, from as int, end as int)
            && from <= at < end,
{
    let mut i: usize = end;
    while i > from
        invariant
            from <= i <= end <= text@.len(),
            last_comma(text@, from as int, end as int) == last_comma(text@, from as int, i as int),
        decreases i,
    {
        if text[i - 1] == ',' {
            return Some(i - 1);
        }
        i -= 1;
    }
    None
}

fn part(text: &Vec<char>, from: usize, end: usize) -> (found: Vec<char>)
    requires
        from <= end <= text@.len(),
    ensures
        found@ == text@.subrange(from as int, end as int),
{
    let mut found: Vec<char> = Vec::new();
    let mut i: usize = from;
    while i < end
        invariant
            from <= i <= end <= text@.len(),
            found@ =~= text@.subrange(from as int, i as int),
        decreases end - i,
    {
        found.push(text[i]);
        i += 1;
    }
    found
}

// ---------------------------------------------------------------------------
// Lines

/// What the numbers in a line are for.
#[derive(Clone, Copy, Debug, PartialEq, Eq, Structural)]
pub enum LineKind {
    /// A background, which may vanish altogether.
    Background,
    /// A border or a shadow, which stays visible.
    Edge,
    /// What is seen through the surface.
    Filter,
    /// Anything else: kept as it is.
    Other,
}

/// Does a line begin with a word, white space aside?
pub open spec fn begins(line: Seq<char>, word: Seq<char>) -> bool {
    stands_at(line, word, skip_space(line, 0))
}

/// What the numbers in a line are for; `in_shadow` says whether the line goes on
/// with a shadow of the lines before it.
pub open spec fn kind_of(line: Seq<char>, in_shadow: bool) -> LineKind {
    if begins(line, "background:"@) || begins(line, "background-color:"@) {
        LineKind::Background
    } else if begins(line, "border:"@) || begins(line, "border-"@) || in_shadow || begins(
        line,
        "box-shadow:"@,
    ) {
        LineKind::Edge
    } else if begins(line, "backdrop-filter:"@) {
        LineKind::Filter
    } else {
        LineKind::Other
    }
}

/// Does the next line go on with a shadow? A shadow ends with a semicolon.
pub open spec fn shadow_goes_on(line: Seq<char>, in_shadow: bool) -> bool {
    (in_shadow || begins(line, "box-shadow:"@)) && !(line.len() > 0 && line.last() == ';')
}

fn line_begins(line: &Vec<char>, word: &str) -> (found: bool)
    ensures
        found == begins(line@, word@),
{
    let at: usize = skip_white_space(line, 0);
    word_stands_at(line, word, at)
}

fn line_kind(line: &Vec<char>, in_shadow: bool) -> (kind: LineKind)
    ensures
        kind == kind_of(line@, in_shadow),
{
    if line_begins(line, "background:") || line_begins(line, "background-color:") {
        LineKind::Background
    } else if line_begins(line, "border:") || line_begins(line, "border-") || in_shadow
        || line_begins(line, "box-shadow:") {
        LineKind::Edge
    } else if line_begins(line, "backdrop-filter:") {
        LineKind::Filter
    } else {
        LineKind::Other
    }
}

fn next_in_shadow(line: &Vec<char>, in_shadow: bool) -> (goes_on: bool)
    ensures
        goes_on == shadow_goes_on(line@, in_shadow),
{
    (in_shadow || line_begins(line, "box-shadow:")) && !(line.len() > 0 && line[line.len() - 1]
        == ';')
}

// ---------------------------------------------------------------------------
// Pieces

/// A piece of the style sheet.
pub enum Piece {
    /// Text that stays.
    Text(Vec<char>),
    /// A colour with a number for how opaque it is.
    Alpha(AlphaCall),
    /// A line with the numbers of a filter.
    Filter(FilterLine),
}

/// A colour with a number for how opaque it is.
pub struct AlphaCall {
    /// The call as it stands.
    pub whole: Vec<char>,
    pub color: Vec<char>,
    pub value: Vec<char>,
    /// It belongs to an edge, which stays visible.
    pub edge: bool,
}

/// A line with the numbers of a filter.
pub struct FilterLine {
    /// The line as it stands.
    pub whole: Vec<char>,
    pub indent: Vec<char>,
    pub blur: Vec<char>,
    pub saturate: Option<Vec<char>>,
    pub brightness: Option<Vec<char>>,
}

/// What a piece says.
pub enum PieceView {
    Text(Seq<char>),
    Alpha { whole: Seq<char>, color: Seq<char>, value: Seq<char>, edge: bool },
    Filter {
        whole: Seq<char>,
        indent: Seq<char>,
        blur: Seq<char>,
        saturate: Option<Seq<char>>,
        brightness: Option<Seq<char>>,
    },
}

pub open spec fn text_of(text: Option<Vec<char>>) -> Option<Seq<char>> {
    match text {
        Some(found) => Some(found@),
        None => None,
    }
}

impl View for Piece {
    type V = PieceView;

    open spec fn view(&self) -> PieceView {
        match *self {
            Piece::Text(text) => PieceView::Text(text@),
            Piece::Alpha(call) => PieceView::Alpha {
                whole: call.whole@,
                color: call.color@,
                value: call.value@,
                edge: call.edge,
            },
            Piece::Filter(line) => PieceView::Filter {
                whole: line.whole@,
                indent: line.indent@,
                blur: line.blur@,
                saturate: text_of(line.saturate),
                brightness: text_of(line.brightness),
            },
        }
    }
}

/// What a list of pieces says.
pub open spec fn said(pieces: Seq<Piece>) -> Seq<PieceView> {
    pieces.map_values(|piece: Piece| piece@)
}

/// The pieces of a line from `from` on, which ends a colour at its bracket.
pub open spec fn alpha_pieces(line: Seq<char>, from: int, edge: bool) -> Seq<PieceView>
    decreases line.len() - from,
{
    match find(line, "alpha("@, from) {
        None => seq![PieceView::Text(line.subrange(from, line.len() as int))],
        Some(start) => {
            let inner = start + "alpha("@.len();
            match find(line, ")"@, inner) {
                None => seq![PieceView::Text(line.subrange(from, line.len() as int))],
                Some(end) => if from <= start && inner <= end < line.len() {
                    let whole = line.subrange(start, end + 1);
                    let call = match last_comma(line, inner, end) {
                        None => PieceView::Text(whole),
                        Some(comma) => PieceView::Alpha {
                            whole,
                            color: line.subrange(inner, comma),
                            value: trimmed(line.subrange(comma + 1, end)),
                            edge,
                        },
                    };
                    seq![PieceView::Text(line.subrange(from, start)), call] + alpha_pieces(
                        line,
                        end + 1,
                        edge,
                    )
                } else {
                    Seq::empty()
                },
            }
        },
    }
}

/// What stands between two words.
pub open spec fn between(line: Seq<char>, before: Seq<char>, after: Seq<char>) -> Option<Seq<char>> {
    match find(line, before, 0) {
        None => None,
        Some(at) => {
            let start = at + before.len();
            match find(line, after, start) {
                None => None,
                Some(end) => Some(line.subrange(start, end)),
            }
        },
    }
}

/// A line with a filter.
pub open spec fn filter_piece(line: Seq<char>) -> PieceView {
    match between(line, "blur("@, "px)"@) {
        None => PieceView::Text(line),
        Some(blur) => PieceView::Filter {
            whole: line,
            indent: line.subrange(0, skip_space(line, 0)),
            blur,
            saturate: between(line, "saturate("@, ")"@),
            brightness: between(line, "brightness("@, ")"@),
        },
    }
}

/// The pieces of a line.
pub open spec fn line_pieces(line: Seq<char>, in_shadow: bool) -> Seq<PieceView> {
    match kind_of(line, in_shadow) {
        LineKind::Background => alpha_pieces(line, 0, false),
        LineKind::Edge => alpha_pieces(line, 0, true),
        LineKind::Filter => seq![filter_piece(line)],
        LineKind::Other => seq![PieceView::Text(line)],
    }
}

/// The line that starts at `start` and ends at `end`, without a carriage return
/// before its line feed.
pub open spec fn line_at(text: Seq<char>, start: int, end: int) -> Seq<char> {
    if end < text.len() && start < end && text[end - 1] == '\u{d}' {
        text.subrange(start, end - 1)
    } else {
        text.subrange(start, end)
    }
}

/// Where the line that starts at `start` ends: at its line feed, or at the end.
pub open spec fn line_end(text: Seq<char>, start: int) -> int
    decreases text.len() - start,
{
    if start < 0 || start >= text.len() || text[start] == '\n' {
        start
    } else {
        line_end(text, start + 1)
    }
}

/// The pieces of a style sheet from `start` on. Each line ends with a line feed.
pub open spec fn sheet_pieces(text: Seq<char>, start: int, in_shadow: bool) -> Seq<PieceView>
    decreases text.len() - start + 1,
{
    let end = line_end(text, start);
    if !(0 <= start < text.len() && start <= end <= text.len()) {
        Seq::empty()
    } else {
        let line = line_at(text, start, end);
        line_pieces(line, in_shadow) + seq![PieceView::Text("\n"@)] + sheet_pieces(
            text,
            end + 1,
            shadow_goes_on(line, in_shadow),
        )
    }
}

fn trim(text: &Vec<char>) -> (found: Vec<char>)
    ensures
        found@ == trimmed(text@),
{
    let first: usize = skip_white_space(text, 0);
    let last: usize = drop_white_space(text, first, text.len());
    part(text, first, last)
}

proof fn lemma_said_push(pieces: Seq<Piece>, piece: Piece)
    ensures
        said(pieces.push(piece)) == said(pieces).push(piece@),
{
    assert(said(pieces.push(piece)) =~= said(pieces).push(piece@));
}

/// Add the pieces of a line that ends colours at their brackets.
fn add_alpha_pieces(line: &Vec<char>, edge: bool, pieces: &mut Vec<Piece>)
    ensures
        said(final(pieces)@) == said(old(pieces)@) + alpha_pieces(line@, 0, edge),
{
    let ghost before = said(pieces@);
    let n: usize = "alpha(".unicode_len();
    let mut from: usize = 0;
    assert(said(pieces@) + alpha_pieces(line@, 0, edge) =~= before + alpha_pieces(line@, 0, edge));
    loop
        invariant_except_break
            said(pieces@) + alpha_pieces(line@, from as int, edge) == before + alpha_pieces(
                line@,
                0,
                edge,
            ),
        invariant
            from <= line@.len(),
            n == "alpha("@.len(),
        ensures
            said(pieces@) == before + alpha_pieces(line@, 0, edge),
        decreases line@.len() - from,
    {
        let ghost now = pieces@;
        let start: usize = match find_word(line, "alpha(", from) {
            None => {
                let rest: Vec<char> = part(line, from, line.len());
                pieces.push(Piece::Text(rest));
                proof {
                    lemma_said_push(now, pieces@.last());
                    assert(said(pieces@) =~= said(now) + alpha_pieces(line@, from as int, edge));
                }
                break ;
            },
            Some(start) => start,
        };
        let inner: usize = start + n;
        let end: usize = match find_word(line, ")", inner) {
            None => {
                let rest: Vec<char> = part(line, from, line.len());
                pieces.push(Piece::Text(rest));
                proof {
                    lemma_said_push(now, pieces@.last());
                    assert(said(pieces@) =~= said(now) + alpha_pieces(line@, from as int, edge));
                }
                break ;
            },
            Some(end) => end,
        };
        proof {
            reveal_strlit(")");
            assert(")"@.len() == 1);
        }
        let whole: Vec<char> = part(line, start, end + 1);
        let call: Piece = match find_last_comma(line, inner, end) {
            None => Piece::Text(whole),
            Some(comma) => {
                let value: Vec<char> = part(line, comma + 1, end);
                Piece::Alpha(
                    AlphaCall { whole, color: part(line, inner, comma), value: trim(&value), edge },
                )
            },
        };
        let kept: Vec<char> = part(line, from, start);
        pieces.push(Piece::Text(kept));
        let ghost between_pushes = pieces@;
        pieces.push(call);
        proof {
            lemma_said_push(now, between_pushes.last());
            lemma_said_push(between_pushes, call);
            let rest = alpha_pieces(line@, end + 1, edge);
            assert(alpha_pieces(line@, from as int, edge) == seq![PieceView::Text(kept@), call@]
                + rest);
            assert(said(pieces@) + rest =~= said(now) + (seq![PieceView::Text(kept@), call@]
                + rest));
        }
        from = end + 1;
    }
}

fn text_between(line: &Vec<char>, before: &str, after: &str) -> (found: Option<Vec<char>>)
    ensures
        text_of(found) == between(line@, before@, after@),
{
    match find_word(line, before, 0) {
        None => None,
        Some(at) => {
            let start: usize = at + before.unicode_len();
            match find_word(line, after, start) {
                None => None,
                Some(end) => Some(part(line, start, end)),
            }
        },
    }
}

fn filter_line(line: &Vec<char>) -> (piece: Piece)
    ensures
        piece@ == filter_piece(line@),
{
    let whole: Vec<char> = part(line, 0, line.len());
    assert(whole@ =~= line@);
    match text_between(line, "blur(", "px)") {
        None => Piece::Text(whole),
        Some(blur) => {
            let first: usize = skip_white_space(line, 0);
            Piece::Filter(
                FilterLine {
                    whole,
                    indent: part(line, 0, first),
                    blur,
                    saturate: text_between(line, "saturate(", ")"),
                    brightness: text_between(line, "brightness(", ")"),
                },
            )
        },
    }
}

/// Add the pieces of a line.
fn add_line_pieces(line: &Vec<char>, in_shadow: bool, pieces: &mut Vec<Piece>)
    ensures
        said(final(pieces)@) == said(old(pieces)@) + line_pieces(line@, in_shadow),
{
    let ghost now = pieces@;
    match line_kind(line, in_shadow) {
        LineKind::Background => {
            add_alpha_pieces(line, false, pieces);
        },
        LineKind::Edge => {
            add_alpha_pieces(line, true, pieces);
        },
        LineKind::Filter => {
            pieces.push(filter_line(line));
            proof {
                lemma_said_push(now, pieces@.last());
                assert(said(pieces@) =~= said(now) + line_pieces(line@, in_shadow));
            }
        },
        LineKind::Other => {
            let text: Vec<char> = part(line, 0, line.len());
            assert(text@ =~= line@);
            pieces.push(Piece::Text(text));
            proof {
                lemma_said_push(now, pieces@.last());
                assert(said(pieces@) =~= said(now) + line_pieces(line@, in_shadow));
            }
        },
    }
}

fn find_line_end(text: &Vec<char>, start: usize) -> (end: usize)
    requires
        start <= text@.len(),
    ensures
        end == line_end(text@, start as int),
        start <= end <= text@.len(),
{
    let mut i: usize = start;
    while i < text.len() && text[i] != '\n'
        invariant
            start <= i <= text@.len(),
            line_end(text@, i as int) == line_end(text@, start as int),
        decreases text@.len() - i,
    {
        i += 1;
    }
    i
}

/// Take the style sheet of a material apart.
pub fn material_pieces(material: &Vec<char>) -> (pieces: Vec<Piece>)
    ensures
        said(pieces@) == sheet_pieces(material@, 0, false),
{
    let mut pieces: Vec<Piece> = Vec::new();
    let mut start: usize = 0;
    let mut in_shadow: bool = false;
    assert(said(pieces@) + sheet_pieces(material@, 0, false) =~= sheet_pieces(
        material@,
        0,
        false,
    ));
    while start < material.len()
        invariant
            said(pieces@) + sheet_pieces(material@, start as int, in_shadow) == sheet_pieces(
                material@,
                0,
                false,
            ),
        decreases material@.len() - start,
    {
        let ghost now = said(pieces@);
        let end: usize = find_line_end(material, start);
        let last: usize = if end < material.len() && start < end && material[end - 1] == '\u{d}' {
            end - 1
        } else {
            end
        };
        let line: Vec<char> = part(material, start, last);
        add_line_pieces(&line, in_shadow, &mut pieces);
        let ghost with_line = pieces@;
        let mut feed: Vec<char> = Vec::new();
        feed.push('\n');
        pieces.push(Piece::Text(feed));
        let goes_on: bool = next_in_shadow(&line, in_shadow);
        proof {
            reveal_strlit("\n");
            assert(feed@ =~= "\n"@);
            lemma_said_push(with_line, pieces@.last());
            let rest = sheet_pieces(material@, end + 1, goes_on);
            assert(sheet_pieces(material@, start as int, in_shadow) == line_pieces(
                line@,
                in_shadow,
            ) + seq![PieceView::Text("\n"@)] + rest);
            assert(said(pieces@) + rest =~= now + sheet_pieces(
                material@,
                start as int,
                in_shadow,
            ));
        }
        in_shadow = goes_on;
        if end == material.len() {
            proof {
                assert(sheet_pieces(material@, end + 1, goes_on) =~= Seq::<PieceView>::empty());
                assert(sheet_pieces(material@, end as int, goes_on) =~= Seq::<PieceView>::empty());
            }
            start = end;
        } else {
            start = end + 1;
        }
    }
    assert(sheet_pieces(material@, start as int, in_shadow) =~= Seq::<PieceView>::empty());
    assert(said(pieces@) + Seq::<PieceView>::empty() =~= said(pieces@));
    pieces
}

// ---------------------------------------------------------------------------
// Writing

/// What is written in place of a piece.
pub enum Scaled {
    /// The piece as it stands.
    Keep,
    /// The colour with another number.
    Alpha(Vec<char>),
    /// The filter with other numbers.
    Filter(FilterNumbers),
}

/// The numbers of a filter.
pub struct FilterNumbers {
    pub blur: Vec<char>,
    pub saturate: Vec<char>,
    pub brightness: Vec<char>,
}

/// A piece as it stands.
pub open spec fn as_it_stands(piece: PieceView) -> Seq<char> {
    match piece {
        PieceView::Text(text) => text,
        PieceView::Alpha { whole, .. } => whole,
        PieceView::Filter { whole, .. } => whole,
    }
}

/// What is written for a piece.
pub open spec fn written(piece: PieceView, scaled: Scaled) -> Seq<char> {
    match (piece, scaled) {
        (PieceView::Alpha { color, .. }, Scaled::Alpha(value)) => "alpha("@ + color + ", "@ + value@
            + ")"@,
        (PieceView::Filter { indent, .. }, Scaled::Filter(numbers)) => indent
            + "backdrop-filter: blur("@ + numbers.blur@ + "px) saturate("@ + numbers.saturate@
            + ") brightness("@ + numbers.brightness@ + ");"@,
        _ => as_it_stands(piece),
    }
}

/// What is written for a list of pieces.
pub open spec fn all_written(pieces: Seq<PieceView>, scaled: Seq<Scaled>) -> Seq<char>
    decreases pieces.len(),
{
    if pieces.len() == 0 {
        Seq::empty()
    } else {
        all_written(pieces.drop_last(), scaled.drop_last()) + written(pieces.last(), scaled.last())
    }
}

fn write_chars(out: &mut Vec<char>, text: &Vec<char>)
    ensures
        final(out)@ == old(out)@ + text@,
{
    let ghost before = out@;
    let mut i: usize = 0;
    while i < text.len()
        invariant
            i <= text@.len(),
            out@ =~= before + text@.subrange(0, i as int),
        decreases text@.len() - i,
    {
        out.push(text[i]);
        i += 1;
    }
    assert(text@.subrange(0, i as int) =~= text@);
}

fn write_word(out: &mut Vec<char>, word: &str)
    ensures
        final(out)@ == old(out)@ + word@,
{
    let ghost before = out@;
    let n: usize = word.unicode_len();
    let mut i: usize = 0;
    while i < n
        invariant
            i <= n,
            n == word@.len(),
            out@ =~= before + word@.subrange(0, i as int),
        decreases n - i,
    {
        out.push(word.get_char(i));
        i += 1;
    }
    assert(word@.subrange(0, i as int) =~= word@);
}

fn write_piece(out: &mut Vec<char>, piece: &Piece, scaled: &Scaled)
    ensures
        final(out)@ == old(out)@ + written(piece@, *scaled),
{
    let ghost before = out@;
    match piece {
        Piece::Text(text) => {
            write_chars(out, text);
        },
        Piece::Alpha(call) => match scaled {
            Scaled::Alpha(value) => {
                write_word(out, "alpha(");
                write_chars(out, &call.color);
                write_word(out, ", ");
                write_chars(out, value);
                write_word(out, ")");
            },
            _ => {
                write_chars(out, &call.whole);
            },
        },
        Piece::Filter(line) => match scaled {
            Scaled::Filter(numbers) => {
                write_chars(out, &line.indent);
                write_word(out, "backdrop-filter: blur(");
                write_chars(out, &numbers.blur);
                write_word(out, "px) saturate(");
                write_chars(out, &numbers.saturate);
                write_word(out, ") brightness(");
                write_chars(out, &numbers.brightness);
                write_word(out, ");");
            },
            _ => {
                write_chars(out, &line.whole);
            },
        },
    }
    assert(out@ =~= before + written(piece@, *scaled));
}

/// Put a style sheet together again, with other numbers.
pub fn write_material(pieces: &Vec<Piece>, scaled: &Vec<Scaled>) -> (material: Vec<char>)
    requires
        pieces@.len() == scaled@.len(),
    ensures
        material@ == all_written(said(pieces@), scaled@),
{
    let ghost views = said(pieces@);
    let mut out: Vec<char> = Vec::new();
    let mut i: usize = 0;
    while i < pieces.len()
        invariant
            i <= pieces@.len(),
            pieces@.len() == scaled@.len(),
            views == said(pieces@),
            out@ == all_written(views.subrange(0, i as int), scaled@.subrange(0, i as int)),
        decreases pieces@.len() - i,
    {
        proof {
            assert(views.subrange(0, i + 1).drop_last() =~= views.subrange(0, i as int));
            assert(scaled@.subrange(0, i + 1).drop_last() =~= scaled@.subrange(0, i as int));
            assert(views.subrange(0, i + 1).last() == pieces@[i as int]@);
        }
        write_piece(&mut out, &pieces[i], &scaled[i]);
        i += 1;
    }
    assert(views.subrange(0, i as int) =~= views);
    assert(scaled@.subrange(0, i as int) =~= scaled@);
    out
}

/// A text without zeros at its end.
pub open spec fn without_zeros(text: Seq<char>) -> Seq<char>
    decreases text.len(),
{
    if text.len() > 0 && text.last() == '0' {
        without_zeros(text.drop_last())
    } else {
        text
    }
}

/// A number without zeros at the end of its fraction. Where no digit of the
/// fraction is left, one zero stays, or the point goes too.
pub open spec fn shortened(number: Seq<char>, keep_zero: bool) -> Seq<char> {
    let rest = if number.contains('.') { without_zeros(number) } else { number };
    if rest.len() > 0 && rest.last() == '.' {
        if keep_zero {
            rest.push('0')
        } else {
            rest.drop_last()
        }
    } else {
        rest
    }
}

/// Shorten a number.
pub fn shorten_number(number: &Vec<char>, keep_zero: bool) -> (short: Vec<char>)
    ensures
        short@ == shortened(number@, keep_zero),
{
    let mut has_point: bool = false;
    let mut i: usize = 0;
    while i < number.len()
        invariant
            i <= number@.len(),
            has_point == number@.subrange(0, i as int).contains('.'),
        decreases number@.len() - i,
    {
        proof {
            let (now, next) = (number@.subrange(0, i as int), number@.subrange(0, i + 1));
            assert(next =~= now.push(number@[i as int]));
            if now.contains('.') {
                let k = choose|k: int| 0 <= k < now.len() && now[k] == '.';
                assert(next[k] == '.');
            }
            if next.contains('.') {
                let k = choose|k: int| 0 <= k < next.len() && next[k] == '.';
                if k < i {
                    assert(now[k] == '.');
                }
            }
            if number@[i as int] == '.' {
                assert(next[i as int] == '.');
            }
        }
        if number[i] == '.' {
            has_point = true;
        }
        i += 1;
    }
    assert(number@.subrange(0, i as int) =~= number@);
    let mut end: usize = number.len();
    assert(number@.subrange(0, end as int) =~= number@);
    while has_point && end > 0 && number[end - 1] == '0'
        invariant
            end <= number@.len(),
            !has_point ==> end == number@.len(),
            without_zeros(number@.subrange(0, end as int)) == without_zeros(number@),
        decreases end,
    {
        assert(number@.subrange(0, end as int).drop_last() =~= number@.subrange(0, end - 1));
        end -= 1;
    }
    let mut short: Vec<char> = part(number, 0, end);
    assert(short@ == if has_point { without_zeros(number@) } else { number@ });
    if end > 0 && number[end - 1] == '.' {
        if keep_zero {
            short.push('0');
        } else {
            short.pop();
        }
    }
    short
}

// ---------------------------------------------------------------------------
// Laws

/// All pieces as they stand, one after the other.
pub open spec fn joined(pieces: Seq<PieceView>) -> Seq<char>
    decreases pieces.len(),
{
    if pieces.len() == 0 {
        Seq::empty()
    } else {
        joined(pieces.drop_last()) + as_it_stands(pieces.last())
    }
}

/// The lines of a text from `start` on, each with a line feed.
pub open spec fn lines_from(text: Seq<char>, start: int) -> Seq<char>
    decreases text.len() - start + 1,
{
    let end = line_end(text, start);
    if !(0 <= start < text.len() && start <= end <= text.len()) {
        Seq::empty()
    } else {
        line_at(text, start, end) + "\n"@ + lines_from(text, end + 1)
    }
}

proof fn lemma_joined_concat(a: Seq<PieceView>, b: Seq<PieceView>)
    ensures
        joined(a + b) == joined(a) + joined(b),
    decreases b.len(),
{
    if b.len() == 0 {
        assert(a + b =~= a);
        assert(joined(a) + joined(b) =~= joined(a));
    } else {
        lemma_joined_concat(a, b.drop_last());
        assert((a + b).drop_last() =~= a + b.drop_last());
        assert(joined(a) + joined(b.drop_last()) + as_it_stands(b.last()) =~= joined(a) + joined(
            b,
        ));
    }
}

proof fn lemma_joined_one(piece: PieceView)
    ensures
        joined(seq![piece]) == as_it_stands(piece),
{
    assert(seq![piece].drop_last() =~= Seq::<PieceView>::empty());
    assert(joined(seq![piece].drop_last()) =~= Seq::<char>::empty());
    assert(Seq::<char>::empty() + as_it_stands(piece) =~= as_it_stands(piece));
}

proof fn lemma_alpha_pieces_join(line: Seq<char>, from: int, edge: bool)
    requires
        0 <= from <= line.len(),
    ensures
        joined(alpha_pieces(line, from, edge)) == line.subrange(from, line.len() as int),
    decreases line.len() - from,
{
    let len = line.len() as int;
    reveal_strlit("alpha(");
    reveal_strlit(")");
    lemma_find(line, "alpha("@, from);
    match find(line, "alpha("@, from) {
        None => {
            lemma_joined_one(PieceView::Text(line.subrange(from, len)));
        },
        Some(start) => {
            let inner = start + "alpha("@.len();
            lemma_find(line, ")"@, inner);
            match find(line, ")"@, inner) {
                None => {
                    lemma_joined_one(PieceView::Text(line.subrange(from, len)));
                },
                Some(end) => {
                    let pieces = alpha_pieces(line, from, edge);
                    let kept = PieceView::Text(line.subrange(from, start));
                    let call = pieces[1];
                    let rest = alpha_pieces(line, end + 1, edge);
                    assert(pieces =~= (seq![kept] + seq![call]) + rest);
                    lemma_alpha_pieces_join(line, end + 1, edge);
                    lemma_joined_one(kept);
                    lemma_joined_one(call);
                    lemma_joined_concat(seq![kept], seq![call]);
                    lemma_joined_concat(seq![kept] + seq![call], rest);
                    assert(as_it_stands(call) == line.subrange(start, end + 1));
                    assert(line.subrange(from, start) + line.subrange(start, end + 1)
                        + line.subrange(end + 1, len) =~= line.subrange(from, len));
                },
            }
        },
    }
}

proof fn lemma_line_pieces_join(line: Seq<char>, in_shadow: bool)
    ensures
        joined(line_pieces(line, in_shadow)) == line,
{
    let whole = line.subrange(0, line.len() as int);
    assert(whole =~= line);
    match kind_of(line, in_shadow) {
        LineKind::Background => {
            lemma_alpha_pieces_join(line, 0, false);
        },
        LineKind::Edge => {
            lemma_alpha_pieces_join(line, 0, true);
        },
        LineKind::Filter => {
            lemma_joined_one(filter_piece(line));
        },
        LineKind::Other => {
            lemma_joined_one(PieceView::Text(line));
        },
    }
}

proof fn lemma_sheet_pieces_join(text: Seq<char>, start: int, in_shadow: bool)
    ensures
        joined(sheet_pieces(text, start, in_shadow)) == lines_from(text, start),
    decreases text.len() - start + 1,
{
    let end = line_end(text, start);
    if 0 <= start < text.len() && start <= end <= text.len() {
        let line = line_at(text, start, end);
        let goes_on = shadow_goes_on(line, in_shadow);
        let feed = PieceView::Text("\n"@);
        let rest = sheet_pieces(text, end + 1, goes_on);
        lemma_line_pieces_join(line, in_shadow);
        lemma_joined_one(feed);
        lemma_sheet_pieces_join(text, end + 1, goes_on);
        lemma_joined_concat(line_pieces(line, in_shadow), seq![feed]);
        lemma_joined_concat(line_pieces(line, in_shadow) + seq![feed], rest);
    }
}

proof fn lemma_kept(pieces: Seq<PieceView>, scaled: Seq<Scaled>)
    requires
        pieces.len() == scaled.len(),
        forall|k: int| 0 <= k < scaled.len() ==> (#[trigger] scaled[k]) is Keep,
    ensures
        all_written(pieces, scaled) == joined(pieces),
    decreases pieces.len(),
{
    if pieces.len() > 0 {
        lemma_kept(pieces.drop_last(), scaled.drop_last());
        assert(scaled.last() is Keep);
    }
}

/// Taking a style sheet apart loses nothing: written with no other numbers, it
/// has the same lines, each with a line feed.
pub proof fn pieces_keep_the_lines(material: Seq<char>, scaled: Seq<Scaled>)
    requires
        scaled.len() == sheet_pieces(material, 0, false).len(),
        forall|k: int| 0 <= k < scaled.len() ==> (#[trigger] scaled[k]) is Keep,
    ensures
        all_written(sheet_pieces(material, 0, false), scaled) == lines_from(material, 0),
{
    lemma_kept(sheet_pieces(material, 0, false), scaled);
    lemma_sheet_pieces_join(material, 0, false);
}

proof fn lemma_line_end(text: Seq<char>, start: int)
    requires
        0 <= start <= text.len(),
    ensures
        start <= line_end(text, start) <= text.len(),
        line_end(text, start) < text.len() ==> text[line_end(text, start)] == '\n',
    decreases text.len() - start,
{
    if start < text.len() && text[start] != '\n' {
        lemma_line_end(text, start + 1);
    }
}

proof fn lemma_lines_are_the_text(text: Seq<char>, start: int)
    requires
        0 <= start <= text.len(),
        text.len() > 0,
        text.last() == '\n',
        !text.contains('\u{d}'),
    ensures
        lines_from(text, start) == text.subrange(start, text.len() as int),
    decreases text.len() - start,
{
    let len = text.len() as int;
    let end = line_end(text, start);
    lemma_line_end(text, start);
    reveal_strlit("\n");
    if start < len {
        if end == len {
            lemma_last_line_ends(text, start);
        }
        if start < end {
            assert(text.contains(text[end - 1]));
        }
        lemma_lines_are_the_text(text, end + 1);
        assert("\n"@ =~= text.subrange(end, end + 1));
        assert(text.subrange(start, end) + text.subrange(end, end + 1) + text.subrange(
            end + 1,
            len,
        ) =~= text.subrange(start, len));
    } else {
        assert(text.subrange(start, len) =~= Seq::<char>::empty());
    }
}

proof fn lemma_last_line_ends(text: Seq<char>, start: int)
    requires
        0 <= start < text.len(),
        text.last() == '\n',
    ensures
        line_end(text, start) < text.len(),
    decreases text.len() - start,
{
    if text[start] != '\n' {
        lemma_last_line_ends(text, start + 1);
    }
}

/// A style sheet whose lines all end with a bare line feed is kept as it is when
/// no other numbers are written.
pub proof fn unscaled_sheets_stay_the_same(material: Seq<char>, scaled: Seq<Scaled>)
    requires
        material.len() > 0,
        material.last() == '\n',
        !material.contains('\u{d}'),
        scaled.len() == sheet_pieces(material, 0, false).len(),
        forall|k: int| 0 <= k < scaled.len() ==> (#[trigger] scaled[k]) is Keep,
    ensures
        all_written(sheet_pieces(material, 0, false), scaled) == material,
{
    pieces_keep_the_lines(material, scaled);
    lemma_lines_are_the_text(material, 0);
    assert(material.subrange(0, material.len() as int) =~= material);
}

proof fn lemma_find_is(text: Seq<char>, word: Seq<char>, from: int, at: int)
    requires
        0 <= from <= at,
        stands_at(text, word, at),
        forall|k: int| from <= k < at ==> !#[trigger] stands_at(text, word, k),
    ensures
        find(text, word, from) == Some(at),
    decreases at - from,
{
    if from < at {
        assert(!stands_at(text, word, from));
        lemma_find_is(text, word, from + 1, at);
    }
}

proof fn lemma_last_comma_is(text: Seq<char>, from: int, end: int, at: int)
    requires
        0 <= from <= at < end <= text.len(),
        text[at] == ',',
        forall|k: int| at < k < end ==> #[trigger] text[k] != ',',
    ensures
        last_comma(text, from, end) == Some(at),
    decreases end,
{
    if at < end - 1 {
        assert(text[end - 1] != ',');
        lemma_last_comma_is(text, from, end - 1, at);
    }
}

/// The first colour with a number in a line is found: it begins at the first
/// `alpha(`, ends at the next closing bracket, and its number stands behind the
/// last comma between them. What stands in front of it is kept as it is, and the
/// rest of the line is looked at in the same way.
pub proof fn colours_with_a_number_are_found(
    line: Seq<char>,
    from: int,
    start: int,
    comma: int,
    end: int,
    edge: bool,
)
    requires
        0 <= from <= start,
        stands_at(line, "alpha("@, start),
        forall|k: int| from <= k < start ==> !#[trigger] stands_at(line, "alpha("@, k),
        start + 6 <= comma < end < line.len(),
        line[end] == ')',
        forall|k: int| start + 6 <= k < end ==> #[trigger] line[k] != ')',
        line[comma] == ',',
        forall|k: int| comma < k < end ==> #[trigger] line[k] != ',',
    ensures
        alpha_pieces(line, from, edge) == seq![
            PieceView::Text(line.subrange(from, start)),
            PieceView::Alpha {
                whole: line.subrange(start, end + 1),
                color: line.subrange(start + 6, comma),
                value: trimmed(line.subrange(comma + 1, end)),
                edge,
            },
        ] + alpha_pieces(line, end + 1, edge),
{
    reveal_strlit("alpha(");
    reveal_strlit(")");
    assert("alpha("@.len() == 6);
    lemma_find_is(line, "alpha("@, from, start);
    assert forall|k: int| start + 6 <= k < end implies !#[trigger] stands_at(line, ")"@, k) by {
        assert(line[k] != ')');
        if stands_at(line, ")"@, k) {
            assert(line.subrange(k, k + 1)[0] == ")"@[0]);
        }
    }
    assert(line.subrange(end, end + 1) =~= ")"@);
    lemma_find_is(line, ")"@, start + 6, end);
    lemma_last_comma_is(line, start + 6, end, comma);
}

/// A line without a colour is kept as it is.
pub proof fn lines_without_colours_are_kept(line: Seq<char>, from: int, edge: bool)
    requires
        0 <= from <= line.len(),
        forall|k: int| from <= k ==> !#[trigger] stands_at(line, "alpha("@, k),
    ensures
        alpha_pieces(line, from, edge) == seq![
            PieceView::Text(line.subrange(from, line.len() as int)),
        ],
{
    lemma_find(line, "alpha("@, from);
    if find(line, "alpha("@, from) is Some {
        assert(stands_at(line, "alpha("@, find(line, "alpha("@, from)->0));
    }
}

proof fn lemma_skip_space(text: Seq<char>, from: int)
    requires
        0 <= from <= text.len(),
    ensures
        from <= skip_space(text, from) <= text.len(),
        forall|k: int| from <= k < skip_space(text, from) ==> is_space(#[trigger] text[k]),
        skip_space(text, from) < text.len() ==> !is_space(text[skip_space(text, from)]),
    decreases text.len() - from,
{
    if from < text.len() && is_space(text[from]) {
        lemma_skip_space(text, from + 1);
    }
}

proof fn lemma_drop_space(text: Seq<char>, from: int, end: int)
    requires
        0 <= from <= end <= text.len(),
    ensures
        from <= drop_space(text, from, end) <= end,
        forall|k: int| drop_space(text, from, end) <= k < end ==> is_space(#[trigger] text[k]),
        drop_space(text, from, end) > from ==> !is_space(text[drop_space(text, from, end) - 1]),
    decreases end - from,
{
    if from < end && is_space(text[end - 1]) {
        lemma_drop_space(text, from, end - 1);
    }
}

/// Trimming takes away white space at the ends and nothing else, and leaves none
/// there.
pub proof fn trimming_takes_white_space(text: Seq<char>) -> (cut: (int, int))
    ensures
        0 <= cut.0 <= cut.1 <= text.len(),
        trimmed(text) == text.subrange(cut.0, cut.1),
        forall|k: int| 0 <= k < cut.0 || cut.1 <= k < text.len() ==> is_space(#[trigger] text[k]),
        trimmed(text).len() > 0 ==> !is_space(trimmed(text).first()) && !is_space(
            trimmed(text).last(),
        ),
{
    let first = skip_space(text, 0);
    lemma_skip_space(text, 0);
    lemma_drop_space(text, first, text.len() as int);
    (first, drop_space(text, first, text.len() as int))
}

proof fn lemma_trimmed_stays(text: Seq<char>, space: Seq<char>)
    requires
        text.len() > 0,
        !is_space(text.first()),
        !is_space(text.last()),
        forall|k: int| 0 <= k < space.len() ==> is_space(#[trigger] space[k]),
    ensures
        trimmed(space + text) == text,
{
    let all = space + text;
    let cut = trimming_takes_white_space(all);
    if cut.0 < space.len() {
        if cut.0 < cut.1 {
            assert(trimmed(all).first() == all[cut.0]);
            assert(all[cut.0] == space[cut.0]);
        } else {
            assert(all[space.len() as int] == text[0]);
        }
    } else if cut.0 > space.len() {
        assert(all[space.len() as int] == text[0]);
    }
    if cut.1 < all.len() {
        assert(all[all.len() - 1] == text[text.len() - 1]);
    }
    assert(all.subrange(space.len() as int, all.len() as int) =~= text);
}

/// A colour that is written with another number is found again with that number,
/// and with the same colour.
pub proof fn written_colours_are_found_again(
    whole: Seq<char>,
    color: Seq<char>,
    before: Seq<char>,
    value: Vec<char>,
    edge: bool,
)
    requires
        !color.contains(')'),
        !value@.contains(')'),
        !value@.contains(','),
        value@.len() > 0,
        !is_space(value@.first()),
        !is_space(value@.last()),
    ensures
        ({
            let piece = PieceView::Alpha { whole, color, value: before, edge };
            let line = written(piece, Scaled::Alpha(value));
            &&& alpha_pieces(line, 0, edge).len() >= 2
            &&& alpha_pieces(line, 0, edge)[1] == (PieceView::Alpha {
                whole: line,
                color,
                value: value@,
                edge,
            })
        }),
{
    reveal_strlit("alpha(");
    reveal_strlit(", ");
    reveal_strlit(")");
    let line = "alpha("@ + color + ", "@ + value@ + ")"@;
    let comma = 6 + color.len() as int;
    let end = comma + 2 + value@.len();
    assert(line.subrange(0, 6) =~= "alpha("@);
    assert(line[comma] == ", "@[0]);
    assert(line[comma + 1] == ", "@[1]);
    assert(line[end] == ")"@[0]);
    assert forall|k: int| 6 <= k < end implies #[trigger] line[k] != ')' by {
        if k < comma {
            assert(line[k] == color[k - 6]);
            assert(color.contains(color[k - 6]));
        } else if k >= comma + 2 {
            assert(line[k] == value@[k - comma - 2]);
            assert(value@.contains(value@[k - comma - 2]));
        }
    }
    assert forall|k: int| comma < k < end implies #[trigger] line[k] != ',' by {
        if k >= comma + 2 {
            assert(line[k] == value@[k - comma - 2]);
            assert(value@.contains(value@[k - comma - 2]));
        }
    }
    colours_with_a_number_are_found(line, 0, 0, comma, end, edge);
    assert(line.subrange(0, end + 1) =~= line);
    assert(line.subrange(6, comma) =~= color);
    let space = seq![' '];
    assert(line.subrange(comma + 1, end) =~= space + value@);
    assert forall|k: int| 0 <= k < space.len() implies is_space(#[trigger] space[k]) by {}
    lemma_trimmed_stays(value@, space);
}

/// Pieces are written one behind the other: another number changes the text of
/// its own piece alone.
pub proof fn pieces_are_written_in_their_place(
    front: Seq<PieceView>,
    front_scaled: Seq<Scaled>,
    back: Seq<PieceView>,
    back_scaled: Seq<Scaled>,
)
    requires
        front.len() == front_scaled.len(),
        back.len() == back_scaled.len(),
    ensures
        all_written(front + back, front_scaled + back_scaled) == all_written(front, front_scaled)
            + all_written(back, back_scaled),
    decreases back.len(),
{
    if back.len() > 0 {
        pieces_are_written_in_their_place(
            front,
            front_scaled,
            back.drop_last(),
            back_scaled.drop_last(),
        );
        assert((front + back).drop_last() =~= front + back.drop_last());
        assert((front_scaled + back_scaled).drop_last() =~= front_scaled
            + back_scaled.drop_last());
        assert((front + back).last() == back.last());
        assert((front_scaled + back_scaled).last() == back_scaled.last());
        assert(all_written(front + back, front_scaled + back_scaled) =~= all_written(
            front,
            front_scaled,
        ) + all_written(back, back_scaled));
    } else {
        assert(front + back =~= front);
        assert(front_scaled + back_scaled =~= front_scaled);
        assert(all_written(front, front_scaled) + all_written(back, back_scaled) =~= all_written(
            front,
            front_scaled,
        ));
    }
}

/// A number of zeros in a row.
pub open spec fn zeros(count: nat) -> Seq<char> {
    Seq::new(count, |i: int| '0')
}

proof fn lemma_without_zeros(text: Seq<char>, count: nat)
    requires
        text.len() > 0,
        text.last() != '0',
    ensures
        without_zeros(text + zeros(count)) == text,
    decreases count,
{
    let all = text + zeros(count);
    if count == 0 {
        assert(all =~= text);
    } else {
        assert(all.drop_last() =~= text + zeros((count - 1) as nat));
        lemma_without_zeros(text, (count - 1) as nat);
    }
}

/// A number keeps its value when it is shortened: of a fraction only the zeros at
/// the end go, of a whole number with a point all of them and the point, or all
/// but one. A number without a point is kept as it is.
pub proof fn shortened_numbers_keep_their_value(
    whole: Seq<char>,
    fraction: Seq<char>,
    count: nat,
    keep_zero: bool,
)
    requires
        !whole.contains('.'),
        !fraction.contains('.'),
        fraction.len() > 0 ==> fraction.last() != '0',
    ensures
        shortened(whole, keep_zero) == whole,
        fraction.len() > 0 ==> shortened(whole.push('.') + fraction + zeros(count), keep_zero)
            == whole.push('.') + fraction,
        shortened(whole.push('.') + zeros(count), keep_zero) == if keep_zero {
            whole.push('.').push('0')
        } else {
            whole
        },
{
    if whole.len() > 0 {
        assert(whole.contains(whole.last()));
    }
    let point = whole.push('.');
    if fraction.len() > 0 {
        let number = point + fraction + zeros(count);
        assert(number[whole.len() as int] == '.');
        assert((point + fraction).last() == fraction.last());
        assert(fraction.contains(fraction.last()));
        lemma_without_zeros(point + fraction, count);
    }
    let number = point + zeros(count);
    assert(number[whole.len() as int] == '.');
    lemma_without_zeros(point, count);
    assert(point.drop_last() =~= whole);
}

/// What stands between two words is read from the first place of the one up to the
/// next place of the other.
pub proof fn numbers_are_read_between_their_words(
    line: Seq<char>,
    before: Seq<char>,
    after: Seq<char>,
    at: int,
    end: int,
)
    requires
        0 <= at,
        stands_at(line, before, at),
        forall|k: int| 0 <= k < at ==> !#[trigger] stands_at(line, before, k),
        at + before.len() <= end,
        stands_at(line, after, end),
        forall|k: int| at + before.len() <= k < end ==> !#[trigger] stands_at(line, after, k),
    ensures
        between(line, before, after) == Some(line.subrange(at + before.len(), end)),
{
    lemma_find_is(line, before, 0, at);
    lemma_find_is(line, after, at + before.len(), end);
}

/// A filter is read number by number, each by its own name, and a line that blurs
/// nothing is kept as it is.
pub proof fn filters_are_read_by_name(line: Seq<char>)
    ensures
        between(line, "blur("@, "px)"@) is None ==> filter_piece(line) == PieceView::Text(line),
        between(line, "blur("@, "px)"@) matches Some(blur) ==> (filter_piece(line) matches
            PieceView::Filter { whole, indent, blur: read, saturate, brightness } && whole == line
            && read == blur && saturate == between(line, "saturate("@, ")"@) && brightness
            == between(line, "brightness("@, ")"@) && indent.is_prefix_of(line) && (forall|k: int|
            0 <= k < indent.len() ==> is_space(#[trigger] indent[k]))),
{
    lemma_skip_space(line, 0);
    let indent = line.subrange(0, skip_space(line, 0));
    assert forall|k: int| 0 <= k < indent.len() implies is_space(#[trigger] indent[k]) by {
        assert(indent[k] == line[k]);
    }
}

/// White space in front of a line does not change what its numbers are for.
pub proof fn indents_do_not_matter(space: Seq<char>, line: Seq<char>, in_shadow: bool)
    requires
        line.len() > 0,
        !is_space(line[0]),
        forall|k: int| 0 <= k < space.len() ==> is_space(#[trigger] space[k]),
    ensures
        kind_of(space + line, in_shadow) == kind_of(line, in_shadow),
{
    lemma_begins_behind_space(space, line, "background:"@);
    lemma_begins_behind_space(space, line, "background-color:"@);
    lemma_begins_behind_space(space, line, "border:"@);
    lemma_begins_behind_space(space, line, "border-"@);
    lemma_begins_behind_space(space, line, "box-shadow:"@);
    lemma_begins_behind_space(space, line, "backdrop-filter:"@);
}

proof fn lemma_begins_behind_space(space: Seq<char>, line: Seq<char>, word: Seq<char>)
    requires
        line.len() > 0,
        !is_space(line[0]),
        forall|k: int| 0 <= k < space.len() ==> is_space(#[trigger] space[k]),
    ensures
        begins(space + line, word) == begins(line, word),
        begins(line, word) == stands_at(line, word, 0),
{
    let all = space + line;
    let n = space.len() as int;
    lemma_skip_space(all, 0);
    lemma_skip_space(line, 0);
    let at = skip_space(all, 0);
    assert(all[n] == line[0]);
    if at < n {
        assert(all[at] == space[at]);
    }
    assert(at == n);
    if n + word.len() <= all.len() {
        assert(all.subrange(n, n + word.len()) =~= line.subrange(0, word.len() as int));
    }
}

/// Shadows go over several lines, up to the one that ends with a semicolon, and
/// what they hold belongs to an edge.
pub proof fn shadows_end_with_a_semicolon(line: Seq<char>, in_shadow: bool)
    requires
        line.len() > 0,
    ensures
        line.last() == ';' ==> !shadow_goes_on(line, in_shadow),
        line.last() != ';' && in_shadow ==> shadow_goes_on(line, in_shadow),
        line.last() != ';' && stands_at(line, "box-shadow:"@, 0) ==> shadow_goes_on(
            line,
            in_shadow,
        ),
        !in_shadow && !begins(line, "box-shadow:"@) ==> !shadow_goes_on(line, in_shadow),
        in_shadow && !begins(line, "background:"@) && !begins(line, "background-color:"@)
            ==> kind_of(line, in_shadow) == LineKind::Edge,
{
    reveal_strlit("box-shadow:");
    if stands_at(line, "box-shadow:"@, 0) {
        assert(line.subrange(0, 11)[0] == "box-shadow:"@[0]);
        assert(!is_space(line[0]));
        lemma_skip_space(line, 0);
        assert(skip_space(line, 0) == 0);
    }
}

} // verus!

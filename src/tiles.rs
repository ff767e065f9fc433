//! The tile block: `[Tiles]`, then one tile per line:
//! `tag hex_x hex_y [offset_x offset_y] [layer] sprite`, where the tag is
//! `tile` or `roof`, with the suffix `_o` (offset), `_l` (layer) or `_ol` (both).
use vstd::prelude::*;
use crate::lexer::{Span, CharClass, run_end, is_ws, int_of, skip_ws, skip_spaces, scan_word, span_is, parse_int};
use crate::header::{tag_at, tag_spec};
use crate::diag::{Block, Expected, ParseError, error_within};

verus! {

/// A pixel offset from a hex's anchor point.
#[derive(Clone, Copy, Debug, PartialEq, Eq, Structural)]
pub struct PixelOffset {
    pub x: i32,
    pub y: i32,
}

/// One tile: a sprite drawn at a hex, on the floor or on the roof.
#[derive(Clone, Copy, Debug, PartialEq, Eq, Structural)]
pub struct Tile {
    pub is_roof: bool,
    pub hex_x: i32,
    pub hex_y: i32,
    /// Pixel offset, present only for the `_o` and `_ol` tags.
    pub offset: Option<PixelOffset>,
    /// Layer, present only for the `_l` and `_ol` tags.
    pub layer: Option<i32>,
    pub sprite: Span,
    /// The tile's line, from its tag to its sprite.
    pub span: Span,
}

/// What a tag says: (on the roof, has an offset, has a layer).
pub open spec fn tile_tag(s: Seq<char>) -> Option<(bool, bool, bool)> {
    if s == "tile"@ { Some((false, false, false)) }
    else if s == "roof"@ { Some((true, false, false)) }
    else if s == "tile_o"@ { Some((false, true, false)) }
    else if s == "roof_o"@ { Some((true, true, false)) }
    else if s == "tile_l"@ { Some((false, false, true)) }
    else if s == "roof_l"@ { Some((true, false, true)) }
    else if s == "tile_ol"@ { Some((false, true, true)) }
    else if s == "roof_ol"@ { Some((true, true, true)) }
    else { None }
}

pub fn tag_of(t: &Vec<char>, sp: Span) -> (r: Option<(bool, bool, bool)>)
    requires
        sp.within(t@.len()),
    ensures
        r == tile_tag(sp.text(t@)),
{
    if span_is(t, sp, "tile") { Some((false, false, false)) }
    else if span_is(t, sp, "roof") { Some((true, false, false)) }
    else if span_is(t, sp, "tile_o") { Some((false, true, false)) }
    else if span_is(t, sp, "roof_o") { Some((true, true, false)) }
    else if span_is(t, sp, "tile_l") { Some((false, false, true)) }
    else if span_is(t, sp, "roof_l") { Some((true, false, true)) }
    else if span_is(t, sp, "tile_ol") { Some((false, true, true)) }
    else if span_is(t, sp, "roof_ol") { Some((true, true, true)) }
    else { None }
}

/// The number of words a line with this tag has.
pub open spec fn word_count(o: bool, l: bool) -> int {
    4 + (if o { 2int } else { 0int }) + (if l { 1int } else { 0int })
}

/// The tile that a line of these words gives, if they form one.
pub open spec fn tile_from(ts: Seq<char>, ws: Seq<Span>, line: Span) -> Option<Tile> {
    match tile_tag(ws[0].text(ts)) {
        None => None,
        Some((roof, o, l)) => {
            if ws.len() != word_count(o, l) {
                None
            } else {
                let x = int_of(ws[1].text(ts));
                let y = int_of(ws[2].text(ts));
                let ox = int_of(ws[3].text(ts));
                let oy = int_of(ws[4].text(ts));
                let layer = int_of(ws[if o { 5int } else { 3int }].text(ts));
                if x is None || y is None || (o && (ox is None || oy is None)) || (l && layer is None) {
                    None
                } else {
                    Some(Tile {
                        is_roof: roof,
                        hex_x: x->0,
                        hex_y: y->0,
                        offset: if o { Some(PixelOffset { x: ox->0, y: oy->0 }) } else { None },
                        layer: if l { Some(layer->0) } else { None },
                        sprite: ws[ws.len() - 1],
                        span: line,
                    })
                }
            }
        },
    }
}

/// The words lie on the line `line`, in order, each non-empty and without blanks.
pub open spec fn words_in(ts: Seq<char>, ws: Seq<Span>, line: Span) -> bool {
    &&& ws.len() > 0
    &&& ws[0].start == line.start
    &&& ws[ws.len() - 1].end == line.end
    &&& forall|i: int| 0 <= i < ws.len() ==> {
        &&& (#[trigger] ws[i]).start < ws[i].end
        &&& line.start <= ws[i].start && ws[i].end <= line.end
        &&& forall|k: int| ws[i].start <= k < ws[i].end ==> !is_ws(#[trigger] ts[k])
    }
    &&& forall|i: int, j: int| 0 <= i < j < ws.len() ==> (#[trigger] ws[i]).end < (#[trigger] ws[j]).start
    &&& line.end <= ts.len()
}

/// The words that follow a word ending at `q` on the same line, after those
/// in `ws`, and where the last of them ends.
pub open spec fn more_words(ts: Seq<char>, q: int, ws: Seq<Span>) -> (Seq<Span>, usize)
    decreases ts.len() - q,
{
    let s = run_end(ts, q, CharClass::Space);
    let e = run_end(ts, s, CharClass::Word);
    if s >= ts.len() || s == q || ts[s] == '\n' || ts[s] == '\r' || !(q < e && e <= ts.len()) {
        (ws, q as usize)
    } else {
        more_words(ts, e, ws.push(Span { start: s as usize, end: e as usize }))
    }
}

/// The words of the line that starts at `p`, and where the last one ends.
pub open spec fn words_spec(ts: Seq<char>, p: int) -> (Seq<Span>, usize) {
    let e = run_end(ts, p, CharClass::Word);
    more_words(ts, e, seq![Span { start: p as usize, end: e as usize }])
}

/// The words of the line that starts at `p`, and the line's end (trailing blanks excluded).
pub fn line_words(t: &Vec<char>, p: usize) -> (r: (Vec<Span>, usize))
    requires
        p < t@.len(),
        !is_ws(t@[p as int]),
    ensures
        r.0@ == words_spec(t@, p as int).0,
        r.1 == words_spec(t@, p as int).1,
        words_in(t@, r.0@, Span { start: p, end: r.1 }),
{
    let mut ws: Vec<Span> = Vec::new();
    let mut q = p;
    let e = scan_word(t, q);
    ws.push(Span { start: q, end: e });
    q = e;
    loop
        invariant
            p < e <= t@.len(),
            q <= t@.len(),
            e == run_end(t@, p as int, CharClass::Word),
            words_spec(t@, p as int) == more_words(t@, q as int, ws@),
            ws@.len() > 0,
            ws@[0].start == p,
            ws@[ws@.len() - 1].end == q,
            forall|i: int| 0 <= i < ws@.len() ==> {
                &&& (#[trigger] ws@[i]).start < ws@[i].end
                &&& p <= ws@[i].start && ws@[i].end <= q
                &&& forall|k: int| ws@[i].start <= k < ws@[i].end ==> !is_ws(#[trigger] t@[k])
            },
            forall|i: int, j: int| 0 <= i < j < ws@.len() ==> (#[trigger] ws@[i]).end < (#[trigger] ws@[j]).start,
        decreases t@.len() - q,
    {
        let s = skip_spaces(t, q);
        if s == t.len() || s == q || is_line_break(t[s]) {
            return (ws, q);
        }
        let e2 = scan_word(t, s);
        ws.push(Span { start: s, end: e2 });
        q = e2;
    }
}

fn is_line_break(c: char) -> (r: bool)
    ensures
        r == (c == '\n' || c == '\r'),
{
    c == '\n' || c == '\r'
}

/// What the line at `p` gives: no tile where it does not start with a tile
/// tag, a failure where it does but is no tile.
pub open spec fn tile_line_spec(ts: Seq<char>, p: int) -> Result<Option<Tile>, ParseError> {
    let (ws, q) = words_spec(ts, p);
    let line = Span { start: p as usize, end: q };
    if tile_tag(ws[0].text(ts)) is None {
        Ok(None)
    } else {
        match tile_from(ts, ws, line) {
            Some(tile) => Ok(Some(tile)),
            None => Err(ParseError { pos: p as usize, expected: Expected::TileLine(line) }),
        }
    }
}

/// The tiles read from `q` on, after those in `acc`, and where reading stops;
/// or the first malformed tile line's failure.
pub open spec fn tiles_spec(ts: Seq<char>, q: int, acc: Seq<Tile>) -> Result<(Seq<Tile>, usize), ParseError>
    decreases ts.len() - q,
{
    let s = run_end(ts, q, CharClass::Ws);
    if s >= ts.len() {
        Ok((acc, q as usize))
    } else {
        match tile_line_spec(ts, s) {
            Err(e) => Err(e),
            Ok(None) => Ok((acc, q as usize)),
            Ok(Some(tile)) => if q < tile.span.end <= ts.len() {
                tiles_spec(ts, tile.span.end as int, acc.push(tile))
            } else {
                Ok((acc, q as usize))
            },
        }
    }
}

/// Parses the tile line at `p`: `Ok(None)` where the line does not start with
/// a tile tag, an error where it does but is not a tile.
pub fn tile_line(t: &Vec<char>, p: usize) -> (r: Result<Option<Tile>, ParseError>)
    requires
        p < t@.len(),
        !is_ws(t@[p as int]),
    ensures
        r == tile_line_spec(t@, p as int),
        r matches Ok(Some(tile)) ==> tile.span.start == p && tile.span.start < tile.span.end <= t@.len() && exists|ws: Seq<Span>|
            words_in(t@, ws, tile.span) && #[trigger] tile_from(t@, ws, tile.span) == Some(tile),
        r matches Err(e) ==> error_within(e, t@.len()),
{
    let (ws, q) = line_words(t, p);
    let line = Span { start: p, end: q };
    let (roof, o, l) = match tag_of(t, ws[0]) {
        Some(x) => x,
        None => {
            return Ok(None);
        },
    };
    let n: usize = 4 + (if o { 2usize } else { 0usize }) + (if l { 1usize } else { 0usize });
    let bad = ParseError { pos: p, expected: Expected::TileLine(line) };
    if ws.len() != n {
        return Err(bad);
    }
    let ghost g = ws@;
    assert(g[1].within(t@.len()) && g[2].within(t@.len()) && g[3].within(t@.len()));
    let x = parse_int(t, ws[1]);
    let y = parse_int(t, ws[2]);
    let ox = parse_int(t, ws[3]);
    let oy = if n > 4 { parse_int(t, ws[4]) } else { None };
    let li: usize = if o { 5 } else { 3 };
    let layer = parse_int(t, ws[li]);
    match (x, y) {
        (Some(hx), Some(hy)) => {
            let offset = if o {
                match (ox, oy) {
                    (Some(a), Some(b)) => Some(PixelOffset { x: a, y: b }),
                    _ => {
                        return Err(bad);
                    },
                }
            } else {
                None
            };
            let lay = if l {
                match layer {
                    Some(v) => Some(v),
                    None => {
                        return Err(bad);
                    },
                }
            } else {
                None
            };
            let tile = Tile { is_roof: roof, hex_x: hx, hex_y: hy, offset, layer: lay, sprite: ws[n - 1], span: line };
            assert(tile_from(t@, g, line) == Some(tile));
            Ok(Some(tile))
        },
        _ => Err(bad),
    }
}

/// The tiles lie in the text in sequence order, each inside `[lo, hi)`.
pub open spec fn tiles_ordered(ts: Seq<char>, tiles: Seq<Tile>, lo: int, hi: int) -> bool {
    &&& forall|i: int| 0 <= i < tiles.len() ==> lo <= (#[trigger] tiles[i]).span.start < tiles[i].span.end <= hi
    &&& forall|i: int, j: int| 0 <= i < j < tiles.len() ==> (#[trigger] tiles[i]).span.end <= (#[trigger] tiles[j]).span.start
}

/// Each tile is what its line's words give.
pub open spec fn tiles_read(ts: Seq<char>, tiles: Seq<Tile>) -> bool {
    forall|i: int| 0 <= i < tiles.len() ==> exists|ws: Seq<Span>|
        words_in(ts, ws, (#[trigger] tiles[i]).span) && #[trigger] tile_from(ts, ws, tiles[i].span) == Some(tiles[i])
}

/// Parses the tile block that starts at `p`: `[Tiles]`, then tile lines for as
/// long as lines start with a tile tag. One malformed tile line fails the block.
pub fn tiles(t: &Vec<char>, p: usize) -> (r: Result<(Vec<Tile>, usize), ParseError>)
    requires
        p <= t@.len(),
    ensures
        r matches Ok((v, q)) ==> tiles_spec(t@, p + 7, seq![]) == Ok::<(Seq<Tile>, usize), ParseError>((v@, q)),
        r matches Err(e) ==> !tag_spec(t@, p as int, "[Tiles]"@) || tiles_spec(t@, p + 7, seq![]) == Err::<(Seq<Tile>, usize), ParseError>(e),
        r matches Ok((v, q)) ==> {
            &&& p + 7 <= q <= t@.len()
            &&& t@.subrange(p as int, p + 7) == "[Tiles]"@
            &&& tiles_ordered(t@, v@, p + 7, q as int)
            &&& tiles_read(t@, v@)
        },
        !(p + 7 <= t@.len() && t@.subrange(p as int, p + 7) == "[Tiles]"@) ==> r == Err::<(Vec<Tile>, usize), ParseError>(
            ParseError { pos: p, expected: Expected::Section(Block::Tiles) },
        ),
        r matches Err(e) ==> error_within(e, t@.len()),
{
    proof {
        reveal_strlit("[Tiles]");
    }
    let b = match tag_at(t, p, "[Tiles]") {
        Some(b) => b,
        None => {
            return Err(ParseError { pos: p, expected: Expected::Section(Block::Tiles) });
        },
    };
    let mut v: Vec<Tile> = Vec::new();
    let mut q = b;
    loop
        invariant
            p + 7 == b <= q <= t@.len(),
            t@.subrange(p as int, p + 7) == "[Tiles]"@,
            tiles_spec(t@, p + 7, seq![]) == tiles_spec(t@, q as int, v@),
            tiles_ordered(t@, v@, b as int, q as int),
            tiles_read(t@, v@),
        decreases t@.len() - q,
    {
        let s = skip_ws(t, q);
        if s == t.len() {
            return Ok((v, q));
        }
        match tile_line(t, s)? {
            None => {
                return Ok((v, q));
            },
            Some(tile) => {
                v.push(tile);
                q = tile.span.end;
                assert(v@.last() == tile);
            },
        }
    }
}

} // verus!

//! A parser for the text map format: a header block, a tile block and an
//! object block, read into typed records whose text fields are spans of the input.
//!
//! ```text
//! [Header]
//! MaxHexX 200
//! MaxHexY=200
//!
//! [Tiles]
//! tile 10 20 art/tiles/floor.frm
//! roof_ol 4 4 -1 -2 1 art/tiles/roof.frm
//!
//! [Objects]
//! MapObjType Item
//! ProtoId 2007
//! MapX 10
//! MapY 20
//! ```
//!
//! `map` reads a whole text and rejects text left after the object block
//! unless asked not to; `root` reads the blocks and says where it stopped.
//! Positions and spans count characters, not bytes.
use vstd::prelude::*;

pub mod lexer;
pub mod record;
pub mod diag;
pub mod header;
pub mod tiles;
pub mod objects;
pub mod laws;

pub use crate::lexer::Span;
pub use crate::header::Header;
pub use crate::tiles::{PixelOffset, Tile};
pub use crate::objects::{Anim, Kind, Light, MapObjectType, Object, Relations};
pub use crate::diag::ParseError;

use crate::lexer::{CharClass, is_ws, run_end, skip_ws};
use crate::header::{header, header_entries, header_error, header_fails, header_ok, tag_spec};
use crate::tiles::{tiles, tiles_ordered, tiles_read, tiles_spec};
use crate::objects::{block_records, objects, objects_ordered, objects_read, record_fails, records_error};
use crate::diag::{Block, Expected, describe, error_within, message};

verus! {

/// The tile block: its tiles in text order, and where the block stands.
#[derive(Debug)]
pub struct Tiles(pub Vec<Tile>, pub Span);

/// The object block: its objects in text order, and where the block stands.
#[derive(Debug)]
pub struct Objects(pub Vec<Object>, pub Span);

/// A parsed map. Its text fields are spans of the text it was parsed from.
#[derive(Debug)]
pub struct GameMap {
    pub header: Header,
    pub tiles: Tiles,
    pub objects: Objects,
}

/// How strictly a map is read.
#[derive(Clone, Copy, Debug)]
pub struct MapParserSettings {
    /// Accept objects whose kind is outside the closed set, as `Kind::Unknown`.
    pub allow_any: bool,
    /// Accept text left over after the object block, and ignore it.
    pub allow_tail: bool,
}

impl Default for MapParserSettings {
    fn default() -> (r: Self)
        ensures
            !r.allow_any,
            !r.allow_tail,
    {
        MapParserSettings { allow_any: false, allow_tail: false }
    }
}

/// Why a map could not be read.
#[derive(Debug)]
pub enum Error {
    /// Reading the map's file failed; the message of the failure.
    Io(String),
    /// The file is not UTF-8; the length of its longest valid prefix, in bytes.
    Utf8(usize),
    /// The text does not follow the grammar; a message with the position.
    Grammar(String),
    /// All three blocks were read but text is left; its first characters.
    Leftover(String),
}

/// The number of characters of left-over text an error quotes at most.
pub const LEFTOVER_EXCERPT: usize = 120;

/// The characters a leftover error quotes: at most `LEFTOVER_EXCERPT` from `q` on.
pub open spec fn excerpt(ts: Seq<char>, q: int) -> Seq<char> {
    ts.subrange(q, if q + LEFTOVER_EXCERPT < ts.len() { q + LEFTOVER_EXCERPT } else { ts.len() as int })
}

impl Error {
    /// The error for text left over from position `q` on.
    pub fn leftover(text: &str, q: usize) -> (r: Error)
        requires
            q <= text@.len(),
        ensures
            r matches Error::Leftover(s) && s@ == excerpt(text@, q as int),
    {
        let n = text.unicode_len();
        let e = if n - q > LEFTOVER_EXCERPT { q + LEFTOVER_EXCERPT } else { n };
        Error::Leftover(String::from_str(text.substring_char(q, e)))
    }
}

/// Relies on `str::chars`, collected into a vector: the text's characters, in order.
#[verifier::external_body]
fn chars_of(s: &str) -> (r: Vec<char>)
    ensures
        r@ == s@,
{
    s.chars().collect()
}

/// The characters in `[a, b)` are all whitespace.
pub open spec fn all_ws(ts: Seq<char>, a: int, b: int) -> bool {
    forall|i: int| a <= i < b ==> is_ws(#[trigger] ts[i])
}

/// The three blocks cover the text from its start up to `q`, in order,
/// separated only by whitespace, and whitespace follows the last up to `q`.
pub open spec fn layout(ts: Seq<char>, m: GameMap, q: int) -> bool {
    let h = m.header.span;
    let tl = m.tiles.1;
    let ob = m.objects.1;
    &&& h.start == 0
    &&& h.end <= tl.start <= tl.end <= ob.start <= ob.end <= q <= ts.len()
    &&& all_ws(ts, h.end as int, tl.start as int)
    &&& all_ws(ts, tl.end as int, ob.start as int)
    &&& all_ws(ts, ob.end as int, q)
    &&& q == ts.len() || !is_ws(ts[q])
}

/// Each block is well formed and its records are those its text gives.
pub open spec fn map_ok(ts: Seq<char>, m: GameMap, allow_any: bool) -> bool {
    &&& header_ok(ts, m.header)
    &&& ts.subrange(m.tiles.1.start as int, m.tiles.1.start + 7) == "[Tiles]"@
    &&& tiles_ordered(ts, m.tiles.0@, m.tiles.1.start + 7, m.tiles.1.end as int)
    &&& tiles_read(ts, m.tiles.0@)
    &&& ts.subrange(m.objects.1.start as int, m.objects.1.start + 9) == "[Objects]"@
    &&& objects_ordered(m.objects.0@, m.objects.1.start + 9, m.objects.1.end as int)
    &&& objects_read(ts, m.objects.0@, allow_any)
}

/// Where the tile block starts: after the header and the whitespace that follows it.
pub open spec fn tiles_start(ts: Seq<char>) -> int {
    run_end(ts, header_entries(ts, 0).1 as int, CharClass::Ws)
}

/// Where the object block starts: after the tiles and the whitespace that follows them.
pub open spec fn objects_start(ts: Seq<char>) -> int {
    run_end(ts, tiles_spec(ts, tiles_start(ts) + 7, seq![])->Ok_0.1 as int, CharClass::Ws)
}

/// Where reading stops: after the objects and the whitespace that follows them.
pub open spec fn read_end(ts: Seq<char>) -> int {
    run_end(ts, block_records(ts, objects_start(ts)).1 as int, CharClass::Ws)
}

/// The three blocks can be read from the start of the text: each opens with
/// its tag, the header has its dimensions and integer fields, every tile line
/// is a tile, and every object record is one (of a known kind unless `allow_any`).
pub open spec fn blocks_read(ts: Seq<char>, allow_any: bool) -> bool {
    &&& tag_spec(ts, 0, "[Header]"@)
    &&& !header_fails(ts, header_entries(ts, 0).0)
    &&& tag_spec(ts, tiles_start(ts), "[Tiles]"@)
    &&& tiles_spec(ts, tiles_start(ts) + 7, seq![]) is Ok
    &&& tag_spec(ts, objects_start(ts), "[Objects]"@)
    &&& forall|i: int| 0 <= i < block_records(ts, objects_start(ts)).0.len()
        ==> !record_fails(ts, #[trigger] block_records(ts, objects_start(ts)).0[i].0, allow_any)
}

/// The map's records are those the text's blocks give.
pub open spec fn records_of(ts: Seq<char>, m: GameMap) -> bool {
    let recs = block_records(ts, objects_start(ts)).0;
    &&& m.header.entries@ == header_entries(ts, 0).0
    &&& m.header.span == Span { start: 0, end: header_entries(ts, 0).1 }
    &&& m.tiles.0@ == tiles_spec(ts, tiles_start(ts) + 7, seq![])->Ok_0.0
    &&& m.tiles.1 == Span { start: tiles_start(ts) as usize, end: tiles_spec(ts, tiles_start(ts) + 7, seq![])->Ok_0.1 }
    &&& m.objects.1 == Span { start: objects_start(ts) as usize, end: block_records(ts, objects_start(ts)).1 }
    &&& m.objects.0@.len() == recs.len()
    &&& forall|i: int| 0 <= i < recs.len() ==> (#[trigger] m.objects.0@[i]).entries@ == recs[i].0
        && m.objects.0@[i].span.end == recs[i].1
}

/// The failure that a text whose blocks cannot be read gives: the first
/// block, in text order, that is not read, and what fails in it first.
pub open spec fn parse_error(ts: Seq<char>, allow_any: bool) -> ParseError {
    if !tag_spec(ts, 0, "[Header]"@) {
        ParseError { pos: 0, expected: Expected::Section(Block::Header) }
    } else if header_fails(ts, header_entries(ts, 0).0) {
        header_error(ts, header_entries(ts, 0).0, 0)
    } else if !tag_spec(ts, tiles_start(ts), "[Tiles]"@) {
        ParseError { pos: tiles_start(ts) as usize, expected: Expected::Section(Block::Tiles) }
    } else if tiles_spec(ts, tiles_start(ts) + 7, seq![]) is Err {
        tiles_spec(ts, tiles_start(ts) + 7, seq![])->Err_0
    } else if !tag_spec(ts, objects_start(ts), "[Objects]"@) {
        ParseError { pos: objects_start(ts) as usize, expected: Expected::Section(Block::Objects) }
    } else {
        records_error(ts, block_records(ts, objects_start(ts)).0, 0, allow_any)
    }
}

/// Reads the header, tile and object blocks in turn, with whitespace between
/// them and after them, and returns the map and the position where reading
/// stopped: the text from there on is left over.
pub fn root(t: &Vec<char>, settings: &MapParserSettings) -> (r: Result<(usize, GameMap), ParseError>)
    ensures
        r is Ok <==> blocks_read(t@, settings.allow_any),
        r matches Ok((q, m)) ==> q == read_end(t@) && records_of(t@, m),
        r matches Err(e) ==> e == parse_error(t@, settings.allow_any),
        r matches Ok((q, m)) ==> layout(t@, m, q as int) && map_ok(t@, m, settings.allow_any),
        r matches Err(e) ==> error_within(e, t@.len()),
{
    let (h, header_end) = header(t, 0)?;
    let s1 = skip_ws(t, header_end);
    let (tv, tiles_end) = tiles(t, s1)?;
    let s2 = skip_ws(t, tiles_end);
    let (ov, objects_end) = objects(t, s2, settings.allow_any)?;
    let s3 = skip_ws(t, objects_end);
    let m = GameMap {
        header: h,
        tiles: Tiles(tv, Span { start: s1, end: tiles_end }),
        objects: Objects(ov, Span { start: s2, end: objects_end }),
    };
    Ok((s3, m))
}

/// Parses a whole map. Fails with `Error::Grammar` where a block does not
/// follow the grammar, and with `Error::Leftover` where text other than
/// whitespace follows the object block and `allow_tail` is off.
pub fn map(text: &str, settings: MapParserSettings) -> (r: Result<GameMap, Error>)
    ensures
        r is Ok <==> blocks_read(text@, settings.allow_any) && (settings.allow_tail || read_end(text@) == text@.len()),
        r matches Err(Error::Grammar(_)) <==> !blocks_read(text@, settings.allow_any),
        r matches Err(Error::Leftover(_)) <==> blocks_read(text@, settings.allow_any) && !settings.allow_tail
            && read_end(text@) < text@.len(),
        r matches Ok(m) ==> map_ok(text@, m, settings.allow_any) && records_of(text@, m)
            && layout(text@, m, read_end(text@)),
        r matches Err(Error::Grammar(s)) ==> s@ == message(text@, parse_error(text@, settings.allow_any)),
        r matches Err(Error::Leftover(s)) ==> s@ == excerpt(text@, read_end(text@)),
        !(r matches Err(Error::Io(_))),
        !(r matches Err(Error::Utf8(_))),
{
    let t = chars_of(text);
    match root(&t, &settings) {
        Err(e) => Err(Error::Grammar(describe(text, &e))),
        Ok((q, m)) => {
            if q < t.len() && !settings.allow_tail {
                assert(layout(text@, m, q as int));
                Err(Error::leftover(text, q))
            } else {
                assert(layout(text@, m, q as int));
                Ok(m)
            }
        },
    }
}

/// Anything placed at a hex of the map.
pub trait Offset {
    spec fn position(&self) -> (i32, i32);

    /// The hex the entity stands at.
    fn offset(&self) -> (r: (i32, i32))
        ensures
            r == self.position(),
    ;
}

impl Offset for Tile {
    open spec fn position(&self) -> (i32, i32) {
        (self.hex_x, self.hex_y)
    }

    fn offset(&self) -> (r: (i32, i32)) {
        (self.hex_x, self.hex_y)
    }
}

impl Offset for Object {
    open spec fn position(&self) -> (i32, i32) {
        (self.map_x, self.map_y)
    }

    fn offset(&self) -> (r: (i32, i32)) {
        (self.map_x, self.map_y)
    }
}

} // verus!

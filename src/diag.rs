//! Parse failures: a position and what was expected there, and the
//! one-line message each one is reported with.
use vstd::prelude::*;
use crate::lexer::Span;

verus! {

/// The three blocks of a map, in the order they appear.
#[derive(Clone, Copy, Debug, PartialEq, Eq, Structural)]
pub enum Block {
    Header,
    Tiles,
    Objects,
}

/// A mandatory field.
#[derive(Clone, Copy, Debug, PartialEq, Eq, Structural)]
pub enum Field {
    MaxHexX,
    MaxHexY,
    ProtoId,
    MapX,
    MapY,
}

/// What the parser expected where it failed.
#[derive(Clone, Copy, Debug, PartialEq, Eq, Structural)]
pub enum Expected {
    /// The line that opens a block.
    Section(Block),
    /// A mandatory field that the record lacks.
    Missing(Field),
    /// An integer, where this span holds something else.
    Integer(Span),
    /// A well-formed tile line, where this line is not one.
    TileLine(Span),
    /// An object kind, where this discriminator names none of them.
    Kind(Span),
}

/// A parse failure at character position `pos`.
#[derive(Clone, Copy, Debug, PartialEq, Eq, Structural)]
pub struct ParseError {
    pub pos: usize,
    pub expected: Expected,
}

/// The spans a failure refers to lie inside a text of `len` characters.
pub open spec fn error_within(e: ParseError, len: nat) -> bool {
    match e.expected {
        Expected::Integer(sp) => sp.within(len),
        Expected::TileLine(sp) => sp.within(len),
        Expected::Kind(sp) => sp.within(len),
        _ => true,
    }
}

pub open spec fn digit_char(d: nat) -> char {
    if d == 0 { '0' } else if d == 1 { '1' } else if d == 2 { '2' } else if d == 3 { '3' }
    else if d == 4 { '4' } else if d == 5 { '5' } else if d == 6 { '6' } else if d == 7 { '7' }
    else if d == 8 { '8' } else { '9' }
}

/// The decimal digits of `n`.
pub open spec fn decimal(n: nat) -> Seq<char>
    decreases n,
{
    if n < 10 {
        seq![digit_char(n)]
    } else {
        decimal(n / 10) + seq![digit_char(n % 10)]
    }
}

fn digit_str(d: usize) -> (r: &'static str)
    requires
        d < 10,
    ensures
        r@ == seq![digit_char(d as nat)],
{
    proof {
        reveal_strlit("0");
        reveal_strlit("1");
        reveal_strlit("2");
        reveal_strlit("3");
        reveal_strlit("4");
        reveal_strlit("5");
        reveal_strlit("6");
        reveal_strlit("7");
        reveal_strlit("8");
        reveal_strlit("9");
    }
    let r = if d == 0 { "0" } else if d == 1 { "1" } else if d == 2 { "2" } else if d == 3 { "3" }
    else if d == 4 { "4" } else if d == 5 { "5" } else if d == 6 { "6" } else if d == 7 { "7" }
    else if d == 8 { "8" } else { "9" };
    assert(r@ =~= seq![digit_char(d as nat)]);
    r
}

/// Appends the decimal digits of `n`.
pub fn push_decimal(s: &mut String, n: usize)
    ensures
        final(s)@ == old(s)@ + decimal(n as nat),
    decreases n,
{
    if n < 10 {
        s.append(digit_str(n));
    } else {
        push_decimal(s, n / 10);
        s.append(digit_str(n % 10));
        assert(final(s)@ =~= old(s)@ + decimal(n as nat));
    }
}

pub open spec fn block_tag(b: Block) -> Seq<char> {
    match b {
        Block::Header => "[Header]"@,
        Block::Tiles => "[Tiles]"@,
        Block::Objects => "[Objects]"@,
    }
}

pub fn block_tag_str(b: Block) -> (r: &'static str)
    ensures
        r@ == block_tag(b),
{
    match b {
        Block::Header => "[Header]",
        Block::Tiles => "[Tiles]",
        Block::Objects => "[Objects]",
    }
}

pub open spec fn field_name(f: Field) -> Seq<char> {
    match f {
        Field::MaxHexX => "MaxHexX"@,
        Field::MaxHexY => "MaxHexY"@,
        Field::ProtoId => "ProtoId"@,
        Field::MapX => "MapX"@,
        Field::MapY => "MapY"@,
    }
}

pub fn field_name_str(f: Field) -> (r: &'static str)
    ensures
        r@ == field_name(f),
{
    match f {
        Field::MaxHexX => "MaxHexX",
        Field::MaxHexY => "MaxHexY",
        Field::ProtoId => "ProtoId",
        Field::MapX => "MapX",
        Field::MapY => "MapY",
    }
}

/// The message a failure is reported with; it quotes the text it refers to.
pub open spec fn message(ts: Seq<char>, e: ParseError) -> Seq<char> {
    let at = " at position "@ + decimal(e.pos as nat);
    match e.expected {
        Expected::Section(b) => "expected "@ + block_tag(b) + at,
        Expected::Missing(f) => "missing field "@ + field_name(f) + at,
        Expected::Integer(sp) => "expected an integer"@ + at + ", found \""@ + sp.text(ts) + "\""@,
        Expected::TileLine(sp) => "malformed tile entry"@ + at + ": \""@ + sp.text(ts) + "\""@,
        Expected::Kind(sp) => "unrecognized object kind \""@ + sp.text(ts) + "\""@ + at,
    }
}

/// Formats a failure as its message.
pub fn describe(text: &str, e: &ParseError) -> (r: String)
    requires
        error_within(*e, text@.len()),
    ensures
        r@ == message(text@, *e),
{
    let mut at = String::from_str(" at position ");
    push_decimal(&mut at, e.pos);
    let mut s: String;
    match e.expected {
        Expected::Section(b) => {
            s = String::from_str("expected ");
            s.append(block_tag_str(b));
            s.append(at.as_str());
        },
        Expected::Missing(f) => {
            s = String::from_str("missing field ");
            s.append(field_name_str(f));
            s.append(at.as_str());
        },
        Expected::Integer(sp) => {
            s = String::from_str("expected an integer");
            s.append(at.as_str());
            s.append(", found \"");
            s.append(sp.slice(text));
            s.append("\"");
        },
        Expected::TileLine(sp) => {
            s = String::from_str("malformed tile entry");
            s.append(at.as_str());
            s.append(": \"");
            s.append(sp.slice(text));
            s.append("\"");
        },
        Expected::Kind(sp) => {
            s = String::from_str("unrecognized object kind \"");
            s.append(sp.slice(text));
            s.append("\"");
            s.append(at.as_str());
        },
    }
    proof {
        assert(s@ =~= message(text@, *e));
    }
    s
}

} // verus!

//! The header block: `[Header]`, then one `Key value` entry per line.
use vstd::prelude::*;
use crate::lexer::{Span, span_is};
use crate::record::{Entry, entries_ok, entries_ordered, entry_lines, get_int, get_text, int_field, lines_spec, present, text_field};
use crate::diag::{Block, Expected, Field, ParseError, error_within};

verus! {

/// Map-level metadata. Every field but the map's dimensions is optional and
/// is `None` exactly where its key does not occur.
#[derive(Debug)]
pub struct Header {
    pub version: Option<i32>,
    pub max_hex_x: i32,
    pub max_hex_y: i32,
    pub work_hex_x: Option<i32>,
    pub work_hex_y: Option<i32>,
    pub script_module: Option<Span>,
    pub script_func: Option<Span>,
    pub no_log_out: Option<i32>,
    pub time: Option<i32>,
    /// All entries of the block, in text order, the untyped ones included.
    pub entries: Vec<Entry>,
    /// Where the block stands in the text, from its opening line to its last entry.
    pub span: Span,
}

/// The typed fields of `h` are those its entries give.
pub open spec fn header_fields(ts: Seq<char>, h: Header) -> bool {
    let es = h.entries@;
    &&& int_field(ts, es, "Version"@) == Some(h.version)
    &&& int_field(ts, es, "MaxHexX"@) == Some(Some(h.max_hex_x))
    &&& int_field(ts, es, "MaxHexY"@) == Some(Some(h.max_hex_y))
    &&& int_field(ts, es, "WorkHexX"@) == Some(h.work_hex_x)
    &&& int_field(ts, es, "WorkHexY"@) == Some(h.work_hex_y)
    &&& text_field(ts, es, "ScriptModule"@) == h.script_module
    &&& text_field(ts, es, "ScriptFunc"@) == h.script_func
    &&& int_field(ts, es, "NoLogOut"@) == Some(h.no_log_out)
    &&& int_field(ts, es, "Time"@) == Some(h.time)
}

/// The header's entries lie inside its span, in order.
pub open spec fn header_ok(ts: Seq<char>, h: Header) -> bool {
    &&& h.span.within(ts.len())
    &&& entries_ok(ts, h.entries@)
    &&& entries_ordered(h.entries@)
    &&& forall|i: int| 0 <= i < h.entries@.len() ==> h.span.start < (#[trigger] h.entries@[i]).key.start
        && h.entries@[i].value.end <= h.span.end
    &&& header_fields(ts, h)
}

/// The text holds `tag` at position `p`.
pub open spec fn tag_spec(ts: Seq<char>, p: int, tag: Seq<char>) -> bool {
    p + tag.len() <= ts.len() && ts.subrange(p, p + tag.len()) == tag
}

/// The entries of the header block at `p`, and where the block ends.
pub open spec fn header_entries(ts: Seq<char>, p: int) -> (Seq<Entry>, usize) {
    lines_spec(ts, p + 8, seq![])
}

/// Entries that make no header: a typed field holds no integer, or a
/// dimension is missing.
pub open spec fn header_fails(ts: Seq<char>, es: Seq<Entry>) -> bool {
    ||| int_field(ts, es, "Version"@) is None
    ||| !present(int_field(ts, es, "MaxHexX"@))
    ||| !present(int_field(ts, es, "MaxHexY"@))
    ||| int_field(ts, es, "WorkHexX"@) is None
    ||| int_field(ts, es, "WorkHexY"@) is None
    ||| int_field(ts, es, "NoLogOut"@) is None
    ||| int_field(ts, es, "Time"@) is None
}

/// The failure for the integer field `k`, where its value is no integer.
pub open spec fn bad_int(ts: Seq<char>, es: Seq<Entry>, k: Seq<char>) -> ParseError {
    let sp = text_field(ts, es, k)->0;
    ParseError { pos: sp.start, expected: Expected::Integer(sp) }
}

/// The failure that entries making no header give: the first field, in the
/// order `Version`, `MaxHexX`, `MaxHexY`, `WorkHexX`, `WorkHexY`, `NoLogOut`,
/// `Time`, that is not an integer or, for a dimension, is missing.
pub open spec fn header_error(ts: Seq<char>, es: Seq<Entry>, p: int) -> ParseError {
    if int_field(ts, es, "Version"@) is None {
        bad_int(ts, es, "Version"@)
    } else if int_field(ts, es, "MaxHexX"@) is None {
        bad_int(ts, es, "MaxHexX"@)
    } else if !present(int_field(ts, es, "MaxHexX"@)) {
        ParseError { pos: p as usize, expected: Expected::Missing(Field::MaxHexX) }
    } else if int_field(ts, es, "MaxHexY"@) is None {
        bad_int(ts, es, "MaxHexY"@)
    } else if !present(int_field(ts, es, "MaxHexY"@)) {
        ParseError { pos: p as usize, expected: Expected::Missing(Field::MaxHexY) }
    } else if int_field(ts, es, "WorkHexX"@) is None {
        bad_int(ts, es, "WorkHexX"@)
    } else if int_field(ts, es, "WorkHexY"@) is None {
        bad_int(ts, es, "WorkHexY"@)
    } else if int_field(ts, es, "NoLogOut"@) is None {
        bad_int(ts, es, "NoLogOut"@)
    } else {
        bad_int(ts, es, "Time"@)
    }
}

/// Whether the text holds `tag` at position `p`; the position after it if so.
pub fn tag_at(t: &Vec<char>, p: usize, tag: &str) -> (r: Option<usize>)
    requires
        p <= t@.len(),
    ensures
        r is Some <==> (p + tag@.len() <= t@.len() && t@.subrange(p as int, p + tag@.len()) == tag@),
        r matches Some(q) ==> q == p + tag@.len(),
{
    let n = tag.unicode_len();
    if n > t.len() - p {
        return None;
    }
    if span_is(t, Span { start: p, end: p + n }, tag) {
        Some(p + n)
    } else {
        None
    }
}

fn int_or_fail(t: &Vec<char>, es: &Vec<Entry>, k: &str) -> (r: Result<Option<i32>, ParseError>)
    requires
        entries_ok(t@, es@),
    ensures
        r is Err <==> int_field(t@, es@, k@) is None,
        r matches Ok(v) ==> int_field(t@, es@, k@) == Some(v),
        r matches Err(e) ==> error_within(e, t@.len()) && e == bad_int(t@, es@, k@),
{
    match get_int(t, es, k) {
        Ok(v) => Ok(v),
        Err(sp) => Err(ParseError { pos: sp.start, expected: Expected::Integer(sp) }),
    }
}

/// Parses the header block that starts at `p`. Fails where the block does not
/// open with `[Header]`, where a typed field's value is not an integer, or
/// where a dimension is missing.
pub fn header(t: &Vec<char>, p: usize) -> (r: Result<(Header, usize), ParseError>)
    requires
        p <= t@.len(),
    ensures
        r is Ok <==> tag_spec(t@, p as int, "[Header]"@) && !header_fails(t@, header_entries(t@, p as int).0),
        r matches Ok((h, q)) ==> {
            &&& header_ok(t@, h)
            &&& h.entries@ == header_entries(t@, p as int).0
            &&& q == header_entries(t@, p as int).1
            &&& h.span.start == p
            &&& h.span.end == q
            &&& t@.subrange(p as int, p + 8) == "[Header]"@
        },
        !(p + 8 <= t@.len() && t@.subrange(p as int, p + 8) == "[Header]"@) ==> r == Err::<(Header, usize), ParseError>(
            ParseError { pos: p, expected: Expected::Section(Block::Header) },
        ),
        r matches Err(e) ==> error_within(e, t@.len()),
        r matches Err(e) ==> !tag_spec(t@, p as int, "[Header]"@) || e == header_error(t@, header_entries(t@, p as int).0, p as int),
{
    proof {
        reveal_strlit("[Header]");
    }
    let b = match tag_at(t, p, "[Header]") {
        Some(b) => b,
        None => {
            return Err(ParseError { pos: p, expected: Expected::Section(Block::Header) });
        },
    };
    let (es, q) = entry_lines(t, b);
    let version = int_or_fail(t, &es, "Version")?;
    let max_hex_x = match int_or_fail(t, &es, "MaxHexX")? {
        Some(v) => v,
        None => {
            return Err(ParseError { pos: p, expected: Expected::Missing(Field::MaxHexX) });
        },
    };
    let max_hex_y = match int_or_fail(t, &es, "MaxHexY")? {
        Some(v) => v,
        None => {
            return Err(ParseError { pos: p, expected: Expected::Missing(Field::MaxHexY) });
        },
    };
    let work_hex_x = int_or_fail(t, &es, "WorkHexX")?;
    let work_hex_y = int_or_fail(t, &es, "WorkHexY")?;
    let script_module = get_text(t, &es, "ScriptModule");
    let script_func = get_text(t, &es, "ScriptFunc");
    let no_log_out = int_or_fail(t, &es, "NoLogOut")?;
    let time = int_or_fail(t, &es, "Time")?;
    let h = Header {
        version,
        max_hex_x,
        max_hex_y,
        work_hex_x,
        work_hex_y,
        script_module,
        script_func,
        no_log_out,
        time,
        entries: es,
        span: Span { start: p, end: q },
    };
    Ok((h, q))
}

} // verus!

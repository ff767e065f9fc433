//! Key/value entries (`Key value` or `Key=value`, one per line) and typed
//! lookups of a field among a record's entries.
use vstd::prelude::*;
use crate::lexer::{
    Span, CharClass, run_end, trim_back, is_key_char, is_ws, int_of, skip_ws, skip_spaces, scan_key, line_end, trim_end,
    span_is, parse_int,
};

verus! {

/// One `key value` line: the key's span and the value's span, both non-empty.
#[derive(Clone, Copy, Debug, PartialEq, Eq, Structural)]
pub struct Entry {
    pub key: Span,
    pub value: Span,
}

/// A well-formed entry: a key, then a value after it, inside the text.
pub open spec fn entry_ok(ts: Seq<char>, e: Entry) -> bool {
    &&& e.key.start < e.key.end
    &&& e.key.end < e.value.start
    &&& e.value.start < e.value.end
    &&& e.value.end <= ts.len()
}

pub open spec fn entries_ok(ts: Seq<char>, es: Seq<Entry>) -> bool {
    forall|i: int| 0 <= i < es.len() ==> entry_ok(ts, #[trigger] es[i])
}

/// The entries appear in the text in sequence order, without overlapping.
pub open spec fn entries_ordered(es: Seq<Entry>) -> bool {
    forall|i: int, j: int| 0 <= i < j < es.len() ==> (#[trigger] es[i]).value.end <= (#[trigger] es[j]).key.start
}

/// The entry that starts at `p`, and the end of its line: a key, a separator
/// (spaces or tabs, an optional `=`, spaces or tabs; not empty), and a value
/// running to the end of the line, trailing whitespace excluded, not empty.
pub open spec fn entry_spec(ts: Seq<char>, p: int) -> Option<(Entry, usize)> {
    let ke = run_end(ts, p, CharClass::Key);
    let s1 = run_end(ts, ke, CharClass::Space);
    let v = if s1 < ts.len() && ts[s1] == '=' { run_end(ts, s1 + 1, CharClass::Space) } else { s1 };
    let le = run_end(ts, v, CharClass::InLine);
    let ve = trim_back(ts, v, le);
    if ke == p || v == ke || v == ts.len() || ts[v] == '\n' || ts[v] == '\r' || ve == v {
        None
    } else {
        Some((
            Entry {
                key: Span { start: p as usize, end: ke as usize },
                value: Span { start: v as usize, end: ve as usize },
            },
            le as usize,
        ))
    }
}

/// The entries read from `q` on, after those in `es`, and where reading
/// stops: each entry follows whitespace, and reading stops before the
/// whitespace that precedes the first line that is no entry.
pub open spec fn lines_spec(ts: Seq<char>, q: int, es: Seq<Entry>) -> (Seq<Entry>, usize)
    decreases ts.len() - q,
{
    let s = run_end(ts, q, CharClass::Ws);
    match entry_spec(ts, s) {
        Some((e, n)) => if q < n <= ts.len() {
            lines_spec(ts, n as int, es.push(e))
        } else {
            (es, q as usize)
        },
        None => (es, q as usize),
    }
}

/// Reads one entry starting at `p`: a key, a separator (spaces or tabs, an
/// optional `=`), and a value that runs to the end of the line, trailing
/// blanks excluded. The returned position is the end of that line.
pub fn entry_line(t: &Vec<char>, p: usize) -> (r: Option<(Entry, usize)>)
    requires
        p <= t@.len(),
    ensures
        r == entry_spec(t@, p as int),
        p == t@.len() ==> r is None,
        p < t@.len() && !is_key_char(t@[p as int]) ==> r is None,
        r matches Some((e, q)) ==> {
            &&& e.key.start == p
            &&& entry_ok(t@, e)
            &&& e.value.end <= q <= t@.len()
            &&& q == t@.len() || t@[q as int] == '\n'
            &&& forall|i: int| e.key.start <= i < e.key.end ==> is_key_char(#[trigger] t@[i])
            &&& !is_ws(t@[e.value.start as int])
            &&& !is_ws(t@[e.value.end - 1])
        },
{
    let ke = scan_key(t, p);
    if ke == p {
        return None;
    }
    let s1 = skip_spaces(t, ke);
    let v = if s1 < t.len() && t[s1] == '=' {
        skip_spaces(t, s1 + 1)
    } else {
        s1
    };
    if v == ke || v == t.len() || t[v] == '\n' || t[v] == '\r' {
        return None;
    }
    let le = line_end(t, v);
    let ve = trim_end(t, v, le);
    if ve == v {
        return None;
    }
    Some((Entry { key: Span { start: p, end: ke }, value: Span { start: v, end: ve } }, le))
}

/// Reads entries, one per line, separated by whitespace, for as long as
/// lines read as entries. Returns them in text order and the position just
/// after the last one (before any whitespace that follows it).
pub fn entry_lines(t: &Vec<char>, p: usize) -> (r: (Vec<Entry>, usize))
    requires
        p <= t@.len(),
    ensures
        r.0@ == lines_spec(t@, p as int, seq![]).0,
        r.1 == lines_spec(t@, p as int, seq![]).1,
        p <= r.1 <= t@.len(),
        entries_ok(t@, r.0@),
        entries_ordered(r.0@),
        forall|i: int| 0 <= i < r.0@.len() ==> p <= (#[trigger] r.0@[i]).key.start && r.0@[i].value.end <= r.1,
{
    let mut es: Vec<Entry> = Vec::new();
    let mut q = p;
    loop
        invariant
            p <= q <= t@.len(),
            lines_spec(t@, p as int, seq![]) == lines_spec(t@, q as int, es@),
            entries_ok(t@, es@),
            entries_ordered(es@),
            forall|i: int| 0 <= i < es@.len() ==> p <= (#[trigger] es@[i]).key.start && es@[i].value.end <= q,
        decreases t@.len() - q,
    {
        let s = skip_ws(t, q);
        match entry_line(t, s) {
            Some((e, n)) => {
                es.push(e);
                q = n;
            },
            None => {
                return (es, q);
            },
        }
    }
}

pub open spec fn key_is(ts: Seq<char>, e: Entry, k: Seq<char>) -> bool {
    e.key.text(ts) == k
}

/// No entry has the key `k`.
pub open spec fn key_absent(ts: Seq<char>, es: Seq<Entry>, k: Seq<char>) -> bool {
    forall|i: int| 0 <= i < es.len() ==> !key_is(ts, #[trigger] es[i], k)
}

/// `i` is the first entry with the key `k`.
pub open spec fn first_with(ts: Seq<char>, es: Seq<Entry>, k: Seq<char>, i: int) -> bool {
    &&& 0 <= i < es.len()
    &&& key_is(ts, es[i], k)
    &&& forall|j: int| 0 <= j < i ==> !key_is(ts, #[trigger] es[j], k)
}

/// The value of the first entry with the key `k`; none where no entry has it.
pub open spec fn text_field(ts: Seq<char>, es: Seq<Entry>, k: Seq<char>) -> Option<Span> {
    if key_absent(ts, es, k) {
        None
    } else {
        Some(es[choose|i: int| first_with(ts, es, k, i)].value)
    }
}

/// The integer field `k`: `Some(None)` where the key is absent, `Some(Some(v))`
/// where the first entry with it holds the integer `v`, and `None` where that
/// entry holds no integer that fits.
pub open spec fn int_field(ts: Seq<char>, es: Seq<Entry>, k: Seq<char>) -> Option<Option<i32>> {
    match text_field(ts, es, k) {
        None => Some(None),
        Some(sp) => match int_of(sp.text(ts)) {
            Some(v) => Some(Some(v)),
            None => None,
        },
    }
}

/// An integer field that is well formed and has a value.
pub open spec fn present(f: Option<Option<i32>>) -> bool {
    f matches Some(Some(_))
}

proof fn lemma_first_unique(ts: Seq<char>, es: Seq<Entry>, k: Seq<char>, i: int)
    requires
        first_with(ts, es, k, i),
    ensures
        !key_absent(ts, es, k),
        (choose|j: int| first_with(ts, es, k, j)) == i,
{
    assert(key_is(ts, es[i], k));
    let j = choose|j: int| first_with(ts, es, k, j);
    assert(first_with(ts, es, k, j));
    if j < i {
        assert(!key_is(ts, es[j], k));
    } else if i < j {
        assert(!key_is(ts, es[i], k));
    }
}

/// The index of the first entry whose key is `k`.
pub fn find_key(t: &Vec<char>, es: &Vec<Entry>, k: &str) -> (r: Option<usize>)
    requires
        entries_ok(t@, es@),
    ensures
        r is None <==> key_absent(t@, es@, k@),
        r matches Some(i) ==> first_with(t@, es@, k@, i as int),
{
    let mut i: usize = 0;
    while i < es.len()
        invariant
            entries_ok(t@, es@),
            i <= es@.len(),
            forall|j: int| 0 <= j < i ==> !key_is(t@, #[trigger] es@[j], k@),
        decreases es@.len() - i,
    {
        let e = es[i];
        assert(entry_ok(t@, es@[i as int]));
        if span_is(t, e.key, k) {
            assert(!key_absent(t@, es@, k@));
            return Some(i);
        }
        i = i + 1;
    }
    None
}

/// The value of the text field `k`.
pub fn get_text(t: &Vec<char>, es: &Vec<Entry>, k: &str) -> (r: Option<Span>)
    requires
        entries_ok(t@, es@),
    ensures
        r == text_field(t@, es@, k@),
        r matches Some(sp) ==> sp.within(t@.len()),
{
    match find_key(t, es, k) {
        None => None,
        Some(i) => {
            proof {
                lemma_first_unique(t@, es@, k@, i as int);
            }
            assert(entry_ok(t@, es@[i as int]));
            Some(es[i].value)
        },
    }
}

/// The integer field `k`: `Ok(None)` where the key is absent, `Err` with the
/// value's span where its value is no integer that fits in an `i32`.
pub fn get_int(t: &Vec<char>, es: &Vec<Entry>, k: &str) -> (r: Result<Option<i32>, Span>)
    requires
        entries_ok(t@, es@),
    ensures
        r is Err <==> int_field(t@, es@, k@) is None,
        r matches Ok(v) ==> int_field(t@, es@, k@) == Some(v),
        r matches Err(sp) ==> sp.within(t@.len()) && text_field(t@, es@, k@) == Some(sp),
{
    match get_text(t, es, k) {
        None => Ok(None),
        Some(sp) => match parse_int(t, sp) {
            Some(v) => Ok(Some(v)),
            None => Err(sp),
        },
    }
}

} // verus!

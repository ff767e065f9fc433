//! Character-level lexing over the map text, held as a vector of chars.
//! Every textual value the parser produces is a `Span` into that text.
use vstd::prelude::*;

verus! {

/// A half-open range `[start, end)` of character positions in the input text.
#[derive(Clone, Copy, Debug, PartialEq, Eq, Structural)]
pub struct Span {
    pub start: usize,
    pub end: usize,
}

impl Span {
    /// The span is ordered and lies inside a text of `len` characters.
    pub open spec fn within(self, len: nat) -> bool {
        self.start <= self.end && self.end <= len
    }

    /// The characters the span covers.
    pub open spec fn text(self, ts: Seq<char>) -> Seq<char> {
        ts.subrange(self.start as int, self.end as int)
    }

    /// Borrows the covered characters out of the text the span was taken from.
    pub fn slice<'a>(&self, text: &'a str) -> (r: &'a str)
        requires
            self.within(text@.len()),
        ensures
            r@ == self.text(text@),
    {
        text.substring_char(self.start, self.end)
    }
}

pub open spec fn is_space(c: char) -> bool {
    c == ' ' || c == '\t'
}

pub open spec fn is_ws(c: char) -> bool {
    is_space(c) || c == '\n' || c == '\r'
}

pub open spec fn is_digit(c: char) -> bool {
    '0' <= c && c <= '9'
}

pub open spec fn is_key_char(c: char) -> bool {
    ('a' <= c && c <= 'z') || ('A' <= c && c <= 'Z') || is_digit(c) || c == '_'
}

pub fn space_char(c: char) -> (r: bool)
    ensures
        r == is_space(c),
{
    c == ' ' || c == '\t'
}

pub fn ws_char(c: char) -> (r: bool)
    ensures
        r == is_ws(c),
{
    c == ' ' || c == '\t' || c == '\n' || c == '\r'
}

pub fn key_char(c: char) -> (r: bool)
    ensures
        r == is_key_char(c),
{
    ('a' <= c && c <= 'z') || ('A' <= c && c <= 'Z') || ('0' <= c && c <= '9') || c == '_'
}

/// Classes of characters that the scanners run over.
#[derive(Clone, Copy, Debug, PartialEq, Eq, Structural)]
pub enum CharClass {
    Ws,
    Space,
    Key,
    Word,
    InLine,
}

pub open spec fn in_class(k: CharClass, c: char) -> bool {
    match k {
        CharClass::Ws => is_ws(c),
        CharClass::Space => is_space(c),
        CharClass::Key => is_key_char(c),
        CharClass::Word => !is_ws(c),
        CharClass::InLine => c != '\n',
    }
}

/// The end of the longest run of characters of class `k` from `p` on.
pub open spec fn run_end(ts: Seq<char>, p: int, k: CharClass) -> int
    decreases ts.len() - p,
{
    if 0 <= p < ts.len() && in_class(k, ts[p]) {
        run_end(ts, p + 1, k)
    } else {
        p
    }
}

/// A run is determined by where it starts: a maximal run ends at `run_end`.
pub proof fn lemma_run_end(ts: Seq<char>, p: int, q: int, k: CharClass)
    requires
        0 <= p <= q <= ts.len(),
        forall|i: int| p <= i < q ==> in_class(k, #[trigger] ts[i]),
        q == ts.len() || !in_class(k, ts[q]),
    ensures
        run_end(ts, p, k) == q,
    decreases q - p,
{
    if p < q {
        assert(in_class(k, ts[p]));
        lemma_run_end(ts, p + 1, q, k);
    }
}

/// The start of the longest run of whitespace that ends at `b`, not before `a`.
pub open spec fn trim_back(ts: Seq<char>, a: int, b: int) -> int
    decreases b - a,
{
    if a < b && b <= ts.len() && is_ws(ts[b - 1]) {
        trim_back(ts, a, b - 1)
    } else {
        b
    }
}

proof fn lemma_trim_back(ts: Seq<char>, a: int, e: int, b: int)
    requires
        a <= e <= b <= ts.len(),
        forall|i: int| e <= i < b ==> is_ws(#[trigger] ts[i]),
        e == a || !is_ws(ts[e - 1]),
    ensures
        trim_back(ts, a, b) == e,
    decreases b - e,
{
    if e < b {
        assert(is_ws(ts[b - 1]));
        lemma_trim_back(ts, a, e, b - 1);
    }
}

/// Skips whitespace (spaces, tabs, line breaks), zero or more.
pub fn skip_ws(t: &Vec<char>, p: usize) -> (q: usize)
    requires
        p <= t@.len(),
    ensures
        q == run_end(t@, p as int, CharClass::Ws),
        p <= q <= t@.len(),
        forall|i: int| p <= i < q ==> is_ws(#[trigger] t@[i]),
        q == t@.len() || !is_ws(t@[q as int]),
{
    let mut q = p;
    while q < t.len() && ws_char(t[q])
        invariant
            p <= q <= t@.len(),
            forall|i: int| p <= i < q ==> is_ws(#[trigger] t@[i]),
        decreases t@.len() - q,
    {
        q = q + 1;
    }
    proof {
        lemma_run_end(t@, p as int, q as int, CharClass::Ws);
    }
    q
}

/// Skips spaces and tabs on the current line, zero or more.
pub fn skip_spaces(t: &Vec<char>, p: usize) -> (q: usize)
    requires
        p <= t@.len(),
    ensures
        q == run_end(t@, p as int, CharClass::Space),
        p <= q <= t@.len(),
        forall|i: int| p <= i < q ==> is_space(#[trigger] t@[i]),
        q == t@.len() || !is_space(t@[q as int]),
{
    let mut q = p;
    while q < t.len() && space_char(t[q])
        invariant
            p <= q <= t@.len(),
            forall|i: int| p <= i < q ==> is_space(#[trigger] t@[i]),
        decreases t@.len() - q,
    {
        q = q + 1;
    }
    proof {
        lemma_run_end(t@, p as int, q as int, CharClass::Space);
    }
    q
}

/// Scans the longest run of key characters (letters, digits, `_`).
pub fn scan_key(t: &Vec<char>, p: usize) -> (q: usize)
    requires
        p <= t@.len(),
    ensures
        q == run_end(t@, p as int, CharClass::Key),
        p <= q <= t@.len(),
        forall|i: int| p <= i < q ==> is_key_char(#[trigger] t@[i]),
        q == t@.len() || !is_key_char(t@[q as int]),
{
    let mut q = p;
    while q < t.len() && key_char(t[q])
        invariant
            p <= q <= t@.len(),
            forall|i: int| p <= i < q ==> is_key_char(#[trigger] t@[i]),
        decreases t@.len() - q,
    {
        q = q + 1;
    }
    proof {
        lemma_run_end(t@, p as int, q as int, CharClass::Key);
    }
    q
}

/// Scans the longest run of characters that are not whitespace.
pub fn scan_word(t: &Vec<char>, p: usize) -> (q: usize)
    requires
        p <= t@.len(),
    ensures
        q == run_end(t@, p as int, CharClass::Word),
        p <= q <= t@.len(),
        forall|i: int| p <= i < q ==> !is_ws(#[trigger] t@[i]),
        q == t@.len() || is_ws(t@[q as int]),
{
    let mut q = p;
    while q < t.len() && !ws_char(t[q])
        invariant
            p <= q <= t@.len(),
            forall|i: int| p <= i < q ==> !is_ws(#[trigger] t@[i]),
        decreases t@.len() - q,
    {
        q = q + 1;
    }
    proof {
        lemma_run_end(t@, p as int, q as int, CharClass::Word);
    }
    q
}

/// Finds the end of the current line: the next line feed, or the end of the text.
pub fn line_end(t: &Vec<char>, p: usize) -> (q: usize)
    requires
        p <= t@.len(),
    ensures
        q == run_end(t@, p as int, CharClass::InLine),
        p <= q <= t@.len(),
        forall|i: int| p <= i < q ==> #[trigger] t@[i] != '\n',
        q == t@.len() || t@[q as int] == '\n',
{
    let mut q = p;
    while q < t.len() && t[q] != '\n'
        invariant
            p <= q <= t@.len(),
            forall|i: int| p <= i < q ==> #[trigger] t@[i] != '\n',
        decreases t@.len() - q,
    {
        q = q + 1;
    }
    proof {
        lemma_run_end(t@, p as int, q as int, CharClass::InLine);
    }
    q
}

/// Drops trailing spaces, tabs and carriage returns from `[a, b)`.
pub fn trim_end(t: &Vec<char>, a: usize, b: usize) -> (e: usize)
    requires
        a <= b <= t@.len(),
    ensures
        e == trim_back(t@, a as int, b as int),
        a <= e <= b,
        forall|i: int| e <= i < b ==> is_ws(#[trigger] t@[i]),
        e == a || !is_ws(t@[e - 1]),
{
    let mut e = b;
    while e > a && ws_char(t[e - 1])
        invariant
            a <= e <= b <= t@.len(),
            forall|i: int| e <= i < b ==> is_ws(#[trigger] t@[i]),
        decreases e,
    {
        e = e - 1;
    }
    proof {
        lemma_trim_back(t@, a as int, e as int, b as int);
    }
    e
}

/// Whether the span's characters are exactly those of `lit`.
pub fn span_is(t: &Vec<char>, sp: Span, lit: &str) -> (r: bool)
    requires
        sp.within(t@.len()),
    ensures
        r == (sp.text(t@) == lit@),
{
    let n = lit.unicode_len();
    if sp.end - sp.start != n {
        return false;
    }
    let mut i: usize = 0;
    while i < n
        invariant
            sp.within(t@.len()),
            sp.end - sp.start == n,
            n == lit@.len(),
            i <= n,
            forall|k: int| 0 <= k < i ==> t@[sp.start + k] == lit@[k],
        decreases n - i,
    {
        if t[sp.start + i] != lit.get_char(i) {
            assert(sp.text(t@)[i as int] != lit@[i as int]);
            return false;
        }
        i = i + 1;
    }
    assert(sp.text(t@) =~= lit@);
    true
}

/// The value of a non-empty run of decimal digits.
pub open spec fn digits_value(s: Seq<char>) -> int
    decreases s.len(),
{
    if s.len() == 0 {
        0
    } else {
        digits_value(s.drop_last()) * 10 + (s.last() as u32 - '0' as u32)
    }
}

pub open spec fn all_digits(s: Seq<char>) -> bool {
    s.len() > 0 && forall|i: int| 0 <= i < s.len() ==> is_digit(#[trigger] s[i])
}

/// The integer a token denotes: digits, optionally preceded by `-`.
pub open spec fn int_value(s: Seq<char>) -> Option<int> {
    if s.len() > 0 && s[0] == '-' {
        if all_digits(s.drop_first()) {
            Some(-digits_value(s.drop_first()))
        } else {
            None
        }
    } else if all_digits(s) {
        Some(digits_value(s))
    } else {
        None
    }
}

/// The token's integer, where it denotes one that fits in an `i32`.
pub open spec fn int_of(s: Seq<char>) -> Option<i32> {
    match int_value(s) {
        Some(v) => if i32::MIN <= v && v <= i32::MAX {
            Some(v as i32)
        } else {
            None
        },
        None => None,
    }
}

proof fn lemma_digits_nonneg(s: Seq<char>)
    requires
        forall|i: int| 0 <= i < s.len() ==> is_digit(#[trigger] s[i]),
    ensures
        digits_value(s) >= 0,
    decreases s.len(),
{
    if s.len() > 0 {
        assert(is_digit(s[s.len() - 1]));
        lemma_digits_nonneg(s.drop_last());
    }
}

proof fn lemma_digits_prefix(s: Seq<char>, n: int)
    requires
        0 <= n <= s.len(),
        forall|i: int| 0 <= i < s.len() ==> is_digit(#[trigger] s[i]),
    ensures
        digits_value(s.subrange(0, n)) <= digits_value(s),
    decreases s.len(),
{
    if n < s.len() {
        let d = s.drop_last();
        assert(d.subrange(0, n) =~= s.subrange(0, n));
        assert(is_digit(s[s.len() - 1]));
        lemma_digits_prefix(d, n);
        lemma_digits_nonneg(d);
    } else {
        assert(s.subrange(0, n) =~= s);
    }
}

/// Reads the integer that the span holds, if it is one that fits in an `i32`.
pub fn parse_int(t: &Vec<char>, sp: Span) -> (r: Option<i32>)
    requires
        sp.within(t@.len()),
    ensures
        r == int_of(sp.text(t@)),
{
    let ghost s = sp.text(t@);
    let neg = sp.start < sp.end && t[sp.start] == '-';
    let ds: usize = if neg { sp.start + 1 } else { sp.start };
    let ghost ss = t@.subrange(ds as int, sp.end as int);
    assert(neg ==> ss =~= s.drop_first());
    assert(!neg ==> ss =~= s);
    if ds == sp.end {
        return None;
    }
    let mut i: usize = ds;
    let mut acc: i64 = 0;
    while i < sp.end
        invariant
            sp.within(t@.len()),
            ds <= i <= sp.end,
            ss == t@.subrange(ds as int, sp.end as int),
            s == sp.text(t@),
            neg <==> (s.len() > 0 && s[0] == '-'),
            neg ==> ss == s.drop_first(),
            !neg ==> ss == s,
            0 <= acc <= 2147483648,
            acc == digits_value(t@.subrange(ds as int, i as int)),
            forall|k: int| ds <= k < i ==> is_digit(#[trigger] t@[k]),
        decreases sp.end - i,
    {
        let c = t[i];
        if !('0' <= c && c <= '9') {
            assert(!is_digit(ss[i - ds]));
            assert(!all_digits(ss));
            return None;
        }
        let ghost pre = t@.subrange(ds as int, i as int + 1);
        assert(pre.drop_last() =~= t@.subrange(ds as int, i as int));
        acc = acc * 10 + (c as u32 - '0' as u32) as i64;
        if acc > 2147483648 {
            proof {
                if all_digits(ss) {
                    assert(ss.subrange(0, i + 1 - ds) =~= pre);
                    lemma_digits_prefix(ss, i + 1 - ds);
                }
            }
            return None;
        }
        i = i + 1;
    }
    assert(t@.subrange(ds as int, i as int) =~= ss);
    assert(all_digits(ss));
    if neg {
        Some((-acc) as i32)
    } else if acc <= 2147483647 {
        Some(acc as i32)
    } else {
        None
    }
}

} // verus!

//! The object block: `[Objects]`, then records. A record is a run of
//! `Key value` entries whose first entry is `MapObjType <kind>`; the kind
//! decides which fields the record has beyond the common ones.
use vstd::prelude::*;
use crate::lexer::{Span, CharClass, run_end, skip_ws, span_is};
use crate::record::{Entry, entry_line, entry_ok, entry_spec, present, entries_ok, entries_ordered, get_int, int_field, key_is};
use crate::header::{bad_int, tag_at, tag_spec};
use crate::diag::{Block, Expected, Field, ParseError, error_within};

verus! {

/// The closed set of object kinds.
#[derive(Clone, Copy, Debug, PartialEq, Eq, Structural)]
pub enum MapObjectType {
    Critter,
    Item,
    Scenery,
}

/// Animation fields that items and scenery share.
#[derive(Clone, Copy, Debug, PartialEq, Eq, Structural)]
pub struct Anim {
    pub offset_x: Option<i32>,
    pub offset_y: Option<i32>,
    pub anim_stay_begin: Option<i32>,
    pub anim_stay_end: Option<i32>,
    pub anim_wait: Option<i32>,
}

/// Identifiers that tie an object to the one that holds it.
#[derive(Clone, Copy, Debug, PartialEq, Eq, Structural)]
pub struct Relations {
    pub uid: Option<i32>,
    pub container_uid: Option<i32>,
}

/// Light the object gives off.
#[derive(Clone, Copy, Debug, PartialEq, Eq, Structural)]
pub struct Light {
    pub color: Option<i32>,
    pub distance: Option<i32>,
    pub intensity: Option<i32>,
}

/// The kind-specific part of an object.
#[derive(Debug)]
pub enum Kind {
    Critter { cond: Option<i32> },
    /// `val` holds the ten value slots `Item_Val0` to `Item_Val9`.
    Item { anim: Anim, count: Option<i32>, val: Vec<Option<i32>> },
    Scenery { anim: Anim, to_map_pid: Option<i32>, to_entire: Option<i32> },
    /// A kind outside the closed set, accepted in permissive mode; `name` is
    /// its discriminator, and its fields stay in the object's entries.
    Unknown { name: Span },
}

/// One placed object.
#[derive(Debug)]
pub struct Object {
    pub proto_id: i32,
    pub map_x: i32,
    pub map_y: i32,
    pub dir: Option<i32>,
    pub relations: Relations,
    pub light: Light,
    pub kind: Kind,
    /// All entries of the record, in text order, the discriminator first.
    pub entries: Vec<Entry>,
    /// The record in the text, from its discriminator's key to its last value.
    pub span: Span,
}

pub open spec fn type_of(s: Seq<char>) -> Option<MapObjectType> {
    if s == "Critter"@ || s == "0"@ {
        Some(MapObjectType::Critter)
    } else if s == "Item"@ || s == "1"@ {
        Some(MapObjectType::Item)
    } else if s == "Scenery"@ || s == "2"@ {
        Some(MapObjectType::Scenery)
    } else {
        None
    }
}

/// Reads an object kind discriminator, by name or by number.
pub fn object_type(t: &Vec<char>, sp: Span) -> (r: Option<MapObjectType>)
    requires
        sp.within(t@.len()),
    ensures
        r == type_of(sp.text(t@)),
{
    if span_is(t, sp, "Critter") || span_is(t, sp, "0") {
        Some(MapObjectType::Critter)
    } else if span_is(t, sp, "Item") || span_is(t, sp, "1") {
        Some(MapObjectType::Item)
    } else if span_is(t, sp, "Scenery") || span_is(t, sp, "2") {
        Some(MapObjectType::Scenery)
    } else {
        None
    }
}

pub open spec fn val_key(i: int) -> Seq<char> {
    if i == 0 { "Item_Val0"@ } else if i == 1 { "Item_Val1"@ } else if i == 2 { "Item_Val2"@ }
    else if i == 3 { "Item_Val3"@ } else if i == 4 { "Item_Val4"@ } else if i == 5 { "Item_Val5"@ }
    else if i == 6 { "Item_Val6"@ } else if i == 7 { "Item_Val7"@ } else if i == 8 { "Item_Val8"@ }
    else { "Item_Val9"@ }
}

fn val_key_str(i: usize) -> (r: &'static str)
    ensures
        r@ == val_key(i as int),
{
    if i == 0 { "Item_Val0" } else if i == 1 { "Item_Val1" } else if i == 2 { "Item_Val2" }
    else if i == 3 { "Item_Val3" } else if i == 4 { "Item_Val4" } else if i == 5 { "Item_Val5" }
    else if i == 6 { "Item_Val6" } else if i == 7 { "Item_Val7" } else if i == 8 { "Item_Val8" }
    else { "Item_Val9" }
}

pub open spec fn anim_fields(ts: Seq<char>, es: Seq<Entry>, a: Anim) -> bool {
    &&& int_field(ts, es, "OffsetX"@) == Some(a.offset_x)
    &&& int_field(ts, es, "OffsetY"@) == Some(a.offset_y)
    &&& int_field(ts, es, "AnimStayBegin"@) == Some(a.anim_stay_begin)
    &&& int_field(ts, es, "AnimStayEnd"@) == Some(a.anim_stay_end)
    &&& int_field(ts, es, "AnimWait"@) == Some(a.anim_wait)
}

/// The kind part is what the discriminator (the first entry's value) selects.
pub open spec fn kind_fields(ts: Seq<char>, es: Seq<Entry>, k: Kind, allow_any: bool) -> bool {
    let d = es[0].value;
    match type_of(d.text(ts)) {
        Some(MapObjectType::Critter) => match k {
            Kind::Critter { cond } => int_field(ts, es, "Critter_Cond"@) == Some(cond),
            _ => false,
        },
        Some(MapObjectType::Item) => match k {
            Kind::Item { anim, count, val } => {
                &&& anim_fields(ts, es, anim)
                &&& int_field(ts, es, "Item_Count"@) == Some(count)
                &&& val@.len() == 10
                &&& forall|i: int| 0 <= i < 10 ==> int_field(ts, es, val_key(i)) == Some(#[trigger] val@[i])
            },
            _ => false,
        },
        Some(MapObjectType::Scenery) => match k {
            Kind::Scenery { anim, to_map_pid, to_entire } => {
                &&& anim_fields(ts, es, anim)
                &&& int_field(ts, es, "Scenery_ToMapPid"@) == Some(to_map_pid)
                &&& int_field(ts, es, "Scenery_ToEntire"@) == Some(to_entire)
            },
            _ => false,
        },
        None => allow_any && match k {
            Kind::Unknown { name } => name == d,
            _ => false,
        },
    }
}

/// The typed fields of `o` are those its entries give.
pub open spec fn object_fields(ts: Seq<char>, o: Object, allow_any: bool) -> bool {
    let es = o.entries@;
    &&& es.len() > 0
    &&& key_is(ts, es[0], "MapObjType"@)
    &&& int_field(ts, es, "ProtoId"@) == Some(Some(o.proto_id))
    &&& int_field(ts, es, "MapX"@) == Some(Some(o.map_x))
    &&& int_field(ts, es, "MapY"@) == Some(Some(o.map_y))
    &&& int_field(ts, es, "Dir"@) == Some(o.dir)
    &&& int_field(ts, es, "UID"@) == Some(o.relations.uid)
    &&& int_field(ts, es, "ContainerUID"@) == Some(o.relations.container_uid)
    &&& int_field(ts, es, "LightColor"@) == Some(o.light.color)
    &&& int_field(ts, es, "LightDistance"@) == Some(o.light.distance)
    &&& int_field(ts, es, "LightIntensity"@) == Some(o.light.intensity)
    &&& kind_fields(ts, es, o.kind, allow_any)
}

/// The record's entries lie inside its span, in order.
pub open spec fn object_ok(ts: Seq<char>, o: Object, allow_any: bool) -> bool {
    &&& o.span.start < o.span.end <= ts.len()
    &&& entries_ok(ts, o.entries@)
    &&& entries_ordered(o.entries@)
    &&& o.entries@.len() > 0
    &&& o.entries@[0].key.start == o.span.start
    &&& forall|i: int| 0 <= i < o.entries@.len() ==> o.span.start <= (#[trigger] o.entries@[i]).key.start
        && o.entries@[i].value.end <= o.span.end
    &&& object_fields(ts, o, allow_any)
}

fn int_or_fail(t: &Vec<char>, es: &Vec<Entry>, k: &str) -> (r: Result<Option<i32>, ParseError>)
    requires
        entries_ok(t@, es@),
    ensures
        r is Err <==> int_field(t@, es@, k@) is None,
        r matches Ok(v) ==> int_field(t@, es@, k@) == Some(v),
        r matches Err(e) ==> error_within(e, t@.len()) && e == bad_int(t@, es@, k@),
{
    match get_int(t, es, k) {
        Ok(v) => Ok(v),
        Err(sp) => Err(ParseError { pos: sp.start, expected: Expected::Integer(sp) }),
    }
}

fn mandatory(t: &Vec<char>, es: &Vec<Entry>, k: &str, f: Field, at: usize) -> (r: Result<i32, ParseError>)
    requires
        entries_ok(t@, es@),
    ensures
        r is Ok <==> present(int_field(t@, es@, k@)),
        r matches Ok(v) ==> int_field(t@, es@, k@) == Some(Some(v)),
        r matches Err(e) ==> error_within(e, t@.len()),
        int_field(t@, es@, k@) == Some(None::<i32>) ==> r == Err::<i32, ParseError>(
            ParseError { pos: at, expected: Expected::Missing(f) },
        ),
        int_field(t@, es@, k@) is None ==> r == Err::<i32, ParseError>(bad_int(t@, es@, k@)),
{
    match int_or_fail(t, es, k)? {
        Some(v) => Ok(v),
        None => Err(ParseError { pos: at, expected: Expected::Missing(f) }),
    }
}

fn anim(t: &Vec<char>, es: &Vec<Entry>) -> (r: Result<Anim, ParseError>)
    requires
        entries_ok(t@, es@),
    ensures
        r is Err <==> (int_field(t@, es@, "OffsetX"@) is None || int_field(t@, es@, "OffsetY"@) is None
            || int_field(t@, es@, "AnimStayBegin"@) is None || int_field(t@, es@, "AnimStayEnd"@) is None
            || int_field(t@, es@, "AnimWait"@) is None),
        r matches Ok(a) ==> anim_fields(t@, es@, a),
        r matches Err(e) ==> e == anim_error(t@, es@),
        r matches Err(e) ==> error_within(e, t@.len()),
{
    Ok(Anim {
        offset_x: int_or_fail(t, es, "OffsetX")?,
        offset_y: int_or_fail(t, es, "OffsetY")?,
        anim_stay_begin: int_or_fail(t, es, "AnimStayBegin")?,
        anim_stay_end: int_or_fail(t, es, "AnimStayEnd")?,
        anim_wait: int_or_fail(t, es, "AnimWait")?,
    })
}

fn item_vals(t: &Vec<char>, es: &Vec<Entry>) -> (r: Result<Vec<Option<i32>>, ParseError>)
    requires
        entries_ok(t@, es@),
    ensures
        r is Err <==> exists|i: int| 0 <= i < 10 && #[trigger] int_field(t@, es@, val_key(i)) is None,
        r matches Err(e) ==> e == val_error(t@, es@, 0),
        r matches Ok(val) ==> val@.len() == 10 && forall|i: int| 0 <= i < 10 ==> int_field(t@, es@, val_key(i)) == Some(#[trigger] val@[i]),
        r matches Err(e) ==> error_within(e, t@.len()),
{
    let mut val: Vec<Option<i32>> = Vec::new();
    let mut i: usize = 0;
    while i < 10
        invariant
            entries_ok(t@, es@),
            i <= 10,
            val@.len() == i,
            val_error(t@, es@, 0) == val_error(t@, es@, i as int),
            forall|j: int| 0 <= j < i ==> int_field(t@, es@, val_key(j)) == Some(#[trigger] val@[j]),
        decreases 10 - i,
    {
        let v = match int_or_fail(t, es, val_key_str(i)) {
            Ok(v) => v,
            Err(e) => {
                assert(int_field(t@, es@, val_key(i as int)) is None);
                return Err(e);
            },
        };
        val.push(v);
        i = i + 1;
    }
    assert forall|j: int| 0 <= j < 10 implies !(#[trigger] int_field(t@, es@, val_key(j)) is None) by {
        assert(int_field(t@, es@, val_key(j)) == Some(val@[j]));
    }
    Ok(val)
}

/// The entries of a record that follow position `q`, after those in `es`,
/// up to the next discriminator or the first line that is no entry.
pub open spec fn record_rest(ts: Seq<char>, q: int, es: Seq<Entry>) -> (Seq<Entry>, usize)
    decreases ts.len() - q,
{
    let s = run_end(ts, q, CharClass::Ws);
    match entry_spec(ts, s) {
        Some((e, n)) => if key_is(ts, e, "MapObjType"@) || !(q < n <= ts.len()) {
            (es, q as usize)
        } else {
            record_rest(ts, n as int, es.push(e))
        },
        None => (es, q as usize),
    }
}

/// The entries of the record at `p` and where it ends; none where no
/// discriminator entry stands at `p`.
pub open spec fn record_spec(ts: Seq<char>, p: int) -> Option<(Seq<Entry>, usize)> {
    match entry_spec(ts, p) {
        Some((e, n)) => if key_is(ts, e, "MapObjType"@) {
            Some(record_rest(ts, n as int, seq![e]))
        } else {
            None
        },
        None => None,
    }
}

/// Entries that make no object: a kind outside the closed set in strict
/// mode, a missing prototype or position, or a typed field without an integer.
pub open spec fn record_fails(ts: Seq<char>, es: Seq<Entry>, allow_any: bool) -> bool {
    let ty = type_of(es[0].value.text(ts));
    let bad = |k: Seq<char>| int_field(ts, es, k) is None;
    let anim_bad = bad("OffsetX"@) || bad("OffsetY"@) || bad("AnimStayBegin"@) || bad("AnimStayEnd"@)
        || bad("AnimWait"@);
    ||| ty is None && !allow_any
    ||| !present(int_field(ts, es, "ProtoId"@))
    ||| !present(int_field(ts, es, "MapX"@))
    ||| !present(int_field(ts, es, "MapY"@))
    ||| bad("Dir"@) || bad("UID"@) || bad("ContainerUID"@)
    ||| bad("LightColor"@) || bad("LightDistance"@) || bad("LightIntensity"@)
    ||| ty == Some(MapObjectType::Critter) && bad("Critter_Cond"@)
    ||| ty == Some(MapObjectType::Item) && (anim_bad || bad("Item_Count"@)
        || exists|i: int| 0 <= i < 10 && #[trigger] int_field(ts, es, val_key(i)) is None)
    ||| ty == Some(MapObjectType::Scenery) && (anim_bad || bad("Scenery_ToMapPid"@) || bad("Scenery_ToEntire"@))
}

/// The failure for the first of the value slots from `i` on that is no integer.
pub open spec fn val_error(ts: Seq<char>, es: Seq<Entry>, i: int) -> ParseError
    decreases 10 - i,
{
    if i >= 9 || int_field(ts, es, val_key(i)) is None {
        bad_int(ts, es, val_key(i))
    } else {
        val_error(ts, es, i + 1)
    }
}

/// The failure for the first animation field that is no integer.
pub open spec fn anim_error(ts: Seq<char>, es: Seq<Entry>) -> ParseError {
    if int_field(ts, es, "OffsetX"@) is None {
        bad_int(ts, es, "OffsetX"@)
    } else if int_field(ts, es, "OffsetY"@) is None {
        bad_int(ts, es, "OffsetY"@)
    } else if int_field(ts, es, "AnimStayBegin"@) is None {
        bad_int(ts, es, "AnimStayBegin"@)
    } else if int_field(ts, es, "AnimStayEnd"@) is None {
        bad_int(ts, es, "AnimStayEnd"@)
    } else {
        bad_int(ts, es, "AnimWait"@)
    }
}

pub open spec fn anim_bad(ts: Seq<char>, es: Seq<Entry>) -> bool {
    int_field(ts, es, "OffsetX"@) is None || int_field(ts, es, "OffsetY"@) is None
        || int_field(ts, es, "AnimStayBegin"@) is None || int_field(ts, es, "AnimStayEnd"@) is None
        || int_field(ts, es, "AnimWait"@) is None
}

/// The failure that a record which makes no object gives: an unknown kind
/// in strict mode first, then the first field, in the order the record's
/// fields are read, that is missing or no integer.
pub open spec fn record_error(ts: Seq<char>, es: Seq<Entry>, allow_any: bool) -> ParseError {
    let d = es[0].value;
    let at = es[0].key.start;
    let ty = type_of(d.text(ts));
    let bad = |k: Seq<char>| int_field(ts, es, k) is None;
    if ty is None && !allow_any {
        ParseError { pos: d.start, expected: Expected::Kind(d) }
    } else if bad("ProtoId"@) {
        bad_int(ts, es, "ProtoId"@)
    } else if !present(int_field(ts, es, "ProtoId"@)) {
        ParseError { pos: at, expected: Expected::Missing(Field::ProtoId) }
    } else if bad("MapX"@) {
        bad_int(ts, es, "MapX"@)
    } else if !present(int_field(ts, es, "MapX"@)) {
        ParseError { pos: at, expected: Expected::Missing(Field::MapX) }
    } else if bad("MapY"@) {
        bad_int(ts, es, "MapY"@)
    } else if !present(int_field(ts, es, "MapY"@)) {
        ParseError { pos: at, expected: Expected::Missing(Field::MapY) }
    } else if bad("Dir"@) {
        bad_int(ts, es, "Dir"@)
    } else if bad("UID"@) {
        bad_int(ts, es, "UID"@)
    } else if bad("ContainerUID"@) {
        bad_int(ts, es, "ContainerUID"@)
    } else if bad("LightColor"@) {
        bad_int(ts, es, "LightColor"@)
    } else if bad("LightDistance"@) {
        bad_int(ts, es, "LightDistance"@)
    } else if bad("LightIntensity"@) {
        bad_int(ts, es, "LightIntensity"@)
    } else if ty == Some(MapObjectType::Critter) {
        bad_int(ts, es, "Critter_Cond"@)
    } else if ty == Some(MapObjectType::Item) {
        if anim_bad(ts, es) {
            anim_error(ts, es)
        } else if bad("Item_Count"@) {
            bad_int(ts, es, "Item_Count"@)
        } else {
            val_error(ts, es, 0)
        }
    } else if anim_bad(ts, es) {
        anim_error(ts, es)
    } else if bad("Scenery_ToMapPid"@) {
        bad_int(ts, es, "Scenery_ToMapPid"@)
    } else {
        bad_int(ts, es, "Scenery_ToEntire"@)
    }
}

/// Reads the entries of the record at `p`: its discriminator entry, then the
/// entries that follow up to the next discriminator or the first line that is
/// no entry. `None` where no discriminator entry stands at `p`.
pub fn record_entries(t: &Vec<char>, p: usize) -> (r: Option<(Vec<Entry>, usize)>)
    requires
        p <= t@.len(),
    ensures
        r is None <==> record_spec(t@, p as int) is None,
        r matches Some((es, q)) ==> record_spec(t@, p as int) == Some((es@, q)),
        r matches Some((es, q)) ==> {
            &&& p < q <= t@.len()
            &&& es@.len() > 0
            &&& es@[0].key.start == p
            &&& key_is(t@, es@[0], "MapObjType"@)
            &&& entries_ok(t@, es@)
            &&& entries_ordered(es@)
            &&& forall|i: int| 0 <= i < es@.len() ==> p <= (#[trigger] es@[i]).key.start && es@[i].value.end <= q
        },
{
    let (first, mut q) = match entry_line(t, p) {
        Some(x) => x,
        None => {
            return None;
        },
    };
    if !span_is(t, first.key, "MapObjType") {
        return None;
    }
    let mut es: Vec<Entry> = Vec::new();
    es.push(first);
    assert(es@ =~= seq![first]);
    loop
        invariant
            p < q <= t@.len(),
            record_spec(t@, p as int) == Some(record_rest(t@, q as int, es@)),
            es@.len() > 0,
            es@[0] == first,
            es@[0].key.start == p,
            key_is(t@, es@[0], "MapObjType"@),
            entries_ok(t@, es@),
            entries_ordered(es@),
            forall|i: int| 0 <= i < es@.len() ==> p <= (#[trigger] es@[i]).key.start && es@[i].value.end <= q,
        decreases t@.len() - q,
    {
        let s = skip_ws(t, q);
        match entry_line(t, s) {
            Some((e, n)) => {
                if span_is(t, e.key, "MapObjType") {
                    return Some((es, q));
                }
                es.push(e);
                q = n;
            },
            None => {
                return Some((es, q));
            },
        }
    }
}

/// Parses the object record at `p`: `Ok(None)` where no record starts there.
/// A kind outside the closed set fails the record unless `allow_any` holds.
pub fn object(t: &Vec<char>, p: usize, allow_any: bool) -> (r: Result<Option<Object>, ParseError>)
    requires
        p <= t@.len(),
    ensures
        r matches Ok(None) <==> record_spec(t@, p as int) is None,
        record_spec(t@, p as int) matches Some((es, q)) ==> p < q <= t@.len(),
        record_spec(t@, p as int) matches Some((es, q)) ==> (r is Ok <==> !record_fails(t@, es, allow_any)),
        r matches Ok(Some(o)) ==> record_spec(t@, p as int) == Some((o.entries@, o.span.end)),
        r matches Err(e) ==> e == record_error(t@, (record_spec(t@, p as int)->0).0, allow_any),
        r matches Ok(Some(o)) ==> o.span.start == p && object_ok(t@, o, allow_any),
        r matches Err(e) ==> error_within(e, t@.len()),
{
    let (es, q) = match record_entries(t, p) {
        Some(x) => x,
        None => {
            return Ok(None);
        },
    };
    let d = es[0].value;
    assert(entry_ok(t@, es@[0]));
    let ty = object_type(t, d);
    if ty.is_none() && !allow_any {
        return Err(ParseError { pos: d.start, expected: Expected::Kind(d) });
    }
    let proto_id = mandatory(t, &es, "ProtoId", Field::ProtoId, p)?;
    let map_x = mandatory(t, &es, "MapX", Field::MapX, p)?;
    let map_y = mandatory(t, &es, "MapY", Field::MapY, p)?;
    let dir = int_or_fail(t, &es, "Dir")?;
    let relations = Relations {
        uid: int_or_fail(t, &es, "UID")?,
        container_uid: int_or_fail(t, &es, "ContainerUID")?,
    };
    let light = Light {
        color: int_or_fail(t, &es, "LightColor")?,
        distance: int_or_fail(t, &es, "LightDistance")?,
        intensity: int_or_fail(t, &es, "LightIntensity")?,
    };
    let kind = match ty {
        Some(MapObjectType::Critter) => Kind::Critter { cond: int_or_fail(t, &es, "Critter_Cond")? },
        Some(MapObjectType::Item) => {
            let a = anim(t, &es)?;
            let count = int_or_fail(t, &es, "Item_Count")?;
            let val = item_vals(t, &es)?;
            Kind::Item { anim: a, count, val }
        },
        Some(MapObjectType::Scenery) => {
            let a = anim(t, &es)?;
            let to_map_pid = int_or_fail(t, &es, "Scenery_ToMapPid")?;
            let to_entire = int_or_fail(t, &es, "Scenery_ToEntire")?;
            Kind::Scenery { anim: a, to_map_pid, to_entire }
        },
        None => Kind::Unknown { name: d },
    };
    let o = Object { proto_id, map_x, map_y, dir, relations, light, kind, entries: es, span: Span { start: p, end: q } };
    Ok(Some(o))
}

/// The objects lie in the text in sequence order, each inside `[lo, hi)`.
pub open spec fn objects_ordered(objs: Seq<Object>, lo: int, hi: int) -> bool {
    &&& forall|i: int| 0 <= i < objs.len() ==> lo <= (#[trigger] objs[i]).span.start && objs[i].span.end <= hi
    &&& forall|i: int, j: int| 0 <= i < j < objs.len() ==> (#[trigger] objs[i]).span.end <= (#[trigger] objs[j]).span.start
}

pub open spec fn objects_read(ts: Seq<char>, objs: Seq<Object>, allow_any: bool) -> bool {
    forall|i: int| 0 <= i < objs.len() ==> object_ok(ts, #[trigger] objs[i], allow_any)
}

/// The records read from `q` on, after those in `acc`, each with where it
/// ends, and where reading stops.
pub open spec fn records_spec(ts: Seq<char>, q: int, acc: Seq<(Seq<Entry>, usize)>) -> (Seq<(Seq<Entry>, usize)>, usize)
    decreases ts.len() - q,
{
    let s = run_end(ts, q, CharClass::Ws);
    match record_spec(ts, s) {
        Some((es, n)) => if q < n <= ts.len() {
            records_spec(ts, n as int, acc.push((es, n)))
        } else {
            (acc, q as usize)
        },
        None => (acc, q as usize),
    }
}

proof fn lemma_records_prefix(ts: Seq<char>, q: int, acc: Seq<(Seq<Entry>, usize)>)
    ensures
        records_spec(ts, q, acc).0.len() >= acc.len(),
        forall|i: int| 0 <= i < acc.len() ==> records_spec(ts, q, acc).0[i] == acc[i],
    decreases ts.len() - q,
{
    let s = run_end(ts, q, CharClass::Ws);
    match record_spec(ts, s) {
        Some((es, n)) => if q < n <= ts.len() {
            lemma_records_prefix(ts, n as int, acc.push((es, n)));
            assert forall|i: int| 0 <= i < acc.len() implies records_spec(ts, q, acc).0[i] == acc[i] by {
                assert(acc.push((es, n))[i] == acc[i]);
            }
        },
        None => {},
    }
}

/// The failure of the first record from `i` on that makes no object.
pub open spec fn records_error(ts: Seq<char>, recs: Seq<(Seq<Entry>, usize)>, i: int, allow_any: bool) -> ParseError
    decreases recs.len() - i,
{
    if i >= recs.len() - 1 || record_fails(ts, recs[i].0, allow_any) {
        record_error(ts, recs[i].0, allow_any)
    } else {
        records_error(ts, recs, i + 1, allow_any)
    }
}

/// The block's records, in text order, and where the block ends.
pub open spec fn block_records(ts: Seq<char>, p: int) -> (Seq<(Seq<Entry>, usize)>, usize) {
    records_spec(ts, p + 9, seq![])
}

/// Parses the object block that starts at `p`: `[Objects]`, then records for
/// as long as a discriminator entry starts one. One malformed record fails the block.
pub fn objects(t: &Vec<char>, p: usize, allow_any: bool) -> (r: Result<(Vec<Object>, usize), ParseError>)
    requires
        p <= t@.len(),
    ensures
        tag_spec(t@, p as int, "[Objects]"@) ==> (r is Ok <==> forall|i: int| 0 <= i < block_records(t@, p as int).0.len()
            ==> !record_fails(t@, #[trigger] block_records(t@, p as int).0[i].0, allow_any)),
        r matches Err(e) ==> !tag_spec(t@, p as int, "[Objects]"@)
            || e == records_error(t@, block_records(t@, p as int).0, 0, allow_any),
        r matches Ok((v, q)) ==> {
            &&& q == block_records(t@, p as int).1
            &&& v@.len() == block_records(t@, p as int).0.len()
            &&& forall|i: int| 0 <= i < v@.len() ==> (#[trigger] v@[i]).entries@ == block_records(t@, p as int).0[i].0
                && v@[i].span.end == block_records(t@, p as int).0[i].1
        },
        r matches Ok((v, q)) ==> {
            &&& p + 9 <= q <= t@.len()
            &&& t@.subrange(p as int, p + 9) == "[Objects]"@
            &&& objects_ordered(v@, p + 9, q as int)
            &&& objects_read(t@, v@, allow_any)
        },
        !(p + 9 <= t@.len() && t@.subrange(p as int, p + 9) == "[Objects]"@) ==> r == Err::<(Vec<Object>, usize), ParseError>(
            ParseError { pos: p, expected: Expected::Section(Block::Objects) },
        ),
        r matches Err(e) ==> error_within(e, t@.len()),
{
    proof {
        reveal_strlit("[Objects]");
    }
    let b = match tag_at(t, p, "[Objects]") {
        Some(b) => b,
        None => {
            return Err(ParseError { pos: p, expected: Expected::Section(Block::Objects) });
        },
    };
    let mut v: Vec<Object> = Vec::new();
    let mut q = b;
    let ghost mut acc: Seq<(Seq<Entry>, usize)> = seq![];
    loop
        invariant
            p + 9 == b <= q <= t@.len(),
            block_records(t@, p as int) == records_spec(t@, q as int, acc),
            acc.len() == v@.len(),
            acc.len() <= block_records(t@, p as int).0.len(),
            forall|i: int| 0 <= i < acc.len() ==> block_records(t@, p as int).0[i] == #[trigger] acc[i],
            acc.len() < block_records(t@, p as int).0.len() ==> records_error(t@, block_records(t@, p as int).0, 0, allow_any)
                == records_error(t@, block_records(t@, p as int).0, acc.len() as int, allow_any),
            forall|i: int| 0 <= i < v@.len() ==> (#[trigger] v@[i]).entries@ == acc[i].0 && v@[i].span.end == acc[i].1,
            forall|i: int| 0 <= i < acc.len() ==> !record_fails(t@, #[trigger] acc[i].0, allow_any),
            t@.subrange(p as int, p + 9) == "[Objects]"@,
            objects_ordered(v@, b as int, q as int),
            objects_read(t@, v@, allow_any),
        decreases t@.len() - q,
    {
        let s = skip_ws(t, q);
        match object(t, s, allow_any) {
            Err(e) => {
                proof {
                    let (es, n) = record_spec(t@, s as int)->0;
                    lemma_records_prefix(t@, n as int, acc.push((es, n)));
                    assert(acc.push((es, n))[acc.len() as int] == (es, n));
                    assert(records_spec(t@, q as int, acc) == records_spec(t@, n as int, acc.push((es, n))));
                    assert(block_records(t@, p as int).0[acc.len() as int] == (es, n));
                    assert(record_fails(t@, block_records(t@, p as int).0[acc.len() as int].0, allow_any));
                }
                return Err(e);
            },
            Ok(None) => {
                return Ok((v, q));
            },
            Ok(Some(o)) => {
                proof {
                    let recs = block_records(t@, p as int).0;
                    let x = (o.entries@, o.span.end);
                    lemma_records_prefix(t@, o.span.end as int, acc.push(x));
                    assert(records_spec(t@, q as int, acc) == records_spec(t@, o.span.end as int, acc.push(x)));
                    assert(acc.push(x)[acc.len() as int] == x);
                    assert(recs[acc.len() as int] == x);
                    assert(!record_fails(t@, x.0, allow_any));
                    acc = acc.push(x);
                }
                q = o.span.end;
                v.push(o);
            },
        }
    }
}

} // verus!

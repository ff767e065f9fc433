//! Properties that hold of every map the parser returns.
use vstd::prelude::*;
use crate::lexer::Span;
use crate::record::{Entry, key_absent, int_field, text_field};
use crate::header::header_ok;
use crate::objects::{Kind, Object, block_records, object_ok, record_fails, type_of};
use crate::header::Header;
use crate::{GameMap, LEFTOVER_EXCERPT, blocks_read, excerpt, layout, map_ok, objects_start, records_of};
use crate::record::present;

verus! {

/// A field whose key no entry has reads as absent: an integer field as
/// `Some(None)` (well formed, no value), a text field as `None`.
pub proof fn absent_key_reads_absent(ts: Seq<char>, es: Seq<Entry>, k: Seq<char>)
    requires
        key_absent(ts, es, k),
    ensures
        int_field(ts, es, k) == Some(None::<i32>),
        text_field(ts, es, k) == None::<Span>,
{
}

/// Every optional header field whose key the header block omits is `None`.
pub proof fn header_absent_fields(ts: Seq<char>, m: GameMap)
    requires
        header_ok(ts, m.header),
    ensures
        key_absent(ts, m.header.entries@, "Version"@) ==> m.header.version is None,
        key_absent(ts, m.header.entries@, "WorkHexX"@) ==> m.header.work_hex_x is None,
        key_absent(ts, m.header.entries@, "WorkHexY"@) ==> m.header.work_hex_y is None,
        key_absent(ts, m.header.entries@, "ScriptModule"@) ==> m.header.script_module is None,
        key_absent(ts, m.header.entries@, "ScriptFunc"@) ==> m.header.script_func is None,
        key_absent(ts, m.header.entries@, "NoLogOut"@) ==> m.header.no_log_out is None,
        key_absent(ts, m.header.entries@, "Time"@) ==> m.header.time is None,
{
}

/// Every optional object field whose key the record omits is `None`.
pub proof fn object_absent_fields(ts: Seq<char>, o: Object, allow_any: bool)
    requires
        object_ok(ts, o, allow_any),
    ensures
        key_absent(ts, o.entries@, "Dir"@) ==> o.dir is None,
        key_absent(ts, o.entries@, "UID"@) ==> o.relations.uid is None,
        key_absent(ts, o.entries@, "ContainerUID"@) ==> o.relations.container_uid is None,
        key_absent(ts, o.entries@, "LightColor"@) ==> o.light.color is None,
        key_absent(ts, o.entries@, "LightDistance"@) ==> o.light.distance is None,
        key_absent(ts, o.entries@, "LightIntensity"@) ==> o.light.intensity is None,
        o.kind matches Kind::Item { anim, .. } ==> (key_absent(ts, o.entries@, "AnimStayBegin"@)
            ==> anim.anim_stay_begin is None),
        o.kind matches Kind::Scenery { anim, .. } ==> (key_absent(ts, o.entries@, "OffsetX"@)
            ==> anim.offset_x is None),
{
}

/// The tiles of a map come in the order their lines have in the text.
pub proof fn tiles_keep_text_order(ts: Seq<char>, m: GameMap, allow_any: bool, i: int, j: int)
    requires
        map_ok(ts, m, allow_any),
        0 <= i < j < m.tiles.0@.len(),
    ensures
        m.tiles.0@[i].span.end <= m.tiles.0@[j].span.start,
        m.tiles.0@[i].span.start < m.tiles.0@[j].span.start,
{
}

/// The objects of a map come in the order their records have in the text.
pub proof fn objects_keep_text_order(ts: Seq<char>, m: GameMap, allow_any: bool, i: int, j: int)
    requires
        map_ok(ts, m, allow_any),
        0 <= i < j < m.objects.0@.len(),
    ensures
        m.objects.0@[i].span.end <= m.objects.0@[j].span.start,
        m.objects.0@[i].span.start < m.objects.0@[j].span.start,
{
    assert(object_ok(ts, m.objects.0@[i], allow_any));
    assert(object_ok(ts, m.objects.0@[j], allow_any));
}

/// In strict mode every object has a kind of the closed set; in permissive
/// mode an object of another kind is `Kind::Unknown`, named by its discriminator.
pub proof fn unknown_kinds_only_when_permissive(ts: Seq<char>, o: Object, allow_any: bool)
    requires
        object_ok(ts, o, allow_any),
    ensures
        !allow_any ==> type_of(o.entries@[0].value.text(ts)) is Some && !(o.kind is Unknown),
        o.kind is Unknown <==> type_of(o.entries@[0].value.text(ts)) is None,
        o.kind matches Kind::Unknown { name } ==> name == o.entries@[0].value,
{
}

/// Two headers agree on every field.
pub open spec fn same_header(a: Header, b: Header) -> bool {
    &&& a.version == b.version
    &&& a.max_hex_x == b.max_hex_x
    &&& a.max_hex_y == b.max_hex_y
    &&& a.work_hex_x == b.work_hex_x
    &&& a.work_hex_y == b.work_hex_y
    &&& a.script_module == b.script_module
    &&& a.script_func == b.script_func
    &&& a.no_log_out == b.no_log_out
    &&& a.time == b.time
    &&& a.entries@ == b.entries@
    &&& a.span == b.span
}

/// Two kinds agree: the same variant with the same fields.
pub open spec fn same_kind(a: Kind, b: Kind) -> bool {
    match (a, b) {
        (Kind::Critter { cond: c1 }, Kind::Critter { cond: c2 }) => c1 == c2,
        (Kind::Item { anim: a1, count: n1, val: v1 }, Kind::Item { anim: a2, count: n2, val: v2 }) =>
            a1 == a2 && n1 == n2 && v1@ == v2@,
        (Kind::Scenery { anim: a1, to_map_pid: p1, to_entire: e1 }, Kind::Scenery { anim: a2, to_map_pid: p2, to_entire: e2 }) =>
            a1 == a2 && p1 == p2 && e1 == e2,
        (Kind::Unknown { name: n1 }, Kind::Unknown { name: n2 }) => n1 == n2,
        _ => false,
    }
}

/// Two objects agree on every field.
pub open spec fn same_object(a: Object, b: Object) -> bool {
    &&& a.proto_id == b.proto_id
    &&& a.map_x == b.map_x
    &&& a.map_y == b.map_y
    &&& a.dir == b.dir
    &&& a.relations == b.relations
    &&& a.light == b.light
    &&& same_kind(a.kind, b.kind)
    &&& a.entries@ == b.entries@
    &&& a.span == b.span
}

/// Parsing is deterministic: any two maps that the parser can return for
/// the same text and mode agree on every header field, every tile and every
/// object, in order.
pub proof fn same_text_same_map(ts: Seq<char>, allow_any: bool, m1: GameMap, m2: GameMap)
    requires
        map_ok(ts, m1, allow_any),
        records_of(ts, m1),
        map_ok(ts, m2, allow_any),
        records_of(ts, m2),
    ensures
        same_header(m1.header, m2.header),
        m1.tiles.0@ == m2.tiles.0@,
        m1.tiles.1 == m2.tiles.1,
        m1.objects.1 == m2.objects.1,
        m1.objects.0@.len() == m2.objects.0@.len(),
        forall|i: int| 0 <= i < m1.objects.0@.len() ==> same_object(#[trigger] m1.objects.0@[i], m2.objects.0@[i]),
{
    assert forall|i: int| 0 <= i < m1.objects.0@.len() implies same_object(#[trigger] m1.objects.0@[i], m2.objects.0@[i]) by {
        let o1 = m1.objects.0@[i];
        let o2 = m2.objects.0@[i];
        assert(object_ok(ts, o1, allow_any));
        assert(object_ok(ts, o2, allow_any));
        assert(o1.entries@ == o2.entries@);
        let es = o1.entries@;
        match type_of(es[0].value.text(ts)) {
            Some(crate::objects::MapObjectType::Item) => {
                match (o1.kind, o2.kind) {
                    (Kind::Item { val: v1, .. }, Kind::Item { val: v2, .. }) => {
                        assert(v1@ =~= v2@);
                    },
                    _ => {},
                }
            },
            _ => {},
        }
    }
}

/// In strict mode a record whose discriminator names no known kind fails
/// the whole text.
pub proof fn strict_mode_rejects_unknown_kind(ts: Seq<char>, i: int)
    requires
        0 <= i < block_records(ts, objects_start(ts)).0.len(),
        type_of(block_records(ts, objects_start(ts)).0[i].0[0].value.text(ts)) is None,
    ensures
        !blocks_read(ts, false),
{
    assert(record_fails(ts, block_records(ts, objects_start(ts)).0[i].0, false));
}

/// In permissive mode a record of an unknown kind fails only for its common
/// fields: with a prototype, a position and integer values, it is accepted.
pub proof fn permissive_mode_accepts_unknown_kind(ts: Seq<char>, es: Seq<Entry>)
    requires
        type_of(es[0].value.text(ts)) is None,
        present(int_field(ts, es, "ProtoId"@)),
        present(int_field(ts, es, "MapX"@)),
        present(int_field(ts, es, "MapY"@)),
        int_field(ts, es, "Dir"@) is Some,
        int_field(ts, es, "UID"@) is Some,
        int_field(ts, es, "ContainerUID"@) is Some,
        int_field(ts, es, "LightColor"@) is Some,
        int_field(ts, es, "LightDistance"@) is Some,
        int_field(ts, es, "LightIntensity"@) is Some,
    ensures
        !record_fails(ts, es, true),
        record_fails(ts, es, false),
{
}

/// A map read in full covers the text exactly: the blocks, the whitespace
/// between them and after the last, nothing else.
pub proof fn full_read_covers_text(ts: Seq<char>, m: GameMap)
    requires
        layout(ts, m, ts.len() as int),
    ensures
        m.header.span.start == 0,
        forall|i: int| 0 <= i < ts.len() ==> {
            ||| m.header.span.start <= i < m.header.span.end
            ||| m.tiles.1.start <= i < m.tiles.1.end
            ||| m.objects.1.start <= i < m.objects.1.end
            ||| crate::lexer::is_ws(#[trigger] ts[i])
        },
{
}

/// A leftover excerpt never holds more than `LEFTOVER_EXCERPT` characters.
pub proof fn excerpt_is_bounded(ts: Seq<char>, q: int)
    requires
        0 <= q <= ts.len(),
    ensures
        excerpt(ts, q).len() <= LEFTOVER_EXCERPT,
        excerpt(ts, q) == ts.subrange(q, q + excerpt(ts, q).len()),
{
}

} // verus!

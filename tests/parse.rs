use fomap::{root, Error, GameMap, Kind, MapParserSettings, Offset, PixelOffset};

const HEADER: &str = "[Header]\nMaxHexX=200\nMaxHexY=200\n";

fn strict() -> MapParserSettings {
    MapParserSettings::default()
}

fn permissive() -> MapParserSettings {
    MapParserSettings { allow_any: true, allow_tail: false }
}

fn with_tail() -> MapParserSettings {
    MapParserSettings { allow_any: false, allow_tail: true }
}

fn small_map() -> String {
    format!("{}\n[Tiles]\ntile 10 20 art/tiles/floor.frm\n\n[Objects]\n\n", HEADER)
}

fn ok(text: &str, settings: MapParserSettings) -> GameMap {
    match fomap::map(text, settings) {
        Ok(m) => m,
        Err(e) => panic!("unexpected error: {:?}", e),
    }
}

fn grammar_message(text: &str, settings: MapParserSettings) -> String {
    match fomap::map(text, settings) {
        Err(Error::Grammar(s)) => s,
        other => panic!("expected a grammar error, got {:?}", other),
    }
}

#[test]
fn small_map_parses() {
    let text = small_map();
    let m = ok(&text, strict());
    assert_eq!(m.header.max_hex_x, 200);
    assert_eq!(m.header.max_hex_y, 200);
    assert_eq!(m.tiles.0.len(), 1);
    assert!(m.objects.0.is_empty());
    let tile = &m.tiles.0[0];
    assert!(!tile.is_roof);
    assert_eq!((tile.hex_x, tile.hex_y), (10, 20));
    assert_eq!(tile.sprite.slice(&text), "art/tiles/floor.frm");
    assert_eq!(tile.offset, None);
    assert_eq!(tile.layer, None);
}

#[test]
fn trailing_byte_is_leftover_unless_tail_allowed() {
    let text = format!("{}x", small_map());
    match fomap::map(&text, strict()) {
        Err(Error::Leftover(s)) => assert_eq!(s, "x"),
        other => panic!("expected leftover, got {:?}", other),
    }
    let m = ok(&text, with_tail());
    assert_eq!(m.tiles.0.len(), 1);
    assert!(m.objects.0.is_empty());
}

#[test]
fn parsing_twice_gives_the_same_map() {
    let text = format!(
        "{}[Tiles]\nroof_o 1 2 -3 4 a.frm\n[Objects]\nMapObjType 1\nProtoId 7\nMapX 1\nMapY 2\n",
        HEADER
    );
    let a = format!("{:?}", fomap::map(&text, strict()));
    let b = format!("{:?}", fomap::map(&text, strict()));
    assert_eq!(a, b);
    let bad = format!("{}[Tiles]\ntile 1 x a.frm\n[Objects]\n", HEADER);
    assert_eq!(format!("{:?}", fomap::map(&bad, strict())), format!("{:?}", fomap::map(&bad, strict())));
}

#[test]
fn full_read_covers_the_whole_text() {
    let text = small_map();
    let m = ok(&text, strict());
    let n = text.chars().count();
    assert_eq!(m.header.span.start, 0);
    assert!(m.header.span.end <= m.tiles.1.start);
    assert!(m.tiles.1.end <= m.objects.1.start);
    assert!(m.objects.1.end <= n);
    let chars: Vec<char> = text.chars().collect();
    for i in 0..n {
        let inside = (m.header.span.start..m.header.span.end).contains(&i)
            || (m.tiles.1.start..m.tiles.1.end).contains(&i)
            || (m.objects.1.start..m.objects.1.end).contains(&i);
        assert!(inside || chars[i].is_whitespace(), "character {} dropped", i);
    }
}

#[test]
fn omitted_keys_are_absent_and_zero_is_present() {
    let text = format!(
        "{}Time 0\n[Tiles]\ntile 0 0 a.frm\n[Objects]\nMapObjType Item\nProtoId 3\nMapX 0\nMapY 0\nUID 0\nItem_Val2 0\n",
        HEADER
    );
    let m = ok(&text, strict());
    assert_eq!(m.header.version, None);
    assert_eq!(m.header.work_hex_x, None);
    assert_eq!(m.header.script_module, None);
    assert_eq!(m.header.time, Some(0));
    let o = &m.objects.0[0];
    assert_eq!(o.dir, None);
    assert_eq!(o.relations.uid, Some(0));
    assert_eq!(o.relations.container_uid, None);
    assert_eq!(o.light.color, None);
    match &o.kind {
        Kind::Item { anim, count, val } => {
            assert_eq!(anim.anim_stay_begin, None);
            assert_eq!(anim.offset_x, None);
            assert_eq!(*count, None);
            assert_eq!(val.len(), 10);
            for (i, v) in val.iter().enumerate() {
                assert_eq!(*v, if i == 2 { Some(0) } else { None });
            }
        },
        other => panic!("expected an item, got {:?}", other),
    }
}

#[test]
fn tiles_keep_their_order() {
    let text = format!(
        "{}[Tiles]\ntile 1 1 first.frm\nroof 2 2 second.frm\ntile_l 3 3 5 third.frm\nroof_ol 4 4 -1 -2 6 fourth.frm\n[Objects]\n",
        HEADER
    );
    let m = ok(&text, strict());
    let names: Vec<&str> = m.tiles.0.iter().map(|t| t.sprite.slice(&text)).collect();
    assert_eq!(names, vec!["first.frm", "second.frm", "third.frm", "fourth.frm"]);
    let xs: Vec<i32> = m.tiles.0.iter().map(|t| t.hex_x).collect();
    assert_eq!(xs, vec![1, 2, 3, 4]);
    assert_eq!(m.tiles.0[2].layer, Some(5));
    assert_eq!(m.tiles.0[2].offset, None);
    assert!(m.tiles.0[3].is_roof);
    assert_eq!(m.tiles.0[3].offset, Some(PixelOffset { x: -1, y: -2 }));
    assert_eq!(m.tiles.0[3].layer, Some(6));
}

#[test]
fn unknown_kind_fails_strict_and_is_opaque_when_permissive() {
    let text = format!(
        "{}[Tiles]\n[Objects]\nMapObjType 2\nProtoId 1\nMapX 5\nMapY 6\n\nMapObjType Foo\nProtoId 2\nMapX 7\nMapY 8\nWhatever 9\n\nMapObjType Critter\nProtoId 3\nMapX 9\nMapY 10\nCritter_Cond 1\n",
        HEADER
    );
    let msg = grammar_message(&text, strict());
    let at = text.find("Foo").unwrap();
    assert_eq!(msg, format!("unrecognized object kind \"Foo\" at position {}", at));
    let m = ok(&text, permissive());
    assert_eq!(m.objects.0.len(), 3);
    match &m.objects.0[1].kind {
        Kind::Unknown { name } => assert_eq!(name.slice(&text), "Foo"),
        other => panic!("expected an opaque object, got {:?}", other),
    }
    assert_eq!(m.objects.0[1].entries.len(), 5);
    assert_eq!(m.objects.0[1].entries[4].key.slice(&text), "Whatever");
    assert!(matches!(m.objects.0[0].kind, Kind::Scenery { .. }));
    assert!(matches!(m.objects.0[2].kind, Kind::Critter { cond: Some(1) }));
    assert_eq!(m.objects.0[2].offset(), (9, 10));
}

#[test]
fn leftover_excerpt_is_bounded() {
    let tail = "y".repeat(10_000);
    let text = format!("{}{}", small_map(), tail);
    match fomap::map(&text, strict()) {
        Err(Error::Leftover(s)) => {
            assert_eq!(s.chars().count(), 120);
            assert_eq!(s, "y".repeat(120));
        },
        other => panic!("expected leftover, got {:?}", other),
    }
}

#[test]
fn leftover_excerpt_counts_characters_not_bytes() {
    let tail = "\u{fc}".repeat(200);
    let text = format!("{}{}", small_map(), tail);
    match fomap::map(&text, strict()) {
        Err(Error::Leftover(s)) => assert_eq!(s, "\u{fc}".repeat(120)),
        other => panic!("expected leftover, got {:?}", other),
    }
}

#[test]
fn spans_are_character_positions() {
    let text = format!("{}ScriptModule m\u{e9}t\u{e9}o\n[Tiles]\ntile 1 2 \u{e9}t\u{e9}.frm\n[Objects]\n", HEADER);
    let m = ok(&text, strict());
    assert_eq!(m.header.script_module.unwrap().slice(&text), "m\u{e9}t\u{e9}o");
    assert_eq!(m.tiles.0[0].sprite.slice(&text), "\u{e9}t\u{e9}.frm");
}

#[test]
fn header_values_may_follow_spaces_or_equals() {
    let text = "[Header]\nVersion              4\nMaxHexX = 300\nMaxHexY\t400\nWorkHexX 150\nWorkHexY=-2\nScriptFunc  start  \r\nNoLogOut 1\n[Tiles]\n[Objects]\n";
    let m = ok(text, strict());
    assert_eq!(m.header.version, Some(4));
    assert_eq!(m.header.max_hex_x, 300);
    assert_eq!(m.header.max_hex_y, 400);
    assert_eq!(m.header.work_hex_x, Some(150));
    assert_eq!(m.header.work_hex_y, Some(-2));
    assert_eq!(m.header.script_func.unwrap().slice(text), "start");
    assert_eq!(m.header.no_log_out, Some(1));
    assert_eq!(m.header.entries.len(), 7);
}

#[test]
fn missing_dimension_is_reported() {
    let text = "[Header]\nMaxHexX 10\n[Tiles]\n[Objects]\n";
    assert_eq!(grammar_message(text, strict()), "missing field MaxHexY at position 0");
    let text = "[Header]\nVersion 4\n[Tiles]\n[Objects]\n";
    assert_eq!(grammar_message(text, strict()), "missing field MaxHexX at position 0");
}

#[test]
fn missing_block_tags_are_reported() {
    assert_eq!(grammar_message("", strict()), "expected [Header] at position 0");
    let text = format!("{}[Tile]\ntile 1 2 a.frm\n", HEADER);
    assert_eq!(grammar_message(&text, strict()), format!("expected [Tiles] at position {}", HEADER.len()));
    let text = format!("{}[Tiles]\n", HEADER);
    assert_eq!(
        grammar_message(&text, strict()),
        format!("expected [Objects] at position {}", text.len())
    );
}

#[test]
fn bad_integers_are_reported() {
    let text = "[Header]\nMaxHexX=abc\nMaxHexY=1\n[Tiles]\n[Objects]\n";
    assert_eq!(grammar_message(text, strict()), "expected an integer at position 17, found \"abc\"");
    let text = "[Header]\nMaxHexX=2147483648\nMaxHexY=1\n[Tiles]\n[Objects]\n";
    assert_eq!(
        grammar_message(text, strict()),
        "expected an integer at position 17, found \"2147483648\""
    );
    let text = "[Header]\nMaxHexX=-2147483648\nMaxHexY=2147483647\n[Tiles]\n[Objects]\n";
    let m = ok(text, strict());
    assert_eq!(m.header.max_hex_x, i32::MIN);
    assert_eq!(m.header.max_hex_y, i32::MAX);
    let text = "[Header]\nMaxHexX=-\nMaxHexY=1\n[Tiles]\n[Objects]\n";
    assert_eq!(grammar_message(text, strict()), "expected an integer at position 17, found \"-\"");
}

#[test]
fn malformed_tile_fails_the_block() {
    let text = format!("{}[Tiles]\ntile 1 2 a.frm\ntile_o 1 2 b.frm\n[Objects]\n", HEADER);
    let at = text.find("tile_o").unwrap();
    assert_eq!(
        grammar_message(&text, strict()),
        format!("malformed tile entry at position {}: \"tile_o 1 2 b.frm\"", at)
    );
    let text = format!("{}[Tiles]\nroof 1 two a.frm\n[Objects]\n", HEADER);
    assert!(grammar_message(&text, strict()).starts_with("malformed tile entry"));
}

#[test]
fn object_needs_proto_and_position() {
    let text = format!("{}[Tiles]\n[Objects]\nMapObjType Item\nProtoId 1\nMapX 1\n", HEADER);
    let at = text.find("MapObjType").unwrap();
    assert_eq!(grammar_message(&text, strict()), format!("missing field MapY at position {}", at));
    let text = format!("{}[Tiles]\n[Objects]\nMapObjType Item\nProtoId 1\nMapX 1\nMapY 2\nLightColor red\n", HEADER);
    assert!(grammar_message(&text, strict()).starts_with("expected an integer"));
}

#[test]
fn object_fields_are_read() {
    let text = format!(
        "{}[Tiles]\n[Objects]\nMapObjType 1\nProtoId 2007\nMapX 10\nMapY 11\nDir 3\nUID 5\nContainerUID 4\nLightColor 255\nLightDistance 6\nLightIntensity 50\nAnimStayBegin 2\nItem_Count 9\nItem_Val0 -1\nItem_Val9 8\n",
        HEADER
    );
    let m = ok(&text, strict());
    let o = &m.objects.0[0];
    assert_eq!(o.proto_id, 2007);
    assert_eq!((o.map_x, o.map_y), (10, 11));
    assert_eq!(o.dir, Some(3));
    assert_eq!(o.relations.uid, Some(5));
    assert_eq!(o.relations.container_uid, Some(4));
    assert_eq!((o.light.color, o.light.distance, o.light.intensity), (Some(255), Some(6), Some(50)));
    match &o.kind {
        Kind::Item { anim, count, val } => {
            assert_eq!(anim.anim_stay_begin, Some(2));
            assert_eq!(*count, Some(9));
            assert_eq!(val[0], Some(-1));
            assert_eq!(val[9], Some(8));
        },
        other => panic!("expected an item, got {:?}", other),
    }
}

#[test]
fn duplicate_key_takes_the_first() {
    let text = format!("{}Version 1\nVersion 2\n[Tiles]\n[Objects]\n", HEADER);
    assert_eq!(ok(&text, strict()).header.version, Some(1));
}

#[test]
fn root_reports_where_reading_stopped() {
    let text = format!("{}[Tiles]\n[Objects]\n  [Extra]\n", HEADER);
    let chars: Vec<char> = text.chars().collect();
    match root(&chars, &strict()) {
        Ok((q, m)) => {
            assert_eq!(q, text.find("[Extra]").unwrap());
            assert!(m.tiles.0.is_empty());
        },
        Err(e) => panic!("unexpected error: {:?}", e),
    }
}

#[test]
fn tile_offset_is_its_hex() {
    let text = format!("{}[Tiles]\nroof_l 7 8 2 a.frm\n[Objects]\n", HEADER);
    let m = ok(&text, strict());
    assert_eq!(m.tiles.0[0].offset(), (7, 8));
}

#[test]
fn default_settings_are_strict() {
    let s = MapParserSettings::default();
    assert!(!s.allow_any);
    assert!(!s.allow_tail);
}

#[test]
fn leftover_error_quotes_from_the_given_position() {
    match Error::leftover("ab\u{e9}cd", 2) {
        Error::Leftover(s) => assert_eq!(s, "\u{e9}cd"),
        other => panic!("expected leftover, got {:?}", other),
    }
    let long = "z".repeat(300);
    match Error::leftover(&long, 100) {
        Error::Leftover(s) => assert_eq!(s.len(), 120),
        other => panic!("expected leftover, got {:?}", other),
    }
}

#[test]
fn root_fails_without_header() {
    let chars: Vec<char> = "[Tiles]\n[Objects]\n".chars().collect();
    match root(&chars, &strict()) {
        Err(e) => assert_eq!(e.pos, 0),
        Ok(_) => panic!("a map without a header block parsed"),
    }
}

#[test]
fn a_discriminator_starts_the_next_record() {
    let text = format!(
        "{}[Tiles]\n[Objects]\nMapObjType 0\nProtoId 1\nMapX 1\nMapY 1\nMapObjType 2\nProtoId 2\nMapX 2\nMapY 2\n",
        HEADER
    );
    let m = ok(&text, strict());
    assert_eq!(m.objects.0.len(), 2);
    assert_eq!(m.objects.0[0].entries.len(), 4);
    assert_eq!(m.objects.0[1].proto_id, 2);
    assert!(m.objects.0[0].span.end <= m.objects.0[1].span.start);
}

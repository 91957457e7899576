use marker_codec::elms::parse_elms_string;
use marker_codec::escape::{escape_text, unescape_chars};
use marker_codec::lines::{lines_to_string, parse_lines_string};
use marker_codec::m0r::{build_m0r_string, parse_m0r_string};
use marker_codec::model::{
    m0r_sem_eq, BreadcrumbLine, M0rMarker, M0rTexture, Marker, Position3D, Rgba,
};
use marker_codec::table::ZoneTable;
use marker_codec::zone::{MapScaleData, Zone, ZoneMap};

fn bare_zone(id: u16) -> Zone {
    Zone { id, maps: Vec::new(), name: String::new() }
}

fn one_map_zone(id: u16) -> Zone {
    Zone {
        id,
        maps: vec![ZoneMap {
            name: String::new(),
            tiles: Vec::new(),
            map_id: 42,
            zone_id: id,
            count: 3,
            scale_data: MapScaleData {
                min_x: -100000,
                max_x: 200000,
                min_z: -100000,
                max_z: 200000,
                y: None,
            },
        }],
        name: String::new(),
    }
}

fn line(p1: (i32, i32, i32), p2: (i32, i32, i32), colour: Rgba, id: u16) -> BreadcrumbLine {
    BreadcrumbLine {
        position1: Position3D { x: p1.0, y: p1.1, z: p1.2 },
        position2: Position3D { x: p2.0, y: p2.1, z: p2.2 },
        active: true,
        colour,
        id,
        map_id: 42,
    }
}

#[test]
fn lines_build_exact_string() {
    let red = Rgba { r: 255, g: 0, b: 0, a: 255 };
    let mut t: ZoneTable<BreadcrumbLine> = ZoneTable::new();
    t.push_item(1000, line((10, 20, 30), (40, 20, 30), red, 0));
    let s = lines_to_string(&t);
    assert_eq!(s, "3E8;A;14;1E;1;FF0000;2;0;0;0;1E;0;0;1;1;1;2;");
}

#[test]
fn lines_roundtrip_with_shared_endpoint() {
    let red = Rgba { r: 255, g: 0, b: 0, a: 255 };
    let blue = Rgba { r: 0, g: 0, b: 255, a: 255 };
    let mut t: ZoneTable<BreadcrumbLine> = ZoneTable::new();
    t.push_item(77, line((100, 5, 100), (200, 5, 100), red, 0));
    t.push_item(77, line((200, 5, 100), (300, 5, 200), blue, 1));
    let s = lines_to_string(&t);
    let t2 = parse_lines_string(&s, vec![one_map_zone(77)]);
    let ls = t2.get(77).expect("zone parsed back");
    assert_eq!(ls.len(), 2);
    for (a, b) in ls.iter().zip(t.get(77).unwrap().iter()) {
        assert_eq!(a.position1, b.position1);
        assert_eq!(a.position2, b.position2);
        assert_eq!(a.colour, b.colour);
        assert!(a.active);
    }
    // the shared endpoint is stored once: three table entries for four
    // endpoint slots
    let toks: Vec<&str> = s.split(';').collect();
    let ccount = usize::from_str_radix(toks[4], 16).unwrap();
    let pcount_tok = toks[5 + ccount];
    assert_eq!(usize::from_str_radix(pcount_tok, 16).unwrap(), 3);
}

#[test]
fn lines_zone_token_tolerates_garbage_prefix() {
    // only the trailing hex digits of the zone token count
    let s = "zz3E8;0;0;0;1;FF0000;2;1;1;1;2;2;2;1;1;1;2;";
    let t = parse_lines_string(s, vec![bare_zone(1000)]);
    let ls = t.get(1000).expect("zone parsed");
    assert_eq!(ls.len(), 1);
    assert_eq!(ls[0].position1, Position3D { x: 1, y: 1, z: 1 });
    assert_eq!(ls[0].position2, Position3D { x: 2, y: 2, z: 2 });
}

#[test]
fn lines_malformed_counts_default_to_zero() {
    let t = parse_lines_string("3E8;0;0;0;zz;", vec![bare_zone(1000)]);
    assert!(t.get(1000).is_none());
}

#[test]
fn lines_resolve_map_from_midpoint() {
    let s = "4D2;0;0;0;1;00FF00;2;0;0;0;64;0;0;1;1;1;2;";
    let t = parse_lines_string(s, vec![one_map_zone(1234)]);
    let ls = t.get(1234).expect("zone parsed");
    assert_eq!(ls[0].map_id, 42);
    assert_eq!(ls[0].colour, Rgba { r: 0, g: 255, b: 0, a: 255 });
}

fn m0r(pos: (i32, i32, i32), id: u16) -> M0rMarker {
    M0rMarker {
        position: Position3D { x: pos.0, y: pos.1, z: pos.2 },
        background_texture: M0rTexture::Absent,
        text: Some(String::new()),
        size: "1".to_string(),
        colour: Rgba { r: 255, g: 255, b: 255, a: 255 },
        orientation: None,
        active: true,
        id,
        map_id: 42,
    }
}

#[test]
fn rich_marker_build_exact_string() {
    let mut t: ZoneTable<Marker> = ZoneTable::new();
    t.push_item(1000, Marker::M0r(m0r((63400, 0, 75500), 0)));
    let s = build_m0r_string(&t, "77");
    assert_eq!(s, "<1000]77]f7a8:0:126ec]]]]ffffff:1]^7:1]0:0:0:>");
}

#[test]
fn rich_marker_roundtrip_with_attributes() {
    let mut m = m0r((1000, 50, 2000), 0);
    m.size = "1.5".to_string();
    m.colour = Rgba { r: 255, g: 128, b: 0, a: 255 };
    m.orientation = Some((-45, 270));
    m.background_texture = M0rTexture::Known(marker_codec::model::M0rIcon::Diamond);
    m.text = Some("hello there".to_string());
    let mut t: ZoneTable<Marker> = ZoneTable::new();
    t.push_item(1234, Marker::M0r(m.clone()));
    let s = build_m0r_string(&t, "0");
    let t2 = parse_m0r_string(&s, vec![one_map_zone(1234)]);
    let ms = t2.get(1234).expect("zone parsed back");
    assert_eq!(ms.len(), 1);
    match &ms[0] {
        Marker::M0r(m2) => assert!(m0r_sem_eq(m2, &m)),
        _ => panic!("expected a rich marker"),
    }
}

#[test]
fn rich_marker_escape_roundtrip() {
    let text = "a:b,c]d;e>f\nand more";
    let mut m = m0r((10, 10, 10), 0);
    m.text = Some(text.to_string());
    let mut t: ZoneTable<Marker> = ZoneTable::new();
    t.push_item(5, Marker::M0r(m));
    let s = build_m0r_string(&t, "1");
    // the delimiters never appear bare inside the record's text slot
    let inner = &s[1..s.len() - 1];
    assert_eq!(inner.split(']').count(), 9);
    let t2 = parse_m0r_string(&s, vec![one_map_zone(5)]);
    let ms = t2.get(5).expect("zone parsed back");
    match &ms[0] {
        Marker::M0r(m2) => assert_eq!(m2.text.as_deref(), Some(text)),
        _ => panic!("expected a rich marker"),
    }
}

#[test]
fn escape_helpers_roundtrip() {
    let original: Vec<char> = "x:y,z]w;v>u\n!".chars().collect();
    let escaped = escape_text(&original);
    assert!(!escaped.contains(':') && !escaped.contains(',') && !escaped.contains(']'));
    assert!(!escaped.contains(';') && !escaped.contains('>') && !escaped.contains('\n'));
    let escaped_chars: Vec<char> = escaped.chars().collect();
    let back = unescape_chars(&escaped_chars);
    assert_eq!(back, original);
}

#[test]
fn rich_marker_malformed_envelope_yields_nothing() {
    let t = parse_m0r_string("no brackets here", vec![one_map_zone(5)]);
    assert_eq!(t.zone_count(), 0);
    let t2 = parse_m0r_string("<5]only]three>", vec![one_map_zone(5)]);
    assert_eq!(t2.zone_count(), 0);
}

#[test]
fn rich_marker_unknown_zone_yields_nothing() {
    let t = parse_m0r_string("<9999]0]0:0:0]]]]]]0:0:0:>", vec![one_map_zone(5)]);
    assert_eq!(t.zone_count(), 0);
}

#[test]
fn rich_marker_inactive_excluded() {
    let mut m = m0r((10, 10, 10), 0);
    m.active = false;
    let mut t: ZoneTable<Marker> = ZoneTable::new();
    t.push_item(5, Marker::M0r(m));
    assert_eq!(build_m0r_string(&t, "1"), "");
}

#[test]
fn rich_marker_attribute_groups_share_values() {
    // two markers share a size group, one keeps the default
    let m1 = m0r((0, 0, 0), 0);
    let mut m2 = m0r((16, 0, 0), 1);
    m2.size = "2".to_string();
    let mut m3 = m0r((32, 0, 0), 2);
    m3.size = "2".to_string();
    let mut t: ZoneTable<Marker> = ZoneTable::new();
    t.push_item(5, Marker::M0r(m1));
    t.push_item(5, Marker::M0r(m2));
    t.push_item(5, Marker::M0r(m3));
    let s = build_m0r_string(&t, "9");
    let inner = &s[1..s.len() - 1];
    let fields: Vec<&str> = inner.split(']').collect();
    assert_eq!(fields[3], "2:2,3");
    let t2 = parse_m0r_string(&s, vec![one_map_zone(5)]);
    let ms = t2.get(5).expect("zone parsed back");
    assert_eq!(ms.len(), 3);
    let sizes: Vec<String> = ms
        .iter()
        .map(|mk| match mk {
            Marker::M0r(m) => m.size.clone(),
            _ => panic!("expected rich markers"),
        })
        .collect();
    assert_eq!(sizes, vec!["1", "2", "2"]);
}

#[test]
fn lines_truncated_stream_never_panics() {
    // the point count promises more data than the stream holds
    let t = parse_lines_string("3E8;0;0;0;0;2;1;2;3;", vec![bare_zone(1000)]);
    assert!(t.get(1000).is_none());
}

#[test]
fn rich_marker_out_of_range_group_index_ignored() {
    let s = "<5]0]0:0:0]2:9]]]]]0:0:0:>";
    let t = parse_m0r_string(s, vec![one_map_zone(5)]);
    let ms = t.get(5).expect("zone parsed");
    match &ms[0] {
        Marker::M0r(m) => assert_eq!(m.size, "1"),
        _ => panic!("expected a rich marker"),
    }
}

#[test]
fn mixed_blob_parses_through_all_three_codecs() {
    let blob = "/5//10,10,10,1/\n<5]0]0:0:0]]]]]]1:2:3:>\n3E8;0;0;0;1;FF0000;2;1;1;1;2;2;2;1;1;1;2;";
    let zones = || vec![one_map_zone(5), bare_zone(1000)];
    let simple = parse_elms_string(blob, zones());
    assert_eq!(simple.get(5).map(|v| v.len()), Some(1));
    let rich = parse_m0r_string(blob, zones());
    assert_eq!(rich.get(5).map(|v| v.len()), Some(1));
    let lines = parse_lines_string(blob, zones());
    assert_eq!(lines.get(1000).map(|v| v.len()), Some(1));
}

use marker_codec::colors::{argb_to_hex_string, hex_to_argb, hex_to_rgba, rgba_to_hex_string};
use marker_codec::elms::{build_elms_string, parse_elms_string};
use marker_codec::icons::{
    elms_icon_code, elms_icon_from_code, elms_icon_from_path, elms_icon_path, get_svg,
    m0r_texture_from_og, m0r_texture_to_og,
};
use marker_codec::model::{
    elm_sem_eq, ElmMarker, ElmsIcon, M0rIcon, M0rTexture, Marker, Position3D, Rgba,
};
use marker_codec::table::ZoneTable;
use marker_codec::zone::{find_best_map, MapScaleData, Zone, ZoneMap};

fn map(map_id: u16, zone_id: u16, min_x: i32, max_x: i32, min_z: i32, max_z: i32) -> ZoneMap {
    ZoneMap {
        name: String::new(),
        tiles: Vec::new(),
        map_id,
        zone_id,
        count: 3,
        scale_data: MapScaleData { min_x, max_x, min_z, max_z, y: None },
    }
}

fn asylum() -> Zone {
    Zone {
        id: 1000,
        maps: vec![
            map(1391, 1000, 63360, 110930, 75410, 122980),
            map(1392, 1000, 84629, 116629, 83199, 115199),
        ],
        name: "Asylum Sanctorium".to_string(),
    }
}

fn elm(zone: &Zone, x: i32, y: i32, z: i32, code: u16, id: u16) -> ElmMarker {
    let map_id = find_best_map(x, y, z, zone).map_or(0, |m| m.map_id);
    ElmMarker {
        position: Position3D { x, y, z },
        icon: elms_icon_from_code(code),
        size: 1,
        active: true,
        id,
        map_id,
    }
}

#[test]
fn simple_marker_concrete_scenario() {
    let zones = vec![asylum()];
    let t = parse_elms_string("/1000//63400,0,75500,1/", zones);
    let ms = t.get(1000).expect("zone 1000 parsed");
    assert_eq!(ms.len(), 1);
    match &ms[0] {
        Marker::Elms(m) => {
            assert_eq!(m.position, Position3D { x: 63400, y: 0, z: 75500 });
            assert_eq!(m.icon, ElmsIcon::Num(1));
            assert_eq!(m.map_id, 1391);
            assert_eq!(m.id, 0);
            assert!(m.active);
        },
        _ => panic!("expected a simple marker"),
    }
}

#[test]
fn simple_marker_roundtrip() {
    let zone = asylum();
    let m = elm(&zone, 63400, 0, 75500, 7, 0);
    let mut t: ZoneTable<Marker> = ZoneTable::new();
    t.push_item(1000, Marker::Elms(m));
    let s = build_elms_string(&t);
    assert_eq!(s, "/1000//63400,0,75500,7/");
    let t2 = parse_elms_string(&s, vec![asylum()]);
    let ms = t2.get(1000).expect("zone parsed back");
    assert_eq!(ms.len(), 1);
    match &ms[0] {
        Marker::Elms(m2) => assert!(elm_sem_eq(m2, &m) && m2.id == 0),
        _ => panic!("expected a simple marker"),
    }
}

#[test]
fn simple_marker_dedup() {
    let zones = vec![asylum()];
    let t = parse_elms_string("/1000//63400,0,75500,1//1000//63400,0,75500,1/", zones);
    let ms = t.get(1000).expect("zone parsed");
    assert_eq!(ms.len(), 1);
}

#[test]
fn simple_marker_inactive_excluded() {
    let zone = asylum();
    let mut m = elm(&zone, 63400, 0, 75500, 1, 0);
    m.active = false;
    let mut t: ZoneTable<Marker> = ZoneTable::new();
    t.push_item(1000, Marker::Elms(m));
    let s = build_elms_string(&t);
    assert_eq!(s, "");
    let t2 = parse_elms_string(&s, vec![asylum()]);
    assert!(t2.get(1000).is_none());
}

#[test]
fn simple_marker_garbage_ignored() {
    let zones = vec![asylum()];
    let t = parse_elms_string("hello /1000//63400,0,75500,3/ world /nope//1,2/", zones);
    let ms = t.get(1000).expect("zone parsed");
    assert_eq!(ms.len(), 1);
}

#[test]
fn simple_marker_unknown_zone_skipped() {
    let zones = vec![asylum()];
    let t = parse_elms_string("/999//1,2,3,4/", zones);
    assert!(t.get(999).is_none());
    assert_eq!(t.zone_count(), 0);
}

#[test]
fn simple_markers_sorted_by_icon_code() {
    let zone = asylum();
    let a = elm(&zone, 63400, 0, 75500, 20, 0);
    let b = elm(&zone, 63500, 0, 75600, 3, 1);
    let mut t: ZoneTable<Marker> = ZoneTable::new();
    t.push_item(1000, Marker::Elms(a));
    t.push_item(1000, Marker::Elms(b));
    let s = build_elms_string(&t);
    assert_eq!(s, "/1000//63500,0,75600,3//1000//63400,0,75500,20/");
}

#[test]
fn unknown_icon_code_parses_and_falls_back_to_14() {
    let zones = vec![asylum()];
    let t = parse_elms_string("/1000//63400,0,75500,9999/", zones);
    let ms = t.get(1000).expect("zone parsed");
    match &ms[0] {
        Marker::Elms(m) => assert_eq!(m.icon, ElmsIcon::Unknown),
        _ => panic!("expected a simple marker"),
    }
    let s = build_elms_string(&t);
    assert_eq!(s, "/1000//63400,0,75500,14/");
}

#[test]
fn icon_code_roundtrip_all_vocabulary() {
    for c in 1u16..=71 {
        let icon = elms_icon_from_code(c);
        assert_ne!(icon, ElmsIcon::Unknown);
        assert_eq!(elms_icon_code(&icon), c);
    }
    assert_eq!(elms_icon_from_code(0), ElmsIcon::Unknown);
    assert_eq!(elms_icon_from_code(72), ElmsIcon::Unknown);
    assert_eq!(elms_icon_from_code(45), ElmsIcon::Letter('a'));
    assert_eq!(elms_icon_from_code(70), ElmsIcon::Letter('z'));
}

#[test]
fn icon_paths_roundtrip() {
    assert_eq!(elms_icon_path(&ElmsIcon::Num(7)), "7.png");
    assert_eq!(elms_icon_path(&ElmsIcon::Arrow), "arrow.png");
    assert_eq!(elms_icon_path(&ElmsIcon::Letter('q')), "q.png");
    assert_eq!(elms_icon_from_path("10.png"), ElmsIcon::Num(10));
    assert_eq!(elms_icon_from_path("squares/square_red_MT.png"), ElmsIcon::SquareRedMT);
    assert_eq!(elms_icon_from_path("q.png"), ElmsIcon::Letter('q'));
    assert_eq!(elms_icon_from_path("Q.png"), ElmsIcon::Unknown);
    assert_eq!(elms_icon_from_path("whatever"), ElmsIcon::Unknown);
}

#[test]
fn texture_tokens_roundtrip() {
    assert!(matches!(m0r_texture_from_og("^1"), M0rTexture::Known(M0rIcon::Circle)));
    assert!(matches!(m0r_texture_from_og("^21"), M0rTexture::Known(M0rIcon::ClassArcanist)));
    assert!(matches!(m0r_texture_from_og(""), M0rTexture::Absent));
    match m0r_texture_from_og("custom/texture.dds") {
        M0rTexture::Unknown(s) => assert_eq!(s, "custom/texture.dds"),
        _ => panic!("expected free text"),
    }
    assert_eq!(m0r_texture_to_og(&M0rTexture::Known(M0rIcon::SharkPog)), "^8");
    assert_eq!(m0r_texture_to_og(&M0rTexture::Absent), "^7");
}

#[test]
fn svg_data_for_path_drawn_icons() {
    let d = get_svg(&M0rTexture::Known(M0rIcon::Square)).expect("square has a path");
    assert_eq!(d.path, "M3 3v249h249V3z");
    assert_eq!(d.view_box, "0 0 256 256");
    assert!(get_svg(&M0rTexture::Known(M0rIcon::Blank)).is_none());
    assert!(get_svg(&M0rTexture::Absent).is_none());
}

#[test]
fn colour_words_split_and_format() {
    assert_eq!(hex_to_rgba(0xFF0000), (255, 0, 0, 255));
    assert_eq!(hex_to_rgba(0x11223344), (0x11, 0x22, 0x33, 0x44));
    assert_eq!(hex_to_argb(0x0000FF), (255, 0, 0, 255));
    assert_eq!(hex_to_argb(0x80FF8040), (0x80, 0xFF, 0x80, 0x40));
    assert_eq!(rgba_to_hex_string((255, 0, 128, 255)), "#FF0080");
    assert_eq!(rgba_to_hex_string((255, 0, 128, 16)), "#FF008010");
    assert_eq!(argb_to_hex_string((255, 1, 2, 3)), "#010203");
    assert_eq!(argb_to_hex_string((16, 1, 2, 3)), "#10010203");
}

#[test]
fn best_map_prefers_smaller_area_on_elevation_tie() {
    let big = map(1, 7, 0, 1000, 0, 1000);
    let small = map(2, 7, 0, 100, 0, 100);
    let z1 = Zone { id: 7, maps: vec![big.clone(), small.clone()], name: String::new() };
    let z2 = Zone { id: 7, maps: vec![small, big], name: String::new() };
    let r1 = find_best_map(50, 0, 50, &z1).expect("contained");
    let r2 = find_best_map(50, 0, 50, &z2).expect("contained");
    assert_eq!(r1.map_id, 2);
    assert_eq!(r2.map_id, 2);
}

#[test]
fn best_map_prefers_known_and_closer_elevation() {
    let mut lo = map(1, 7, 0, 1000, 0, 1000);
    lo.scale_data.y = Some(0);
    let mut hi = map(2, 7, 0, 1000, 0, 1000);
    hi.scale_data.y = Some(500);
    let none = map(3, 7, 0, 10, 0, 10);
    let z = Zone { id: 7, maps: vec![none, lo, hi], name: String::new() };
    assert_eq!(find_best_map(5, 480, 5, &z).unwrap().map_id, 2);
    assert_eq!(find_best_map(5, 10, 5, &z).unwrap().map_id, 1);
}

#[test]
fn best_map_is_deterministic_and_total() {
    let zone = asylum();
    let a = find_best_map(90000, 0, 90000, &zone).map(|m| m.map_id);
    let b = find_best_map(90000, 0, 90000, &zone).map(|m| m.map_id);
    assert_eq!(a, b);
    assert!(find_best_map(-5, 0, -5, &zone).is_none());
}

#[test]
fn simple_marker_overflowing_numbers_ignored() {
    let zones = vec![asylum()];
    let t = parse_elms_string(
        "/1000//99999999999999999999,0,1,1//70000//1,2,3,4/",
        zones,
    );
    assert_eq!(t.zone_count(), 0);
}

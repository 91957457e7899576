//! Zones, their maps, and nearest-map resolution.
//!
//! A zone groups one or more maps (floors, rooms) whose world-space
//! bounding boxes may overlap.  [`find_best_map`] decides which map a 3D
//! point belongs to: among the maps whose X/Z box contains the point it
//! prefers a known reference elevation, then the closest elevation, and
//! breaks remaining ties by the smaller bounding-box area — a smaller,
//! more specific sub-map is more likely correct.  The whole decision is a
//! pure function of the point and the zone.

use vstd::prelude::*;

verus! {

/// One tile of a map's background image grid.
#[derive(Debug, Clone)]
pub struct Tile {
    pub path: String,
}

/// A map's world-space bounding box and optional reference elevation.
#[derive(Debug, Clone, Copy, PartialEq, Eq, Structural)]
pub struct MapScaleData {
    pub min_x: i32,
    pub max_x: i32,
    pub min_z: i32,
    pub max_z: i32,
    /// The elevation the map was surveyed at, where known; maps without
    /// one lose every elevation comparison.
    pub y: Option<i32>,
}

/// A renderable sub-region of a zone.
#[derive(Debug, Clone)]
pub struct ZoneMap {
    pub name: String,
    pub tiles: Vec<Tile>,
    pub map_id: u16,
    pub zone_id: u16,
    pub count: u8,
    pub scale_data: MapScaleData,
}

/// A game area containing one or more maps.
#[derive(Debug, Clone)]
pub struct Zone {
    pub id: u16,
    pub maps: Vec<ZoneMap>,
    pub name: String,
}

/// Whether a map's X/Z bounding box contains the point.
pub open spec fn map_matches(m: ZoneMap, x: int, z: int) -> bool {
    &&& m.scale_data.min_x as int <= x <= m.scale_data.max_x as int
    &&& m.scale_data.min_z as int <= z <= m.scale_data.max_z as int
}

/// A map's bounding-box width, clamped at zero for a degenerate box.
pub open spec fn map_width(m: ZoneMap) -> int {
    if m.scale_data.max_x as int >= m.scale_data.min_x as int {
        m.scale_data.max_x as int - m.scale_data.min_x as int
    } else {
        0
    }
}

/// A map's bounding-box depth, clamped at zero for a degenerate box.
pub open spec fn map_depth(m: ZoneMap) -> int {
    if m.scale_data.max_z as int >= m.scale_data.min_z as int {
        m.scale_data.max_z as int - m.scale_data.min_z as int
    } else {
        0
    }
}

/// A map's bounding-box area, saturated at the 32-bit limit.
pub open spec fn map_area(m: ZoneMap) -> int {
    if map_width(m) * map_depth(m) > u32::MAX as int {
        u32::MAX as int
    } else {
        map_width(m) * map_depth(m)
    }
}

/// The elevation component of a map's preference key: maps with a known
/// reference elevation come first, ordered by distance to the point's
/// elevation; maps without one all share the worst possible distance.
pub open spec fn map_elev_key(m: ZoneMap, y: int) -> int {
    match m.scale_data.y {
        Option::Some(by) => if y >= by as int {
            y - by as int
        } else {
            by as int - y
        },
        Option::None => (0x1_0000_0000_0000_0000 as int) + (0xFFFF_FFFF as int),
    }
}

/// A map's whole preference key: elevation first, bounding-box area as the
/// final tie-break.  Smaller is better.
pub open spec fn map_key(m: ZoneMap, y: int) -> int {
    map_elev_key(m, y) * 0x1_0000_0000 + map_area(m)
}

/// The map the point resolves to: the first map, in zone order, among
/// those containing the point whose key is minimal.
pub open spec fn spec_best_map(x: int, y: int, z: int, maps: Seq<ZoneMap>) -> Option<ZoneMap>
    decreases maps.len(),
{
    if maps.len() == 0 {
        Option::None
    } else {
        let prev = spec_best_map(x, y, z, maps.drop_last());
        let m = maps.last();
        if !map_matches(m, x, z) {
            prev
        } else {
            match prev {
                Option::None => Option::Some(m),
                Option::Some(b) => if map_key(m, y) < map_key(b, y) {
                    Option::Some(m)
                } else {
                    prev
                },
            }
        }
    }
}

fn map_key_exec(m: &ZoneMap, y: i32) -> (k: u128)
    ensures
        k as int == map_key(*m, y as int),
{
    let wd: i64 = m.scale_data.max_x as i64 - m.scale_data.min_x as i64;
    let w: u64 = if wd < 0 {
        0
    } else {
        wd as u64
    };
    let dd: i64 = m.scale_data.max_z as i64 - m.scale_data.min_z as i64;
    let d: u64 = if dd < 0 {
        0
    } else {
        dd as u64
    };
    assert(w as int == map_width(*m) && d as int == map_depth(*m));
    assert(w <= 0xFFFF_FFFFu64 && d <= 0xFFFF_FFFFu64);
    assert(w as u128 * d as u128 <= 0xFFFF_FFFFu128 * 0xFFFF_FFFFu128) by (nonlinear_arith)
        requires
            w <= 0xFFFF_FFFFu64,
            d <= 0xFFFF_FFFFu64,
    ;
    let prod: u128 = w as u128 * d as u128;
    let area: u128 = if prod > u32::MAX as u128 {
        u32::MAX as u128
    } else {
        prod
    };
    let elev: u128 = match m.scale_data.y {
        Option::Some(by) => {
            let dy: i64 = y as i64 - by as i64;
            let off: u64 = if dy < 0 {
                (-dy) as u64
            } else {
                dy as u64
            };
            off as u128
        },
        Option::None => 0x1_0000_0000_0000_0000u128 + 0xFFFF_FFFFu128,
    };
    assert(elev as int == map_elev_key(*m, y as int));
    elev * 0x1_0000_0000u128 + area
}

/// Resolves the map a point belongs to within a zone, or nothing when no
/// map's bounding box contains the point; the caller chooses its policy
/// for that case.  The result is fully determined by the point and the
/// zone's map list.
pub fn find_best_map<'a>(x: i32, y: i32, z: i32, zone: &'a Zone) -> (r: Option<&'a ZoneMap>)
    ensures
        match r {
            Option::Some(m) => spec_best_map(x as int, y as int, z as int, zone.maps@)
                == Option::Some(*m),
            Option::None => spec_best_map(x as int, y as int, z as int, zone.maps@) is None,
        },
{
    let mut best: Option<&ZoneMap> = None;
    let mut best_key: u128 = 0;
    let mut i: usize = 0;
    while i < zone.maps.len()
        invariant
            i <= zone.maps@.len(),
            match best {
                Option::Some(b) => {
                    &&& spec_best_map(x as int, y as int, z as int, zone.maps@.take(i as int))
                        == Option::Some(*b)
                    &&& best_key as int == map_key(*b, y as int)
                },
                Option::None => spec_best_map(
                    x as int,
                    y as int,
                    z as int,
                    zone.maps@.take(i as int),
                ) is None,
            },
        decreases zone.maps@.len() - i,
    {
        let m = &zone.maps[i];
        proof {
            assert(zone.maps@.take(i + 1).drop_last() =~= zone.maps@.take(i as int));
            assert(zone.maps@.take(i + 1).last() == zone.maps@[i as int]);
        }
        let matches_box = m.scale_data.min_x <= x && x <= m.scale_data.max_x
            && m.scale_data.min_z <= z && z <= m.scale_data.max_z;
        if matches_box {
            let k = map_key_exec(m, y);
            match best {
                Option::None => {
                    best = Some(m);
                    best_key = k;
                },
                Option::Some(_) => {
                    if k < best_key {
                        best = Some(m);
                        best_key = k;
                    }
                },
            }
        }
        i = i + 1;
    }
    proof {
        assert(zone.maps@.take(i as int) =~= zone.maps@);
    }
    best
}

/// Among maps that contain the point and tie on elevation, the smaller
/// bounding-box area wins, whichever order the zone lists them in.
pub proof fn lemma_best_map_area_tiebreak(x: int, y: int, z: int, m1: ZoneMap, m2: ZoneMap)
    requires
        map_matches(m1, x, z),
        map_matches(m2, x, z),
        map_elev_key(m1, y) == map_elev_key(m2, y),
        map_area(m1) < map_area(m2),
    ensures
        spec_best_map(x, y, z, seq![m1, m2]) == Option::Some(m1),
        spec_best_map(x, y, z, seq![m2, m1]) == Option::Some(m1),
{
    assert(0 <= map_area(m1) && map_area(m2) <= u32::MAX as int);
    assert(map_key(m1, y) < map_key(m2, y)) by (nonlinear_arith)
        requires
            map_elev_key(m1, y) == map_elev_key(m2, y),
            map_area(m1) < map_area(m2),
    ;
    assert(spec_best_map(x, y, z, Seq::<ZoneMap>::empty()) is None);
    let s12 = seq![m1, m2];
    assert(s12.drop_last() =~= seq![m1]);
    assert(seq![m1].drop_last() =~= Seq::<ZoneMap>::empty());
    assert(spec_best_map(x, y, z, seq![m1]) == Option::Some(m1));
    let s21 = seq![m2, m1];
    assert(s21.drop_last() =~= seq![m2]);
    assert(seq![m2].drop_last() =~= Seq::<ZoneMap>::empty());
    assert(spec_best_map(x, y, z, seq![m2]) == Option::Some(m2));
}

/// The first zone of a list carrying the given id, if any: the lookup the
/// parsers share.
pub open spec fn spec_find_zone(zones: Seq<Zone>, id: u16) -> Option<Zone>
    decreases zones.len(),
{
    if zones.len() == 0 {
        Option::None
    } else if zones[0].id == id {
        Option::Some(zones[0])
    } else {
        spec_find_zone(zones.drop_first(), id)
    }
}

/// Executable form of [`spec_find_zone`].
pub fn find_zone<'a>(zones: &'a Vec<Zone>, id: u16) -> (r: Option<&'a Zone>)
    ensures
        match r {
            Option::Some(zz) => spec_find_zone(zones@, id) == Option::Some(*zz),
            Option::None => spec_find_zone(zones@, id) is None,
        },
{
    let mut i: usize = 0;
    proof {
        assert(zones@.skip(0) =~= zones@);
    }
    while i < zones.len()
        invariant
            i <= zones@.len(),
            forall|j: int| 0 <= j < i ==> (#[trigger] zones@[j]).id != id,
            spec_find_zone(zones@, id) == spec_find_zone(zones@.skip(i as int), id),
        decreases zones@.len() - i,
    {
        if zones[i].id == id {
            proof {
                assert(zones@.skip(i as int)[0] == zones@[i as int]);
            }
            return Some(&zones[i]);
        }
        proof {
            assert(zones@.skip(i as int).drop_first() =~= zones@.skip(i + 1));
        }
        i = i + 1;
    }
    proof {
        assert(zones@.skip(i as int).len() == 0);
    }
    None
}

} // verus!

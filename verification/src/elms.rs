//! The simple numeric marker format: records `/{zone}//{x},{y},{z},{icon}/`
//! concatenated with nothing between them.
//!
//! Parsing is a best-effort scan, as a live textarea demands: the scanner
//! takes every non-overlapping, left-most occurrence of the record shape
//! (each numeric field a maximal digit run) and ignores everything else;
//! a record whose numbers do not fit their fields is ignored too, never an
//! error.  Parsed markers are deduplicated per zone by their semantic key
//! and given sequential per-zone ids.  Building writes each zone ascending,
//! its active markers ordered by icon code; inactive markers are omitted —
//! deactivation is this format's soft delete.

use vstd::prelude::*;

use crate::model::{ElmMarker, Marker, Position3D};
use crate::numeric::{
    is_dec_digit, dec_seq_val, spec_dec_chars, spec_dec_chars_signed, spec_parse_dec_u64,
    parse_dec_u64_range, push_dec_u64, push_dec_i64,
};
use crate::icons::{spec_elms_icon_from_code, spec_elms_icon_code, elms_icon_from_code,
    elms_icon_code};
use crate::zone::{Zone, spec_find_zone, find_zone, spec_best_map, find_best_map};
use crate::table::{ZoneTable, spec_table_get, spec_table_add};
use crate::strutil::{str_to_chars, chars_to_string};

verus! {

/// One textual record of the format, before it becomes a marker.
#[derive(Debug, Clone, Copy, PartialEq, Eq, Structural)]
pub struct ElmsRecord {
    pub zone_id: u16,
    pub x: i32,
    pub y: i32,
    pub z: i32,
    pub icon_code: u16,
}

// ---------------------------------------------------------------------------
// Scanning
// ---------------------------------------------------------------------------
/// The end of the maximal run of decimal digits starting at `i`.
pub open spec fn digit_run_end(s: Seq<char>, i: int) -> int
    decreases s.len() - i,
{
    if 0 <= i < s.len() && is_dec_digit(s[i]) {
        digit_run_end(s, i + 1)
    } else {
        i
    }
}

pub proof fn lemma_digit_run(s: Seq<char>, i: int)
    requires
        0 <= i <= s.len(),
    ensures
        i <= digit_run_end(s, i) <= s.len(),
        forall|j: int| i <= j < digit_run_end(s, i) ==> is_dec_digit(#[trigger] s[j]),
        digit_run_end(s, i) < s.len() ==> !is_dec_digit(s[digit_run_end(s, i)]),
    decreases s.len() - i,
{
    if i < s.len() && is_dec_digit(s[i]) {
        lemma_digit_run(s, i + 1);
    }
}

/// A maximal digit run is pinned down by its bounds: all digits inside,
/// none just after.
pub proof fn lemma_digit_run_exact(s: Seq<char>, a: int, b: int)
    requires
        0 <= a <= b <= s.len(),
        forall|j: int| a <= j < b ==> is_dec_digit(#[trigger] s[j]),
        b < s.len() ==> !is_dec_digit(s[b]),
    ensures
        digit_run_end(s, a) == b,
    decreases b - a,
{
    if a < b {
        lemma_digit_run_exact(s, a + 1, b);
    }
}

/// The record starting exactly at `i`, with the index just past it; or
/// nothing if no record starts at `i`.  Each field is a maximal digit run,
/// and a record whose numbers overflow their fields does not count.
pub open spec fn elms_match_at(s: Seq<char>, i: int) -> Option<(ElmsRecord, int)> {
    if !(0 <= i < s.len() && s[i] == '/') {
        Option::None
    } else {
        let z0 = i + 1;
        let z1 = digit_run_end(s, z0);
        if !(z1 > z0 && z1 + 1 < s.len() && s[z1] == '/' && s[z1 + 1] == '/') {
            Option::None
        } else {
            let x0 = z1 + 2;
            let x1 = digit_run_end(s, x0);
            if !(x1 > x0 && x1 < s.len() && s[x1] == ',') {
                Option::None
            } else {
                let y0 = x1 + 1;
                let y1 = digit_run_end(s, y0);
                if !(y1 > y0 && y1 < s.len() && s[y1] == ',') {
                    Option::None
                } else {
                    let w0 = y1 + 1;
                    let w1 = digit_run_end(s, w0);
                    if !(w1 > w0 && w1 < s.len() && s[w1] == ',') {
                        Option::None
                    } else {
                        let c0 = w1 + 1;
                        let c1 = digit_run_end(s, c0);
                        if !(c1 > c0 && c1 < s.len() && s[c1] == '/') {
                            Option::None
                        } else {
                            let zv = dec_seq_val(s.subrange(z0, z1));
                            let xv = dec_seq_val(s.subrange(x0, x1));
                            let yv = dec_seq_val(s.subrange(y0, y1));
                            let wv = dec_seq_val(s.subrange(w0, w1));
                            let cv = dec_seq_val(s.subrange(c0, c1));
                            if zv <= u16::MAX && xv <= i32::MAX && yv <= i32::MAX && wv
                                <= i32::MAX && cv <= u16::MAX {
                                Option::Some(
                                    (
                                        ElmsRecord {
                                            zone_id: zv as u16,
                                            x: xv as i32,
                                            y: yv as i32,
                                            z: wv as i32,
                                            icon_code: cv as u16,
                                        },
                                        c1 + 1,
                                    ),
                                )
                            } else {
                                Option::None
                            }
                        }
                    }
                }
            }
        }
    }
}

pub proof fn lemma_match_at_bounds(s: Seq<char>, i: int)
    requires
        0 <= i < s.len(),
        elms_match_at(s, i) is Some,
    ensures
        elms_match_at(s, i) matches Option::Some(p) && i < p.1 <= s.len(),
{
    lemma_digit_run(s, i + 1);
    let z1 = digit_run_end(s, i + 1);
    lemma_digit_run(s, z1 + 2);
    let x1 = digit_run_end(s, z1 + 2);
    lemma_digit_run(s, x1 + 1);
    let y1 = digit_run_end(s, x1 + 1);
    lemma_digit_run(s, y1 + 1);
    let w1 = digit_run_end(s, y1 + 1);
    lemma_digit_run(s, w1 + 1);
}

/// Every record the text holds, leftmost first, non-overlapping: the scan
/// restarts just past each record it takes, and slides one character past
/// anything that is not a record.
pub open spec fn spec_scan_elms(s: Seq<char>, i: int) -> Seq<ElmsRecord>
    decreases s.len() - i,
{
    if !(0 <= i < s.len()) {
        Seq::empty()
    } else {
        match elms_match_at(s, i) {
            Option::Some(p) => if i < p.1 <= s.len() {
                seq![p.0] + spec_scan_elms(s, p.1)
            } else {
                spec_scan_elms(s, i + 1)
            },
            Option::None => spec_scan_elms(s, i + 1),
        }
    }
}

fn digit_at(s: &Vec<char>, i: usize) -> (r: bool)
    requires
        i < s@.len(),
    ensures
        r == is_dec_digit(s@[i as int]),
{
    let d = crate::numeric::dec_digit_of(s[i]);
    d.is_some()
}

fn run_end(s: &Vec<char>, from: usize) -> (r: usize)
    requires
        from <= s@.len(),
    ensures
        r as int == digit_run_end(s@, from as int),
        from <= r <= s@.len(),
    decreases s@.len() - from,
{
    let mut i: usize = from;
    while i < s.len() && digit_at(s, i)
        invariant
            from <= i <= s@.len(),
            digit_run_end(s@, from as int) == digit_run_end(s@, i as int),
        decreases s@.len() - i,
    {
        i = i + 1;
    }
    proof {
        lemma_digit_run(s@, i as int);
    }
    i
}

fn try_match(s: &Vec<char>, i: usize) -> (r: Option<(ElmsRecord, usize)>)
    requires
        i < s@.len(),
    ensures
        match r {
            Option::Some(p) => elms_match_at(s@, i as int) == Option::Some((p.0, p.1 as int)),
            Option::None => elms_match_at(s@, i as int) is None,
        },
{
    let n = s.len();
    if s[i] != '/' {
        return None;
    }
    let z0 = i + 1;
    let z1 = run_end(s, z0);
    if !(z1 > z0 && z1 < n) {
        return None;
    }
    if !(s[z1] == '/' && z1 + 1 < n) {
        return None;
    }
    if s[z1 + 1] != '/' {
        return None;
    }
    let x0 = z1 + 2;
    let x1 = run_end(s, x0);
    if !(x1 > x0 && x1 < s.len() && s[x1] == ',') {
        return None;
    }
    let y0 = x1 + 1;
    let y1 = run_end(s, y0);
    if !(y1 > y0 && y1 < s.len() && s[y1] == ',') {
        return None;
    }
    let w0 = y1 + 1;
    let w1 = run_end(s, w0);
    if !(w1 > w0 && w1 < s.len() && s[w1] == ',') {
        return None;
    }
    let c0 = w1 + 1;
    let c1 = run_end(s, c0);
    if !(c1 > c0 && c1 < s.len() && s[c1] == '/') {
        return None;
    }
    proof {
        lemma_digit_run(s@, z0 as int);
        lemma_digit_run(s@, x0 as int);
        lemma_digit_run(s@, y0 as int);
        lemma_digit_run(s@, w0 as int);
        lemma_digit_run(s@, c0 as int);
        assert(forall|a: int, b: int|
            0 <= a <= b <= s@.len() ==> #[trigger] s@.subrange(a, b).len() == b - a);
    }
    let zv = match parse_dec_u64_range(s, z0, z1) {
        Option::Some(v) => v,
        Option::None => {
            return None;
        },
    };
    let xv = match parse_dec_u64_range(s, x0, x1) {
        Option::Some(v) => v,
        Option::None => {
            return None;
        },
    };
    let yv = match parse_dec_u64_range(s, y0, y1) {
        Option::Some(v) => v,
        Option::None => {
            return None;
        },
    };
    let wv = match parse_dec_u64_range(s, w0, w1) {
        Option::Some(v) => v,
        Option::None => {
            return None;
        },
    };
    let cv = match parse_dec_u64_range(s, c0, c1) {
        Option::Some(v) => v,
        Option::None => {
            return None;
        },
    };
    if zv <= u16::MAX as u64 && xv <= i32::MAX as u64 && yv <= i32::MAX as u64 && wv <= i32::MAX
        as u64 && cv <= u16::MAX as u64 {
        Some(
            (
                ElmsRecord {
                    zone_id: zv as u16,
                    x: xv as i32,
                    y: yv as i32,
                    z: wv as i32,
                    icon_code: cv as u16,
                },
                c1 + 1,
            ),
        )
    } else {
        None
    }
}

/// Executable form of [`spec_scan_elms`].
pub fn scan_elms(s: &Vec<char>) -> (r: Vec<ElmsRecord>)
    ensures
        r@ == spec_scan_elms(s@, 0),
{
    let mut r: Vec<ElmsRecord> = Vec::new();
    let mut i: usize = 0;
    while i < s.len()
        invariant
            i <= s@.len(),
            spec_scan_elms(s@, 0) == r@ + spec_scan_elms(s@, i as int),
        decreases s@.len() - i,
    {
        match try_match(s, i) {
            Option::Some((rec, end)) => {
                proof {
                    lemma_match_at_bounds(s@, i as int);
                    assert(spec_scan_elms(s@, i as int) =~= seq![rec] + spec_scan_elms(
                        s@,
                        end as int,
                    ));
                    assert(r@ + (seq![rec] + spec_scan_elms(s@, end as int)) =~= (r@.push(rec))
                        + spec_scan_elms(s@, end as int));
                }
                r.push(rec);
                i = end;
            },
            Option::None => {
                proof {
                    assert(spec_scan_elms(s@, i as int) == spec_scan_elms(s@, i + 1));
                }
                i = i + 1;
            },
        }
    }
    proof {
        assert(spec_scan_elms(s@, i as int) =~= Seq::<ElmsRecord>::empty());
        assert(r@ + Seq::<ElmsRecord>::empty() =~= r@);
    }
    r
}

// ---------------------------------------------------------------------------
// Parsing records into markers
// ---------------------------------------------------------------------------
/// The marker a record denotes within its zone, before an id is assigned:
/// the icon decoded from its code, size 1, active, and the map resolved
/// from the marker's own position — 0 when no map contains it.
pub open spec fn spec_marker_of_record(rec: ElmsRecord, zone: Zone) -> ElmMarker {
    ElmMarker {
        position: Position3D { x: rec.x, y: rec.y, z: rec.z },
        icon: spec_elms_icon_from_code(rec.icon_code),
        size: 1,
        active: true,
        id: 0,
        map_id: match spec_best_map(rec.x as int, rec.y as int, rec.z as int, zone.maps@) {
            Option::Some(m) => m.map_id,
            Option::None => 0,
        },
    }
}

/// Whether the list already holds a simple marker with the same semantic
/// key (everything but `id`).
pub open spec fn spec_elms_contains(ms: Seq<Marker>, m: ElmMarker) -> bool {
    exists|k: int|
        0 <= k < ms.len() && ((#[trigger] ms[k]) matches Marker::Elms(e) && e.sem_eq(m))
}

fn elms_list_contains(v: &Vec<Marker>, m: &ElmMarker) -> (r: bool)
    ensures
        r == spec_elms_contains(v@, *m),
{
    let mut k: usize = 0;
    while k < v.len()
        invariant
            k <= v@.len(),
            forall|j: int|
                0 <= j < k ==> !((#[trigger] v@[j]) matches Marker::Elms(e) && e.sem_eq(*m)),
        decreases v@.len() - k,
    {
        match &v[k] {
            Marker::Elms(e) => {
                if crate::model::elm_sem_eq(e, m) {
                    return true;
                }
            },
            _ => {},
        }
        k = k + 1;
    }
    false
}

/// One record folded into the per-zone table: nothing if the record's zone
/// is not in the catalog; nothing if the zone already holds a marker with
/// the same semantic key; otherwise the marker appended with the zone's
/// next sequential id.
pub open spec fn spec_elms_step(
    t: Seq<(u16, Seq<Marker>)>,
    rec: ElmsRecord,
    zones: Seq<Zone>,
) -> Seq<(u16, Seq<Marker>)> {
    match spec_find_zone(zones, rec.zone_id) {
        Option::None => t,
        Option::Some(zone) => {
            let cur = match spec_table_get(t, rec.zone_id) {
                Option::Some(ms) => ms,
                Option::None => Seq::empty(),
            };
            let m = ElmMarker {
                id: cur.len() as u16,
                ..spec_marker_of_record(rec, zone)
            };
            if spec_elms_contains(cur, m) {
                t
            } else {
                spec_table_add(t, rec.zone_id, Marker::Elms(m))
            }
        },
    }
}

/// All records folded, in scan order.
pub open spec fn spec_elms_fold(recs: Seq<ElmsRecord>, zones: Seq<Zone>) -> Seq<
    (u16, Seq<Marker>),
>
    decreases recs.len(),
{
    if recs.len() == 0 {
        Seq::empty()
    } else {
        spec_elms_step(spec_elms_fold(recs.drop_last(), zones), recs.last(), zones)
    }
}

/// What parsing a whole string yields.
pub open spec fn spec_parse_elms(s: Seq<char>, zones: Seq<Zone>) -> Seq<(u16, Seq<Marker>)> {
    spec_elms_fold(spec_scan_elms(s, 0), zones)
}

/// Parses a simple-marker string against a zone catalog.  Everything that
/// is not a well-formed record is ignored; markers are deduplicated per
/// zone by semantic key, keep first-seen order, and receive sequential
/// per-zone ids starting at 0.
pub fn parse_elms_string(elms_string: &str, zones: Vec<Zone>) -> (r: ZoneTable<Marker>)
    ensures
        r.view_entries() == spec_parse_elms(elms_string@, zones@),
        r.wf(),
{
    let chars = str_to_chars(elms_string);
    let recs = scan_elms(&chars);
    let mut t: ZoneTable<Marker> = ZoneTable::new();
    let mut i: usize = 0;
    proof {
        assert(recs@.take(0) =~= Seq::<ElmsRecord>::empty());
    }
    while i < recs.len()
        invariant
            i <= recs@.len(),
            t.wf(),
            t.view_entries() == spec_elms_fold(recs@.take(i as int), zones@),
        decreases recs@.len() - i,
    {
        let rec = recs[i];
        proof {
            assert(recs@.take(i + 1).drop_last() =~= recs@.take(i as int));
            assert(recs@.take(i + 1).last() == recs@[i as int]);
        }
        match find_zone(&zones, rec.zone_id) {
            Option::None => {},
            Option::Some(zone) => {
                let best = find_best_map(rec.x, rec.y, rec.z, zone);
                let map_id = match best {
                    Option::Some(m) => m.map_id,
                    Option::None => 0,
                };
                let cur_len: usize = match t.get(rec.zone_id) {
                    Option::Some(v) => v.len(),
                    Option::None => 0,
                };
                let m = ElmMarker {
                    position: Position3D { x: rec.x, y: rec.y, z: rec.z },
                    icon: elms_icon_from_code(rec.icon_code),
                    size: 1,
                    active: true,
                    id: #[verifier::truncate] (cur_len as u16),
                    map_id,
                };
                let already = match t.get(rec.zone_id) {
                    Option::Some(v) => elms_list_contains(v, &m),
                    Option::None => false,
                };
                if !already {
                    t.push_item(rec.zone_id, Marker::Elms(m));
                }
            },
        }
        i = i + 1;
    }
    proof {
        assert(recs@.take(i as int) =~= recs@);
    }
    t
}

// ---------------------------------------------------------------------------
// Building
// ---------------------------------------------------------------------------
/// One record as text: `/{zone}//{x},{y},{z},{icon}/`.
pub open spec fn spec_elms_record_chars(zone: u16, m: ElmMarker) -> Seq<char> {
    seq!['/'] + spec_dec_chars(zone as nat) + seq!['/', '/'] + spec_dec_chars_signed(
        m.position.x as int,
    ) + seq![','] + spec_dec_chars_signed(m.position.y as int) + seq![','] + spec_dec_chars_signed(
        m.position.z as int,
    ) + seq![','] + spec_dec_chars(spec_elms_icon_code(m.icon) as nat) + seq!['/']
}

/// The active simple markers of a zone's list, in stored order.
pub open spec fn spec_active_elms(ms: Seq<Marker>) -> Seq<ElmMarker>
    decreases ms.len(),
{
    if ms.len() == 0 {
        Seq::empty()
    } else {
        let rest = spec_active_elms(ms.drop_last());
        match ms.last() {
            Marker::Elms(e) => if e.active {
                rest.push(e)
            } else {
                rest
            },
            _ => rest,
        }
    }
}

/// Insertion behind every marker of a smaller or equal icon code: the
/// stable insertion the builder's cosmetic icon ordering uses.
pub open spec fn spec_insert_by_code(m: ElmMarker, s: Seq<ElmMarker>) -> Seq<ElmMarker>
    decreases s.len(),
{
    if s.len() == 0 {
        seq![m]
    } else if spec_elms_icon_code(m.icon) < spec_elms_icon_code(s[0].icon) {
        seq![m] + s
    } else {
        seq![s[0]] + spec_insert_by_code(m, s.drop_first())
    }
}

/// The list stably sorted by icon code.
pub open spec fn spec_sort_by_code(s: Seq<ElmMarker>) -> Seq<ElmMarker>
    decreases s.len(),
{
    if s.len() == 0 {
        s
    } else {
        spec_insert_by_code(s.last(), spec_sort_by_code(s.drop_last()))
    }
}

/// The records of a marker list, in order.
pub open spec fn spec_records_chars(zone: u16, es: Seq<ElmMarker>) -> Seq<char>
    decreases es.len(),
{
    if es.len() == 0 {
        Seq::empty()
    } else {
        spec_records_chars(zone, es.drop_last()) + spec_elms_record_chars(zone, es.last())
    }
}

/// What one zone's marker list contributes to the built string.
pub open spec fn spec_elms_zone_chars(zone: u16, ms: Seq<Marker>) -> Seq<char> {
    spec_records_chars(zone, spec_sort_by_code(spec_active_elms(ms)))
}

/// The whole built string: each zone in table (ascending id) order.
pub open spec fn spec_build_elms(t: Seq<(u16, Seq<Marker>)>) -> Seq<char>
    decreases t.len(),
{
    if t.len() == 0 {
        Seq::empty()
    } else {
        spec_build_elms(t.drop_last()) + spec_elms_zone_chars(t.last().0, t.last().1)
    }
}

fn collect_active(ms: &Vec<Marker>) -> (r: Vec<ElmMarker>)
    ensures
        r@ == spec_active_elms(ms@),
{
    let mut r: Vec<ElmMarker> = Vec::new();
    let mut i: usize = 0;
    proof {
        assert(ms@.take(0) =~= Seq::<Marker>::empty());
    }
    while i < ms.len()
        invariant
            i <= ms@.len(),
            r@ == spec_active_elms(ms@.take(i as int)),
        decreases ms@.len() - i,
    {
        proof {
            assert(ms@.take(i + 1).drop_last() =~= ms@.take(i as int));
            assert(ms@.take(i + 1).last() == ms@[i as int]);
        }
        match &ms[i] {
            Marker::Elms(e) => {
                if e.active {
                    r.push(*e);
                }
            },
            _ => {},
        }
        i = i + 1;
    }
    proof {
        assert(ms@.take(i as int) =~= ms@);
    }
    r
}

proof fn lemma_insert_by_code_pos(m: ElmMarker, s: Seq<ElmMarker>, p: int)
    requires
        0 <= p <= s.len(),
        forall|j: int|
            0 <= j < p ==> spec_elms_icon_code((#[trigger] s[j]).icon) <= spec_elms_icon_code(
                m.icon,
            ),
        p < s.len() ==> spec_elms_icon_code(m.icon) < spec_elms_icon_code(s[p].icon),
    ensures
        spec_insert_by_code(m, s) == s.take(p) + seq![m] + s.skip(p),
    decreases p,
{
    if s.len() == 0 {
        assert(spec_insert_by_code(m, s) =~= s.take(p) + seq![m] + s.skip(p));
    } else if p == 0 {
        assert(spec_insert_by_code(m, s) =~= s.take(0) + seq![m] + s.skip(0));
    } else {
        let d = s.drop_first();
        assert(forall|j: int| 0 <= j < d.len() ==> d[j] == s[j + 1]);
        lemma_insert_by_code_pos(m, d, p - 1);
        assert(seq![s[0]] + (d.take(p - 1) + seq![m] + d.skip(p - 1)) =~= s.take(p) + seq![m]
            + s.skip(p));
    }
}

fn code_at_most(r: &Vec<ElmMarker>, p: usize, code: u16) -> (b: bool)
    requires
        p < r@.len(),
    ensures
        b == (spec_elms_icon_code(r@[p as int].icon) <= code),
{
    let c = elms_icon_code(&r[p].icon);
    c <= code
}

fn sort_by_code(es: &Vec<ElmMarker>) -> (r: Vec<ElmMarker>)
    ensures
        r@ == spec_sort_by_code(es@),
{
    let mut r: Vec<ElmMarker> = Vec::new();
    let mut i: usize = 0;
    proof {
        assert(es@.take(0) =~= Seq::<ElmMarker>::empty());
    }
    while i < es.len()
        invariant
            i <= es@.len(),
            r@ == spec_sort_by_code(es@.take(i as int)),
        decreases es@.len() - i,
    {
        let m = es[i];
        let code = elms_icon_code(&m.icon);
        let mut p: usize = 0;
        while p < r.len() && code_at_most(&r, p, code)
            invariant
                p <= r@.len(),
                code == spec_elms_icon_code(m.icon),
                forall|j: int|
                    0 <= j < p ==> spec_elms_icon_code((#[trigger] r@[j]).icon)
                        <= spec_elms_icon_code(m.icon),
            decreases r@.len() - p,
        {
            p = p + 1;
        }
        proof {
            lemma_insert_by_code_pos(m, r@, p as int);
            assert(es@.take(i + 1).drop_last() =~= es@.take(i as int));
            assert(es@.take(i + 1).last() == es@[i as int]);
        }
        r.insert(p, m);
        proof {
            assert(r@ =~= old_take_insert(es@, i as int, p as int));
        }
        i = i + 1;
    }
    proof {
        assert(es@.take(i as int) =~= es@);
    }
    r
}

// The sorted prefix after one stable insertion; only a naming aid for the
// proof above.
spec fn old_take_insert(es: Seq<ElmMarker>, i: int, p: int) -> Seq<ElmMarker> {
    let prev = spec_sort_by_code(es.take(i));
    prev.take(p) + seq![es[i]] + prev.skip(p)
}

fn push_record(out: &mut Vec<char>, zone: u16, m: &ElmMarker)
    ensures
        final(out)@ == old(out)@ + spec_elms_record_chars(zone, *m),
{
    out.push('/');
    push_dec_u64(out, zone as u64);
    out.push('/');
    out.push('/');
    push_dec_i64(out, m.position.x as i64);
    out.push(',');
    push_dec_i64(out, m.position.y as i64);
    out.push(',');
    push_dec_i64(out, m.position.z as i64);
    out.push(',');
    let code = elms_icon_code(&m.icon);
    push_dec_u64(out, code as u64);
    out.push('/');
    proof {
        assert(final(out)@ =~= old(out)@ + spec_elms_record_chars(zone, *m));
    }
}

/// Builds the simple-marker string of a table: zones in ascending id
/// order, each zone's **active** simple markers ordered by icon code
/// (stable), one record each.  Inactive markers and rich markers write
/// nothing here.
pub fn build_elms_string(markers_by_zone: &ZoneTable<Marker>) -> (r: String)
    ensures
        r@ == spec_build_elms(markers_by_zone.view_entries()),
{
    let mut out: Vec<char> = Vec::new();
    let mut i: usize = 0;
    let ghost t = markers_by_zone.view_entries();
    proof {
        assert(t.take(0) =~= Seq::<(u16, Seq<Marker>)>::empty());
    }
    while i < markers_by_zone.entries.len()
        invariant
            i <= markers_by_zone.entries@.len(),
            t == markers_by_zone.view_entries(),
            t.len() == markers_by_zone.entries@.len(),
            out@ == spec_build_elms(t.take(i as int)),
        decreases markers_by_zone.entries@.len() - i,
    {
        let zone_id = markers_by_zone.entries[i].0;
        let active = collect_active(&markers_by_zone.entries[i].1);
        let sorted = sort_by_code(&active);
        proof {
            assert(t[i as int] == (markers_by_zone.entries@[i as int].0, markers_by_zone.entries@[
                i as int].1@));
            assert(t.take(i + 1).drop_last() =~= t.take(i as int));
            assert(t.take(i + 1).last() == t[i as int]);
        }
        let mut k: usize = 0;
        let ghost es = sorted@;
        proof {
            assert(es.take(0) =~= Seq::<ElmMarker>::empty());
        }
        while k < sorted.len()
            invariant
                k <= sorted@.len(),
                es == sorted@,
                out@ == spec_build_elms(t.take(i as int)) + spec_records_chars(
                    zone_id,
                    es.take(k as int),
                ),
                t == markers_by_zone.view_entries(),
            decreases sorted@.len() - k,
        {
            proof {
                assert(es.take(k + 1).drop_last() =~= es.take(k as int));
                assert(es.take(k + 1).last() == es[k as int]);
            }
            push_record(&mut out, zone_id, &sorted[k]);
            proof {
                assert(out@ =~= spec_build_elms(t.take(i as int)) + spec_records_chars(
                    zone_id,
                    es.take(k + 1),
                ));
            }
            k = k + 1;
        }
        proof {
            assert(es.take(k as int) =~= es);
            assert(out@ =~= spec_build_elms(t.take(i + 1)));
        }
        i = i + 1;
    }
    proof {
        assert(t.take(i as int) =~= t);
    }
    chars_to_string(&out)
}


// ---------------------------------------------------------------------------
// Laws
// ---------------------------------------------------------------------------
/// The textual record a marker and its zone id denote, as the scanner
/// reads it back.
pub open spec fn spec_record_of(zid: u16, m: ElmMarker) -> ElmsRecord {
    ElmsRecord {
        zone_id: zid,
        x: m.position.x,
        y: m.position.y,
        z: m.position.z,
        icon_code: spec_elms_icon_code(m.icon),
    }
}

/// Folding the same record twice changes nothing the second time: a
/// duplicate of a marker a zone already holds is dropped, so parsing a
/// string with two byte-identical records yields exactly one marker.
pub proof fn lemma_elms_step_idempotent(
    t: Seq<(u16, Seq<Marker>)>,
    rec: ElmsRecord,
    zones: Seq<Zone>,
)
    requires
        crate::table::table_sorted(t),
    ensures
        crate::table::table_sorted(spec_elms_step(t, rec, zones)),
        spec_elms_step(spec_elms_step(t, rec, zones), rec, zones) == spec_elms_step(
            t,
            rec,
            zones,
        ),
{
    match spec_find_zone(zones, rec.zone_id) {
        Option::None => {},
        Option::Some(zone) => {
            let cur = match spec_table_get(t, rec.zone_id) {
                Option::Some(ms) => ms,
                Option::None => Seq::empty(),
            };
            let m = ElmMarker { id: cur.len() as u16, ..spec_marker_of_record(rec, zone) };
            if spec_elms_contains(cur, m) {
            } else {
                let t2 = spec_table_add(t, rec.zone_id, Marker::Elms(m));
                crate::table::lemma_table_add_sorted(t, rec.zone_id, Marker::Elms(m));
                crate::table::lemma_table_add_get(t, rec.zone_id, Marker::Elms(m));
                let cur2 = match spec_table_get(t2, rec.zone_id) {
                    Option::Some(ms) => ms,
                    Option::None => Seq::empty(),
                };
                if spec_table_get(t, rec.zone_id) is Some {
                    assert(cur2 == cur.push(Marker::Elms(m)));
                } else {
                    assert(cur =~= Seq::<Marker>::empty());
                    assert(cur2 =~= cur.push(Marker::Elms(m)));
                }
                let m2 = ElmMarker { id: cur2.len() as u16, ..spec_marker_of_record(rec, zone) };
                assert(cur2[cur.len() as int] == Marker::Elms(m));
                assert(m.sem_eq(m2));
                assert(spec_elms_contains(cur2, m2));
            }
        },
    }
}


/// Parsing a string whose scan yields the same record twice produces the
/// same table as a single occurrence: the duplicate collapses.
pub proof fn lemma_elms_duplicate_record(rec: ElmsRecord, zones: Seq<Zone>)
    ensures
        spec_elms_fold(seq![rec, rec], zones) == spec_elms_fold(seq![rec], zones),
{
    let one = seq![rec];
    let two = seq![rec, rec];
    assert(two.drop_last() =~= one);
    assert(one.drop_last() =~= Seq::<ElmsRecord>::empty());
    assert(two.last() == rec && one.last() == rec);
    assert(spec_elms_fold(Seq::<ElmsRecord>::empty(), zones) == Seq::<(u16, Seq<Marker>)>::empty());
    assert(spec_elms_fold(one, zones) == spec_elms_step(
        Seq::<(u16, Seq<Marker>)>::empty(),
        rec,
        zones,
    ));
    assert(spec_elms_fold(two, zones) == spec_elms_step(spec_elms_fold(one, zones), rec, zones));
    assert(crate::table::table_sorted(Seq::<(u16, Seq<Marker>)>::empty()));
    lemma_elms_step_idempotent(Seq::<(u16, Seq<Marker>)>::empty(), rec, zones);
}

/// An inactive simple marker contributes nothing to the built string:
/// removing it from its zone's list leaves the output unchanged, so a
/// re-parse of the built string can never reproduce it.
pub proof fn lemma_inactive_excluded(zone: u16, ms: Seq<Marker>, j: int)
    requires
        0 <= j < ms.len(),
        ms[j] matches Marker::Elms(e) && !e.active,
    ensures
        spec_active_elms(ms) == spec_active_elms(ms.remove(j)),
        spec_elms_zone_chars(zone, ms) == spec_elms_zone_chars(zone, ms.remove(j)),
    decreases ms.len(),
{
    if j == ms.len() - 1 {
        assert(ms.remove(j) =~= ms.drop_last());
    } else {
        assert(ms.remove(j).drop_last() =~= ms.drop_last().remove(j));
        assert(ms.remove(j).last() == ms.last());
        lemma_inactive_excluded(zone, ms.drop_last(), j);
    }
}

proof fn lemma_seg_index(s: Seq<char>, pre: Seq<char>, seg: Seq<char>, post: Seq<char>)
    requires
        s == pre + seg + post,
    ensures
        forall|j: int| 0 <= j < seg.len() ==> #[trigger] s[pre.len() + j] == seg[j],
        s.len() == pre.len() + seg.len() + post.len(),
{
    assert(forall|j: int| 0 <= j < seg.len() ==> #[trigger] s[pre.len() + j] == seg[j]) by {
        assert(forall|j: int|
            0 <= j < seg.len() ==> #[trigger] (pre + seg + post)[pre.len() + j] == seg[j]);
    }
}

/// Building a single active marker writes exactly one record.
proof fn lemma_build_single(zid: u16, m: ElmMarker)
    requires
        m.active,
    ensures
        spec_build_elms(seq![(zid, seq![Marker::Elms(m)])]) == spec_elms_record_chars(zid, m),
{
    let t = seq![(zid, seq![Marker::Elms(m)])];
    assert(t.drop_last() =~= Seq::<(u16, Seq<Marker>)>::empty());
    assert(spec_build_elms(t.drop_last()) =~= Seq::<char>::empty());
    let ms = seq![Marker::Elms(m)];
    assert(ms.drop_last() =~= Seq::<Marker>::empty());
    assert(spec_active_elms(ms.drop_last()) =~= Seq::<ElmMarker>::empty());
    assert(ms.last() == Marker::Elms(m));
    let es = spec_active_elms(ms);
    assert(es =~= seq![m]);
    assert(es.drop_last() =~= Seq::<ElmMarker>::empty());
    assert(spec_sort_by_code(es.drop_last()) =~= Seq::<ElmMarker>::empty());
    let sorted = spec_sort_by_code(es);
    assert(sorted =~= seq![m]);
    assert(sorted.drop_last() =~= Seq::<ElmMarker>::empty());
    assert(spec_records_chars(zid, sorted.drop_last()) =~= Seq::<char>::empty());
    assert(spec_records_chars(zid, sorted) =~= spec_elms_record_chars(zid, m));
    assert(spec_build_elms(t) =~= spec_elms_record_chars(zid, m));
}

/// Scanning a single built record reads back exactly that record.
#[verifier::rlimit(60)]
proof fn lemma_scan_single_record(zid: u16, m: ElmMarker)
    requires
        m.position.x >= 0,
        m.position.y >= 0,
        m.position.z >= 0,
    ensures
        spec_scan_elms(spec_elms_record_chars(zid, m), 0) == seq![spec_record_of(zid, m)],
{
    let s = spec_elms_record_chars(zid, m);
    let d1 = spec_dec_chars(zid as nat);
    let d2 = spec_dec_chars_signed(m.position.x as int);
    let d3 = spec_dec_chars_signed(m.position.y as int);
    let d4 = spec_dec_chars_signed(m.position.z as int);
    let d5 = spec_dec_chars(spec_elms_icon_code(m.icon) as nat);
    assert(d2 == spec_dec_chars(m.position.x as nat));
    assert(d3 == spec_dec_chars(m.position.y as nat));
    assert(d4 == spec_dec_chars(m.position.z as nat));
    crate::numeric::lemma_dec_chars_value(zid as nat);
    crate::numeric::lemma_dec_chars_value(m.position.x as nat);
    crate::numeric::lemma_dec_chars_value(m.position.y as nat);
    crate::numeric::lemma_dec_chars_value(m.position.z as nat);
    crate::numeric::lemma_dec_chars_value(spec_elms_icon_code(m.icon) as nat);
    let a1: int = 1;
    let b1 = a1 + d1.len();
    let a2 = b1 + 2;
    let b2 = a2 + d2.len();
    let a3 = b2 + 1;
    let b3 = a3 + d3.len();
    let a4 = b3 + 1;
    let b4 = a4 + d4.len();
    let a5 = b4 + 1;
    let b5 = a5 + d5.len();
    assert(s =~= seq!['/'] + d1 + (seq!['/', '/'] + d2 + seq![','] + d3 + seq![','] + d4
        + seq![','] + d5 + seq!['/']));
    lemma_seg_index(s, seq!['/'], d1, seq!['/', '/'] + d2 + seq![','] + d3 + seq![','] + d4
        + seq![','] + d5 + seq!['/']);
    assert(s =~= (seq!['/'] + d1 + seq!['/', '/']) + d2 + (seq![','] + d3 + seq![','] + d4
        + seq![','] + d5 + seq!['/']));
    lemma_seg_index(s, seq!['/'] + d1 + seq!['/', '/'], d2, seq![','] + d3 + seq![','] + d4
        + seq![','] + d5 + seq!['/']);
    assert(s =~= (seq!['/'] + d1 + seq!['/', '/'] + d2 + seq![',']) + d3 + (seq![','] + d4
        + seq![','] + d5 + seq!['/']));
    lemma_seg_index(s, seq!['/'] + d1 + seq!['/', '/'] + d2 + seq![','], d3, seq![','] + d4
        + seq![','] + d5 + seq!['/']);
    assert(s =~= (seq!['/'] + d1 + seq!['/', '/'] + d2 + seq![','] + d3 + seq![',']) + d4 + (
    seq![','] + d5 + seq!['/']));
    lemma_seg_index(s, seq!['/'] + d1 + seq!['/', '/'] + d2 + seq![','] + d3 + seq![','], d4,
        seq![','] + d5 + seq!['/']);
    assert(s =~= (seq!['/'] + d1 + seq!['/', '/'] + d2 + seq![','] + d3 + seq![','] + d4
        + seq![',']) + d5 + seq!['/']);
    lemma_seg_index(s, seq!['/'] + d1 + seq!['/', '/'] + d2 + seq![','] + d3 + seq![','] + d4
        + seq![','], d5, seq!['/']);
    assert(s.len() == b5 + 1);
    assert(s[0] == '/');
    assert(s[b1] == '/');
    assert(s[b1 + 1] == '/');
    assert(s[b2] == ',');
    assert(s[b3] == ',');
    assert(s[b4] == ',');
    assert(s[b5] == '/');
    assert(forall|j: int| a1 <= j < b1 ==> is_dec_digit(#[trigger] s[j])) by {
        assert(forall|j: int| a1 <= j < b1 ==> s[j] == d1[j - a1] && is_dec_digit(d1[j - a1]));
    }
    assert(forall|j: int| a2 <= j < b2 ==> is_dec_digit(#[trigger] s[j])) by {
        assert(forall|j: int| a2 <= j < b2 ==> s[j] == d2[j - a2] && is_dec_digit(d2[j - a2]));
    }
    assert(forall|j: int| a3 <= j < b3 ==> is_dec_digit(#[trigger] s[j])) by {
        assert(forall|j: int| a3 <= j < b3 ==> s[j] == d3[j - a3] && is_dec_digit(d3[j - a3]));
    }
    assert(forall|j: int| a4 <= j < b4 ==> is_dec_digit(#[trigger] s[j])) by {
        assert(forall|j: int| a4 <= j < b4 ==> s[j] == d4[j - a4] && is_dec_digit(d4[j - a4]));
    }
    assert(forall|j: int| a5 <= j < b5 ==> is_dec_digit(#[trigger] s[j])) by {
        assert(forall|j: int| a5 <= j < b5 ==> s[j] == d5[j - a5] && is_dec_digit(d5[j - a5]));
    }
    lemma_digit_run_exact(s, a1, b1);
    lemma_digit_run_exact(s, a2, b2);
    lemma_digit_run_exact(s, a3, b3);
    lemma_digit_run_exact(s, a4, b4);
    lemma_digit_run_exact(s, a5, b5);
    assert(s.subrange(a1, b1) =~= d1);
    assert(s.subrange(a2, b2) =~= d2);
    assert(s.subrange(a3, b3) =~= d3);
    assert(s.subrange(a4, b4) =~= d4);
    assert(s.subrange(a5, b5) =~= d5);
    let rec = spec_record_of(zid, m);
    assert(elms_match_at(s, 0) == Option::Some((rec, b5 + 1)));
    assert(spec_scan_elms(s, b5 + 1) =~= Seq::<ElmsRecord>::empty());
    assert(spec_scan_elms(s, 0) =~= seq![rec] + spec_scan_elms(s, b5 + 1));
    assert(seq![rec] + Seq::<ElmsRecord>::empty() =~= seq![rec]);
}

/// Folding a single record into an empty table yields one zone holding
/// one marker with id 0.
proof fn lemma_fold_single(rec: ElmsRecord, zones: Seq<Zone>, zone: Zone)
    requires
        spec_find_zone(zones, rec.zone_id) == Option::Some(zone),
    ensures
        spec_elms_fold(seq![rec], zones) == seq![
            (rec.zone_id, seq![Marker::Elms(spec_marker_of_record(rec, zone))]),
        ],
{
    let recs = seq![rec];
    assert(recs.drop_last() =~= Seq::<ElmsRecord>::empty());
    assert(spec_elms_fold(recs.drop_last(), zones) =~= Seq::<(u16, Seq<Marker>)>::empty());
    let empty_t = Seq::<(u16, Seq<Marker>)>::empty();
    assert(crate::table::table_pos(empty_t, rec.zone_id) == 0);
    assert(spec_table_get(empty_t, rec.zone_id) is None);
    let m = ElmMarker { id: 0, ..spec_marker_of_record(rec, zone) };
    assert(m == spec_marker_of_record(rec, zone));
    assert(!spec_elms_contains(Seq::<Marker>::empty(), m));
    assert(spec_table_add(empty_t, rec.zone_id, Marker::Elms(m)) =~= seq![
        (rec.zone_id, seq![Marker::Elms(m)]),
    ]);
}

/// Round trip of one marker: building a table holding a single active
/// marker (size 1, id 0, icon from a vocabulary code, map resolved from
/// its own position, all coordinates non-negative) and parsing the result
/// against the same catalog yields that table back, id and all.
pub proof fn lemma_elms_roundtrip_single(
    zones: Seq<Zone>,
    zone: Zone,
    zid: u16,
    pos: Position3D,
    c: u16,
)
    requires
        spec_find_zone(zones, zid) == Option::Some(zone),
        pos.x >= 0,
        pos.y >= 0,
        pos.z >= 0,
        1 <= c <= 71,
    ensures
        ({
            let m = ElmMarker {
                position: pos,
                icon: spec_elms_icon_from_code(c),
                size: 1,
                active: true,
                id: 0,
                map_id: match spec_best_map(pos.x as int, pos.y as int, pos.z as int, zone.maps@) {
                    Option::Some(best) => best.map_id,
                    Option::None => 0,
                },
            };
            spec_parse_elms(
                spec_build_elms(seq![(zid, seq![Marker::Elms(m)])]),
                zones,
            ) == seq![(zid, seq![Marker::Elms(m)])]
        }),
{
    let m = ElmMarker {
        position: pos,
        icon: spec_elms_icon_from_code(c),
        size: 1,
        active: true,
        id: 0,
        map_id: match spec_best_map(pos.x as int, pos.y as int, pos.z as int, zone.maps@) {
            Option::Some(best) => best.map_id,
            Option::None => 0,
        },
    };
    crate::icons::lemma_elms_code_roundtrip(c);
    assert(spec_elms_icon_code(m.icon) == c);
    lemma_build_single(zid, m);
    lemma_scan_single_record(zid, m);
    let rec = spec_record_of(zid, m);
    assert(rec == ElmsRecord { zone_id: zid, x: pos.x, y: pos.y, z: pos.z, icon_code: c });
    lemma_fold_single(rec, zones, zone);
    assert(spec_marker_of_record(rec, zone) == m);
}

} // verus!

//! The breadcrumb-line format: semicolon-separated upper-case hex tokens,
//! per zone `zoneId; minX; minY; minZ; colourCount; colour×N; pointCount;
//! (x;y;z)×N; lineCount; (colourIdx;p1Idx;p2Idx)×N;` with all coordinates
//! relative to the zone's per-axis minimum and all indices 1-based into
//! the colour and point tables.  Shared endpoints are stored once: the
//! builder deduplicates points (and colours) into tables, which keeps a
//! connected path compact.
//!
//! Parsing is best effort: blank tokens are skipped, malformed numbers
//! default (coordinates and counts to 0, indices to 1), an unresolvable
//! zone id skips one token and rescans, and the token stream is never
//! consumed past its end.

use vstd::prelude::*;

use crate::model::{BreadcrumbLine, Position3D, Rgba};
use crate::numeric::{
    is_hex_digit, hex_seq_val, spec_hex_fits, spec_parse_hex_i32, spec_parse_hex_u64,
    parse_hex_i32, parse_hex_u64, parse_hex_u64_opt, spec_hex_chars_upper, spec_hex_chars_i32,
    push_hex_u64_upper, push_hex_i32_upper, wrap_i32, wrap_add_i32, wrap_sub_i32, trunc_half,
    half_i32, hex_digit_of,
};
use crate::colors::spec_hex_to_rgba;
use crate::strutil::{spec_trim, trim_chars, spec_split, split_char, toks_view, str_to_chars,
    chars_to_string};
use crate::zone::{Zone, spec_find_zone, find_zone, spec_best_map, find_best_map};
use crate::table::{ZoneTable, spec_table_put};

verus! {

// ---------------------------------------------------------------------------
// Token stream
// ---------------------------------------------------------------------------
/// The non-blank fields of the split, untrimmed; blank fields between
/// semicolons are dropped before any counting starts.
pub open spec fn spec_nonblank(ts: Seq<Seq<char>>) -> Seq<Seq<char>>
    decreases ts.len(),
{
    if ts.len() == 0 {
        Seq::empty()
    } else {
        let rest = spec_nonblank(ts.drop_last());
        if spec_trim(ts.last()).len() > 0 {
            rest.push(ts.last())
        } else {
            rest
        }
    }
}

/// The trimmed token at `q`, read as a lenient signed hex coordinate; a
/// missing token reads as 0.
pub open spec fn spec_tok_i32(toks: Seq<Seq<char>>, q: int) -> i32 {
    if 0 <= q < toks.len() {
        spec_parse_hex_i32(spec_trim(toks[q]))
    } else {
        0
    }
}

/// The trimmed token at `q`, read as a lenient unsigned hex count; a
/// missing or malformed token reads as 0.
pub open spec fn spec_tok_u64(toks: Seq<Seq<char>>, q: int) -> u64 {
    if 0 <= q < toks.len() {
        spec_parse_hex_u64(spec_trim(toks[q]))
    } else {
        0
    }
}

/// The trimmed token at `q`, read as a 1-based table index; a malformed
/// token reads as 1 (the first entry), a missing one as 0.
pub open spec fn spec_tok_idx(toks: Seq<Seq<char>>, q: int) -> u64 {
    if 0 <= q < toks.len() {
        let t = spec_trim(toks[q]);
        if spec_hex_fits(t, u64::MAX as nat) {
            hex_seq_val(t) as u64
        } else {
            1
        }
    } else {
        0
    }
}

/// How many trailing characters of a zone token are hex digits: the zone
/// id is read from that suffix, tolerating non-hex garbage before it.
pub open spec fn hex_suffix_len(s: Seq<char>) -> nat
    decreases s.len(),
{
    if s.len() > 0 && is_hex_digit(s.last()) {
        1 + hex_suffix_len(s.drop_last())
    } else {
        0
    }
}

// ---------------------------------------------------------------------------
// Parsing
// ---------------------------------------------------------------------------
/// The colour table read from up to `count` tokens starting at `base`:
/// each valid 24/32-bit hex word becomes a colour, malformed words are
/// skipped, and reading stops at the stream's end.
pub open spec fn spec_colours_from(toks: Seq<Seq<char>>, base: int, count: nat, k: nat) -> Seq<
    Rgba,
>
    decreases count - k,
{
    if k >= count || base + k >= toks.len() || base + k < 0 {
        Seq::empty()
    } else {
        let t = spec_trim(toks[base + k]);
        let head: Seq<Rgba> = if spec_hex_fits(t, u32::MAX as nat) {
            seq![spec_hex_to_rgba(hex_seq_val(t) as u32)]
        } else {
            Seq::empty()
        };
        head + spec_colours_from(toks, base, count, (k + 1) as nat)
    }
}

/// The point table read from up to `count` coordinate triples starting at
/// `base`; a truncated final triple pads its missing coordinates with 0.
pub open spec fn spec_points_from(toks: Seq<Seq<char>>, base: int, count: nat, k: nat) -> Seq<
    Position3D,
>
    decreases count - k,
{
    if k >= count || base + 3 * k >= toks.len() || base + 3 * k < 0 {
        Seq::empty()
    } else {
        let q = base + 3 * k;
        let p = Position3D {
            x: spec_tok_i32(toks, q),
            y: spec_tok_i32(toks, q + 1),
            z: spec_tok_i32(toks, q + 2),
        };
        seq![p] + spec_points_from(toks, base, count, (k + 1) as nat)
    }
}

/// How many groups of `step` tokens are actually available for a count of
/// `count`: reading stops at the stream's end.
pub open spec fn spec_groups_avail(
    toks: Seq<Seq<char>>,
    base: int,
    count: nat,
    step: nat,
    k: nat,
) -> nat
    decreases count - k,
{
    if k >= count || base + step * k >= toks.len() || base + step * k < 0 {
        k
    } else {
        spec_groups_avail(toks, base, count, step, (k + 1) as nat)
    }
}

/// One resolved line, if its colour and both points resolve.
pub open spec fn spec_line_at(
    toks: Seq<Seq<char>>,
    q: int,
    colours: Seq<Rgba>,
    points: Seq<Position3D>,
    min_x: i32,
    min_y: i32,
    min_z: i32,
    zone_id: u16,
    zones: Seq<Zone>,
    next_id: nat,
) -> Option<BreadcrumbLine> {
    let ci = spec_tok_idx(toks, q);
    let p1i = spec_tok_idx(toks, q + 1);
    let p2i = spec_tok_idx(toks, q + 2);
    let cs = if ci == 0 {
        0
    } else {
        ci - 1
    };
    let p1s = if p1i == 0 {
        0
    } else {
        p1i - 1
    };
    let p2s = if p2i == 0 {
        0
    } else {
        p2i - 1
    };
    if cs < colours.len() && p1s < points.len() && p2s < points.len() {
        let c = colours[cs as int];
        let p1 = points[p1s as int];
        let p2 = points[p2s as int];
        let pos1 = Position3D {
            x: wrap_i32(p1.x as int + min_x as int),
            y: wrap_i32(p1.y as int + min_y as int),
            z: wrap_i32(p1.z as int + min_z as int),
        };
        let pos2 = Position3D {
            x: wrap_i32(p2.x as int + min_x as int),
            y: wrap_i32(p2.y as int + min_y as int),
            z: wrap_i32(p2.z as int + min_z as int),
        };
        let mid_x = trunc_half(wrap_i32(pos1.x as int + pos2.x as int) as int);
        let mid_y = trunc_half(wrap_i32(pos1.y as int + pos2.y as int) as int);
        let mid_z = trunc_half(wrap_i32(pos1.z as int + pos2.z as int) as int);
        let map_id = match spec_find_zone(zones, zone_id) {
            Option::Some(zone) => match spec_best_map(mid_x, mid_y, mid_z, zone.maps@) {
                Option::Some(m) => m.map_id,
                Option::None => 0,
            },
            Option::None => 0,
        };
        Option::Some(
            BreadcrumbLine {
                position1: pos1,
                position2: pos2,
                active: true,
                colour: c,
                id: next_id as u16,
                map_id,
            },
        )
    } else {
        Option::None
    }
}

/// The lines read from up to `count` index triples starting at `base`:
/// each triple whose colour and points resolve becomes a line with the
/// zone's next sequential id; the rest are dropped.
pub open spec fn spec_lines_from(
    toks: Seq<Seq<char>>,
    base: int,
    count: nat,
    k: nat,
    next_id: nat,
    colours: Seq<Rgba>,
    points: Seq<Position3D>,
    min_x: i32,
    min_y: i32,
    min_z: i32,
    zone_id: u16,
    zones: Seq<Zone>,
) -> Seq<BreadcrumbLine>
    decreases count - k,
{
    if k >= count || base + 3 * k >= toks.len() || base + 3 * k < 0 {
        Seq::empty()
    } else {
        let q = base + 3 * k;
        match spec_line_at(toks, q, colours, points, min_x, min_y, min_z, zone_id, zones,
            next_id) {
            Option::Some(l) => seq![l] + spec_lines_from(
                toks,
                base,
                count,
                (k + 1) as nat,
                next_id + 1,
                colours,
                points,
                min_x,
                min_y,
                min_z,
                zone_id,
                zones,
            ),
            Option::None => spec_lines_from(
                toks,
                base,
                count,
                (k + 1) as nat,
                next_id,
                colours,
                points,
                min_x,
                min_y,
                min_z,
                zone_id,
                zones,
            ),
        }
    }
}

/// The whole token stream folded into a per-zone table, left to right; a
/// later block of the same zone replaces the earlier one.
pub open spec fn spec_parse_lines_from(
    toks: Seq<Seq<char>>,
    p: int,
    zones: Seq<Zone>,
    acc: Seq<(u16, Seq<BreadcrumbLine>)>,
) -> Seq<(u16, Seq<BreadcrumbLine>)>
    decreases toks.len() - p,
{
    if !(0 <= p < toks.len()) {
        acc
    } else {
        let zt = spec_trim(toks[p]);
        let run = hex_suffix_len(zt);
        let suffix = zt.skip(zt.len() - run);
        if !(run > 0 && hex_seq_val(suffix) <= u16::MAX as nat) {
            spec_parse_lines_from(toks, p + 1, zones, acc)
        } else {
            let zone_id = hex_seq_val(suffix) as u16;
            let min_x = spec_tok_i32(toks, p + 1);
            let min_y = spec_tok_i32(toks, p + 2);
            let min_z = spec_tok_i32(toks, p + 3);
            let cc = spec_tok_u64(toks, p + 4);
            let colours = spec_colours_from(toks, p + 5, cc as nat, 0);
            let ccons = spec_groups_avail(toks, p + 5, cc as nat, 1, 0);
            let q1 = p + 5 + ccons;
            let pc = spec_tok_u64(toks, q1);
            let points = spec_points_from(toks, q1 + 1, pc as nat, 0);
            let pcons = spec_groups_avail(toks, q1 + 1, pc as nat, 3, 0);
            let q2 = q1 + 1 + 3 * pcons;
            let lc = spec_tok_u64(toks, q2);
            let ls = spec_lines_from(toks, q2 + 1, lc as nat, 0, 0, colours, points, min_x,
                min_y, min_z, zone_id, zones);
            let lcons = spec_groups_avail(toks, q2 + 1, lc as nat, 3, 0);
            let p_next = q2 + 1 + 3 * lcons;
            let acc2 = if ls.len() > 0 {
                spec_table_put(acc, zone_id, ls)
            } else {
                acc
            };
            if p_next <= toks.len() {
                spec_parse_lines_from(toks, p_next, zones, acc2)
            } else {
                acc2
            }
        }
    }
}

/// What parsing a whole string yields.
pub open spec fn spec_parse_lines(s: Seq<char>, zones: Seq<Zone>) -> Seq<
    (u16, Seq<BreadcrumbLine>),
> {
    spec_parse_lines_from(
        spec_nonblank(spec_split(s, ';')),
        0,
        zones,
        Seq::empty(),
    )
}

fn tok_i32(toks: &Vec<Vec<char>>, q: u128) -> (r: i32)
    ensures
        r == spec_tok_i32(toks_view(toks@), q as int),
{
    if q < toks.len() as u128 {
        let qi = q as usize;
        let t = trim_chars(&toks[qi]);
        proof {
            assert(toks_view(toks@)[q as int] == toks@[q as int]@);
        }
        parse_hex_i32(&t)
    } else {
        0
    }
}

fn tok_u64(toks: &Vec<Vec<char>>, q: u128) -> (r: u64)
    ensures
        r == spec_tok_u64(toks_view(toks@), q as int),
{
    if q < toks.len() as u128 {
        let qi = q as usize;
        let t = trim_chars(&toks[qi]);
        proof {
            assert(toks_view(toks@)[q as int] == toks@[q as int]@);
        }
        parse_hex_u64(&t)
    } else {
        0
    }
}

fn tok_idx(toks: &Vec<Vec<char>>, q: u128) -> (r: u64)
    ensures
        r == spec_tok_idx(toks_view(toks@), q as int),
{
    if q < toks.len() as u128 {
        let qi = q as usize;
        let t = trim_chars(&toks[qi]);
        proof {
            assert(toks_view(toks@)[q as int] == toks@[q as int]@);
        }
        match parse_hex_u64_opt(&t) {
            Option::Some(v) => v,
            Option::None => 1,
        }
    } else {
        0
    }
}

fn nonblank_tokens(ts: Vec<Vec<char>>) -> (r: Vec<Vec<char>>)
    ensures
        toks_view(r@) == spec_nonblank(toks_view(ts@)),
{
    let mut r: Vec<Vec<char>> = Vec::new();
    let mut i: usize = 0;
    let ghost tv = toks_view(ts@);
    proof {
        assert(tv.take(0) =~= Seq::<Seq<char>>::empty());
        assert(spec_nonblank(tv.take(0)) =~= Seq::<Seq<char>>::empty());
        assert(toks_view(r@) =~= Seq::<Seq<char>>::empty());
    }
    while i < ts.len()
        invariant
            i <= ts@.len(),
            tv == toks_view(ts@),
            tv.len() == ts@.len(),
            toks_view(r@) == spec_nonblank(tv.take(i as int)),
        decreases ts@.len() - i,
    {
        proof {
            assert(tv.take(i + 1).drop_last() =~= tv.take(i as int));
            assert(tv.take(i + 1).last() == tv[i as int]);
            assert(tv[i as int] == ts@[i as int]@);
        }
        let t = trim_chars(&ts[i]);
        if t.len() > 0 {
            let mut copy: Vec<char> = Vec::new();
            let mut k: usize = 0;
            while k < ts[i].len()
                invariant
                    k <= ts@[i as int]@.len(),
                    i < ts@.len(),
                    copy@ == ts@[i as int]@.take(k as int),
                decreases ts@[i as int]@.len() - k,
            {
                copy.push(ts[i][k]);
                proof {
                    assert(copy@ =~= ts@[i as int]@.take(k + 1));
                }
                k = k + 1;
            }
            proof {
                assert(copy@ =~= ts@[i as int]@);
            }
            r.push(copy);
            proof {
                assert(toks_view(r@) =~= spec_nonblank(tv.take(i + 1)));
            }
        } else {
            proof {
                assert(toks_view(r@) =~= spec_nonblank(tv.take(i + 1)));
            }
        }
        i = i + 1;
    }
    proof {
        assert(tv.take(i as int) =~= tv);
    }
    r
}

fn hex_at(s: &Vec<char>, i: usize) -> (r: bool)
    requires
        i < s@.len(),
    ensures
        r == is_hex_digit(s@[i as int]),
{
    let d = hex_digit_of(s[i]);
    d.is_some()
}

fn hex_suffix_run(s: &Vec<char>) -> (r: usize)
    ensures
        r as nat == hex_suffix_len(s@),
        r <= s@.len(),
{
    let mut e: usize = s.len();
    proof {
        assert(s@.take(s@.len() as int) =~= s@);
    }
    while e > 0 && hex_at(s, e - 1)
        invariant
            e <= s@.len(),
            hex_suffix_len(s@) == (s@.len() - e) + hex_suffix_len(s@.take(e as int)),
        decreases e,
    {
        proof {
            assert(s@.take(e as int).drop_last() =~= s@.take(e - 1));
            assert(s@.take(e as int).last() == s@[e - 1]);
        }
        e = e - 1;
    }
    proof {
        if e > 0 {
            assert(s@.take(e as int).last() == s@[e - 1]);
            assert(hex_suffix_len(s@.take(e as int)) == 0);
        } else {
            assert(s@.take(0).len() == 0);
            assert(hex_suffix_len(s@.take(0)) == 0);
        }
    }
    s.len() - e
}

/// Parses a breadcrumb-line string against a zone catalog.  Per zone the
/// colour and point tables are materialized first, then each index triple
/// that resolves becomes a line, its map resolved from the midpoint of
/// its two endpoints; everything malformed degrades as the module
/// description says.
pub fn parse_lines_string(lines_string: &str, zones: Vec<Zone>) -> (r: ZoneTable<
    BreadcrumbLine,
>)
    ensures
        r.view_entries() == spec_parse_lines(lines_string@, zones@),
        r.wf(),
{
    let chars = str_to_chars(lines_string);
    let raw = split_char(&chars, ';');
    let toks = nonblank_tokens(raw);
    let ghost tv = toks_view(toks@);
    let mut t: ZoneTable<BreadcrumbLine> = ZoneTable::new();
    let n = toks.len();
    let mut p: usize = 0;
    while p < n
        invariant
            p <= n,
            n == tv.len(),
            tv == toks_view(toks@),
            t.wf(),
            spec_parse_lines_from(tv, 0, zones@, Seq::empty()) == spec_parse_lines_from(
                tv,
                p as int,
                zones@,
                t.view_entries(),
            ),
        decreases n - p,
    {
        let ghost p0 = p as int;
        let ghost e0 = t.view_entries();
        proof {
            assert(tv[p as int] == toks@[p as int]@);
        }
        let zt = trim_chars(&toks[p]);
        let run = hex_suffix_run(&zt);
        let mut suffix: Vec<char> = Vec::new();
        let start = zt.len() - run;
        let mut k: usize = start;
        while k < zt.len()
            invariant
                start <= k <= zt@.len(),
                suffix@ == zt@.subrange(start as int, k as int),
            decreases zt@.len() - k,
        {
            suffix.push(zt[k]);
            proof {
                assert(suffix@ =~= zt@.subrange(start as int, k + 1));
            }
            k = k + 1;
        }
        proof {
            assert(suffix@ =~= zt@.skip(start as int));
            lemma_suffix_all_hex(zt@);
        }
        let zid_opt: Option<u16> = if run > 0 {
            match parse_hex_u64_opt(&suffix) {
                Option::Some(v) => {
                    if v <= u16::MAX as u64 {
                        Some(v as u16)
                    } else {
                        None
                    }
                },
                Option::None => None,
            }
        } else {
            None
        };
        match zid_opt {
            Option::None => {
                proof {
                    assert(spec_parse_lines_from(tv, p0, zones@, e0) == spec_parse_lines_from(
                        tv,
                        p0 + 1,
                        zones@,
                        e0,
                    ));
                }
                p = p + 1;
            },
            Option::Some(zone_id) => {
                let min_x = tok_i32(&toks, p as u128 + 1);
                let min_y = tok_i32(&toks, p as u128 + 2);
                let min_z = tok_i32(&toks, p as u128 + 3);
                let cc = tok_u64(&toks, p as u128 + 4);
                // colour table
                let mut colours: Vec<Rgba> = Vec::new();
                let base_c: u128 = p as u128 + 5;
                let mut j: usize = 0;
                proof {
                    assert(colours@ =~= Seq::<Rgba>::empty());
                    assert(Seq::<Rgba>::empty() + spec_colours_from(tv, base_c as int,
                        cc as nat, 0) =~= spec_colours_from(tv, base_c as int, cc as nat, 0));
                }
                while (j as u64) < cc && base_c + (j as u128) < n as u128
                    invariant
                        base_c == p0 + 5,
                        n == tv.len(),
                        tv == toks_view(toks@),
                        j <= n,
                        j as u64 <= cc,
                        spec_colours_from(tv, base_c as int, cc as nat, 0) == colours@
                            + spec_colours_from(tv, base_c as int, cc as nat, j as nat),
                        spec_groups_avail(tv, base_c as int, cc as nat, 1, 0)
                            == spec_groups_avail(tv, base_c as int, cc as nat, 1, j as nat),
                    decreases cc - j,
                {
                    let q: u128 = base_c + j as u128;
                    let qi = q as usize;
                    proof {
                        assert(tv[q as int] == toks@[q as int]@);
                    }
                    let tq = trim_chars(&toks[qi]);
                    match parse_hex_u64_opt(&tq) {
                        Option::Some(v) => {
                            if v <= u32::MAX as u64 {
                                let (cr, cg, cb, ca) = crate::colors::hex_to_rgba(v as u32);
                                colours.push(Rgba { r: cr, g: cg, b: cb, a: ca });
                            }
                        },
                        Option::None => {},
                    }
                    proof {
                        assert(spec_colours_from(tv, base_c as int, cc as nat, 0) =~= colours@
                            + spec_colours_from(tv, base_c as int, cc as nat, (j + 1) as nat));
                    }
                    j = j + 1;
                }
                proof {
                    assert(spec_colours_from(tv, base_c as int, cc as nat, j as nat)
                        =~= Seq::<Rgba>::empty());
                    assert(colours@ + Seq::<Rgba>::empty() =~= colours@);
                    lemma_groups_avail_is(tv, base_c as int, cc as nat, 1, j as nat);
                }
                let q1: u128 = base_c + j as u128;
                let pc = tok_u64(&toks, q1);
                // point table
                let mut points: Vec<Position3D> = Vec::new();
                let base_p: u128 = q1 + 1;
                let mut g: usize = 0;
                proof {
                    assert(points@ =~= Seq::<Position3D>::empty());
                    assert(Seq::<Position3D>::empty() + spec_points_from(tv, base_p as int,
                        pc as nat, 0) =~= spec_points_from(tv, base_p as int, pc as nat, 0));
                }
                while (g as u64) < pc && base_p + 3 * (g as u128) < n as u128
                    invariant
                        base_p == q1 + 1,
                        q1 == p0 + 5 + spec_groups_avail(tv, p0 + 5, cc as nat, 1, 0),
                        n == tv.len(),
                        tv == toks_view(toks@),
                        g <= n,
                        g as u64 <= pc,
                        spec_points_from(tv, base_p as int, pc as nat, 0) == points@
                            + spec_points_from(tv, base_p as int, pc as nat, g as nat),
                        spec_groups_avail(tv, base_p as int, pc as nat, 3, 0)
                            == spec_groups_avail(tv, base_p as int, pc as nat, 3, g as nat),
                    decreases pc - g,
                {
                    let q: u128 = base_p + 3 * (g as u128);
                    let px = tok_i32(&toks, q);
                    let py = tok_i32(&toks, q + 1);
                    let pz = tok_i32(&toks, q + 2);
                    points.push(Position3D { x: px, y: py, z: pz });
                    proof {
                        assert(spec_points_from(tv, base_p as int, pc as nat, 0) =~= points@
                            + spec_points_from(tv, base_p as int, pc as nat, (g + 1) as nat));
                    }
                    g = g + 1;
                }
                proof {
                    assert(spec_points_from(tv, base_p as int, pc as nat, g as nat)
                        =~= Seq::<Position3D>::empty());
                    assert(points@ + Seq::<Position3D>::empty() =~= points@);
                    lemma_groups_avail_is(tv, base_p as int, pc as nat, 3, g as nat);
                }
                let q2: u128 = base_p + 3 * (g as u128);
                let lc = tok_u64(&toks, q2);
                // lines
                let mut lines: Vec<BreadcrumbLine> = Vec::new();
                let base_l: u128 = q2 + 1;
                let mut h: usize = 0;
                proof {
                    assert(lines@ =~= Seq::<BreadcrumbLine>::empty());
                    assert(Seq::<BreadcrumbLine>::empty() + spec_lines_from(tv, base_l as int,
                        lc as nat, 0, 0, colours@, points@, min_x, min_y, min_z, zone_id, zones@)
                        =~= spec_lines_from(tv, base_l as int, lc as nat, 0, 0, colours@,
                        points@, min_x, min_y, min_z, zone_id, zones@));
                }
                while (h as u64) < lc && base_l + 3 * (h as u128) < n as u128
                    invariant
                        base_l == q2 + 1,
                        n == tv.len(),
                        tv == toks_view(toks@),
                        h <= n,
                        h as u64 <= lc,
                        spec_lines_from(tv, base_l as int, lc as nat, 0, 0, colours@, points@,
                            min_x, min_y, min_z, zone_id, zones@) == lines@ + spec_lines_from(
                            tv,
                            base_l as int,
                            lc as nat,
                            h as nat,
                            lines@.len() as nat,
                            colours@,
                            points@,
                            min_x,
                            min_y,
                            min_z,
                            zone_id,
                            zones@,
                        ),
                        spec_groups_avail(tv, base_l as int, lc as nat, 3, 0)
                            == spec_groups_avail(tv, base_l as int, lc as nat, 3, h as nat),
                    decreases lc - h,
                {
                    let q: u128 = base_l + 3 * (h as u128);
                    let ci = tok_idx(&toks, q);
                    let p1i = tok_idx(&toks, q + 1);
                    let p2i = tok_idx(&toks, q + 2);
                    let cs = if ci == 0 {
                        0u64
                    } else {
                        ci - 1
                    };
                    let p1s = if p1i == 0 {
                        0u64
                    } else {
                        p1i - 1
                    };
                    let p2s = if p2i == 0 {
                        0u64
                    } else {
                        p2i - 1
                    };
                    if cs < colours.len() as u64 && p1s < points.len() as u64 && p2s
                        < points.len() as u64 {
                        let c = colours[cs as usize];
                        let p1 = points[p1s as usize];
                        let p2 = points[p2s as usize];
                        let pos1 = Position3D {
                            x: wrap_add_i32(p1.x, min_x),
                            y: wrap_add_i32(p1.y, min_y),
                            z: wrap_add_i32(p1.z, min_z),
                        };
                        let pos2 = Position3D {
                            x: wrap_add_i32(p2.x, min_x),
                            y: wrap_add_i32(p2.y, min_y),
                            z: wrap_add_i32(p2.z, min_z),
                        };
                        let mid_x = half_i32(wrap_add_i32(pos1.x, pos2.x));
                        let mid_y = half_i32(wrap_add_i32(pos1.y, pos2.y));
                        let mid_z = half_i32(wrap_add_i32(pos1.z, pos2.z));
                        let map_id: u16 = match find_zone(&zones, zone_id) {
                            Option::Some(zone) => {
                                match find_best_map(mid_x, mid_y, mid_z, zone) {
                                    Option::Some(m) => m.map_id,
                                    Option::None => 0,
                                }
                            },
                            Option::None => 0,
                        };
                        let line = BreadcrumbLine {
                            position1: pos1,
                            position2: pos2,
                            active: true,
                            colour: c,
                            id: #[verifier::truncate] (lines.len() as u16),
                            map_id,
                        };
                        proof {
                            assert(spec_line_at(tv, q as int, colours@, points@, min_x, min_y,
                                min_z, zone_id, zones@, lines@.len() as nat) == Option::Some(
                                line,
                            ));
                        }
                        lines.push(line);
                        proof {
                            assert(spec_lines_from(tv, base_l as int, lc as nat, 0, 0, colours@,
                                points@, min_x, min_y, min_z, zone_id, zones@) =~= lines@
                                + spec_lines_from(tv, base_l as int, lc as nat, (h + 1) as nat,
                                lines@.len() as nat, colours@, points@, min_x, min_y, min_z,
                                zone_id, zones@));
                        }
                    } else {
                        proof {
                            assert(spec_line_at(tv, q as int, colours@, points@, min_x, min_y,
                                min_z, zone_id, zones@, lines@.len() as nat) is None);
                            assert(spec_lines_from(tv, base_l as int, lc as nat, h as nat,
                                lines@.len() as nat, colours@, points@, min_x, min_y, min_z,
                                zone_id, zones@) == spec_lines_from(tv, base_l as int, lc as nat,
                                (h + 1) as nat, lines@.len() as nat, colours@, points@, min_x,
                                min_y, min_z, zone_id, zones@));
                        }
                    }
                    h = h + 1;
                }
                proof {
                    assert(spec_lines_from(tv, base_l as int, lc as nat, h as nat,
                        lines@.len() as nat, colours@, points@, min_x, min_y, min_z, zone_id,
                        zones@) =~= Seq::<BreadcrumbLine>::empty());
                    assert(lines@ + Seq::<BreadcrumbLine>::empty() =~= lines@);
                    lemma_groups_avail_is(tv, base_l as int, lc as nat, 3, h as nat);
                }
                let p_next: u128 = base_l + 3 * (h as u128);
                let ghost ls = lines@;
                if lines.len() > 0 {
                    t.put_items(zone_id, lines);
                }
                proof {
                    if ls.len() > 0 {
                        assert(t.view_entries() == spec_table_put(e0, zone_id, ls));
                    } else {
                        assert(t.view_entries() == e0);
                    }
                    if p_next as int <= n as int {
                        assert(spec_parse_lines_from(tv, p0, zones@, e0)
                            == spec_parse_lines_from(tv, p_next as int, zones@,
                            t.view_entries()));
                    } else {
                        assert(spec_parse_lines_from(tv, p0, zones@, e0) == t.view_entries());
                        assert(spec_parse_lines_from(tv, n as int, zones@, t.view_entries())
                            == t.view_entries());
                    }
                }
                p = if p_next >= n as u128 {
                    n
                } else {
                    p_next as usize
                };
            },
        }
    }
    t
}


// ---------------------------------------------------------------------------
// Building
// ---------------------------------------------------------------------------
/// The smallest x coordinate over a list's endpoints.
pub open spec fn spec_min_x(ls: Seq<BreadcrumbLine>) -> int
    decreases ls.len(),
{
    if ls.len() == 0 {
        i32::MAX as int
    } else {
        let r = spec_min_x(ls.drop_last());
        let a = if (ls.last().position1.x as int) < r {
            ls.last().position1.x as int
        } else {
            r
        };
        if (ls.last().position2.x as int) < a {
            ls.last().position2.x as int
        } else {
            a
        }
    }
}

/// The smallest y coordinate over a list's endpoints.
pub open spec fn spec_min_y(ls: Seq<BreadcrumbLine>) -> int
    decreases ls.len(),
{
    if ls.len() == 0 {
        i32::MAX as int
    } else {
        let r = spec_min_y(ls.drop_last());
        let a = if (ls.last().position1.y as int) < r {
            ls.last().position1.y as int
        } else {
            r
        };
        if (ls.last().position2.y as int) < a {
            ls.last().position2.y as int
        } else {
            a
        }
    }
}

/// The smallest z coordinate over a list's endpoints.
pub open spec fn spec_min_z(ls: Seq<BreadcrumbLine>) -> int
    decreases ls.len(),
{
    if ls.len() == 0 {
        i32::MAX as int
    } else {
        let r = spec_min_z(ls.drop_last());
        let a = if (ls.last().position1.z as int) < r {
            ls.last().position1.z as int
        } else {
            r
        };
        if (ls.last().position2.z as int) < a {
            ls.last().position2.z as int
        } else {
            a
        }
    }
}

/// An endpoint made relative to the zone's minimum.
pub open spec fn spec_rel(p: Position3D, mx: i32, my: i32, mz: i32) -> Position3D {
    Position3D {
        x: wrap_i32(p.x as int - mx as int),
        y: wrap_i32(p.y as int - my as int),
        z: wrap_i32(p.z as int - mz as int),
    }
}

/// Every endpoint of every line, relative, in line order, first endpoint
/// first.
pub open spec fn spec_endpoints(ls: Seq<BreadcrumbLine>, mx: i32, my: i32, mz: i32) -> Seq<
    Position3D,
>
    decreases ls.len(),
{
    if ls.len() == 0 {
        Seq::empty()
    } else {
        spec_endpoints(ls.drop_last(), mx, my, mz) + seq![
            spec_rel(ls.last().position1, mx, my, mz),
            spec_rel(ls.last().position2, mx, my, mz),
        ]
    }
}

/// First-occurrence deduplication: the point table.
pub open spec fn spec_dedup_points(ps: Seq<Position3D>) -> Seq<Position3D>
    decreases ps.len(),
{
    if ps.len() == 0 {
        Seq::empty()
    } else {
        let t = spec_dedup_points(ps.drop_last());
        if t.contains(ps.last()) {
            t
        } else {
            t.push(ps.last())
        }
    }
}

/// First-occurrence deduplication of the lines' colours: the colour table.
pub open spec fn spec_colour_table(ls: Seq<BreadcrumbLine>) -> Seq<Rgba>
    decreases ls.len(),
{
    if ls.len() == 0 {
        Seq::empty()
    } else {
        let t = spec_colour_table(ls.drop_last());
        if t.contains(ls.last().colour) {
            t
        } else {
            t.push(ls.last().colour)
        }
    }
}

/// The first index of `x` in `s`; `s.len()` when absent.
pub open spec fn spec_first_pos<A>(s: Seq<A>, x: A) -> int
    decreases s.len(),
{
    if s.len() == 0 {
        0
    } else if s[0] == x {
        0
    } else {
        1 + spec_first_pos(s.drop_first(), x)
    }
}

/// The first index of `x` in `s`, with the builder's fallback of 0 for a
/// value that is not there.
pub open spec fn spec_pos_or0<A>(s: Seq<A>, x: A) -> int {
    if s.contains(x) {
        spec_first_pos(s, x)
    } else {
        0
    }
}

pub proof fn lemma_first_pos<A>(s: Seq<A>, x: A, k: int)
    requires
        0 <= k < s.len(),
        s[k] == x,
        forall|j: int| 0 <= j < k ==> s[j] != x,
    ensures
        spec_first_pos(s, x) == k,
        s.contains(x),
    decreases k,
{
    if k == 0 {
    } else {
        let d = s.drop_first();
        assert(forall|j: int| 0 <= j < d.len() ==> d[j] == s[j + 1]);
        lemma_first_pos(d, x, k - 1);
    }
}

/// The 24-bit colour word the builder writes: alpha is not stored by this
/// format.
pub open spec fn spec_colour_word(c: Rgba) -> nat {
    c.r as nat * 0x10000 + c.g as nat * 0x100 + c.b as nat
}

/// The colour table's tokens.
pub open spec fn spec_colours_chars(cs: Seq<Rgba>) -> Seq<char>
    decreases cs.len(),
{
    if cs.len() == 0 {
        Seq::empty()
    } else {
        spec_colours_chars(cs.drop_last()) + spec_hex_chars_upper(spec_colour_word(cs.last()))
            + seq![';']
    }
}

/// The point table's tokens.
pub open spec fn spec_points_chars(ps: Seq<Position3D>) -> Seq<char>
    decreases ps.len(),
{
    if ps.len() == 0 {
        Seq::empty()
    } else {
        spec_points_chars(ps.drop_last()) + spec_hex_chars_i32(ps.last().x) + seq![';']
            + spec_hex_chars_i32(ps.last().y) + seq![';'] + spec_hex_chars_i32(ps.last().z)
            + seq![';']
    }
}

/// One line's three 1-based index tokens.
pub open spec fn spec_lineref_chars(
    l: BreadcrumbLine,
    cs: Seq<Rgba>,
    ps: Seq<Position3D>,
    mx: i32,
    my: i32,
    mz: i32,
) -> Seq<char> {
    spec_hex_chars_upper((spec_pos_or0(cs, l.colour) + 1) as nat) + seq![';']
        + spec_hex_chars_upper((spec_first_pos(ps, spec_rel(l.position1, mx, my, mz)) + 1) as nat)
        + seq![';'] + spec_hex_chars_upper(
        (spec_first_pos(ps, spec_rel(l.position2, mx, my, mz)) + 1) as nat,
    ) + seq![';']
}

/// All lines' index tokens.
pub open spec fn spec_linerefs_chars(
    ls: Seq<BreadcrumbLine>,
    cs: Seq<Rgba>,
    ps: Seq<Position3D>,
    mx: i32,
    my: i32,
    mz: i32,
) -> Seq<char>
    decreases ls.len(),
{
    if ls.len() == 0 {
        Seq::empty()
    } else {
        spec_linerefs_chars(ls.drop_last(), cs, ps, mx, my, mz) + spec_lineref_chars(
            ls.last(),
            cs,
            ps,
            mx,
            my,
            mz,
        )
    }
}

/// What one zone's line list contributes to the built string; a zone with
/// no lines contributes nothing.
pub open spec fn spec_lines_zone_chars(zone_id: u16, ls: Seq<BreadcrumbLine>) -> Seq<char> {
    if ls.len() == 0 {
        Seq::empty()
    } else {
        let mx = wrap_i32(spec_min_x(ls));
        let my = wrap_i32(spec_min_y(ls));
        let mz = wrap_i32(spec_min_z(ls));
        let cs = spec_colour_table(ls);
        let ps = spec_dedup_points(spec_endpoints(ls, mx, my, mz));
        spec_hex_chars_upper(zone_id as nat) + seq![';'] + spec_hex_chars_i32(mx) + seq![';']
            + spec_hex_chars_i32(my) + seq![';'] + spec_hex_chars_i32(mz) + seq![';']
            + spec_hex_chars_upper(cs.len()) + seq![';'] + spec_colours_chars(cs)
            + spec_hex_chars_upper(ps.len()) + seq![';'] + spec_points_chars(ps)
            + spec_hex_chars_upper(ls.len()) + seq![';'] + spec_linerefs_chars(ls, cs, ps, mx,
            my, mz)
    }
}

/// The whole built string: each zone in table (ascending id) order.
pub open spec fn spec_build_lines(t: Seq<(u16, Seq<BreadcrumbLine>)>) -> Seq<char>
    decreases t.len(),
{
    if t.len() == 0 {
        Seq::empty()
    } else {
        spec_build_lines(t.drop_last()) + spec_lines_zone_chars(t.last().0, t.last().1)
    }
}

fn rgba_pos(cs: &Vec<Rgba>, c: Rgba) -> (r: usize)
    ensures
        r as int == spec_pos_or0(cs@, c),
        r == 0 || r < cs@.len(),
{
    let mut k: usize = 0;
    while k < cs.len()
        invariant
            k <= cs@.len(),
            forall|j: int| 0 <= j < k ==> cs@[j] != c,
        decreases cs@.len() - k,
    {
        if cs[k] == c {
            proof {
                lemma_first_pos(cs@, c, k as int);
            }
            return k;
        }
        k = k + 1;
    }
    assert(!cs@.contains(c));
    0
}

fn rgba_in(cs: &Vec<Rgba>, c: Rgba) -> (r: bool)
    ensures
        r == cs@.contains(c),
{
    let mut k: usize = 0;
    while k < cs.len()
        invariant
            k <= cs@.len(),
            forall|j: int| 0 <= j < k ==> cs@[j] != c,
        decreases cs@.len() - k,
    {
        if cs[k] == c {
            return true;
        }
        k = k + 1;
    }
    false
}

fn pos3_pos(ps: &Vec<Position3D>, p: Position3D) -> (r: usize)
    ensures
        ps@.contains(p) ==> r as int == spec_first_pos(ps@, p),
        !ps@.contains(p) ==> r == 0,
        r == 0 || r < ps@.len(),
{
    let mut k: usize = 0;
    while k < ps.len()
        invariant
            k <= ps@.len(),
            forall|j: int| 0 <= j < k ==> ps@[j] != p,
        decreases ps@.len() - k,
    {
        if ps[k] == p {
            proof {
                lemma_first_pos(ps@, p, k as int);
            }
            return k;
        }
        k = k + 1;
    }
    assert(!ps@.contains(p));
    0
}

fn pos3_in(ps: &Vec<Position3D>, p: Position3D) -> (r: bool)
    ensures
        r == ps@.contains(p),
{
    let mut k: usize = 0;
    while k < ps.len()
        invariant
            k <= ps@.len(),
            forall|j: int| 0 <= j < k ==> ps@[j] != p,
        decreases ps@.len() - k,
    {
        if ps[k] == p {
            return true;
        }
        k = k + 1;
    }
    false
}

fn rel_point(p: Position3D, mx: i32, my: i32, mz: i32) -> (r: Position3D)
    ensures
        r == spec_rel(p, mx, my, mz),
{
    Position3D {
        x: wrap_sub_i32(p.x, mx),
        y: wrap_sub_i32(p.y, my),
        z: wrap_sub_i32(p.z, mz),
    }
}

#[verifier::rlimit(100)]
fn push_zone_block(out: &mut Vec<char>, zone_id: u16, ls: &Vec<BreadcrumbLine>)
    ensures
        final(out)@ == old(out)@ + spec_lines_zone_chars(zone_id, ls@),
{
    let ghost lsv = ls@;
        if ls.len() > 0 {
        // per-axis minima
        let mut amx: i32 = i32::MAX;
        let mut amy: i32 = i32::MAX;
        let mut amz: i32 = i32::MAX;
        let mut k: usize = 0;
        proof {
            assert(lsv.take(0) =~= Seq::<BreadcrumbLine>::empty());
        }
        while k < ls.len()
            invariant
                k <= lsv.len(),
                lsv == ls@,
                amx as int == spec_min_x(lsv.take(k as int)),
                amy as int == spec_min_y(lsv.take(k as int)),
                amz as int == spec_min_z(lsv.take(k as int)),
            decreases lsv.len() - k,
        {
            proof {
                assert(lsv.take(k + 1).drop_last() =~= lsv.take(k as int));
                assert(lsv.take(k + 1).last() == lsv[k as int]);
            }
            let l = &ls[k];
            if l.position1.x < amx {
                amx = l.position1.x;
            }
            if l.position2.x < amx {
                amx = l.position2.x;
            }
            if l.position1.y < amy {
                amy = l.position1.y;
            }
            if l.position2.y < amy {
                amy = l.position2.y;
            }
            if l.position1.z < amz {
                amz = l.position1.z;
            }
            if l.position2.z < amz {
                amz = l.position2.z;
            }
            k = k + 1;
        }
        proof {
            assert(lsv.take(k as int) =~= lsv);
        }
        let mx = amx;
        let my = amy;
        let mz = amz;
        proof {
            assert(wrap_i32(spec_min_x(lsv)) == mx);
            assert(wrap_i32(spec_min_y(lsv)) == my);
            assert(wrap_i32(spec_min_z(lsv)) == mz);
        }
        // colour table
        let mut colours: Vec<Rgba> = Vec::new();
        let mut k2: usize = 0;
        proof {
            assert(colours@ =~= spec_colour_table(lsv.take(0)));
        }
        while k2 < ls.len()
            invariant
                k2 <= lsv.len(),
                lsv == ls@,
                colours@ == spec_colour_table(lsv.take(k2 as int)),
            decreases lsv.len() - k2,
        {
            proof {
                assert(lsv.take(k2 + 1).drop_last() =~= lsv.take(k2 as int));
                assert(lsv.take(k2 + 1).last() == lsv[k2 as int]);
            }
            let c = ls[k2].colour;
            if !rgba_in(&colours, c) {
                colours.push(c);
            }
            k2 = k2 + 1;
        }
        proof {
            assert(lsv.take(k2 as int) =~= lsv);
        }
        // point table
        let mut points: Vec<Position3D> = Vec::new();
        let mut k3: usize = 0;
        proof {
            assert(spec_endpoints(lsv.take(0), mx, my, mz) =~= Seq::<Position3D>::empty());
            assert(points@ =~= spec_dedup_points(spec_endpoints(lsv.take(0), mx, my, mz)));
        }
        while k3 < ls.len()
            invariant
                k3 <= lsv.len(),
                lsv == ls@,
                points@ == spec_dedup_points(spec_endpoints(lsv.take(k3 as int), mx, my,
                    mz)),
            decreases lsv.len() - k3,
        {
            proof {
                assert(lsv.take(k3 + 1).drop_last() =~= lsv.take(k3 as int));
                assert(lsv.take(k3 + 1).last() == lsv[k3 as int]);
            }
            let e1 = rel_point(ls[k3].position1, mx, my, mz);
            let e2 = rel_point(ls[k3].position2, mx, my, mz);
            let ghost before = spec_endpoints(lsv.take(k3 as int), mx, my, mz);
            proof {
                let after = spec_endpoints(lsv.take(k3 + 1), mx, my, mz);
                assert(after == before + seq![e1, e2]);
                assert(after.drop_last() =~= before.push(e1));
                assert(after.last() == e2);
                assert(before.push(e1).drop_last() =~= before);
                assert(before.push(e1).last() == e1);
            }
            let ghost dp0 = points@;
            if !pos3_in(&points, e1) {
                points.push(e1);
            }
            proof {
                assert(points@ == spec_dedup_points(before.push(e1)));
            }
            if !pos3_in(&points, e2) {
                points.push(e2);
            }
            proof {
                assert(points@ == spec_dedup_points(spec_endpoints(lsv.take(k3 + 1), mx, my,
                    mz)));
            }
            k3 = k3 + 1;
        }
        proof {
            assert(lsv.take(k3 as int) =~= lsv);
        }
        // emission
        push_hex_u64_upper(out, zone_id as u64);
        out.push(';');
        push_hex_i32_upper(out, mx);
        out.push(';');
        push_hex_i32_upper(out, my);
        out.push(';');
        push_hex_i32_upper(out, mz);
        out.push(';');
        push_hex_u64_upper(out, colours.len() as u64);
        out.push(';');
        let ghost head = out@;
        let mut k4: usize = 0;
        proof {
            assert(out@ =~= head + spec_colours_chars(colours@.take(0)));
        }
        while k4 < colours.len()
            invariant
                k4 <= colours@.len(),
                out@ == head + spec_colours_chars(colours@.take(k4 as int)),
            decreases colours@.len() - k4,
        {
            proof {
                assert(colours@.take(k4 + 1).drop_last() =~= colours@.take(k4 as int));
                assert(colours@.take(k4 + 1).last() == colours@[k4 as int]);
            }
            let c = colours[k4];
            let word: u64 = c.r as u64 * 0x10000 + c.g as u64 * 0x100 + c.b as u64;
            push_hex_u64_upper(out, word);
            out.push(';');
            proof {
                assert(out@ =~= head + spec_colours_chars(colours@.take(k4 + 1)));
            }
            k4 = k4 + 1;
        }
        proof {
            assert(colours@.take(k4 as int) =~= colours@);
        }
        push_hex_u64_upper(out, points.len() as u64);
        out.push(';');
        let ghost head2 = out@;
        let mut k5: usize = 0;
        proof {
            assert(out@ =~= head2 + spec_points_chars(points@.take(0)));
        }
        while k5 < points.len()
            invariant
                k5 <= points@.len(),
                out@ == head2 + spec_points_chars(points@.take(k5 as int)),
            decreases points@.len() - k5,
        {
            proof {
                assert(points@.take(k5 + 1).drop_last() =~= points@.take(k5 as int));
                assert(points@.take(k5 + 1).last() == points@[k5 as int]);
            }
            let pnt = points[k5];
            push_hex_i32_upper(out, pnt.x);
            out.push(';');
            push_hex_i32_upper(out, pnt.y);
            out.push(';');
            push_hex_i32_upper(out, pnt.z);
            out.push(';');
            proof {
                assert(out@ =~= head2 + spec_points_chars(points@.take(k5 + 1)));
            }
            k5 = k5 + 1;
        }
        proof {
            assert(points@.take(k5 as int) =~= points@);
        }
        push_hex_u64_upper(out, ls.len() as u64);
        out.push(';');
        let ghost head3 = out@;
        let mut k6: usize = 0;
        proof {
            assert(out@ =~= head3 + spec_linerefs_chars(lsv.take(0), colours@, points@, mx,
                my, mz));
        }
        while k6 < ls.len()
            invariant
                k6 <= lsv.len(),
                lsv == ls@,
                colours@ == spec_colour_table(lsv),
                points@ == spec_dedup_points(spec_endpoints(lsv, mx, my, mz)),
                out@ == head3 + spec_linerefs_chars(lsv.take(k6 as int), colours@, points@,
                    mx, my, mz),
            decreases lsv.len() - k6,
        {
            proof {
                assert(lsv.take(k6 + 1).drop_last() =~= lsv.take(k6 as int));
                assert(lsv.take(k6 + 1).last() == lsv[k6 as int]);
            }
            let l = &ls[k6];
            let ci = rgba_pos(&colours, l.colour);
            let e1 = rel_point(l.position1, mx, my, mz);
            let e2 = rel_point(l.position2, mx, my, mz);
            proof {
                lemma_endpoints_index(lsv, mx, my, mz, k6 as int);
                let eps = spec_endpoints(lsv, mx, my, mz);
                assert(eps[2 * (k6 as int)] == e1);
                assert(eps.contains(e1));
                assert(eps[2 * (k6 as int) + 1] == e2);
                assert(eps.contains(e2));
                lemma_dedup_contains(eps, e1);
                lemma_dedup_contains(eps, e2);
            }
            let p1 = pos3_pos(&points, e1);
            let p2 = pos3_pos(&points, e2);
            let n_colours = colours.len();
            let n_points = points.len();
            assert(ci <= n_colours && p1 <= n_points && p2 <= n_points);
            push_hex_u64_upper(out, (ci + 1) as u64);
            out.push(';');
            push_hex_u64_upper(out, (p1 + 1) as u64);
            out.push(';');
            push_hex_u64_upper(out, (p2 + 1) as u64);
            out.push(';');
            proof {
                assert(out@ =~= head3 + spec_linerefs_chars(lsv.take(k6 + 1), colours@,
                    points@, mx, my, mz));
            }
            k6 = k6 + 1;
        }
        proof {
            assert(lsv.take(k6 as int) =~= lsv);
            assert(out@ =~= old(out)@ + spec_lines_zone_chars(zone_id, lsv));
        }
    } else {
        proof {
            assert(spec_lines_zone_chars(zone_id, lsv) =~= Seq::<char>::empty());
            assert(out@ =~= old(out)@ + spec_lines_zone_chars(zone_id, lsv));
        }
    }
}

/// Builds the line string of a table: zones in ascending id order, each
/// non-empty zone as one block with its colour and point tables
/// deduplicated in first-occurrence order, all numbers upper-case hex,
/// every token followed by a semicolon.
pub fn lines_to_string(lines_by_zone: &ZoneTable<BreadcrumbLine>) -> (r: String)
    ensures
        r@ == spec_build_lines(lines_by_zone.view_entries()),
{
    let mut out: Vec<char> = Vec::new();
    let ghost t = lines_by_zone.view_entries();
    let mut i: usize = 0;
    proof {
        assert(t.take(0) =~= Seq::<(u16, Seq<BreadcrumbLine>)>::empty());
    }
    while i < lines_by_zone.entries.len()
        invariant
            i <= lines_by_zone.entries@.len(),
            t == lines_by_zone.view_entries(),
            t.len() == lines_by_zone.entries@.len(),
            out@ == spec_build_lines(t.take(i as int)),
        decreases lines_by_zone.entries@.len() - i,
    {
        let zone_id = lines_by_zone.entries[i].0;
        proof {
            assert(t[i as int] == (lines_by_zone.entries@[i as int].0, lines_by_zone.entries@[
                i as int].1@));
            assert(t.take(i + 1).drop_last() =~= t.take(i as int));
            assert(t.take(i + 1).last() == t[i as int]);
        }
        push_zone_block(&mut out, zone_id, &lines_by_zone.entries[i].1);
        proof {
            assert(out@ =~= spec_build_lines(t.take(i + 1)));
        }
        i = i + 1;
    }
    proof {
        assert(t.take(i as int) =~= t);
    }
    chars_to_string(&out)
}

// ---------------------------------------------------------------------------
// Laws
// ---------------------------------------------------------------------------
proof fn lemma_dedup_contains(ps: Seq<Position3D>, x: Position3D)
    ensures
        spec_dedup_points(ps).contains(x) <==> ps.contains(x),
    decreases ps.len(),
{
    if ps.len() > 0 {
        lemma_dedup_contains(ps.drop_last(), x);
        let t = spec_dedup_points(ps.drop_last());
        if t.contains(ps.last()) {
            if ps.contains(x) {
                let w = choose|w: int| 0 <= w < ps.len() && ps[w] == x;
                if w < ps.len() - 1 {
                    assert(ps.drop_last()[w] == x);
                    assert(ps.drop_last().contains(x));
                }
            }
            if spec_dedup_points(ps).contains(x) {
                assert(ps.drop_last().contains(x));
                let w = choose|w: int| 0 <= w < ps.drop_last().len() && ps.drop_last()[w] == x;
                assert(ps[w] == x);
            }
        } else {
            let d = spec_dedup_points(ps);
            assert(d == t.push(ps.last()));
            if ps.contains(x) {
                let w = choose|w: int| 0 <= w < ps.len() && ps[w] == x;
                if w < ps.len() - 1 {
                    assert(ps.drop_last()[w] == x);
                    assert(ps.drop_last().contains(x));
                    assert(t.contains(x));
                    let u = choose|u: int| 0 <= u < t.len() && t[u] == x;
                    assert(d[u] == x);
                } else {
                    assert(d[d.len() - 1] == x);
                }
            }
            if d.contains(x) {
                let w = choose|w: int| 0 <= w < d.len() && d[w] == x;
                if w < t.len() {
                    assert(t.contains(x));
                    assert(ps.drop_last().contains(x));
                    let u = choose|u: int| 0 <= u < ps.drop_last().len() && ps.drop_last()[u]
                        == x;
                    assert(ps[u] == x);
                } else {
                    assert(ps[ps.len() - 1] == x);
                }
            }
        }
    }
}

proof fn lemma_dedup_le(ps: Seq<Position3D>)
    ensures
        spec_dedup_points(ps).len() <= ps.len(),
    decreases ps.len(),
{
    if ps.len() > 0 {
        lemma_dedup_le(ps.drop_last());
    }
}

proof fn lemma_dedup_lt(ps: Seq<Position3D>, a: int, b: int)
    requires
        0 <= a < b < ps.len(),
        ps[a] == ps[b],
    ensures
        spec_dedup_points(ps).len() < ps.len(),
    decreases ps.len(),
{
    if b == ps.len() - 1 {
        assert(ps.drop_last()[a] == ps[a]);
        assert(ps.drop_last().contains(ps.last()));
        lemma_dedup_contains(ps.drop_last(), ps.last());
        lemma_dedup_le(ps.drop_last());
    } else {
        assert(ps.drop_last()[a] == ps[a] && ps.drop_last()[b] == ps[b]);
        lemma_dedup_lt(ps.drop_last(), a, b);
    }
}

/// A line list contributes exactly two endpoints per line.
pub proof fn lemma_endpoints_len(ls: Seq<BreadcrumbLine>, mx: i32, my: i32, mz: i32)
    ensures
        spec_endpoints(ls, mx, my, mz).len() == 2 * ls.len(),
    decreases ls.len(),
{
    if ls.len() > 0 {
        lemma_endpoints_len(ls.drop_last(), mx, my, mz);
    }
}

/// Where each line's two endpoints sit in the flat endpoint list.
pub proof fn lemma_endpoints_index(ls: Seq<BreadcrumbLine>, mx: i32, my: i32, mz: i32, k: int)
    requires
        0 <= k < ls.len(),
    ensures
        spec_endpoints(ls, mx, my, mz).len() == 2 * ls.len(),
        spec_endpoints(ls, mx, my, mz)[2 * k] == spec_rel(ls[k].position1, mx, my, mz),
        spec_endpoints(ls, mx, my, mz)[2 * k + 1] == spec_rel(ls[k].position2, mx, my, mz),
    decreases ls.len(),
{
    lemma_endpoints_len(ls, mx, my, mz);
    lemma_endpoints_len(ls.drop_last(), mx, my, mz);
    if k == ls.len() - 1 {
    } else {
        lemma_endpoints_index(ls.drop_last(), mx, my, mz, k);
        assert(ls.drop_last()[k] == ls[k]);
    }
}

/// Shared endpoints keep the stored point table compact: when any two
/// endpoint slots of a zone's lines coincide (after the relative-offset
/// shift), the built point table holds fewer than two entries per line.
pub proof fn lemma_point_table_compact(
    ls: Seq<BreadcrumbLine>,
    mx: i32,
    my: i32,
    mz: i32,
    a: int,
    b: int,
)
    requires
        0 <= a < b < spec_endpoints(ls, mx, my, mz).len(),
        spec_endpoints(ls, mx, my, mz)[a] == spec_endpoints(ls, mx, my, mz)[b],
    ensures
        spec_dedup_points(spec_endpoints(ls, mx, my, mz)).len() < 2 * ls.len(),
{
    lemma_endpoints_len(ls, mx, my, mz);
    lemma_dedup_lt(spec_endpoints(ls, mx, my, mz), a, b);
}

proof fn lemma_suffix_all_hex(s: Seq<char>)
    ensures
        hex_suffix_len(s) <= s.len(),
        crate::numeric::all_hex_digits(s.skip(s.len() - hex_suffix_len(s))),
    decreases s.len(),
{
    let run = hex_suffix_len(s);
    if s.len() > 0 && is_hex_digit(s.last()) {
        lemma_suffix_all_hex(s.drop_last());
        let t = s.drop_last();
        let trun = hex_suffix_len(t);
        assert(s.skip(s.len() - run) =~= t.skip(t.len() - trun).push(s.last()));
        let a = t.skip(t.len() - trun);
        let b = s.skip(s.len() - run);
        assert(forall|j: int| 0 <= j < b.len() ==> b[j] == if j < a.len() {
            a[j]
        } else {
            s.last()
        });
    } else {
        assert(s.skip(s.len() - 0).len() == 0);
    }
}

proof fn lemma_groups_avail_is(toks: Seq<Seq<char>>, base: int, count: nat, step: nat, k: nat)
    requires
        k >= count || base + step * k >= toks.len() || base + step * k < 0,
    ensures
        spec_groups_avail(toks, base, count, step, k) == k,
{
}

} // verus!

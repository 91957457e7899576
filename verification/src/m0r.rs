//! The rich-marker format: one bracket-delimited record per zone,
//! `<zoneId]timestamp]minX:minY:minZ]sizes]pitches]yaws]colours]textures]positions>`.
//! The five attribute fields are inverted indexes — `value:idx,idx;...`
//! groups, 1-based over the position list — so markers that keep the
//! default size, colour, orientation and texture cost nothing to encode.
//! Position coordinates are hex, relative to the mins; free text rides on
//! each position entry behind a third `:`, escaped as the `escape` module
//! describes.
//!
//! Unlike the other two formats this one has no recognizable partial
//! shape: a record without its `<`/`>` envelope or with fewer than nine
//! `]`-fields yields nothing at all.  Everything inside the envelope is
//! still best effort.

use vstd::prelude::*;

use crate::model::{M0rMarker, M0rTexture, M0rIcon, Marker, Position3D, Rgba};
use crate::numeric::{
    hex_seq_val, spec_hex_fits, spec_parse_hex_i32, spec_dec_chars, spec_parse_dec_u64,
    spec_parse_dec_i8, spec_parse_dec_i16, is_dec_digit, parse_hex_i32, parse_dec_u64,
    parse_dec_i8, parse_dec_i16, wrap_i32, wrap_add_i32, push_dec_u64,
};
use crate::strutil::{
    spec_trim, trim_chars, spec_split, split_char, toks_view, find_char, lemma_find_char,
    str_to_chars, chars_to_string, eq_chars,
};
use crate::escape::{spec_unescape, unescape_chars, spec_escape, push_escaped};
use crate::icons::{spec_og_icon, texture_from_og_chars, spec_og_chars};
use crate::zone::{Zone, spec_best_map, find_best_map};
use crate::table::ZoneTable;

verus! {

// ---------------------------------------------------------------------------
// Spec-level marker state
// ---------------------------------------------------------------------------
/// The texture of a marker, with free text as bare characters: the form
/// the parsing specification computes with.
#[verifier::ext_equal]
pub ghost enum TextureView {
    Known(M0rIcon),
    Unknown(Seq<char>),
    Absent,
}

/// A rich marker with its strings as bare character sequences: the form
/// the parsing specification computes with.
#[verifier::ext_equal]
pub ghost struct M0rView {
    pub position: Position3D,
    pub background_texture: TextureView,
    pub text: Option<Seq<char>>,
    pub size: Seq<char>,
    pub colour: Rgba,
    pub orientation: Option<(i8, i16)>,
    pub active: bool,
    pub id: u16,
    pub map_id: u16,
}

/// The view of one marker.
pub open spec fn m0r_view(m: M0rMarker) -> M0rView {
    M0rView {
        position: m.position,
        background_texture: match m.background_texture {
            M0rTexture::Known(i) => TextureView::Known(i),
            M0rTexture::Unknown(s) => TextureView::Unknown(s@),
            M0rTexture::Absent => TextureView::Absent,
        },
        text: match m.text {
            Option::Some(s) => Option::Some(s@),
            Option::None => Option::None,
        },
        size: m.size@,
        colour: m.colour,
        orientation: m.orientation,
        active: m.active,
        id: m.id,
        map_id: m.map_id,
    }
}

/// The views of a marker list that holds rich markers.
pub open spec fn m0r_views(ms: Seq<M0rMarker>) -> Seq<M0rView> {
    ms.map_values(|m: M0rMarker| m0r_view(m))
}

// ---------------------------------------------------------------------------
// Envelope
// ---------------------------------------------------------------------------
/// The index of the last occurrence of `c` in `s`, or -1.
pub open spec fn rfind_char(s: Seq<char>, c: char) -> int
    decreases s.len(),
{
    if s.len() == 0 {
        -1
    } else if s.last() == c {
        s.len() - 1
    } else {
        rfind_char(s.drop_last(), c)
    }
}

pub proof fn lemma_rfind_char(s: Seq<char>, c: char)
    ensures
        -1 <= rfind_char(s, c) < s.len(),
        rfind_char(s, c) >= 0 ==> s[rfind_char(s, c)] == c,
        forall|j: int| rfind_char(s, c) < j < s.len() ==> s[j] != c,
    decreases s.len(),
{
    if s.len() > 0 && s.last() != c {
        lemma_rfind_char(s.drop_last(), c);
        assert(forall|j: int| 0 <= j < s.len() - 1 ==> s[j] == s.drop_last()[j]);
    }
}

/// The text between the first `<` and the last `>`, when that span is
/// non-empty; a record without it is wholly malformed.
pub open spec fn spec_envelope(s: Seq<char>) -> Option<Seq<char>> {
    let t = spec_trim(s);
    let a = find_char(t, '<');
    let b = rfind_char(t, '>');
    if a < t.len() && b >= 0 && b > a {
        Option::Some(t.subrange(a + 1, b))
    } else {
        Option::None
    }
}

// ---------------------------------------------------------------------------
// Numeric tokens of this format
// ---------------------------------------------------------------------------
/// Every leading `0x` pair removed, as the lenient hex reader does before
/// parsing.
pub open spec fn strip_0x(s: Seq<char>) -> Seq<char>
    decreases s.len(),
{
    if s.len() >= 2 && s[0] == '0' && s[1] == 'x' {
        strip_0x(s.skip(2))
    } else {
        s
    }
}

/// The lenient hex coordinate reader: trim, drop `0x` prefixes, and fall
/// back to 0 for anything malformed or out of range.
pub open spec fn spec_phex_i32(s: Seq<char>) -> i32 {
    spec_parse_hex_i32(strip_0x(spec_trim(s)))
}

/// [`spec_phex_i32`] of the `idx`-th part, or 0 when there is no such
/// part.
pub open spec fn spec_part_i32(parts: Seq<Seq<char>>, idx: int) -> i32 {
    if 0 <= idx < parts.len() {
        spec_phex_i32(parts[idx])
    } else {
        0
    }
}

fn strip_0x_chars(s: &Vec<char>) -> (r: Vec<char>)
    ensures
        r@ == strip_0x(s@),
{
    let n = s.len();
    let mut a: usize = 0;
    proof {
        assert(s@.skip(0) =~= s@);
    }
    while n - a >= 2 && s[a] == '0' && s[a + 1] == 'x'
        invariant
            a <= n,
            n == s@.len(),
            strip_0x(s@) == strip_0x(s@.skip(a as int)),
        decreases n - a,
    {
        proof {
            assert(s@.skip(a as int)[0] == s@[a as int]);
            assert(s@.skip(a as int)[1] == s@[a + 1]);
            assert(s@.skip(a as int).skip(2) =~= s@.skip(a + 2));
        }
        a = a + 2;
    }
    proof {
        if a < n {
            assert(s@.skip(a as int)[0] == s@[a as int]);
        }
        if a + 1 < n {
            assert(s@.skip(a as int)[1] == s@[a + 1]);
        }
        assert(strip_0x(s@.skip(a as int)) == s@.skip(a as int));
    }
    let mut r: Vec<char> = Vec::new();
    let mut k: usize = a;
    while k < n
        invariant
            a <= k <= n,
            n == s@.len(),
            r@ == s@.subrange(a as int, k as int),
        decreases n - k,
    {
        r.push(s[k]);
        proof {
            assert(r@ =~= s@.subrange(a as int, k + 1));
        }
        k = k + 1;
    }
    proof {
        assert(r@ =~= s@.skip(a as int));
    }
    r
}

fn phex_i32(s: &Vec<char>) -> (r: i32)
    ensures
        r == spec_phex_i32(s@),
{
    let t = trim_chars(s);
    let u = strip_0x_chars(&t);
    parse_hex_i32(&u)
}

fn part_i32(parts: &Vec<Vec<char>>, idx: usize) -> (r: i32)
    ensures
        r == spec_part_i32(toks_view(parts@), idx as int),
{
    if idx < parts.len() {
        proof {
            assert(toks_view(parts@)[idx as int] == parts@[idx as int]@);
        }
        phex_i32(&parts[idx])
    } else {
        0
    }
}

// ---------------------------------------------------------------------------
// Position entries
// ---------------------------------------------------------------------------
/// The marker one position chunk denotes, before any attribute group
/// touches it: defaults everywhere, the map resolved from the marker's own
/// absolute position — or nothing, when the chunk has fewer than three
/// parts or no map contains the point (that marker is skipped entirely).
pub open spec fn spec_chunk_marker(
    chunk: Seq<char>,
    min_x: i32,
    min_y: i32,
    min_z: i32,
    zone: Zone,
    next_id: nat,
) -> Option<M0rView> {
    let parts = spec_split(spec_trim(chunk), ':');
    if parts.len() < 3 {
        Option::None
    } else {
        let cx = wrap_i32(spec_phex_i32(parts[0]) as int + min_x as int);
        let cy = wrap_i32(spec_phex_i32(parts[1]) as int + min_y as int);
        let cz = wrap_i32(spec_phex_i32(parts[2]) as int + min_z as int);
        match spec_best_map(cx as int, cy as int, cz as int, zone.maps@) {
            Option::None => Option::None,
            Option::Some(m) => {
                let text_raw: Seq<char> = if parts.len() > 3 {
                    parts[3]
                } else {
                    Seq::empty()
                };
                Option::Some(
                    M0rView {
                        position: Position3D { x: cx, y: cy, z: cz },
                        background_texture: TextureView::Absent,
                        text: Option::Some(spec_unescape(text_raw)),
                        size: seq!['1'],
                        colour: Rgba { r: 255, g: 255, b: 255, a: 255 },
                        orientation: Option::None,
                        active: true,
                        id: next_id as u16,
                        map_id: m.map_id,
                    },
                )
            },
        }
    }
}

/// All markers the position field yields, in order, with sequential ids.
pub open spec fn spec_positions_from(
    chunks: Seq<Seq<char>>,
    k: int,
    next_id: nat,
    min_x: i32,
    min_y: i32,
    min_z: i32,
    zone: Zone,
) -> Seq<M0rView>
    decreases chunks.len() - k,
{
    if !(0 <= k < chunks.len()) {
        Seq::empty()
    } else {
        match spec_chunk_marker(chunks[k], min_x, min_y, min_z, zone, next_id) {
            Option::Some(v) => seq![v] + spec_positions_from(
                chunks,
                k + 1,
                next_id + 1,
                min_x,
                min_y,
                min_z,
                zone,
            ),
            Option::None => spec_positions_from(chunks, k + 1, next_id, min_x, min_y, min_z,
                zone),
        }
    }
}


// ---------------------------------------------------------------------------
// Attribute groups: values and indices
// ---------------------------------------------------------------------------
/// How many `.` characters a size token holds.
pub open spec fn dot_count(s: Seq<char>) -> nat
    decreases s.len(),
{
    if s.len() == 0 {
        0
    } else {
        dot_count(s.drop_last()) + if s.last() == '.' {
            1nat
        } else {
            0nat
        }
    }
}

/// The body of a size token: digits with at most one decimal point, at
/// least one digit.
pub open spec fn size_body_ok(t: Seq<char>) -> bool {
    &&& t.len() > 0
    &&& forall|i: int| 0 <= i < t.len() ==> is_dec_digit(#[trigger] t[i]) || t[i] == '.'
    &&& dot_count(t) <= 1
    &&& exists|i: int| 0 <= i < t.len() && is_dec_digit(#[trigger] t[i])
}

/// A plain decimal size token: an optional minus, then a token body.
pub open spec fn is_size_token(s: Seq<char>) -> bool {
    if s.len() > 0 && s[0] == '-' {
        size_body_ok(s.skip(1))
    } else {
        size_body_ok(s)
    }
}

proof fn lemma_dot_count_mono(t: Seq<char>, m: int)
    requires
        0 <= m <= t.len(),
    ensures
        dot_count(t.take(m)) <= dot_count(t),
    decreases t.len() - m,
{
    if m == t.len() {
        assert(t.take(m) =~= t);
    } else {
        lemma_dot_count_mono(t, m + 1);
        assert(t.take(m + 1).drop_last() =~= t.take(m));
    }
}

fn size_token_check(s: &Vec<char>) -> (r: bool)
    ensures
        r == is_size_token(s@),
{
    let n = s.len();
    let a: usize = if n > 0 && s[0] == '-' {
        1
    } else {
        0
    };
    let ghost t = if s@.len() > 0 && s@[0] == '-' {
        s@.skip(1)
    } else {
        s@
    };
    proof {
        assert(t.len() == n - a);
        assert(forall|j: int| 0 <= j < t.len() ==> t[j] == s@[a + j]);
    }
    if a >= n {
        return false;
    }
    let mut dots: u64 = 0;
    let mut saw_digit = false;
    let mut k: usize = a;
    proof {
        assert(t.take(0) =~= Seq::<char>::empty());
    }
    while k < n
        invariant
            a <= k <= n,
            n == s@.len(),
            a == 0 || a == 1,
            t == (if s@.len() > 0 && s@[0] == '-' {
                s@.skip(1)
            } else {
                s@
            }),
            (a == 1) == (s@.len() > 0 && s@[0] == '-'),
            t.len() == n - a,
            forall|j: int| 0 <= j < t.len() ==> t[j] == s@[a + j],
            dots <= 1,
            dots as nat == dot_count(t.take(k - a)),
            saw_digit == exists|j: int| 0 <= j < k - a && is_dec_digit(#[trigger] t[j]),
            forall|j: int| 0 <= j < k - a ==> is_dec_digit(#[trigger] t[j]) || t[j] == '.',
        decreases n - k,
    {
        let c = s[k];
        proof {
            assert(t.take(k - a + 1).drop_last() =~= t.take(k - a));
            assert(t.take(k - a + 1).last() == t[k - a]);
            assert(t[k - a] == s@[k as int]);
        }
        if c == '.' {
            if dots >= 1 {
                proof {
                    lemma_dot_count_mono(t, k - a + 1);
                }
                return false;
            }
            dots = dots + 1;
        } else {
            match crate::numeric::dec_digit_of(c) {
                Option::Some(_) => {
                    proof {
                        assert(is_dec_digit(t[k - a]));
                    }
                    saw_digit = true;
                },
                Option::None => {
                    proof {
                        assert(!is_dec_digit(t[k - a]) && t[k - a] != '.');
                    }
                    return false;
                },
            }
        }
        k = k + 1;
    }
    proof {
        assert(t.take(k - a) =~= t);
    }
    dots <= 1 && saw_digit
}

/// One index list applied to the markers: each 1-based in-range ordinal
/// gets the update, everything else is ignored.
pub open spec fn spec_apply_idxs(
    views: Seq<M0rView>,
    idx_toks: Seq<Seq<char>>,
    k: int,
    upd: spec_fn(M0rView) -> M0rView,
) -> Seq<M0rView>
    decreases idx_toks.len() - k,
{
    if !(0 <= k < idx_toks.len()) {
        views
    } else {
        let it = spec_trim(idx_toks[k]);
        let views2 = match spec_parse_dec_u64(it) {
            Option::Some(v) => if v >= 1 && v - 1 < views.len() {
                views.update(v - 1, upd(views[v - 1]))
            } else {
                views
            },
            Option::None => views,
        };
        spec_apply_idxs(views2, idx_toks, k + 1, upd)
    }
}

/// One attribute field applied: its `;`-segments in order, each a
/// `value:idx,idx` group whose value must parse (per attribute) for the
/// group to act.
pub open spec fn spec_apply_segs(
    views: Seq<M0rView>,
    segs: Seq<Seq<char>>,
    k: int,
    mk: spec_fn(Seq<char>) -> Option<spec_fn(M0rView) -> M0rView>,
) -> Seq<M0rView>
    decreases segs.len() - k,
{
    if !(0 <= k < segs.len()) {
        views
    } else {
        let st = spec_trim(segs[k]);
        let colon = find_char(st, ':');
        let views2 = if st.len() == 0 || colon >= st.len() {
            views
        } else {
            match mk(st.take(colon)) {
                Option::Some(upd) => spec_apply_idxs(
                    views,
                    spec_split(st.skip(colon + 1), ','),
                    0,
                    upd,
                ),
                Option::None => views,
            }
        };
        spec_apply_segs(views2, segs, k + 1, mk)
    }
}

/// The size pass: a group whose value is a size token sets it verbatim.
pub open spec fn mk_size(value: Seq<char>) -> Option<spec_fn(M0rView) -> M0rView> {
    if is_size_token(value) {
        Option::Some(|v: M0rView| M0rView { size: value, ..v })
    } else {
        Option::None
    }
}

/// The colour pass: an optional `#`, optional `0x` prefixes, then a
/// 24/32-bit ARGB hex word.
pub open spec fn strip_hash(s: Seq<char>) -> Seq<char> {
    if s.len() > 0 && s[0] == '#' {
        s.skip(1)
    } else {
        s
    }
}

pub open spec fn mk_colour(value: Seq<char>) -> Option<spec_fn(M0rView) -> M0rView> {
    let h = strip_0x(strip_hash(value));
    if spec_hex_fits(h, u32::MAX as nat) {
        Option::Some(
            |v: M0rView| M0rView {
                colour: crate::colors::spec_hex_to_argb(hex_seq_val(h) as u32),
                ..v
            },
        )
    } else {
        Option::None
    }
}

/// The pitch pass: a signed decimal pitch keeps the yaw already set, or 0.
pub open spec fn mk_pitch(value: Seq<char>) -> Option<spec_fn(M0rView) -> M0rView> {
    match spec_parse_dec_i8(value) {
        Option::Some(p) => Option::Some(
            |v: M0rView| M0rView {
                orientation: Option::Some(
                    (
                        p,
                        match v.orientation {
                            Option::Some(o) => o.1,
                            Option::None => 0,
                        },
                    ),
                ),
                ..v
            },
        ),
        Option::None => Option::None,
    }
}

/// The yaw pass: a signed decimal yaw keeps the pitch already set, or 0.
pub open spec fn mk_yaw(value: Seq<char>) -> Option<spec_fn(M0rView) -> M0rView> {
    match spec_parse_dec_i16(value) {
        Option::Some(y) => Option::Some(
            |v: M0rView| M0rView {
                orientation: Option::Some(
                    (
                        match v.orientation {
                            Option::Some(o) => o.0,
                            Option::None => 0,
                        },
                        y,
                    ),
                ),
                ..v
            },
        ),
        Option::None => Option::None,
    }
}

/// The texture pass: any value acts — a known token, empty for no
/// texture, or free text kept verbatim.
pub open spec fn mk_texture(value: Seq<char>) -> Option<spec_fn(M0rView) -> M0rView> {
    Option::Some(
        |v: M0rView| M0rView {
            background_texture: match spec_og_icon(value) {
                Option::Some(i) => TextureView::Known(i),
                Option::None => if value.len() == 0 {
                    TextureView::Absent
                } else {
                    TextureView::Unknown(value)
                },
            },
            ..v
        },
    )
}

// ---------------------------------------------------------------------------
// The whole parse
// ---------------------------------------------------------------------------
/// The first zone whose decimal id is exactly the given text.
pub open spec fn spec_find_zone_dec(zones: Seq<Zone>, zs: Seq<char>) -> Option<Zone>
    decreases zones.len(),
{
    if zones.len() == 0 {
        Option::None
    } else if spec_dec_chars(zones[0].id as nat) == zs {
        Option::Some(zones[0])
    } else {
        spec_find_zone_dec(zones.drop_first(), zs)
    }
}

/// What parsing yields: nothing for a malformed envelope, too few fields,
/// or an unknown zone; otherwise the zone id with its marker list.
pub open spec fn spec_parse_m0r(s: Seq<char>, zones: Seq<Zone>) -> Option<(u16, Seq<M0rView>)> {
    match spec_envelope(s) {
        Option::None => Option::None,
        Option::Some(inner) => {
            let fields = spec_split(inner, ']');
            if fields.len() < 9 {
                Option::None
            } else {
                match spec_find_zone_dec(zones, spec_trim(fields[0])) {
                    Option::None => Option::None,
                    Option::Some(zone) => {
                        let mins_parts = spec_split(spec_trim(fields[2]), ':');
                        let mx = spec_part_i32(mins_parts, 0);
                        let my = spec_part_i32(mins_parts, 1);
                        let mz = spec_part_i32(mins_parts, 2);
                        let v0 = spec_positions_from(
                            spec_split(spec_trim(fields[8]), ','),
                            0,
                            0,
                            mx,
                            my,
                            mz,
                            zone,
                        );
                        let v1 = spec_apply_segs(v0, spec_split(spec_trim(fields[3]), ';'), 0,
                            |value: Seq<char>| mk_size(value));
                        let v2 = spec_apply_segs(v1, spec_split(spec_trim(fields[6]), ';'), 0,
                            |value: Seq<char>| mk_colour(value));
                        let v3 = spec_apply_segs(v2, spec_split(spec_trim(fields[4]), ';'), 0,
                            |value: Seq<char>| mk_pitch(value));
                        let v4 = spec_apply_segs(v3, spec_split(spec_trim(fields[5]), ';'), 0,
                            |value: Seq<char>| mk_yaw(value));
                        let v5 = spec_apply_segs(v4, spec_split(spec_trim(fields[7]), ';'), 0,
                            |value: Seq<char>| mk_texture(value));
                        Option::Some((zone.id, v5))
                    },
                }
            }
        },
    }
}

/// The rich-marker views of a parsed marker list.
pub open spec fn marker_m0r_views(ms: Seq<Marker>) -> Seq<M0rView> {
    ms.map_values(
        |m: Marker|
            match m {
                Marker::M0r(x) => m0r_view(x),
                Marker::Elms(_) => vstd::pervasive::arbitrary::<M0rView>(),
            },
    )
}


// ---------------------------------------------------------------------------
// Executable passes
// ---------------------------------------------------------------------------
/// One group's parsed value, ready to apply to a marker.
pub enum GroupUpdate {
    SetSize(String),
    SetColour(Rgba),
    SetPitch(i8),
    SetYaw(i16),
    SetTexture(M0rTexture),
}

/// What a parsed group value does to one marker.
pub open spec fn spec_update(u: GroupUpdate) -> spec_fn(M0rView) -> M0rView {
    match u {
        GroupUpdate::SetSize(s) => |v: M0rView| M0rView { size: s@, ..v },
        GroupUpdate::SetColour(c) => |v: M0rView| M0rView { colour: c, ..v },
        GroupUpdate::SetPitch(p) => |v: M0rView|
            M0rView {
                orientation: Option::Some(
                    (
                        p,
                        match v.orientation {
                            Option::Some(o) => o.1,
                            Option::None => 0,
                        },
                    ),
                ),
                ..v
            },
        GroupUpdate::SetYaw(y) => |v: M0rView|
            M0rView {
                orientation: Option::Some(
                    (
                        match v.orientation {
                            Option::Some(o) => o.0,
                            Option::None => 0,
                        },
                        y,
                    ),
                ),
                ..v
            },
        GroupUpdate::SetTexture(t) => |v: M0rView|
            M0rView {
                background_texture: match t {
                    M0rTexture::Known(i) => TextureView::Known(i),
                    M0rTexture::Unknown(s) => TextureView::Unknown(s@),
                    M0rTexture::Absent => TextureView::Absent,
                },
                ..v
            },
    }
}

fn clone_texture(t: &M0rTexture) -> (r: M0rTexture)
    ensures
        match (*t, r) {
            (M0rTexture::Known(a), M0rTexture::Known(b)) => a == b,
            (M0rTexture::Unknown(a), M0rTexture::Unknown(b)) => a@ == b@,
            (M0rTexture::Absent, M0rTexture::Absent) => true,
            _ => false,
        },
{
    match t {
        M0rTexture::Known(i) => M0rTexture::Known(*i),
        M0rTexture::Unknown(s) => M0rTexture::Unknown(chars_to_string(&str_to_chars(s.as_str()))),
        M0rTexture::Absent => M0rTexture::Absent,
    }
}

fn apply_update(m: M0rMarker, u: &GroupUpdate) -> (r: M0rMarker)
    ensures
        m0r_view(r) == spec_update(*u)(m0r_view(m)),
{
    match u {
        GroupUpdate::SetSize(s) => M0rMarker { size: s.clone(), ..m },
        GroupUpdate::SetColour(c) => M0rMarker { colour: *c, ..m },
        GroupUpdate::SetPitch(p) => {
            let yaw: i16 = match m.orientation {
                Option::Some(o) => o.1,
                Option::None => 0,
            };
            M0rMarker { orientation: Some((*p, yaw)), ..m }
        },
        GroupUpdate::SetYaw(y) => {
            let pitch: i8 = match m.orientation {
                Option::Some(o) => o.0,
                Option::None => 0,
            };
            M0rMarker { orientation: Some((pitch, *y)), ..m }
        },
        GroupUpdate::SetTexture(t) => {
            let tex = clone_texture(t);
            M0rMarker { background_texture: tex, ..m }
        },
    }
}

fn apply_idx_list(markers: &mut Vec<M0rMarker>, idx_field: &Vec<char>, u: &GroupUpdate)
    ensures
        m0r_views(final(markers)@) == spec_apply_idxs(
            m0r_views(old(markers)@),
            spec_split(idx_field@, ','),
            0,
            spec_update(*u),
        ),
{
    let toks = split_char(idx_field, ',');
    let ghost tv = toks_view(toks@);
    let ghost upd = spec_update(*u);
    let mut j: usize = 0;
    while j < toks.len()
        invariant
            j <= toks@.len(),
            tv == toks_view(toks@),
            tv == spec_split(idx_field@, ','),
            spec_apply_idxs(m0r_views(old(markers)@), tv, 0, upd) == spec_apply_idxs(
                m0r_views(markers@),
                tv,
                j as int,
                upd,
            ),
            upd == spec_update(*u),
        decreases toks@.len() - j,
    {
        proof {
            assert(tv[j as int] == toks@[j as int]@);
        }
        let it = trim_chars(&toks[j]);
        match parse_dec_u64(&it) {
            Option::Some(v) => {
                if v >= 1 && v - 1 < markers.len() as u64 {
                    let i = (v - 1) as usize;
                    let ghost before = m0r_views(markers@);
                    let m = markers.remove(i);
                    let m2 = apply_update(m, u);
                    markers.insert(i, m2);
                    proof {
                        assert(m0r_views(markers@) =~= before.update(i as int, upd(before[
                            i as int])));
                    }
                } else {
                }
            },
            Option::None => {},
        }
        j = j + 1;
    }
    proof {
        assert(spec_apply_idxs(m0r_views(markers@), tv, j as int, upd) == m0r_views(markers@));
    }
}


/// Applying pointwise-equal updates folds to the same result.
proof fn lemma_apply_idxs_congruence(
    views: Seq<M0rView>,
    toks: Seq<Seq<char>>,
    k: int,
    f: spec_fn(M0rView) -> M0rView,
    g: spec_fn(M0rView) -> M0rView,
)
    requires
        forall|v: M0rView| #[trigger] f(v) == g(v),
    ensures
        spec_apply_idxs(views, toks, k, f) == spec_apply_idxs(views, toks, k, g),
    decreases toks.len() - k,
{
    if 0 <= k < toks.len() {
        let it = spec_trim(toks[k]);
        let views2 = match spec_parse_dec_u64(it) {
            Option::Some(v) => if v >= 1 && v - 1 < views.len() {
                views.update(v - 1, f(views[v - 1]))
            } else {
                views
            },
            Option::None => views,
        };
        lemma_apply_idxs_congruence(views2, toks, k + 1, f, g);
    }
}

/// Which attribute field a pass reads.
pub enum PassKind {
    Sizes,
    Colours,
    Pitches,
    Yaws,
    Textures,
}

/// The specification a pass obeys, per kind.
pub open spec fn spec_pass(
    views: Seq<M0rView>,
    field: Seq<char>,
    which: PassKind,
) -> Seq<M0rView> {
    let segs = spec_split(spec_trim(field), ';');
    match which {
        PassKind::Sizes => spec_apply_segs(views, segs, 0, |value: Seq<char>| mk_size(value)),
        PassKind::Colours => spec_apply_segs(views, segs, 0, |value: Seq<char>| mk_colour(value)),
        PassKind::Pitches => spec_apply_segs(views, segs, 0, |value: Seq<char>| mk_pitch(value)),
        PassKind::Yaws => spec_apply_segs(views, segs, 0, |value: Seq<char>| mk_yaw(value)),
        PassKind::Textures => spec_apply_segs(
            views,
            segs,
            0,
            |value: Seq<char>| mk_texture(value),
        ),
    }
}

fn index_of_char(s: &Vec<char>, c: char) -> (r: usize)
    ensures
        r as int == find_char(s@, c),
        r <= s@.len(),
{
    proof {
        lemma_find_char(s@, c);
    }
    let mut i: usize = 0;
    while i < s.len()
        invariant
            i <= s@.len(),
            forall|j: int| 0 <= j < i ==> s@[j] != c,
        decreases s@.len() - i,
    {
        if s[i] == c {
            proof {
                lemma_find_char(s@, c);
            }
            return i;
        }
        i = i + 1;
    }
    proof {
        lemma_find_char(s@, c);
    }
    i
}

fn copy_range(s: &Vec<char>, a: usize, b: usize) -> (r: Vec<char>)
    requires
        a <= b <= s@.len(),
    ensures
        r@ == s@.subrange(a as int, b as int),
{
    let mut r: Vec<char> = Vec::new();
    let mut k: usize = a;
    while k < b
        invariant
            a <= k <= b <= s@.len(),
            r@ == s@.subrange(a as int, k as int),
        decreases b - k,
    {
        r.push(s[k]);
        proof {
            assert(r@ =~= s@.subrange(a as int, k + 1));
        }
        k = k + 1;
    }
    r
}

fn strip_hash_chars(s: &Vec<char>) -> (r: Vec<char>)
    ensures
        r@ == strip_hash(s@),
{
    if s.len() > 0 && s[0] == '#' {
        let r = copy_range(s, 1, s.len());
        proof {
            assert(r@ =~= s@.skip(1));
        }
        r
    } else {
        copy_range_all(s)
    }
}

fn copy_range_all(s: &Vec<char>) -> (r: Vec<char>)
    ensures
        r@ == s@,
{
    let r = copy_range(s, 0, s.len());
    proof {
        assert(r@ =~= s@);
    }
    r
}

#[verifier::rlimit(100)]
fn apply_pass(markers: &mut Vec<M0rMarker>, field: &Vec<char>, which: &PassKind)
    ensures
        m0r_views(final(markers)@) == spec_pass(
            m0r_views(old(markers)@),
            field@,
            *which,
        ),
{
    let trimmed = trim_chars(field);
    let segs = split_char(&trimmed, ';');
    let ghost sv = toks_view(segs@);
    let ghost mk: spec_fn(Seq<char>) -> Option<spec_fn(M0rView) -> M0rView> = match *which {
        PassKind::Sizes => |value: Seq<char>| mk_size(value),
        PassKind::Colours => |value: Seq<char>| mk_colour(value),
        PassKind::Pitches => |value: Seq<char>| mk_pitch(value),
        PassKind::Yaws => |value: Seq<char>| mk_yaw(value),
        PassKind::Textures => |value: Seq<char>| mk_texture(value),
    };
    let mut k: usize = 0;
    while k < segs.len()
        invariant
            k <= segs@.len(),
            sv == toks_view(segs@),
            sv == spec_split(spec_trim(field@), ';'),
            mk == (match *which {
                PassKind::Sizes => |value: Seq<char>| mk_size(value),
                PassKind::Colours => |value: Seq<char>| mk_colour(value),
                PassKind::Pitches => |value: Seq<char>| mk_pitch(value),
                PassKind::Yaws => |value: Seq<char>| mk_yaw(value),
                PassKind::Textures => |value: Seq<char>| mk_texture(value),
            }),
            spec_apply_segs(m0r_views(old(markers)@), sv, 0, mk) == spec_apply_segs(
                m0r_views(markers@),
                sv,
                k as int,
                mk,
            ),
        decreases segs@.len() - k,
    {
        proof {
            assert(sv[k as int] == segs@[k as int]@);
        }
        let st = trim_chars(&segs[k]);
        if st.len() > 0 {
            let colon = index_of_char(&st, ':');
            if colon < st.len() {
                let value = copy_range(&st, 0, colon);
                let idx_field = copy_range(&st, colon + 1, st.len());
                proof {
                    assert(value@ =~= spec_trim(sv[k as int]).take(colon as int));
                    assert(idx_field@ =~= spec_trim(sv[k as int]).skip(colon + 1));
                }
                let upd: Option<GroupUpdate> = match which {
                    PassKind::Sizes => {
                        if size_token_check(&value) {
                            Some(GroupUpdate::SetSize(chars_to_string(&value)))
                        } else {
                            None
                        }
                    },
                    PassKind::Colours => {
                        let h0 = strip_hash_chars(&value);
                        let h = strip_0x_chars(&h0);
                        match crate::numeric::parse_hex_u64_opt(&h) {
                            Option::Some(v) => {
                                if v <= u32::MAX as u64 {
                                    let (ca, cr, cg, cb) = crate::colors::hex_to_argb(v as u32);
                                    Some(GroupUpdate::SetColour(
                                        Rgba { r: cr, g: cg, b: cb, a: ca },
                                    ))
                                } else {
                                    None
                                }
                            },
                            Option::None => None,
                        }
                    },
                    PassKind::Pitches => {
                        match parse_dec_i8(&value) {
                            Option::Some(p) => Some(GroupUpdate::SetPitch(p)),
                            Option::None => None,
                        }
                    },
                    PassKind::Yaws => {
                        match parse_dec_i16(&value) {
                            Option::Some(y) => Some(GroupUpdate::SetYaw(y)),
                            Option::None => None,
                        }
                    },
                    PassKind::Textures => {
                        let tex = texture_from_og_chars(&value);
                        Some(GroupUpdate::SetTexture(tex))
                    },
                };
                match upd {
                    Option::Some(u) => {
                        proof {
                            assert(mk(value@) is Some);
                            assert(forall|v: M0rView| #[trigger] spec_update(u)(v) == mk(
                                value@,
                            )->0(v));
                        }
                        let ghost before = m0r_views(markers@);
                        apply_idx_list(markers, &idx_field, &u);
                        proof {
                            lemma_apply_idxs_congruence(
                                before,
                                spec_split(idx_field@, ','),
                                0,
                                spec_update(u),
                                mk(value@)->0,
                            );
                        }
                    },
                    Option::None => {
                        proof {
                            assert(mk(value@) is None);
                        }
                    },
                }
            }
        }
        k = k + 1;
    }
    proof {
        assert(spec_apply_segs(m0r_views(markers@), sv, k as int, mk) == m0r_views(markers@));
    }
}


// ---------------------------------------------------------------------------
// The parse entry point
// ---------------------------------------------------------------------------
fn rindex_of_char(s: &Vec<char>, c: char) -> (r: Option<usize>)
    ensures
        match r {
            Option::Some(i) => rfind_char(s@, c) == i as int,
            Option::None => rfind_char(s@, c) == -1,
        },
{
    proof {
        lemma_rfind_char(s@, c);
    }
    let mut e: usize = s.len();
    while e > 0
        invariant
            e <= s@.len(),
            forall|j: int| e <= j < s@.len() ==> s@[j] != c,
        decreases e,
    {
        if s[e - 1] == c {
            proof {
                lemma_rfind_char(s@, c);
                let rf = rfind_char(s@, c);
                assert(rf >= e - 1);
                assert(rf > e - 1 ==> s@[rf] != c);
            }
            return Some(e - 1);
        }
        e = e - 1;
    }
    proof {
        lemma_rfind_char(s@, c);
        let rf = rfind_char(s@, c);
        assert(rf >= 0 ==> s@[rf] == c);
    }
    None
}

fn find_zone_dec<'a>(zones: &'a Vec<Zone>, zs: &Vec<char>) -> (r: Option<&'a Zone>)
    ensures
        match r {
            Option::Some(z) => spec_find_zone_dec(zones@, zs@) == Option::Some(*z),
            Option::None => spec_find_zone_dec(zones@, zs@) is None,
        },
{
    let mut i: usize = 0;
    proof {
        assert(zones@.skip(0) =~= zones@);
    }
    while i < zones.len()
        invariant
            i <= zones@.len(),
            spec_find_zone_dec(zones@, zs@) == spec_find_zone_dec(zones@.skip(i as int), zs@),
        decreases zones@.len() - i,
    {
        let mut zd: Vec<char> = Vec::new();
        push_dec_u64(&mut zd, zones[i].id as u64);
        proof {
            assert(zones@.skip(i as int)[0] == zones@[i as int]);
            assert(zones@.skip(i as int).drop_first() =~= zones@.skip(i + 1));
        }
        if eq_chars(&zd, zs) {
            return Some(&zones[i]);
        }
        i = i + 1;
    }
    proof {
        assert(zones@.skip(i as int).len() == 0);
    }
    None
}

/// Parses a rich-marker string against a zone catalog: the envelope and
/// field split, the zone looked up by its exact decimal id, one default
/// marker per resolvable position entry, then the five attribute passes.
/// The result holds the one zone the record names, or nothing at all when
/// the record's shape or zone is wrong.
#[verifier::rlimit(100)]
pub fn parse_m0r_string(m0r_string: &str, zones: Vec<Zone>) -> (r: ZoneTable<Marker>)
    ensures
        r.wf(),
        match spec_parse_m0r(m0r_string@, zones@) {
            Option::None => r.view_entries() == Seq::<(u16, Seq<Marker>)>::empty(),
            Option::Some(p) => {
                &&& r.view_entries().len() == 1
                &&& r.view_entries()[0].0 == p.0
                &&& marker_m0r_views(r.view_entries()[0].1) == p.1
                &&& forall|k: int|
                    0 <= k < r.view_entries()[0].1.len() ==> (#[trigger] r.view_entries()[0].1.index(k)) is M0r
            },
        },
{
    let empty_t: ZoneTable<Marker> = ZoneTable::new();
    let chars = str_to_chars(m0r_string);
    let trimmed = trim_chars(&chars);
    let a = index_of_char(&trimmed, '<');
    let b_opt = rindex_of_char(&trimmed, '>');
    let b: usize = match b_opt {
        Option::Some(b) => b,
        Option::None => {
            return empty_t;
        },
    };
    if !(a < trimmed.len() && b > a) {
        return empty_t;
    }
    proof {
        lemma_rfind_char(trimmed@, '>');
    }
    let inner = copy_range(&trimmed, a + 1, b);
    let fields = split_char(&inner, ']');
    let ghost fv = toks_view(fields@);
    proof {
        crate::strutil::lemma_split_len(inner@, ']');
    }
    if fields.len() < 9 {
        return empty_t;
    }
    let zs = trim_chars(&fields[0]);
    proof {
        assert(fv[0] == fields@[0 as int]@);
        assert(fv[2] == fields@[2 as int]@);
        assert(fv[3] == fields@[3 as int]@);
        assert(fv[4] == fields@[4 as int]@);
        assert(fv[5] == fields@[5 as int]@);
        assert(fv[6] == fields@[6 as int]@);
        assert(fv[7] == fields@[7 as int]@);
        assert(fv[8] == fields@[8 as int]@);
    }
    let zone = match find_zone_dec(&zones, &zs) {
        Option::Some(z) => z,
        Option::None => {
            return empty_t;
        },
    };
    let mins_t = trim_chars(&fields[2]);
    let mins_parts = split_char(&mins_t, ':');
    let mx = part_i32(&mins_parts, 0);
    let my = part_i32(&mins_parts, 1);
    let mz = part_i32(&mins_parts, 2);
    let pos_t = trim_chars(&fields[8]);
    let chunks = split_char(&pos_t, ',');
    let ghost cv = toks_view(chunks@);
    let mut markers: Vec<M0rMarker> = Vec::new();
    let mut k: usize = 0;
    proof {
        assert(m0r_views(markers@) =~= Seq::<M0rView>::empty());
        assert(Seq::<M0rView>::empty() + spec_positions_from(cv, 0, 0, mx, my, mz, *zone)
            =~= spec_positions_from(cv, 0, 0, mx, my, mz, *zone));
    }
    while k < chunks.len()
        invariant
            k <= chunks@.len(),
            cv == toks_view(chunks@),
            spec_positions_from(cv, 0, 0, mx, my, mz, *zone) == m0r_views(markers@)
                + spec_positions_from(
                cv,
                k as int,
                markers@.len() as nat,
                mx,
                my,
                mz,
                *zone,
            ),
        decreases chunks@.len() - k,
    {
        proof {
            assert(cv[k as int] == chunks@[k as int]@);
        }
        let ct = trim_chars(&chunks[k]);
        let parts = split_char(&ct, ':');
        let ghost pv = toks_view(parts@);
        if parts.len() >= 3 {
            proof {
                assert(pv[0] == parts@[0 as int]@);
                assert(pv[1] == parts@[1 as int]@);
                assert(pv[2] == parts@[2 as int]@);
            }
            let cx = wrap_add_i32(phex_i32(&parts[0]), mx);
            let cy = wrap_add_i32(phex_i32(&parts[1]), my);
            let cz = wrap_add_i32(phex_i32(&parts[2]), mz);
            match find_best_map(cx, cy, cz, zone) {
                Option::Some(m) => {
                    let text_raw: Vec<char> = if parts.len() > 3 {
                        proof {
                            assert(pv[3] == parts@[3 as int]@);
                        }
                        copy_range_all(&parts[3])
                    } else {
                        Vec::new()
                    };
                    let text = unescape_chars(&text_raw);
                    let mut one: Vec<char> = Vec::new();
                    one.push('1');
                    proof {
                        assert(one@ =~= seq!['1']);
                    }
                    let marker = M0rMarker {
                        position: Position3D { x: cx, y: cy, z: cz },
                        background_texture: M0rTexture::Absent,
                        text: Some(chars_to_string(&text)),
                        size: chars_to_string(&one),
                        colour: Rgba { r: 255, g: 255, b: 255, a: 255 },
                        orientation: None,
                        active: true,
                        id: #[verifier::truncate] (markers.len() as u16),
                        map_id: m.map_id,
                    };
                    proof {
                        assert(spec_chunk_marker(cv[k as int], mx, my, mz, *zone,
                            markers@.len() as nat) == Option::Some(m0r_view(marker)));
                    }
                    markers.push(marker);
                    proof {
                        assert(m0r_views(markers@) =~= m0r_views(markers@.drop_last()).push(
                            m0r_view(marker),
                        ));
                        assert(m0r_views(markers@.drop_last()) + (seq![m0r_view(marker)]
                            + spec_positions_from(cv, k + 1, markers@.len() as nat, mx, my, mz,
                            *zone)) =~= m0r_views(markers@) + spec_positions_from(
                            cv,
                            k + 1,
                            markers@.len() as nat,
                            mx,
                            my,
                            mz,
                            *zone,
                        ));
                    }
                },
                Option::None => {
                    proof {
                        assert(spec_chunk_marker(cv[k as int], mx, my, mz, *zone,
                            markers@.len() as nat) is None);
                    }
                },
            }
        } else {
            proof {
                assert(spec_chunk_marker(cv[k as int], mx, my, mz, *zone,
                    markers@.len() as nat) is None);
            }
        }
        k = k + 1;
    }
    proof {
        assert(spec_positions_from(cv, k as int, markers@.len() as nat, mx, my, mz, *zone)
            =~= Seq::<M0rView>::empty());
        assert(m0r_views(markers@) + Seq::<M0rView>::empty() =~= m0r_views(markers@));
    }
    let zone_id = zone.id;
    let ghost the_zone = *zone;
    apply_pass(&mut markers, &fields[3], &PassKind::Sizes);
    apply_pass(&mut markers, &fields[6], &PassKind::Colours);
    apply_pass(&mut markers, &fields[4], &PassKind::Pitches);
    apply_pass(&mut markers, &fields[5], &PassKind::Yaws);
    apply_pass(&mut markers, &fields[7], &PassKind::Textures);
    let mut wrapped: Vec<Marker> = Vec::new();
    let mut w: usize = 0;
    let ghost final_views = m0r_views(markers@);
    while w < markers.len()
        invariant
            w <= markers@.len(),
            final_views == m0r_views(markers@),
            wrapped@.len() == w,
            forall|j: int| 0 <= j < w ==> (#[trigger] wrapped@[j]) is M0r,
            marker_m0r_views(wrapped@) == final_views.take(w as int),
        decreases markers@.len() - w,
    {
        let mm = &markers[w];
        let copy = M0rMarker {
            position: mm.position,
            background_texture: clone_texture(&mm.background_texture),
            text: match &mm.text {
                Option::Some(s) => Some(s.clone()),
                Option::None => None,
            },
            size: mm.size.clone(),
            colour: mm.colour,
            orientation: mm.orientation,
            active: mm.active,
            id: mm.id,
            map_id: mm.map_id,
        };
        proof {
            assert(m0r_view(copy) == m0r_view(markers@[w as int]));
        }
        wrapped.push(Marker::M0r(copy));
        proof {
            assert(marker_m0r_views(wrapped@) =~= final_views.take(w + 1));
        }
        w = w + 1;
    }
    proof {
        assert(final_views.take(w as int) =~= final_views);
    }
    let ghost wv = wrapped@;
    let mut t: ZoneTable<Marker> = ZoneTable::new();
    t.put_items(zone_id, wrapped);
    proof {
        assert(t.view_entries() =~= seq![(zone_id, wv)]);
    }
    t
}


// ---------------------------------------------------------------------------
// Building
// ---------------------------------------------------------------------------
/// The active rich markers of a zone's list, in stored order: everything
/// the builder writes.  Inactive markers and simple markers write nothing.
pub open spec fn spec_active_m0r(ms: Seq<Marker>) -> Seq<M0rMarker>
    decreases ms.len(),
{
    if ms.len() == 0 {
        Seq::empty()
    } else {
        let rest = spec_active_m0r(ms.drop_last());
        match ms.last() {
            Marker::M0r(m) => if m.active {
                rest.push(m)
            } else {
                rest
            },
            _ => rest,
        }
    }
}

/// The smallest x over the markers' positions.
pub open spec fn spec_m0r_min_x(es: Seq<M0rMarker>) -> int
    decreases es.len(),
{
    if es.len() == 0 {
        i32::MAX as int
    } else {
        let r = spec_m0r_min_x(es.drop_last());
        if (es.last().position.x as int) < r {
            es.last().position.x as int
        } else {
            r
        }
    }
}

/// The smallest y over the markers' positions.
pub open spec fn spec_m0r_min_y(es: Seq<M0rMarker>) -> int
    decreases es.len(),
{
    if es.len() == 0 {
        i32::MAX as int
    } else {
        let r = spec_m0r_min_y(es.drop_last());
        if (es.last().position.y as int) < r {
            es.last().position.y as int
        } else {
            r
        }
    }
}

/// The smallest z over the markers' positions.
pub open spec fn spec_m0r_min_z(es: Seq<M0rMarker>) -> int
    decreases es.len(),
{
    if es.len() == 0 {
        i32::MAX as int
    } else {
        let r = spec_m0r_min_z(es.drop_last());
        if (es.last().position.z as int) < r {
            es.last().position.z as int
        } else {
            r
        }
    }
}

/// Negative values clamp to zero: the format stores mins unsigned.
pub open spec fn clamp0(v: int) -> nat {
    if v < 0 {
        0
    } else {
        v as nat
    }
}

/// One ordinal added to its value's group: appended to the first group
/// with that value, or opening a new group at the end.
pub open spec fn group_add<K>(g: Seq<(K, Seq<nat>)>, k: K, o: nat) -> Seq<(K, Seq<nat>)>
    decreases g.len(),
{
    if g.len() == 0 {
        seq![(k, seq![o])]
    } else if g[0].0 == k {
        seq![(g[0].0, g[0].1.push(o))] + g.drop_first()
    } else {
        seq![g[0]] + group_add(g.drop_first(), k, o)
    }
}

/// The groups of a key list, in first-occurrence order, each holding its
/// 1-based ordinals ascending; keys of `None` are not grouped at all.
pub open spec fn spec_groups<K>(keys: Seq<Option<K>>) -> Seq<(K, Seq<nat>)>
    decreases keys.len(),
{
    if keys.len() == 0 {
        Seq::empty()
    } else {
        let g = spec_groups(keys.drop_last());
        match keys.last() {
            Option::Some(k) => group_add(g, k, keys.len() as nat),
            Option::None => g,
        }
    }
}

/// A group's ordinal list as text: decimal, comma-joined.
pub open spec fn spec_idxs_chars(idxs: Seq<nat>) -> Seq<char>
    decreases idxs.len(),
{
    if idxs.len() == 0 {
        Seq::empty()
    } else if idxs.len() == 1 {
        spec_dec_chars(idxs[0])
    } else {
        spec_idxs_chars(idxs.drop_last()) + seq![','] + spec_dec_chars(idxs.last())
    }
}

/// A group table as text: `value:idxs`, semicolon-joined, the value
/// rendered per attribute.
pub open spec fn spec_groups_chars<K>(
    g: Seq<(K, Seq<nat>)>,
    render: spec_fn(K) -> Seq<char>,
) -> Seq<char>
    decreases g.len(),
{
    if g.len() == 0 {
        Seq::empty()
    } else if g.len() == 1 {
        render(g[0].0) + seq![':'] + spec_idxs_chars(g[0].1)
    } else {
        spec_groups_chars(g.drop_last(), render) + seq![';'] + render(g.last().0) + seq![':']
            + spec_idxs_chars(g.last().1)
    }
}

/// The size keys: the token itself, except the default "1" which is not
/// written at all.
pub open spec fn spec_size_keys(es: Seq<M0rMarker>) -> Seq<Option<Seq<char>>> {
    es.map_values(
        |m: M0rMarker|
            if m.size@ == seq!['1'] {
                Option::<Seq<char>>::None
            } else {
                Option::Some(m.size@)
            },
    )
}

/// The pitch keys: only oriented markers have one.
pub open spec fn spec_pitch_keys(es: Seq<M0rMarker>) -> Seq<Option<i8>> {
    es.map_values(
        |m: M0rMarker|
            match m.orientation {
                Option::Some(o) => Option::Some(o.0),
                Option::None => Option::<i8>::None,
            },
    )
}

/// The yaw keys: only oriented markers have one.
pub open spec fn spec_yaw_keys(es: Seq<M0rMarker>) -> Seq<Option<i16>> {
    es.map_values(
        |m: M0rMarker|
            match m.orientation {
                Option::Some(o) => Option::Some(o.1),
                Option::None => Option::<i16>::None,
            },
    )
}

/// The colour keys: every marker is grouped under its colour.
pub open spec fn spec_colour_keys(es: Seq<M0rMarker>) -> Seq<Option<Rgba>> {
    es.map_values(|m: M0rMarker| Option::Some(m.colour))
}

/// The texture keys: every marker is grouped under its texture's view.
pub open spec fn spec_texture_keys(es: Seq<M0rMarker>) -> Seq<Option<TextureView>> {
    es.map_values(
        |m: M0rMarker|
            Option::Some(
                match m.background_texture {
                    M0rTexture::Known(i) => TextureView::Known(i),
                    M0rTexture::Unknown(s) => TextureView::Unknown(s@),
                    M0rTexture::Absent => TextureView::Absent,
                },
            ),
    )
}

/// How a texture writes in a group: its token, the free text verbatim, or
/// the blank icon's token for "no texture" — the format cannot say "none".
pub open spec fn spec_texture_render(t: TextureView) -> Seq<char> {
    match t {
        TextureView::Known(i) => spec_og_chars(i),
        TextureView::Unknown(s) => s,
        TextureView::Absent => seq!['^', '7'],
    }
}

/// One marker's position entry: lower-case hex offsets from the mins and
/// the escaped text, colon-separated.
pub open spec fn spec_pos_entry_chars(m: M0rMarker, mx: int, my: int, mz: int) -> Seq<char> {
    crate::numeric::spec_hex_chars_lower(clamp0(m.position.x as int - mx)) + seq![':']
        + crate::numeric::spec_hex_chars_lower(clamp0(m.position.y as int - my)) + seq![':']
        + crate::numeric::spec_hex_chars_lower(clamp0(m.position.z as int - mz)) + seq![':']
        + spec_escape(
        match m.text {
            Option::Some(s) => s@,
            Option::None => Seq::empty(),
        },
    )
}

/// All position entries, comma-joined.
pub open spec fn spec_pos_list_chars(es: Seq<M0rMarker>, mx: int, my: int, mz: int) -> Seq<
    char,
>
    decreases es.len(),
{
    if es.len() == 0 {
        Seq::empty()
    } else if es.len() == 1 {
        spec_pos_entry_chars(es[0], mx, my, mz)
    } else {
        spec_pos_list_chars(es.drop_last(), mx, my, mz) + seq![','] + spec_pos_entry_chars(
            es.last(),
            mx,
            my,
            mz,
        )
    }
}

/// What one zone's marker list contributes to the built string: nothing
/// without an active rich marker, else one whole record.
pub open spec fn spec_m0r_zone_chars(zone_id: u16, ms: Seq<Marker>, ts: Seq<char>) -> Seq<
    char,
> {
    let es = spec_active_m0r(ms);
    if es.len() == 0 {
        Seq::empty()
    } else {
        let mx = spec_m0r_min_x(es);
        let my = spec_m0r_min_y(es);
        let mz = spec_m0r_min_z(es);
        seq!['<'] + spec_dec_chars(zone_id as nat) + seq![']'] + ts + seq![']']
            + crate::numeric::spec_hex_chars_lower(clamp0(mx)) + seq![':']
            + crate::numeric::spec_hex_chars_lower(clamp0(my)) + seq![':']
            + crate::numeric::spec_hex_chars_lower(clamp0(mz)) + seq![']'] + spec_groups_chars(
            spec_groups(spec_size_keys(es)),
            |k: Seq<char>| k,
        ) + seq![']'] + spec_groups_chars(
            spec_groups(spec_pitch_keys(es)),
            |k: i8| crate::numeric::spec_dec_chars_signed(k as int),
        ) + seq![']'] + spec_groups_chars(
            spec_groups(spec_yaw_keys(es)),
            |k: i16| crate::numeric::spec_dec_chars_signed(k as int),
        ) + seq![']'] + spec_groups_chars(
            spec_groups(spec_colour_keys(es)),
            |k: Rgba| crate::colors::spec_colour_key_chars(k),
        ) + seq![']'] + spec_groups_chars(
            spec_groups(spec_texture_keys(es)),
            |k: TextureView| spec_texture_render(k),
        ) + seq![']'] + spec_pos_list_chars(es, mx, my, mz) + seq!['>']
    }
}

/// The whole built string: each zone in table (ascending id) order, the
/// same timestamp text on every record.
pub open spec fn spec_build_m0r(
    t: Seq<(u16, Seq<Marker>)>,
    ts: Seq<char>,
) -> Seq<char>
    decreases t.len(),
{
    if t.len() == 0 {
        Seq::empty()
    } else {
        spec_build_m0r(t.drop_last(), ts) + spec_m0r_zone_chars(t.last().0, t.last().1, ts)
    }
}


// ---------------------------------------------------------------------------
// Building: executable
// ---------------------------------------------------------------------------
proof fn lemma_group_add_found<K>(g: Seq<(K, Seq<nat>)>, k: K, o: nat, i: int)
    requires
        0 <= i < g.len(),
        g[i].0 == k,
        forall|j: int| 0 <= j < i ==> (#[trigger] g[j]).0 != k,
    ensures
        group_add(g, k, o) == g.update(i, (g[i].0, g[i].1.push(o))),
    decreases i,
{
    if i == 0 {
        assert(group_add(g, k, o) =~= g.update(0, (g[0].0, g[0].1.push(o))));
    } else {
        let d = g.drop_first();
        assert(forall|j: int| 0 <= j < d.len() ==> d[j] == g[j + 1]);
        lemma_group_add_found(d, k, o, i - 1);
        assert(seq![g[0]] + d.update(i - 1, (d[i - 1].0, d[i - 1].1.push(o))) =~= g.update(
            i,
            (g[i].0, g[i].1.push(o)),
        ));
    }
}

proof fn lemma_group_add_absent<K>(g: Seq<(K, Seq<nat>)>, k: K, o: nat)
    requires
        forall|j: int| 0 <= j < g.len() ==> (#[trigger] g[j]).0 != k,
    ensures
        group_add(g, k, o) == g.push((k, seq![o])),
    decreases g.len(),
{
    if g.len() == 0 {
        assert(group_add(g, k, o) =~= g.push((k, seq![o])));
    } else {
        let d = g.drop_first();
        assert(forall|j: int| 0 <= j < d.len() ==> d[j] == g[j + 1]);
        lemma_group_add_absent(d, k, o);
        assert(seq![g[0]] + d.push((k, seq![o])) =~= g.push((k, seq![o])));
    }
}

/// The dereferenced markers a borrowed list stands for.
pub open spec fn deref_seq(s: Seq<&M0rMarker>) -> Seq<M0rMarker> {
    s.map_values(|p: &M0rMarker| *p)
}

fn collect_active_m0r<'a>(ms: &'a Vec<Marker>) -> (r: Vec<&'a M0rMarker>)
    ensures
        deref_seq(r@) == spec_active_m0r(ms@),
{
    let mut r: Vec<&M0rMarker> = Vec::new();
    let mut i: usize = 0;
    proof {
        assert(ms@.take(0) =~= Seq::<Marker>::empty());
        assert(deref_seq(r@) =~= spec_active_m0r(ms@.take(0)));
    }
    while i < ms.len()
        invariant
            i <= ms@.len(),
            deref_seq(r@) == spec_active_m0r(ms@.take(i as int)),
        decreases ms@.len() - i,
    {
        proof {
            assert(ms@.take(i + 1).drop_last() =~= ms@.take(i as int));
            assert(ms@.take(i + 1).last() == ms@[i as int]);
        }
        match &ms[i] {
            Marker::M0r(m) => {
                if m.active {
                    r.push(m);
                    proof {
                        assert(deref_seq(r@) =~= spec_active_m0r(ms@.take(i + 1)));
                    }
                }
            },
            _ => {},
        }
        i = i + 1;
    }
    proof {
        assert(ms@.take(i as int) =~= ms@);
    }
    r
}

/// The ordinal lists as the specification counts them.
pub open spec fn ords_view(v: Seq<u64>) -> Seq<nat> {
    v.map_values(|x: u64| x as nat)
}

/// The spec-level view of the size group table.
pub open spec fn size_groups_view(g: Seq<(String, Vec<u64>)>) -> Seq<(Seq<char>, Seq<nat>)> {
    g.map_values(|p: (String, Vec<u64>)| (p.0@, ords_view(p.1@)))
}

/// The spec-level view of the pitch group table.
pub open spec fn pitch_groups_view(g: Seq<(i8, Vec<u64>)>) -> Seq<(i8, Seq<nat>)> {
    g.map_values(|p: (i8, Vec<u64>)| (p.0, ords_view(p.1@)))
}

/// The spec-level view of the yaw group table.
pub open spec fn yaw_groups_view(g: Seq<(i16, Vec<u64>)>) -> Seq<(i16, Seq<nat>)> {
    g.map_values(|p: (i16, Vec<u64>)| (p.0, ords_view(p.1@)))
}

/// The spec-level view of the colour group table.
pub open spec fn colour_groups_view(g: Seq<(Rgba, Vec<u64>)>) -> Seq<(Rgba, Seq<nat>)> {
    g.map_values(|p: (Rgba, Vec<u64>)| (p.0, ords_view(p.1@)))
}

/// The texture a stored key stands for.
pub open spec fn tex_view(t: M0rTexture) -> TextureView {
    match t {
        M0rTexture::Known(i) => TextureView::Known(i),
        M0rTexture::Unknown(s) => TextureView::Unknown(s@),
        M0rTexture::Absent => TextureView::Absent,
    }
}

/// The spec-level view of the texture group table.
pub open spec fn texture_groups_view(g: Seq<(M0rTexture, Vec<u64>)>) -> Seq<
    (TextureView, Seq<nat>),
> {
    g.map_values(|p: (M0rTexture, Vec<u64>)| (tex_view(p.0), ords_view(p.1@)))
}


fn group_sizes(es: &Vec<&M0rMarker>) -> (g: Vec<(String, Vec<u64>)>)
    ensures
        size_groups_view(g@) == spec_groups(spec_size_keys(deref_seq(es@))),
{
    let mut g: Vec<(String, Vec<u64>)> = Vec::new();
    let mut k: usize = 0;
    proof {
        assert(spec_size_keys(deref_seq(es@.take(0))) =~= Seq::<Option<Seq<char>>>::empty());
        assert(size_groups_view(g@) =~= spec_groups(spec_size_keys(deref_seq(es@.take(0)))));
    }
    while k < es.len()
        invariant
            k <= es@.len(),
            size_groups_view(g@) == spec_groups(spec_size_keys(deref_seq(es@.take(k as int)))),
        decreases es@.len() - k,
    {
        let ghost keys1 = spec_size_keys(deref_seq(es@.take(k + 1)));
        proof {
            assert(keys1.drop_last() =~= spec_size_keys(deref_seq(es@.take(k as int))));
            assert(keys1.last() == (if es@[k as int].size@ == seq!['1'] {
                Option::<Seq<char>>::None
            } else {
                Option::Some(es@[k as int].size@)
            }));
            assert(keys1.len() == k + 1);
        }
        let m = es[k];
        let sv = str_to_chars(m.size.as_str());
        let is_one = sv.len() == 1 && sv[0] == '1';
        proof {
            if is_one {
                assert(m.size@ =~= seq!['1']);
            } else {
                assert(m.size@ != seq!['1']);
            }
        }
        if !is_one {
            let key = chars_to_string(&sv);
            let ghost gv = size_groups_view(g@);
            let mut i: usize = 0;
            let mut found = false;
            while i < g.len() && !found
                invariant
                    i <= g@.len(),
                    gv == size_groups_view(g@),
                    gv.len() == g@.len(),
                    key@ == es@[k as int].size@,
                    !found ==> forall|j: int| 0 <= j < i ==> (#[trigger] gv[j]).0 != key@,
                    found ==> i < g@.len() && gv[i as int].0 == key@ && (forall|j: int|
                        0 <= j < i ==> (#[trigger] gv[j]).0 != key@),
                decreases g@.len() - i + (if found { 0int } else { 1int }),
            {
                proof {
                    assert(gv[i as int].0 == g@[i as int].0@);
                }
                if g[i].0.eq(&key) {
                    found = true;
                } else {
                    i = i + 1;
                }
            }
            let o: u64 = (k + 1) as u64;
            if found {
                let mut e = g.remove(i);
                e.1.push(o);
                g.insert(i, e);
                proof {
                    lemma_group_add_found(gv, key@, (k + 1) as nat, i as int);
                    assert(size_groups_view(g@) =~~= gv.update(
                        i as int,
                        (gv[i as int].0, gv[i as int].1.push((k + 1) as nat)),
                    ));
                }
            } else {
                let mut v: Vec<u64> = Vec::new();
                v.push(o);
                g.push((key, v));
                proof {
                    lemma_group_add_absent(gv, key@, (k + 1) as nat);
                    assert(ords_view(v@) =~= seq![(k + 1) as nat]);
                    assert(size_groups_view(g@) =~~= gv.push((key@, seq![(k + 1) as nat])));
                }
            }
        }
        k = k + 1;
    }
    proof {
        assert(es@.take(k as int) =~= es@);
    }
    g
}

fn group_pitches(es: &Vec<&M0rMarker>) -> (g: Vec<(i8, Vec<u64>)>)
    ensures
        pitch_groups_view(g@) == spec_groups(spec_pitch_keys(deref_seq(es@))),
{
    let mut g: Vec<(i8, Vec<u64>)> = Vec::new();
    let mut k: usize = 0;
    proof {
        assert(spec_pitch_keys(deref_seq(es@.take(0))) =~= Seq::<Option<i8>>::empty());
        assert(pitch_groups_view(g@) =~= spec_groups(spec_pitch_keys(deref_seq(es@.take(0)))));
    }
    while k < es.len()
        invariant
            k <= es@.len(),
            pitch_groups_view(g@) == spec_groups(spec_pitch_keys(deref_seq(es@.take(k as int)))),
        decreases es@.len() - k,
    {
        let ghost keys1 = spec_pitch_keys(deref_seq(es@.take(k + 1)));
        proof {
            assert(keys1.drop_last() =~= spec_pitch_keys(deref_seq(es@.take(k as int))));
            assert(keys1.last() == (match es@[k as int].orientation {
                Option::Some(o) => Option::Some(o.0),
                Option::None => Option::<i8>::None,
            }));
            assert(keys1.len() == k + 1);
        }
        let m = es[k];
        match m.orientation {
            Option::Some(po) => {
                let key: i8 = po.0;
                let ghost gv = pitch_groups_view(g@);
                let mut i: usize = 0;
                let mut found = false;
                while i < g.len() && !found
                    invariant
                        i <= g@.len(),
                        gv == pitch_groups_view(g@),
                        gv.len() == g@.len(),
                        !found ==> forall|j: int| 0 <= j < i ==> (#[trigger] gv[j]).0 != key,
                        found ==> i < g@.len() && gv[i as int].0 == key && (forall|j: int|
                            0 <= j < i ==> (#[trigger] gv[j]).0 != key),
                    decreases g@.len() - i + (if found { 0int } else { 1int }),
                {
                    proof {
                        assert(gv[i as int].0 == g@[i as int].0);
                    }
                    if g[i].0 == key {
                        found = true;
                    } else {
                        i = i + 1;
                    }
                }
                let o: u64 = (k + 1) as u64;
                if found {
                    let mut e = g.remove(i);
                    e.1.push(o);
                    g.insert(i, e);
                    proof {
                        lemma_group_add_found(gv, key, (k + 1) as nat, i as int);
                        assert(pitch_groups_view(g@) =~~= gv.update(
                            i as int,
                            (gv[i as int].0, gv[i as int].1.push((k + 1) as nat)),
                        ));
                    }
                } else {
                    let mut v: Vec<u64> = Vec::new();
                    v.push(o);
                    g.push((key, v));
                    proof {
                        lemma_group_add_absent(gv, key, (k + 1) as nat);
                        assert(ords_view(v@) =~= seq![(k + 1) as nat]);
                        assert(pitch_groups_view(g@) =~~= gv.push((key, seq![(k + 1) as nat])));
                    }
                }
            },
            Option::None => {},
        }
        k = k + 1;
    }
    proof {
        assert(es@.take(k as int) =~= es@);
    }
    g
}

fn group_yaws(es: &Vec<&M0rMarker>) -> (g: Vec<(i16, Vec<u64>)>)
    ensures
        yaw_groups_view(g@) == spec_groups(spec_yaw_keys(deref_seq(es@))),
{
    let mut g: Vec<(i16, Vec<u64>)> = Vec::new();
    let mut k: usize = 0;
    proof {
        assert(spec_yaw_keys(deref_seq(es@.take(0))) =~= Seq::<Option<i16>>::empty());
        assert(yaw_groups_view(g@) =~= spec_groups(spec_yaw_keys(deref_seq(es@.take(0)))));
    }
    while k < es.len()
        invariant
            k <= es@.len(),
            yaw_groups_view(g@) == spec_groups(spec_yaw_keys(deref_seq(es@.take(k as int)))),
        decreases es@.len() - k,
    {
        let ghost keys1 = spec_yaw_keys(deref_seq(es@.take(k + 1)));
        proof {
            assert(keys1.drop_last() =~= spec_yaw_keys(deref_seq(es@.take(k as int))));
            assert(keys1.last() == (match es@[k as int].orientation {
                Option::Some(o) => Option::Some(o.1),
                Option::None => Option::<i16>::None,
            }));
            assert(keys1.len() == k + 1);
        }
        let m = es[k];
        match m.orientation {
            Option::Some(po) => {
                let key: i16 = po.1;
                let ghost gv = yaw_groups_view(g@);
                let mut i: usize = 0;
                let mut found = false;
                while i < g.len() && !found
                    invariant
                        i <= g@.len(),
                        gv == yaw_groups_view(g@),
                        gv.len() == g@.len(),
                        !found ==> forall|j: int| 0 <= j < i ==> (#[trigger] gv[j]).0 != key,
                        found ==> i < g@.len() && gv[i as int].0 == key && (forall|j: int|
                            0 <= j < i ==> (#[trigger] gv[j]).0 != key),
                    decreases g@.len() - i + (if found { 0int } else { 1int }),
                {
                    proof {
                        assert(gv[i as int].0 == g@[i as int].0);
                    }
                    if g[i].0 == key {
                        found = true;
                    } else {
                        i = i + 1;
                    }
                }
                let o: u64 = (k + 1) as u64;
                if found {
                    let mut e = g.remove(i);
                    e.1.push(o);
                    g.insert(i, e);
                    proof {
                        lemma_group_add_found(gv, key, (k + 1) as nat, i as int);
                        assert(yaw_groups_view(g@) =~~= gv.update(
                            i as int,
                            (gv[i as int].0, gv[i as int].1.push((k + 1) as nat)),
                        ));
                    }
                } else {
                    let mut v: Vec<u64> = Vec::new();
                    v.push(o);
                    g.push((key, v));
                    proof {
                        lemma_group_add_absent(gv, key, (k + 1) as nat);
                        assert(ords_view(v@) =~= seq![(k + 1) as nat]);
                        assert(yaw_groups_view(g@) =~~= gv.push((key, seq![(k + 1) as nat])));
                    }
                }
            },
            Option::None => {},
        }
        k = k + 1;
    }
    proof {
        assert(es@.take(k as int) =~= es@);
    }
    g
}

fn group_colours(es: &Vec<&M0rMarker>) -> (g: Vec<(Rgba, Vec<u64>)>)
    ensures
        colour_groups_view(g@) == spec_groups(spec_colour_keys(deref_seq(es@))),
{
    let mut g: Vec<(Rgba, Vec<u64>)> = Vec::new();
    let mut k: usize = 0;
    proof {
        assert(spec_colour_keys(deref_seq(es@.take(0))) =~= Seq::<Option<Rgba>>::empty());
        assert(colour_groups_view(g@) =~= spec_groups(spec_colour_keys(deref_seq(es@.take(0)))));
    }
    while k < es.len()
        invariant
            k <= es@.len(),
            colour_groups_view(g@) == spec_groups(
                spec_colour_keys(deref_seq(es@.take(k as int))),
            ),
        decreases es@.len() - k,
    {
        let ghost keys1 = spec_colour_keys(deref_seq(es@.take(k + 1)));
        proof {
            assert(keys1.drop_last() =~= spec_colour_keys(deref_seq(es@.take(k as int))));
            assert(keys1.last() == Option::Some(es@[k as int].colour));
            assert(keys1.len() == k + 1);
        }
        let m = es[k];
        let key: Rgba = m.colour;
        let ghost gv = colour_groups_view(g@);
        let mut i: usize = 0;
        let mut found = false;
        while i < g.len() && !found
            invariant
                i <= g@.len(),
                gv == colour_groups_view(g@),
                gv.len() == g@.len(),
                !found ==> forall|j: int| 0 <= j < i ==> (#[trigger] gv[j]).0 != key,
                found ==> i < g@.len() && gv[i as int].0 == key && (forall|j: int|
                    0 <= j < i ==> (#[trigger] gv[j]).0 != key),
            decreases g@.len() - i + (if found { 0int } else { 1int }),
        {
            proof {
                assert(gv[i as int].0 == g@[i as int].0);
            }
            if g[i].0 == key {
                found = true;
            } else {
                i = i + 1;
            }
        }
        let o: u64 = (k + 1) as u64;
        if found {
            let mut e = g.remove(i);
            e.1.push(o);
            g.insert(i, e);
            proof {
                lemma_group_add_found(gv, key, (k + 1) as nat, i as int);
                assert(colour_groups_view(g@) =~~= gv.update(
                    i as int,
                    (gv[i as int].0, gv[i as int].1.push((k + 1) as nat)),
                ));
            }
        } else {
            let mut v: Vec<u64> = Vec::new();
            v.push(o);
            g.push((key, v));
            proof {
                lemma_group_add_absent(gv, key, (k + 1) as nat);
                assert(ords_view(v@) =~= seq![(k + 1) as nat]);
                assert(colour_groups_view(g@) =~~= gv.push((key, seq![(k + 1) as nat])));
            }
        }
        k = k + 1;
    }
    proof {
        assert(es@.take(k as int) =~= es@);
    }
    g
}

fn group_textures(es: &Vec<&M0rMarker>) -> (g: Vec<(M0rTexture, Vec<u64>)>)
    ensures
        texture_groups_view(g@) == spec_groups(spec_texture_keys(deref_seq(es@))),
{
    let mut g: Vec<(M0rTexture, Vec<u64>)> = Vec::new();
    let mut k: usize = 0;
    proof {
        assert(spec_texture_keys(deref_seq(es@.take(0))) =~= Seq::<Option<TextureView>>::empty());
        assert(texture_groups_view(g@) =~= spec_groups(
            spec_texture_keys(deref_seq(es@.take(0))),
        ));
    }
    while k < es.len()
        invariant
            k <= es@.len(),
            texture_groups_view(g@) == spec_groups(
                spec_texture_keys(deref_seq(es@.take(k as int))),
            ),
        decreases es@.len() - k,
    {
        let ghost keys1 = spec_texture_keys(deref_seq(es@.take(k + 1)));
        proof {
            assert(keys1.drop_last() =~= spec_texture_keys(deref_seq(es@.take(k as int))));
            assert(keys1.last() == Option::Some(tex_view(es@[k as int].background_texture)));
            assert(keys1.len() == k + 1);
        }
        let m = es[k];
        let key = clone_texture(&m.background_texture);
        let ghost keyv = tex_view(es@[k as int].background_texture);
        proof {
            assert(tex_view(key) == keyv);
        }
        let ghost gv = texture_groups_view(g@);
        let mut i: usize = 0;
        let mut found = false;
        while i < g.len() && !found
            invariant
                i <= g@.len(),
                gv == texture_groups_view(g@),
                gv.len() == g@.len(),
                tex_view(key) == keyv,
                !found ==> forall|j: int| 0 <= j < i ==> (#[trigger] gv[j]).0 != keyv,
                found ==> i < g@.len() && gv[i as int].0 == keyv && (forall|j: int|
                    0 <= j < i ==> (#[trigger] gv[j]).0 != keyv),
            decreases g@.len() - i + (if found { 0int } else { 1int }),
        {
            proof {
                assert(gv[i as int].0 == tex_view(g@[i as int].0));
            }
            if crate::model::texture_sem_eq(&g[i].0, &key) {
                proof {
                    assert(gv[i as int].0 == keyv);
                }
                found = true;
            } else {
                proof {
                    assert(gv[i as int].0 != keyv);
                }
                i = i + 1;
            }
        }
        let o: u64 = (k + 1) as u64;
        if found {
            let mut e = g.remove(i);
            e.1.push(o);
            g.insert(i, e);
            proof {
                lemma_group_add_found(gv, keyv, (k + 1) as nat, i as int);
                assert(texture_groups_view(g@) =~~= gv.update(
                    i as int,
                    (gv[i as int].0, gv[i as int].1.push((k + 1) as nat)),
                ));
            }
        } else {
            let mut v: Vec<u64> = Vec::new();
            v.push(o);
            g.push((key, v));
            proof {
                lemma_group_add_absent(gv, keyv, (k + 1) as nat);
                assert(ords_view(v@) =~= seq![(k + 1) as nat]);
                assert(texture_groups_view(g@) =~~= gv.push((keyv, seq![(k + 1) as nat])));
            }
        }
        k = k + 1;
    }
    proof {
        assert(es@.take(k as int) =~= es@);
    }
    g
}


fn push_chars(out: &mut Vec<char>, s: &Vec<char>)
    ensures
        final(out)@ == old(out)@ + s@,
{
    let mut k: usize = 0;
    proof {
        assert(out@ =~= old(out)@ + s@.take(0));
    }
    while k < s.len()
        invariant
            k <= s@.len(),
            out@ == old(out)@ + s@.take(k as int),
        decreases s@.len() - k,
    {
        out.push(s[k]);
        proof {
            assert(out@ =~= old(out)@ + s@.take(k + 1));
        }
        k = k + 1;
    }
    proof {
        assert(s@.take(k as int) =~= s@);
    }
}

fn push_idxs(out: &mut Vec<char>, v: &Vec<u64>)
    ensures
        final(out)@ == old(out)@ + spec_idxs_chars(ords_view(v@)),
{
    let mut k: usize = 0;
    proof {
        assert(ords_view(v@.take(0)) =~= Seq::<nat>::empty());
        assert(out@ =~= old(out)@ + spec_idxs_chars(ords_view(v@.take(0))));
    }
    while k < v.len()
        invariant
            k <= v@.len(),
            out@ == old(out)@ + spec_idxs_chars(ords_view(v@.take(k as int))),
        decreases v@.len() - k,
    {
        proof {
            assert(ords_view(v@.take(k + 1)).drop_last() =~= ords_view(v@.take(k as int)));
            assert(ords_view(v@.take(k + 1)).last() == v@[k as int] as nat);
            assert(ords_view(v@.take(k + 1)).len() == k + 1);
        }
        if k > 0 {
            out.push(',');
        }
        push_dec_u64(out, v[k]);
        proof {
            if k == 0 {
                assert(ords_view(v@.take(1)).len() == 1);
                assert(ords_view(v@.take(1))[0] == v@[0] as nat);
            }
            assert(out@ =~= old(out)@ + spec_idxs_chars(ords_view(v@.take(k + 1))));
        }
        k = k + 1;
    }
    proof {
        assert(v@.take(k as int) =~= v@);
    }
}

fn push_size_groups(out: &mut Vec<char>, g: &Vec<(String, Vec<u64>)>)
    ensures
        final(out)@ == old(out)@ + spec_groups_chars(
            size_groups_view(g@),
            |k: Seq<char>| k,
        ),
{
    let ghost gv = size_groups_view(g@);
    let ghost render: spec_fn(Seq<char>) -> Seq<char> = |k: Seq<char>| k;
    let mut i: usize = 0;
    proof {
        assert(gv.take(0) =~= Seq::<(Seq<char>, Seq<nat>)>::empty());
        assert(out@ =~= old(out)@ + spec_groups_chars(gv.take(0), render));
    }
    while i < g.len()
        invariant
            i <= g@.len(),
            gv == size_groups_view(g@),
            gv.len() == g@.len(),
            render == (|k: Seq<char>| k),
            out@ == old(out)@ + spec_groups_chars(gv.take(i as int), render),
        decreases g@.len() - i,
    {
        proof {
            assert(gv.take(i + 1).drop_last() =~= gv.take(i as int));
            assert(gv.take(i + 1).last() == gv[i as int]);
            assert(gv[i as int] == (g@[i as int].0@, ords_view(g@[i as int].1@)));
        }
        if i > 0 {
            out.push(';');
        }
        let kc = str_to_chars(g[i].0.as_str());
        push_chars(out, &kc);
        out.push(':');
        push_idxs(out, &g[i].1);
        proof {
            assert(out@ =~= old(out)@ + spec_groups_chars(gv.take(i + 1), render));
        }
        i = i + 1;
    }
    proof {
        assert(gv.take(i as int) =~= gv);
    }
}

fn push_pitch_groups(out: &mut Vec<char>, g: &Vec<(i8, Vec<u64>)>)
    ensures
        final(out)@ == old(out)@ + spec_groups_chars(
            pitch_groups_view(g@),
            |k: i8| crate::numeric::spec_dec_chars_signed(k as int),
        ),
{
    let ghost gv = pitch_groups_view(g@);
    let ghost render: spec_fn(i8) -> Seq<char> = |k: i8| crate::numeric::spec_dec_chars_signed(
        k as int,
    );
    let mut i: usize = 0;
    proof {
        assert(gv.take(0) =~= Seq::<(i8, Seq<nat>)>::empty());
        assert(out@ =~= old(out)@ + spec_groups_chars(gv.take(0), render));
    }
    while i < g.len()
        invariant
            i <= g@.len(),
            gv == pitch_groups_view(g@),
            gv.len() == g@.len(),
            render == (|k: i8| crate::numeric::spec_dec_chars_signed(k as int)),
            out@ == old(out)@ + spec_groups_chars(gv.take(i as int), render),
        decreases g@.len() - i,
    {
        proof {
            assert(gv.take(i + 1).drop_last() =~= gv.take(i as int));
            assert(gv.take(i + 1).last() == gv[i as int]);
            assert(gv[i as int] == (g@[i as int].0, ords_view(g@[i as int].1@)));
        }
        if i > 0 {
            out.push(';');
        }
        crate::numeric::push_dec_i64(out, g[i].0 as i64);
        out.push(':');
        push_idxs(out, &g[i].1);
        proof {
            assert(out@ =~= old(out)@ + spec_groups_chars(gv.take(i + 1), render));
        }
        i = i + 1;
    }
    proof {
        assert(gv.take(i as int) =~= gv);
    }
}

fn push_yaw_groups(out: &mut Vec<char>, g: &Vec<(i16, Vec<u64>)>)
    ensures
        final(out)@ == old(out)@ + spec_groups_chars(
            yaw_groups_view(g@),
            |k: i16| crate::numeric::spec_dec_chars_signed(k as int),
        ),
{
    let ghost gv = yaw_groups_view(g@);
    let ghost render: spec_fn(i16) -> Seq<char> = |k: i16| crate::numeric::spec_dec_chars_signed(
        k as int,
    );
    let mut i: usize = 0;
    proof {
        assert(gv.take(0) =~= Seq::<(i16, Seq<nat>)>::empty());
        assert(out@ =~= old(out)@ + spec_groups_chars(gv.take(0), render));
    }
    while i < g.len()
        invariant
            i <= g@.len(),
            gv == yaw_groups_view(g@),
            gv.len() == g@.len(),
            render == (|k: i16| crate::numeric::spec_dec_chars_signed(k as int)),
            out@ == old(out)@ + spec_groups_chars(gv.take(i as int), render),
        decreases g@.len() - i,
    {
        proof {
            assert(gv.take(i + 1).drop_last() =~= gv.take(i as int));
            assert(gv.take(i + 1).last() == gv[i as int]);
            assert(gv[i as int] == (g@[i as int].0, ords_view(g@[i as int].1@)));
        }
        if i > 0 {
            out.push(';');
        }
        crate::numeric::push_dec_i64(out, g[i].0 as i64);
        out.push(':');
        push_idxs(out, &g[i].1);
        proof {
            assert(out@ =~= old(out)@ + spec_groups_chars(gv.take(i + 1), render));
        }
        i = i + 1;
    }
    proof {
        assert(gv.take(i as int) =~= gv);
    }
}

fn push_colour_groups(out: &mut Vec<char>, g: &Vec<(Rgba, Vec<u64>)>)
    ensures
        final(out)@ == old(out)@ + spec_groups_chars(
            colour_groups_view(g@),
            |k: Rgba| crate::colors::spec_colour_key_chars(k),
        ),
{
    let ghost gv = colour_groups_view(g@);
    let ghost render: spec_fn(Rgba) -> Seq<char> = |k: Rgba| crate::colors::spec_colour_key_chars(
        k,
    );
    let mut i: usize = 0;
    proof {
        assert(gv.take(0) =~= Seq::<(Rgba, Seq<nat>)>::empty());
        assert(out@ =~= old(out)@ + spec_groups_chars(gv.take(0), render));
    }
    while i < g.len()
        invariant
            i <= g@.len(),
            gv == colour_groups_view(g@),
            gv.len() == g@.len(),
            render == (|k: Rgba| crate::colors::spec_colour_key_chars(k)),
            out@ == old(out)@ + spec_groups_chars(gv.take(i as int), render),
        decreases g@.len() - i,
    {
        proof {
            assert(gv.take(i + 1).drop_last() =~= gv.take(i as int));
            assert(gv.take(i + 1).last() == gv[i as int]);
            assert(gv[i as int] == (g@[i as int].0, ords_view(g@[i as int].1@)));
        }
        if i > 0 {
            out.push(';');
        }
        crate::colors::push_colour_key(out, g[i].0);
        out.push(':');
        push_idxs(out, &g[i].1);
        proof {
            assert(out@ =~= old(out)@ + spec_groups_chars(gv.take(i + 1), render));
        }
        i = i + 1;
    }
    proof {
        assert(gv.take(i as int) =~= gv);
    }
}

fn push_texture_groups(out: &mut Vec<char>, g: &Vec<(M0rTexture, Vec<u64>)>)
    ensures
        final(out)@ == old(out)@ + spec_groups_chars(
            texture_groups_view(g@),
            |k: TextureView| spec_texture_render(k),
        ),
{
    let ghost gv = texture_groups_view(g@);
    let ghost render: spec_fn(TextureView) -> Seq<char> = |k: TextureView| spec_texture_render(k);
    let mut i: usize = 0;
    proof {
        assert(gv.take(0) =~= Seq::<(TextureView, Seq<nat>)>::empty());
        assert(out@ =~= old(out)@ + spec_groups_chars(gv.take(0), render));
    }
    while i < g.len()
        invariant
            i <= g@.len(),
            gv == texture_groups_view(g@),
            gv.len() == g@.len(),
            render == (|k: TextureView| spec_texture_render(k)),
            out@ == old(out)@ + spec_groups_chars(gv.take(i as int), render),
        decreases g@.len() - i,
    {
        proof {
            assert(gv.take(i + 1).drop_last() =~= gv.take(i as int));
            assert(gv.take(i + 1).last() == gv[i as int]);
            assert(gv[i as int] == (tex_view(g@[i as int].0), ords_view(g@[i as int].1@)));
        }
        if i > 0 {
            out.push(';');
        }
        let og = crate::icons::m0r_texture_to_og(&g[i].0);
        let ogc = str_to_chars(og.as_str());
        proof {
            assert(ogc@ == spec_texture_render(tex_view(g@[i as int].0)));
        }
        push_chars(out, &ogc);
        out.push(':');
        push_idxs(out, &g[i].1);
        proof {
            assert(out@ =~= old(out)@ + spec_groups_chars(gv.take(i + 1), render));
        }
        i = i + 1;
    }
    proof {
        assert(gv.take(i as int) =~= gv);
    }
}

#[verifier::rlimit(100)]
fn push_pos_list(out: &mut Vec<char>, es: &Vec<&M0rMarker>, mx: i32, my: i32, mz: i32)
    ensures
        final(out)@ == old(out)@ + spec_pos_list_chars(
            deref_seq(es@),
            mx as int,
            my as int,
            mz as int,
        ),
{
    let ghost esv = deref_seq(es@);
    let mut k: usize = 0;
    proof {
        assert(deref_seq(es@.take(0)) =~= Seq::<M0rMarker>::empty());
        assert(out@ =~= old(out)@ + spec_pos_list_chars(deref_seq(es@.take(0)), mx as int,
            my as int, mz as int));
    }
    while k < es.len()
        invariant
            k <= es@.len(),
            esv == deref_seq(es@),
            out@ == old(out)@ + spec_pos_list_chars(
                deref_seq(es@.take(k as int)),
                mx as int,
                my as int,
                mz as int,
            ),
        decreases es@.len() - k,
    {
        proof {
            assert(deref_seq(es@.take(k + 1)).drop_last() =~= deref_seq(es@.take(k as int)));
            assert(deref_seq(es@.take(k + 1)).last() == *es@[k as int]);
            assert(deref_seq(es@.take(k + 1)).len() == k + 1);
        }
        if k > 0 {
            out.push(',');
        }
        let m = es[k];
        let ox: u64 = {
            let d: i64 = m.position.x as i64 - mx as i64;
            if d < 0 {
                0
            } else {
                d as u64
            }
        };
        let oy: u64 = {
            let d: i64 = m.position.y as i64 - my as i64;
            if d < 0 {
                0
            } else {
                d as u64
            }
        };
        let oz: u64 = {
            let d: i64 = m.position.z as i64 - mz as i64;
            if d < 0 {
                0
            } else {
                d as u64
            }
        };
        crate::numeric::push_hex_u64_lower(out, ox);
        out.push(':');
        crate::numeric::push_hex_u64_lower(out, oy);
        out.push(':');
        crate::numeric::push_hex_u64_lower(out, oz);
        out.push(':');
        match &m.text {
            Option::Some(s) => {
                let tc = str_to_chars(s.as_str());
                push_escaped(out, &tc);
            },
            Option::None => {
                proof {
                    assert(spec_escape(Seq::<char>::empty()) =~= Seq::<char>::empty());
                }
            },
        }
        proof {
            assert(out@ =~= old(out)@ + spec_pos_list_chars(deref_seq(es@.take(k + 1)),
                mx as int, my as int, mz as int));
        }
        k = k + 1;
    }
    proof {
        assert(es@.take(k as int) =~= es@);
    }
}

#[verifier::rlimit(100)]
fn push_m0r_zone(out: &mut Vec<char>, zone_id: u16, ms: &Vec<Marker>, ts: &Vec<char>)
    ensures
        final(out)@ == old(out)@ + spec_m0r_zone_chars(zone_id, ms@, ts@),
{
    let es = collect_active_m0r(ms);
    let ghost esv = deref_seq(es@);
    if es.len() == 0 {
        proof {
            assert(spec_m0r_zone_chars(zone_id, ms@, ts@) =~= Seq::<char>::empty());
            assert(out@ =~= old(out)@ + spec_m0r_zone_chars(zone_id, ms@, ts@));
        }
        return ;
    }
    // per-axis minima over the active markers
    let mut amx: i32 = i32::MAX;
    let mut amy: i32 = i32::MAX;
    let mut amz: i32 = i32::MAX;
    let mut k: usize = 0;
    proof {
        assert(deref_seq(es@.take(0)) =~= Seq::<M0rMarker>::empty());
    }
    while k < es.len()
        invariant
            k <= es@.len(),
            esv == deref_seq(es@),
            amx as int == spec_m0r_min_x(deref_seq(es@.take(k as int))),
            amy as int == spec_m0r_min_y(deref_seq(es@.take(k as int))),
            amz as int == spec_m0r_min_z(deref_seq(es@.take(k as int))),
        decreases es@.len() - k,
    {
        proof {
            assert(deref_seq(es@.take(k + 1)).drop_last() =~= deref_seq(es@.take(k as int)));
            assert(deref_seq(es@.take(k + 1)).last() == *es@[k as int]);
        }
        let m = es[k];
        if m.position.x < amx {
            amx = m.position.x;
        }
        if m.position.y < amy {
            amy = m.position.y;
        }
        if m.position.z < amz {
            amz = m.position.z;
        }
        k = k + 1;
    }
    proof {
        assert(es@.take(k as int) =~= es@);
    }
    let gs = group_sizes(&es);
    let gp = group_pitches(&es);
    let gy = group_yaws(&es);
    let gc = group_colours(&es);
    let gt = group_textures(&es);
    out.push('<');
    proof {
        assert(out@ =~= old(out)@ + (seq!['<']));
    }
    push_dec_u64(out, zone_id as u64);
    proof {
        assert(out@ =~= old(out)@ + (seq!['<'] + spec_dec_chars(zone_id as nat)));
    }
    out.push(']');
    proof {
        assert(out@ =~= old(out)@ + (seq!['<'] + spec_dec_chars(zone_id as nat) + seq![']']));
    }
    push_chars(out, ts);
    proof {
        assert(out@ =~= old(out)@ + (seq!['<'] + spec_dec_chars(zone_id as nat) + seq![']'] + ts@));
    }
    out.push(']');
    proof {
        assert(out@ =~= old(out)@ + (seq!['<'] + spec_dec_chars(zone_id as nat) + seq![']'] + ts@ + seq![']']));
    }
    let cx: u64 = if amx < 0 {
        0
    } else {
        amx as u64
    };
    let cy: u64 = if amy < 0 {
        0
    } else {
        amy as u64
    };
    let cz: u64 = if amz < 0 {
        0
    } else {
        amz as u64
    };
    crate::numeric::push_hex_u64_lower(out, cx);
    proof {
        assert(out@ =~= old(out)@ + (seq!['<'] + spec_dec_chars(zone_id as nat) + seq![']'] + ts@ + seq![']'] + crate::numeric::spec_hex_chars_lower(cx as nat)));
    }
    out.push(':');
    proof {
        assert(out@ =~= old(out)@ + (seq!['<'] + spec_dec_chars(zone_id as nat) + seq![']'] + ts@ + seq![']'] + crate::numeric::spec_hex_chars_lower(cx as nat) + seq![':']));
    }
    crate::numeric::push_hex_u64_lower(out, cy);
    proof {
        assert(out@ =~= old(out)@ + (seq!['<'] + spec_dec_chars(zone_id as nat) + seq![']'] + ts@ + seq![']'] + crate::numeric::spec_hex_chars_lower(cx as nat) + seq![':'] + crate::numeric::spec_hex_chars_lower(cy as nat)));
    }
    out.push(':');
    proof {
        assert(out@ =~= old(out)@ + (seq!['<'] + spec_dec_chars(zone_id as nat) + seq![']'] + ts@ + seq![']'] + crate::numeric::spec_hex_chars_lower(cx as nat) + seq![':'] + crate::numeric::spec_hex_chars_lower(cy as nat) + seq![':']));
    }
    crate::numeric::push_hex_u64_lower(out, cz);
    proof {
        assert(out@ =~= old(out)@ + (seq!['<'] + spec_dec_chars(zone_id as nat) + seq![']'] + ts@ + seq![']'] + crate::numeric::spec_hex_chars_lower(cx as nat) + seq![':'] + crate::numeric::spec_hex_chars_lower(cy as nat) + seq![':'] + crate::numeric::spec_hex_chars_lower(cz as nat)));
    }
    out.push(']');
    proof {
        assert(out@ =~= old(out)@ + (seq!['<'] + spec_dec_chars(zone_id as nat) + seq![']'] + ts@ + seq![']'] + crate::numeric::spec_hex_chars_lower(cx as nat) + seq![':'] + crate::numeric::spec_hex_chars_lower(cy as nat) + seq![':'] + crate::numeric::spec_hex_chars_lower(cz as nat) + seq![']']));
    }
    push_size_groups(out, &gs);
    proof {
        assert(out@ =~= old(out)@ + (seq!['<'] + spec_dec_chars(zone_id as nat) + seq![']'] + ts@ + seq![']'] + crate::numeric::spec_hex_chars_lower(cx as nat) + seq![':'] + crate::numeric::spec_hex_chars_lower(cy as nat) + seq![':'] + crate::numeric::spec_hex_chars_lower(cz as nat) + seq![']'] + spec_groups_chars(size_groups_view(gs@), |k: Seq<char>| k)));
    }
    out.push(']');
    proof {
        assert(out@ =~= old(out)@ + (seq!['<'] + spec_dec_chars(zone_id as nat) + seq![']'] + ts@ + seq![']'] + crate::numeric::spec_hex_chars_lower(cx as nat) + seq![':'] + crate::numeric::spec_hex_chars_lower(cy as nat) + seq![':'] + crate::numeric::spec_hex_chars_lower(cz as nat) + seq![']'] + spec_groups_chars(size_groups_view(gs@), |k: Seq<char>| k) + seq![']']));
    }
    push_pitch_groups(out, &gp);
    proof {
        assert(out@ =~= old(out)@ + (seq!['<'] + spec_dec_chars(zone_id as nat) + seq![']'] + ts@ + seq![']'] + crate::numeric::spec_hex_chars_lower(cx as nat) + seq![':'] + crate::numeric::spec_hex_chars_lower(cy as nat) + seq![':'] + crate::numeric::spec_hex_chars_lower(cz as nat) + seq![']'] + spec_groups_chars(size_groups_view(gs@), |k: Seq<char>| k) + seq![']'] + spec_groups_chars(pitch_groups_view(gp@), |k: i8| crate::numeric::spec_dec_chars_signed(k as int))));
    }
    out.push(']');
    proof {
        assert(out@ =~= old(out)@ + (seq!['<'] + spec_dec_chars(zone_id as nat) + seq![']'] + ts@ + seq![']'] + crate::numeric::spec_hex_chars_lower(cx as nat) + seq![':'] + crate::numeric::spec_hex_chars_lower(cy as nat) + seq![':'] + crate::numeric::spec_hex_chars_lower(cz as nat) + seq![']'] + spec_groups_chars(size_groups_view(gs@), |k: Seq<char>| k) + seq![']'] + spec_groups_chars(pitch_groups_view(gp@), |k: i8| crate::numeric::spec_dec_chars_signed(k as int)) + seq![']']));
    }
    push_yaw_groups(out, &gy);
    proof {
        assert(out@ =~= old(out)@ + (seq!['<'] + spec_dec_chars(zone_id as nat) + seq![']'] + ts@ + seq![']'] + crate::numeric::spec_hex_chars_lower(cx as nat) + seq![':'] + crate::numeric::spec_hex_chars_lower(cy as nat) + seq![':'] + crate::numeric::spec_hex_chars_lower(cz as nat) + seq![']'] + spec_groups_chars(size_groups_view(gs@), |k: Seq<char>| k) + seq![']'] + spec_groups_chars(pitch_groups_view(gp@), |k: i8| crate::numeric::spec_dec_chars_signed(k as int)) + seq![']'] + spec_groups_chars(yaw_groups_view(gy@), |k: i16| crate::numeric::spec_dec_chars_signed(k as int))));
    }
    out.push(']');
    proof {
        assert(out@ =~= old(out)@ + (seq!['<'] + spec_dec_chars(zone_id as nat) + seq![']'] + ts@ + seq![']'] + crate::numeric::spec_hex_chars_lower(cx as nat) + seq![':'] + crate::numeric::spec_hex_chars_lower(cy as nat) + seq![':'] + crate::numeric::spec_hex_chars_lower(cz as nat) + seq![']'] + spec_groups_chars(size_groups_view(gs@), |k: Seq<char>| k) + seq![']'] + spec_groups_chars(pitch_groups_view(gp@), |k: i8| crate::numeric::spec_dec_chars_signed(k as int)) + seq![']'] + spec_groups_chars(yaw_groups_view(gy@), |k: i16| crate::numeric::spec_dec_chars_signed(k as int)) + seq![']']));
    }
    push_colour_groups(out, &gc);
    proof {
        assert(out@ =~= old(out)@ + (seq!['<'] + spec_dec_chars(zone_id as nat) + seq![']'] + ts@ + seq![']'] + crate::numeric::spec_hex_chars_lower(cx as nat) + seq![':'] + crate::numeric::spec_hex_chars_lower(cy as nat) + seq![':'] + crate::numeric::spec_hex_chars_lower(cz as nat) + seq![']'] + spec_groups_chars(size_groups_view(gs@), |k: Seq<char>| k) + seq![']'] + spec_groups_chars(pitch_groups_view(gp@), |k: i8| crate::numeric::spec_dec_chars_signed(k as int)) + seq![']'] + spec_groups_chars(yaw_groups_view(gy@), |k: i16| crate::numeric::spec_dec_chars_signed(k as int)) + seq![']'] + spec_groups_chars(colour_groups_view(gc@), |k: Rgba| crate::colors::spec_colour_key_chars(k))));
    }
    out.push(']');
    proof {
        assert(out@ =~= old(out)@ + (seq!['<'] + spec_dec_chars(zone_id as nat) + seq![']'] + ts@ + seq![']'] + crate::numeric::spec_hex_chars_lower(cx as nat) + seq![':'] + crate::numeric::spec_hex_chars_lower(cy as nat) + seq![':'] + crate::numeric::spec_hex_chars_lower(cz as nat) + seq![']'] + spec_groups_chars(size_groups_view(gs@), |k: Seq<char>| k) + seq![']'] + spec_groups_chars(pitch_groups_view(gp@), |k: i8| crate::numeric::spec_dec_chars_signed(k as int)) + seq![']'] + spec_groups_chars(yaw_groups_view(gy@), |k: i16| crate::numeric::spec_dec_chars_signed(k as int)) + seq![']'] + spec_groups_chars(colour_groups_view(gc@), |k: Rgba| crate::colors::spec_colour_key_chars(k)) + seq![']']));
    }
    push_texture_groups(out, &gt);
    proof {
        assert(out@ =~= old(out)@ + (seq!['<'] + spec_dec_chars(zone_id as nat) + seq![']'] + ts@ + seq![']'] + crate::numeric::spec_hex_chars_lower(cx as nat) + seq![':'] + crate::numeric::spec_hex_chars_lower(cy as nat) + seq![':'] + crate::numeric::spec_hex_chars_lower(cz as nat) + seq![']'] + spec_groups_chars(size_groups_view(gs@), |k: Seq<char>| k) + seq![']'] + spec_groups_chars(pitch_groups_view(gp@), |k: i8| crate::numeric::spec_dec_chars_signed(k as int)) + seq![']'] + spec_groups_chars(yaw_groups_view(gy@), |k: i16| crate::numeric::spec_dec_chars_signed(k as int)) + seq![']'] + spec_groups_chars(colour_groups_view(gc@), |k: Rgba| crate::colors::spec_colour_key_chars(k)) + seq![']'] + spec_groups_chars(texture_groups_view(gt@), |k: TextureView| spec_texture_render(k))));
    }
    out.push(']');
    proof {
        assert(out@ =~= old(out)@ + (seq!['<'] + spec_dec_chars(zone_id as nat) + seq![']'] + ts@ + seq![']'] + crate::numeric::spec_hex_chars_lower(cx as nat) + seq![':'] + crate::numeric::spec_hex_chars_lower(cy as nat) + seq![':'] + crate::numeric::spec_hex_chars_lower(cz as nat) + seq![']'] + spec_groups_chars(size_groups_view(gs@), |k: Seq<char>| k) + seq![']'] + spec_groups_chars(pitch_groups_view(gp@), |k: i8| crate::numeric::spec_dec_chars_signed(k as int)) + seq![']'] + spec_groups_chars(yaw_groups_view(gy@), |k: i16| crate::numeric::spec_dec_chars_signed(k as int)) + seq![']'] + spec_groups_chars(colour_groups_view(gc@), |k: Rgba| crate::colors::spec_colour_key_chars(k)) + seq![']'] + spec_groups_chars(texture_groups_view(gt@), |k: TextureView| spec_texture_render(k)) + seq![']']));
    }
    push_pos_list(out, &es, amx, amy, amz);
    proof {
        assert(out@ =~= old(out)@ + (seq!['<'] + spec_dec_chars(zone_id as nat) + seq![']'] + ts@ + seq![']'] + crate::numeric::spec_hex_chars_lower(cx as nat) + seq![':'] + crate::numeric::spec_hex_chars_lower(cy as nat) + seq![':'] + crate::numeric::spec_hex_chars_lower(cz as nat) + seq![']'] + spec_groups_chars(size_groups_view(gs@), |k: Seq<char>| k) + seq![']'] + spec_groups_chars(pitch_groups_view(gp@), |k: i8| crate::numeric::spec_dec_chars_signed(k as int)) + seq![']'] + spec_groups_chars(yaw_groups_view(gy@), |k: i16| crate::numeric::spec_dec_chars_signed(k as int)) + seq![']'] + spec_groups_chars(colour_groups_view(gc@), |k: Rgba| crate::colors::spec_colour_key_chars(k)) + seq![']'] + spec_groups_chars(texture_groups_view(gt@), |k: TextureView| spec_texture_render(k)) + seq![']'] + spec_pos_list_chars(deref_seq(es@), amx as int, amy as int, amz as int)));
    }
    out.push('>');
    proof {
        assert(out@ =~= old(out)@ + (seq!['<'] + spec_dec_chars(zone_id as nat) + seq![']'] + ts@ + seq![']'] + crate::numeric::spec_hex_chars_lower(cx as nat) + seq![':'] + crate::numeric::spec_hex_chars_lower(cy as nat) + seq![':'] + crate::numeric::spec_hex_chars_lower(cz as nat) + seq![']'] + spec_groups_chars(size_groups_view(gs@), |k: Seq<char>| k) + seq![']'] + spec_groups_chars(pitch_groups_view(gp@), |k: i8| crate::numeric::spec_dec_chars_signed(k as int)) + seq![']'] + spec_groups_chars(yaw_groups_view(gy@), |k: i16| crate::numeric::spec_dec_chars_signed(k as int)) + seq![']'] + spec_groups_chars(colour_groups_view(gc@), |k: Rgba| crate::colors::spec_colour_key_chars(k)) + seq![']'] + spec_groups_chars(texture_groups_view(gt@), |k: TextureView| spec_texture_render(k)) + seq![']'] + spec_pos_list_chars(deref_seq(es@), amx as int, amy as int, amz as int) + seq!['>']));
    }
    proof {
        assert(cx as nat == clamp0(spec_m0r_min_x(esv)));
        assert(cy as nat == clamp0(spec_m0r_min_y(esv)));
        assert(cz as nat == clamp0(spec_m0r_min_z(esv)));
        assert(spec_m0r_zone_chars(zone_id, ms@, ts@) == seq!['<'] + spec_dec_chars(zone_id as nat) + seq![']'] + ts@ + seq![']'] + crate::numeric::spec_hex_chars_lower(cx as nat) + seq![':'] + crate::numeric::spec_hex_chars_lower(cy as nat) + seq![':'] + crate::numeric::spec_hex_chars_lower(cz as nat) + seq![']'] + spec_groups_chars(size_groups_view(gs@), |k: Seq<char>| k) + seq![']'] + spec_groups_chars(pitch_groups_view(gp@), |k: i8| crate::numeric::spec_dec_chars_signed(k as int)) + seq![']'] + spec_groups_chars(yaw_groups_view(gy@), |k: i16| crate::numeric::spec_dec_chars_signed(k as int)) + seq![']'] + spec_groups_chars(colour_groups_view(gc@), |k: Rgba| crate::colors::spec_colour_key_chars(k)) + seq![']'] + spec_groups_chars(texture_groups_view(gt@), |k: TextureView| spec_texture_render(k)) + seq![']'] + spec_pos_list_chars(deref_seq(es@), amx as int, amy as int, amz as int) + seq!['>']);
    }
}

/// Builds the rich-marker string of a table: zones in ascending id order,
/// each zone with at least one active rich marker as one record, carrying
/// the given timestamp text.  The timestamp is informational only — any
/// value round-trips the marker data the same way.
pub fn build_m0r_string(markers_by_zone: &ZoneTable<Marker>, timestamp: &str) -> (r: String)
    ensures
        r@ == spec_build_m0r(markers_by_zone.view_entries(), timestamp@),
{
    let ts = str_to_chars(timestamp);
    let mut out: Vec<char> = Vec::new();
    let ghost t = markers_by_zone.view_entries();
    let mut i: usize = 0;
    proof {
        assert(t.take(0) =~= Seq::<(u16, Seq<Marker>)>::empty());
    }
    while i < markers_by_zone.entries.len()
        invariant
            i <= markers_by_zone.entries@.len(),
            t == markers_by_zone.view_entries(),
            t.len() == markers_by_zone.entries@.len(),
            ts@ == timestamp@,
            out@ == spec_build_m0r(t.take(i as int), ts@),
        decreases markers_by_zone.entries@.len() - i,
    {
        let zone_id = markers_by_zone.entries[i].0;
        proof {
            assert(t[i as int] == (markers_by_zone.entries@[i as int].0, markers_by_zone.entries@[
                i as int].1@));
            assert(t.take(i + 1).drop_last() =~= t.take(i as int));
            assert(t.take(i + 1).last() == t[i as int]);
        }
        push_m0r_zone(&mut out, zone_id, &markers_by_zone.entries[i].1, &ts);
        proof {
            assert(out@ =~= spec_build_m0r(t.take(i + 1), ts@));
        }
        i = i + 1;
    }
    proof {
        assert(t.take(i as int) =~= t);
    }
    chars_to_string(&out)
}

/// An inactive rich marker contributes nothing to the built string:
/// removing it from its zone's list leaves the output unchanged, so a
/// re-parse of the built string can never reproduce it.
pub proof fn lemma_m0r_inactive_excluded(zone_id: u16, ms: Seq<Marker>, ts: Seq<char>, j: int)
    requires
        0 <= j < ms.len(),
        ms[j] matches Marker::M0r(m) && !m.active,
    ensures
        spec_active_m0r(ms) == spec_active_m0r(ms.remove(j)),
        spec_m0r_zone_chars(zone_id, ms, ts) == spec_m0r_zone_chars(zone_id, ms.remove(j), ts),
    decreases ms.len(),
{
    if j == ms.len() - 1 {
        assert(ms.remove(j) =~= ms.drop_last());
    } else {
        assert(ms.remove(j).drop_last() =~= ms.drop_last().remove(j));
        assert(ms.remove(j).last() == ms.last());
        lemma_m0r_inactive_excluded(zone_id, ms.drop_last(), ts, j);
    }
}

} // verus!

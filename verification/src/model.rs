//! The marker and line entities that the three text codecs read and write.
//!
//! Equality of entities deliberately excludes the `id` field (and for rich
//! markers also `active`): two entities parsed from byte-identical records
//! are duplicates even though they were assigned different ids.  That
//! "semantic key" is expressed here by explicit comparison functions rather
//! than by `PartialEq`, so that it cannot be confused with full structural
//! equality.

use vstd::prelude::*;

verus! {

/// An RGBA colour with one byte per channel.
#[derive(Debug, Clone, Copy, PartialEq, Eq, Structural, Hash)]
pub struct Rgba {
    pub r: u8,
    pub g: u8,
    pub b: u8,
    pub a: u8,
}

impl Rgba {
    /// Opaque white, the default rich-marker colour.
    pub fn white() -> (c: Rgba)
        ensures
            c == (Rgba { r: 255, g: 255, b: 255, a: 255 }),
    {
        Rgba { r: 255, g: 255, b: 255, a: 255 }
    }
}

/// A world-space position in game coordinates.  Coordinates may be negative.
#[derive(Debug, Clone, Copy, PartialEq, Eq, Structural, Hash)]
pub struct Position3D {
    pub x: i32,
    pub y: i32,
    pub z: i32,
}

/// The icon vocabulary of the simple-marker format: 71 numeric codes.
#[derive(Debug, Clone, Copy, PartialEq, Eq, Structural, Hash)]
pub enum ElmsIcon {
    /// Codes 1-12.
    Num(u8),
    Arrow,
    MarkerLightBlue,
    SquareBlue,
    SquareGreen,
    SquareOrange,
    SquareOrangeOT,
    SquarePink,
    SquareRed,
    SquareRedMT,
    SquareYellow,
    SquareTwoBlue,
    SquareTwoBlueOne,
    SquareTwoBlueTwo,
    SquareTwoBlueThree,
    SquareTwoBlueFour,
    SquareTwoGreen,
    SquareTwoGreenOne,
    SquareTwoGreenTwo,
    SquareTwoGreenThree,
    SquareTwoGreenFour,
    SquareTwoOrange,
    SquareTwoOrangeOne,
    SquareTwoOrangeTwo,
    SquareTwoOrangeThree,
    SquareTwoOrangeFour,
    SquareTwoPink,
    SquareTwoRed,
    SquareTwoRedOne,
    SquareTwoRedTwo,
    SquareTwoRedThree,
    SquareTwoRedFour,
    SquareTwoYellow,
    /// Codes 45-70, letters 'a'-'z'.
    Letter(char),
    SharkPog,
    /// Sentinel for any unrecognized code or asset path; never an error.
    Unknown,
}

/// The icon vocabulary of the rich-marker format.
#[derive(Debug, Clone, Copy, PartialEq, Eq, Structural, Hash)]
pub enum M0rIcon {
    Blank,
    Circle,
    Hexagon,
    Square,
    Diamond,
    Octagon,
    Chevron,
    SharkPog,
    AllianceBadgeAldmeri,
    AllianceBadgeEbonheart,
    AllianceBadgeDaggerfall,
    RoleIconDPS,
    RoleIconTank,
    RoleIconHealer,
    ClassDragonknight,
    ClassSorcerer,
    ClassNightblade,
    ClassWarden,
    ClassNecromancer,
    ClassTemplar,
    ClassArcanist,
}

/// A rich marker's background texture: a known icon, a free-text custom
/// texture reference kept verbatim, or no texture at all.
#[derive(Debug, Clone)]
pub enum M0rTexture {
    Known(M0rIcon),
    Unknown(String),
    Absent,
}

impl M0rTexture {
    /// Semantic equality; free-text references compare by their characters.
    pub open spec fn sem_eq(self, other: M0rTexture) -> bool {
        match (self, other) {
            (M0rTexture::Known(a), M0rTexture::Known(b)) => a == b,
            (M0rTexture::Unknown(a), M0rTexture::Unknown(b)) => a@ == b@,
            (M0rTexture::Absent, M0rTexture::Absent) => true,
            _ => false,
        }
    }
}

/// Executable test of [`M0rTexture::sem_eq`].
pub fn texture_sem_eq(a: &M0rTexture, b: &M0rTexture) -> (r: bool)
    ensures
        r == a.sem_eq(*b),
{
    match (a, b) {
        (M0rTexture::Known(x), M0rTexture::Known(y)) => *x == *y,
        (M0rTexture::Unknown(x), M0rTexture::Unknown(y)) => x.eq(y),
        (M0rTexture::Absent, M0rTexture::Absent) => true,
        _ => false,
    }
}

/// A marker of the simple numeric format.
#[derive(Debug, Clone, Copy, PartialEq, Eq, Structural, Hash)]
pub struct ElmMarker {
    pub position: Position3D,
    pub icon: ElmsIcon,
    pub size: u8,
    pub active: bool,
    /// Sequential per-zone id, reassigned on every rebuild; not identity.
    pub id: u16,
    /// Derived at parse time by nearest-map resolution; 0 when unresolved.
    pub map_id: u16,
}

impl ElmMarker {
    /// The semantic key: everything but `id`.
    pub open spec fn sem_eq(self, other: ElmMarker) -> bool {
        &&& self.position == other.position
        &&& self.icon == other.icon
        &&& self.active == other.active
        &&& self.size == other.size
        &&& self.map_id == other.map_id
    }
}

/// Executable test of [`ElmMarker::sem_eq`].
pub fn elm_sem_eq(a: &ElmMarker, b: &ElmMarker) -> (r: bool)
    ensures
        r == a.sem_eq(*b),
{
    a.position == b.position && a.icon == b.icon && a.active == b.active && a.size == b.size
        && a.map_id == b.map_id
}

/// A marker of the rich format.
#[derive(Debug, Clone)]
pub struct M0rMarker {
    pub position: Position3D,
    pub background_texture: M0rTexture,
    pub text: Option<String>,
    /// Scale as the decimal token of the text format; "1" is the default.
    pub size: String,
    pub colour: Rgba,
    /// (Pitch, Yaw).  If none, the marker always faces the viewer.
    pub orientation: Option<(i8, i16)>,
    pub active: bool,
    /// Sequential per-zone id, reassigned on every rebuild; not identity.
    pub id: u16,
    /// Derived at parse time by nearest-map resolution.
    pub map_id: u16,
}

impl M0rMarker {
    /// The semantic key: everything but `id` and `active`.
    pub open spec fn sem_eq(self, other: M0rMarker) -> bool {
        &&& self.position == other.position
        &&& self.background_texture.sem_eq(other.background_texture)
        &&& self.colour == other.colour
        &&& match (self.text, other.text) {
            (Option::Some(a), Option::Some(b)) => a@ == b@,
            (Option::None, Option::None) => true,
            _ => false,
        }
        &&& self.map_id == other.map_id
        &&& self.orientation == other.orientation
        &&& self.size@ == other.size@
    }
}

/// Executable test of [`M0rMarker::sem_eq`].
pub fn m0r_sem_eq(a: &M0rMarker, b: &M0rMarker) -> (r: bool)
    ensures
        r == a.sem_eq(*b),
{
    let texts_eq = match (&a.text, &b.text) {
        (Option::Some(x), Option::Some(y)) => x.eq(y),
        (Option::None, Option::None) => true,
        _ => false,
    };
    let orient_eq = match (a.orientation, b.orientation) {
        (Option::Some(p), Option::Some(q)) => p.0 == q.0 && p.1 == q.1,
        (Option::None, Option::None) => true,
        _ => false,
    };
    a.position == b.position && texture_sem_eq(&a.background_texture, &b.background_texture)
        && a.colour == b.colour && texts_eq && a.map_id == b.map_id && orient_eq
        && a.size.eq(&b.size)
}

/// A marker of either format.
#[derive(Debug, Clone)]
pub enum Marker {
    Elms(ElmMarker),
    M0r(M0rMarker),
}

impl Marker {
    /// Semantic equality across the tagged union; different kinds never match.
    pub open spec fn sem_eq(self, other: Marker) -> bool {
        match (self, other) {
            (Marker::Elms(a), Marker::Elms(b)) => a.sem_eq(b),
            (Marker::M0r(a), Marker::M0r(b)) => a.sem_eq(b),
            _ => false,
        }
    }
}

/// Executable test of [`Marker::sem_eq`].
pub fn marker_sem_eq(a: &Marker, b: &Marker) -> (r: bool)
    ensures
        r == a.sem_eq(*b),
{
    match (a, b) {
        (Marker::Elms(x), Marker::Elms(y)) => elm_sem_eq(x, y),
        (Marker::M0r(x), Marker::M0r(y)) => m0r_sem_eq(x, y),
        _ => false,
    }
}

/// The two marker formats.
pub enum MarkerTypes {
    Elms,
    M0r,
}

/// A breadcrumb path segment between two world positions.
#[derive(Debug, Clone, Copy, PartialEq, Eq, Structural, Hash)]
pub struct BreadcrumbLine {
    pub position1: Position3D,
    pub position2: Position3D,
    pub active: bool,
    pub colour: Rgba,
    /// Sequential per-zone id, reassigned on every rebuild; not identity.
    pub id: u16,
    /// Resolved from the midpoint of the two endpoints.
    pub map_id: u16,
}

impl BreadcrumbLine {
    /// The semantic key: everything but `id`.
    pub open spec fn sem_eq(self, other: BreadcrumbLine) -> bool {
        &&& self.position1 == other.position1
        &&& self.position2 == other.position2
        &&& self.active == other.active
        &&& self.colour == other.colour
        &&& self.map_id == other.map_id
    }
}

/// Executable test of [`BreadcrumbLine::sem_eq`].
pub fn line_sem_eq(a: &BreadcrumbLine, b: &BreadcrumbLine) -> (r: bool)
    ensures
        r == a.sem_eq(*b),
{
    a.position1 == b.position1 && a.position2 == b.position2 && a.active == b.active
        && a.colour == b.colour && a.map_id == b.map_id
}

/// Reads the id of a marker of either kind.
pub fn get_marker_id(m: &Marker) -> (r: u16)
    ensures
        r == match *m {
            Marker::Elms(marker) => marker.id,
            Marker::M0r(marker) => marker.id,
        },
{
    match m {
        Marker::Elms(marker) => marker.id,
        Marker::M0r(marker) => marker.id,
    }
}

/// Reads the position of a marker of either kind.
pub fn get_marker_position(m: &Marker) -> (r: Position3D)
    ensures
        r == match *m {
            Marker::Elms(marker) => marker.position,
            Marker::M0r(marker) => marker.position,
        },
{
    match m {
        Marker::Elms(marker) => marker.position,
        Marker::M0r(marker) => marker.position,
    }
}

/// Sets the active flag of a marker of either kind, leaving all other
/// fields unchanged.
pub fn set_marker_active(m: &mut Marker, a: bool)
    ensures
        match *old(m) {
            Marker::Elms(marker) => *final(m) == Marker::Elms(ElmMarker { active: a, ..marker }),
            Marker::M0r(marker) => *final(m) == Marker::M0r(M0rMarker { active: a, ..marker }),
        },
{
    match m {
        Marker::Elms(marker) => marker.active = a,
        Marker::M0r(marker) => marker.active = a,
    }
}

} // verus!

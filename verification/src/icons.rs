//! The two icon vocabularies and their codecs: numeric codes and asset
//! paths for the simple-marker icons, and the in-game texture tokens of the
//! rich format.  Unrecognized codes, paths and tokens never fail: they map
//! to an `Unknown` sentinel, and `Unknown` writes back as a documented
//! fallback code.

use vstd::prelude::*;

use crate::model::{ElmsIcon, M0rIcon, M0rTexture};
use crate::numeric::spec_dec_chars;
use crate::numeric::push_dec_u64;
use crate::strutil::{str_to_chars, chars_to_string, eq_chars};

verus! {

// ---------------------------------------------------------------------------
// Simple-marker icons: numeric codes
// ---------------------------------------------------------------------------
/// The icon a numeric code denotes; codes outside 1..=71 denote `Unknown`.
pub open spec fn spec_elms_icon_from_code(n: u16) -> ElmsIcon {
    if 1 <= n <= 12 {
        ElmsIcon::Num(n as u8)
    } else if n == 13 {
        ElmsIcon::Arrow
    } else if n == 14 {
        ElmsIcon::MarkerLightBlue
    } else if n == 15 {
        ElmsIcon::SquareBlue
    } else if n == 16 {
        ElmsIcon::SquareGreen
    } else if n == 17 {
        ElmsIcon::SquareOrange
    } else if n == 18 {
        ElmsIcon::SquareOrangeOT
    } else if n == 19 {
        ElmsIcon::SquarePink
    } else if n == 20 {
        ElmsIcon::SquareRed
    } else if n == 21 {
        ElmsIcon::SquareRedMT
    } else if n == 22 {
        ElmsIcon::SquareYellow
    } else if n == 23 {
        ElmsIcon::SquareTwoBlue
    } else if n == 24 {
        ElmsIcon::SquareTwoBlueOne
    } else if n == 25 {
        ElmsIcon::SquareTwoBlueTwo
    } else if n == 26 {
        ElmsIcon::SquareTwoBlueThree
    } else if n == 27 {
        ElmsIcon::SquareTwoBlueFour
    } else if n == 28 {
        ElmsIcon::SquareTwoGreen
    } else if n == 29 {
        ElmsIcon::SquareTwoGreenOne
    } else if n == 30 {
        ElmsIcon::SquareTwoGreenTwo
    } else if n == 31 {
        ElmsIcon::SquareTwoGreenThree
    } else if n == 32 {
        ElmsIcon::SquareTwoGreenFour
    } else if n == 33 {
        ElmsIcon::SquareTwoOrange
    } else if n == 34 {
        ElmsIcon::SquareTwoOrangeOne
    } else if n == 35 {
        ElmsIcon::SquareTwoOrangeTwo
    } else if n == 36 {
        ElmsIcon::SquareTwoOrangeThree
    } else if n == 37 {
        ElmsIcon::SquareTwoOrangeFour
    } else if n == 38 {
        ElmsIcon::SquareTwoPink
    } else if n == 39 {
        ElmsIcon::SquareTwoRed
    } else if n == 40 {
        ElmsIcon::SquareTwoRedOne
    } else if n == 41 {
        ElmsIcon::SquareTwoRedTwo
    } else if n == 42 {
        ElmsIcon::SquareTwoRedThree
    } else if n == 43 {
        ElmsIcon::SquareTwoRedFour
    } else if n == 44 {
        ElmsIcon::SquareTwoYellow
    } else if 45 <= n <= 70 {
        ElmsIcon::Letter(((97 + (n - 45)) as u8) as char)
    } else if n == 71 {
        ElmsIcon::SharkPog
    } else {
        ElmsIcon::Unknown
    }
}

/// Executable form of [`spec_elms_icon_from_code`].
pub fn elms_icon_from_code(n: u16) -> (r: ElmsIcon)
    ensures
        r == spec_elms_icon_from_code(n),
{
    if 1 <= n && n <= 12 {
        ElmsIcon::Num(n as u8)
    } else if n == 13 {
        ElmsIcon::Arrow
    } else if n == 14 {
        ElmsIcon::MarkerLightBlue
    } else if n == 15 {
        ElmsIcon::SquareBlue
    } else if n == 16 {
        ElmsIcon::SquareGreen
    } else if n == 17 {
        ElmsIcon::SquareOrange
    } else if n == 18 {
        ElmsIcon::SquareOrangeOT
    } else if n == 19 {
        ElmsIcon::SquarePink
    } else if n == 20 {
        ElmsIcon::SquareRed
    } else if n == 21 {
        ElmsIcon::SquareRedMT
    } else if n == 22 {
        ElmsIcon::SquareYellow
    } else if n == 23 {
        ElmsIcon::SquareTwoBlue
    } else if n == 24 {
        ElmsIcon::SquareTwoBlueOne
    } else if n == 25 {
        ElmsIcon::SquareTwoBlueTwo
    } else if n == 26 {
        ElmsIcon::SquareTwoBlueThree
    } else if n == 27 {
        ElmsIcon::SquareTwoBlueFour
    } else if n == 28 {
        ElmsIcon::SquareTwoGreen
    } else if n == 29 {
        ElmsIcon::SquareTwoGreenOne
    } else if n == 30 {
        ElmsIcon::SquareTwoGreenTwo
    } else if n == 31 {
        ElmsIcon::SquareTwoGreenThree
    } else if n == 32 {
        ElmsIcon::SquareTwoGreenFour
    } else if n == 33 {
        ElmsIcon::SquareTwoOrange
    } else if n == 34 {
        ElmsIcon::SquareTwoOrangeOne
    } else if n == 35 {
        ElmsIcon::SquareTwoOrangeTwo
    } else if n == 36 {
        ElmsIcon::SquareTwoOrangeThree
    } else if n == 37 {
        ElmsIcon::SquareTwoOrangeFour
    } else if n == 38 {
        ElmsIcon::SquareTwoPink
    } else if n == 39 {
        ElmsIcon::SquareTwoRed
    } else if n == 40 {
        ElmsIcon::SquareTwoRedOne
    } else if n == 41 {
        ElmsIcon::SquareTwoRedTwo
    } else if n == 42 {
        ElmsIcon::SquareTwoRedThree
    } else if n == 43 {
        ElmsIcon::SquareTwoRedFour
    } else if n == 44 {
        ElmsIcon::SquareTwoYellow
    } else if 45 <= n && n <= 70 {
        ElmsIcon::Letter((97 + (n - 45) as u8) as char)
    } else if n == 71 {
        ElmsIcon::SharkPog
    } else {
        ElmsIcon::Unknown
    }
}

/// The numeric code an icon writes as.  `Unknown` (and any out-of-range
/// payload) falls back to code 14, a deliberately chosen default, because
/// the text format has no reserved "unknown" slot.
pub open spec fn spec_elms_icon_code(icon: ElmsIcon) -> u16 {
    match icon {
        ElmsIcon::Num(n) => if 1 <= n <= 12 {
            n as u16
        } else {
            14
        },
        ElmsIcon::Arrow => 13,
        ElmsIcon::MarkerLightBlue => 14,
        ElmsIcon::SquareBlue => 15,
        ElmsIcon::SquareGreen => 16,
        ElmsIcon::SquareOrange => 17,
        ElmsIcon::SquareOrangeOT => 18,
        ElmsIcon::SquarePink => 19,
        ElmsIcon::SquareRed => 20,
        ElmsIcon::SquareRedMT => 21,
        ElmsIcon::SquareYellow => 22,
        ElmsIcon::SquareTwoBlue => 23,
        ElmsIcon::SquareTwoBlueOne => 24,
        ElmsIcon::SquareTwoBlueTwo => 25,
        ElmsIcon::SquareTwoBlueThree => 26,
        ElmsIcon::SquareTwoBlueFour => 27,
        ElmsIcon::SquareTwoGreen => 28,
        ElmsIcon::SquareTwoGreenOne => 29,
        ElmsIcon::SquareTwoGreenTwo => 30,
        ElmsIcon::SquareTwoGreenThree => 31,
        ElmsIcon::SquareTwoGreenFour => 32,
        ElmsIcon::SquareTwoOrange => 33,
        ElmsIcon::SquareTwoOrangeOne => 34,
        ElmsIcon::SquareTwoOrangeTwo => 35,
        ElmsIcon::SquareTwoOrangeThree => 36,
        ElmsIcon::SquareTwoOrangeFour => 37,
        ElmsIcon::SquareTwoPink => 38,
        ElmsIcon::SquareTwoRed => 39,
        ElmsIcon::SquareTwoRedOne => 40,
        ElmsIcon::SquareTwoRedTwo => 41,
        ElmsIcon::SquareTwoRedThree => 42,
        ElmsIcon::SquareTwoRedFour => 43,
        ElmsIcon::SquareTwoYellow => 44,
        ElmsIcon::Letter(c) => if 'a' as int <= c as int && c as int <= 'z' as int {
            (45 + (c as int - 'a' as int)) as u16
        } else {
            14
        },
        ElmsIcon::SharkPog => 71,
        ElmsIcon::Unknown => 14,
    }
}

/// Executable form of [`spec_elms_icon_code`].
pub fn elms_icon_code(icon: &ElmsIcon) -> (r: u16)
    ensures
        r == spec_elms_icon_code(*icon),
{
    match icon {
        ElmsIcon::Num(n) => if 1 <= *n && *n <= 12 {
            *n as u16
        } else {
            14
        },
        ElmsIcon::Arrow => 13,
        ElmsIcon::MarkerLightBlue => 14,
        ElmsIcon::SquareBlue => 15,
        ElmsIcon::SquareGreen => 16,
        ElmsIcon::SquareOrange => 17,
        ElmsIcon::SquareOrangeOT => 18,
        ElmsIcon::SquarePink => 19,
        ElmsIcon::SquareRed => 20,
        ElmsIcon::SquareRedMT => 21,
        ElmsIcon::SquareYellow => 22,
        ElmsIcon::SquareTwoBlue => 23,
        ElmsIcon::SquareTwoBlueOne => 24,
        ElmsIcon::SquareTwoBlueTwo => 25,
        ElmsIcon::SquareTwoBlueThree => 26,
        ElmsIcon::SquareTwoBlueFour => 27,
        ElmsIcon::SquareTwoGreen => 28,
        ElmsIcon::SquareTwoGreenOne => 29,
        ElmsIcon::SquareTwoGreenTwo => 30,
        ElmsIcon::SquareTwoGreenThree => 31,
        ElmsIcon::SquareTwoGreenFour => 32,
        ElmsIcon::SquareTwoOrange => 33,
        ElmsIcon::SquareTwoOrangeOne => 34,
        ElmsIcon::SquareTwoOrangeTwo => 35,
        ElmsIcon::SquareTwoOrangeThree => 36,
        ElmsIcon::SquareTwoOrangeFour => 37,
        ElmsIcon::SquareTwoPink => 38,
        ElmsIcon::SquareTwoRed => 39,
        ElmsIcon::SquareTwoRedOne => 40,
        ElmsIcon::SquareTwoRedTwo => 41,
        ElmsIcon::SquareTwoRedThree => 42,
        ElmsIcon::SquareTwoRedFour => 43,
        ElmsIcon::SquareTwoYellow => 44,
        ElmsIcon::Letter(c) => {
            let u: u32 = *c as u32;
            if 97 <= u && u <= 122 {
                (45 + (u - 97)) as u16
            } else {
                14
            }
        },
        ElmsIcon::SharkPog => 71,
        ElmsIcon::Unknown => 14,
    }
}

/// Every code of the format's 71-value vocabulary survives the round trip
/// through its icon.
pub proof fn lemma_elms_code_roundtrip(c: u16)
    requires
        1 <= c <= 71,
    ensures
        spec_elms_icon_code(spec_elms_icon_from_code(c)) == c,
{
}

/// Codes outside the vocabulary parse to the `Unknown` sentinel rather than
/// failing, and `Unknown` writes back as the fallback code 14.
pub proof fn lemma_elms_unknown_code(c: u16)
    requires
        c == 0 || c > 71,
    ensures
        spec_elms_icon_from_code(c) == ElmsIcon::Unknown,
        spec_elms_icon_code(ElmsIcon::Unknown) == 14,
{
}

// ---------------------------------------------------------------------------
// Simple-marker icons: asset paths
// ---------------------------------------------------------------------------
/// The asset path an icon is drawn from.
pub open spec fn spec_elms_icon_path_chars(icon: ElmsIcon) -> Seq<char> {
    match icon {
        ElmsIcon::Num(n) => spec_dec_chars(n as nat) + seq!['.', 'p', 'n', 'g'],
        ElmsIcon::Arrow => "arrow.png"@,
        ElmsIcon::MarkerLightBlue => "squares/marker_lightblue.png"@,
        ElmsIcon::SquareBlue => "squares/square_blue.png"@,
        ElmsIcon::SquareGreen => "squares/square_green.png"@,
        ElmsIcon::SquareOrange => "squares/square_orange.png"@,
        ElmsIcon::SquareOrangeOT => "squares/square_orange_OT.png"@,
        ElmsIcon::SquarePink => "squares/square_pink.png"@,
        ElmsIcon::SquareRed => "squares/square_red.png"@,
        ElmsIcon::SquareRedMT => "squares/square_red_MT.png"@,
        ElmsIcon::SquareYellow => "squares/square_yellow.png"@,
        ElmsIcon::SquareTwoBlue => "squares/squaretwo_blue.png"@,
        ElmsIcon::SquareTwoBlueOne => "squares/squaretwo_blue_one.png"@,
        ElmsIcon::SquareTwoBlueTwo => "squares/squaretwo_blue_two.png"@,
        ElmsIcon::SquareTwoBlueThree => "squares/squaretwo_blue_three.png"@,
        ElmsIcon::SquareTwoBlueFour => "squares/squaretwo_blue_four.png"@,
        ElmsIcon::SquareTwoGreen => "squares/squaretwo_green.png"@,
        ElmsIcon::SquareTwoGreenOne => "squares/squaretwo_green_one.png"@,
        ElmsIcon::SquareTwoGreenTwo => "squares/squaretwo_green_two.png"@,
        ElmsIcon::SquareTwoGreenThree => "squares/squaretwo_green_three.png"@,
        ElmsIcon::SquareTwoGreenFour => "squares/squaretwo_green_four.png"@,
        ElmsIcon::SquareTwoOrange => "squares/squaretwo_orange.png"@,
        ElmsIcon::SquareTwoOrangeOne => "squares/squaretwo_orange_one.png"@,
        ElmsIcon::SquareTwoOrangeTwo => "squares/squaretwo_orange_two.png"@,
        ElmsIcon::SquareTwoOrangeThree => "squares/squaretwo_orange_three.png"@,
        ElmsIcon::SquareTwoOrangeFour => "squares/squaretwo_orange_four.png"@,
        ElmsIcon::SquareTwoPink => "squares/squaretwo_pink.png"@,
        ElmsIcon::SquareTwoRed => "squares/squaretwo_red.png"@,
        ElmsIcon::SquareTwoRedOne => "squares/squaretwo_red_one.png"@,
        ElmsIcon::SquareTwoRedTwo => "squares/squaretwo_red_two.png"@,
        ElmsIcon::SquareTwoRedThree => "squares/squaretwo_red_three.png"@,
        ElmsIcon::SquareTwoRedFour => "squares/squaretwo_red_four.png"@,
        ElmsIcon::SquareTwoYellow => "squares/squaretwo_yellow.png"@,
        ElmsIcon::Letter(c) => seq![c, '.', 'p', 'n', 'g'],
        ElmsIcon::SharkPog => "sharkpog.png"@,
        ElmsIcon::Unknown => "unknown.png"@,
    }
}

/// Executable form of [`spec_elms_icon_path_chars`].
pub fn elms_icon_path(icon: &ElmsIcon) -> (s: String)
    ensures
        s@ == spec_elms_icon_path_chars(*icon),
{
    let v: Vec<char> = match icon {
        ElmsIcon::Num(n) => {
            let mut v: Vec<char> = Vec::new();
            push_dec_u64(&mut v, *n as u64);
            v.push('.');
            v.push('p');
            v.push('n');
            v.push('g');
            assert(v@ =~= spec_dec_chars(*n as nat) + seq!['.', 'p', 'n', 'g']);
            v
        },
        ElmsIcon::Letter(c) => {
            let mut v: Vec<char> = Vec::new();
            v.push(*c);
            v.push('.');
            v.push('p');
            v.push('n');
            v.push('g');
            assert(v@ =~= seq![*c, '.', 'p', 'n', 'g']);
            v
        },
        ElmsIcon::Arrow => str_to_chars("arrow.png"),
        ElmsIcon::MarkerLightBlue => str_to_chars("squares/marker_lightblue.png"),
        ElmsIcon::SquareBlue => str_to_chars("squares/square_blue.png"),
        ElmsIcon::SquareGreen => str_to_chars("squares/square_green.png"),
        ElmsIcon::SquareOrange => str_to_chars("squares/square_orange.png"),
        ElmsIcon::SquareOrangeOT => str_to_chars("squares/square_orange_OT.png"),
        ElmsIcon::SquarePink => str_to_chars("squares/square_pink.png"),
        ElmsIcon::SquareRed => str_to_chars("squares/square_red.png"),
        ElmsIcon::SquareRedMT => str_to_chars("squares/square_red_MT.png"),
        ElmsIcon::SquareYellow => str_to_chars("squares/square_yellow.png"),
        ElmsIcon::SquareTwoBlue => str_to_chars("squares/squaretwo_blue.png"),
        ElmsIcon::SquareTwoBlueOne => str_to_chars("squares/squaretwo_blue_one.png"),
        ElmsIcon::SquareTwoBlueTwo => str_to_chars("squares/squaretwo_blue_two.png"),
        ElmsIcon::SquareTwoBlueThree => str_to_chars("squares/squaretwo_blue_three.png"),
        ElmsIcon::SquareTwoBlueFour => str_to_chars("squares/squaretwo_blue_four.png"),
        ElmsIcon::SquareTwoGreen => str_to_chars("squares/squaretwo_green.png"),
        ElmsIcon::SquareTwoGreenOne => str_to_chars("squares/squaretwo_green_one.png"),
        ElmsIcon::SquareTwoGreenTwo => str_to_chars("squares/squaretwo_green_two.png"),
        ElmsIcon::SquareTwoGreenThree => str_to_chars("squares/squaretwo_green_three.png"),
        ElmsIcon::SquareTwoGreenFour => str_to_chars("squares/squaretwo_green_four.png"),
        ElmsIcon::SquareTwoOrange => str_to_chars("squares/squaretwo_orange.png"),
        ElmsIcon::SquareTwoOrangeOne => str_to_chars("squares/squaretwo_orange_one.png"),
        ElmsIcon::SquareTwoOrangeTwo => str_to_chars("squares/squaretwo_orange_two.png"),
        ElmsIcon::SquareTwoOrangeThree => str_to_chars("squares/squaretwo_orange_three.png"),
        ElmsIcon::SquareTwoOrangeFour => str_to_chars("squares/squaretwo_orange_four.png"),
        ElmsIcon::SquareTwoPink => str_to_chars("squares/squaretwo_pink.png"),
        ElmsIcon::SquareTwoRed => str_to_chars("squares/squaretwo_red.png"),
        ElmsIcon::SquareTwoRedOne => str_to_chars("squares/squaretwo_red_one.png"),
        ElmsIcon::SquareTwoRedTwo => str_to_chars("squares/squaretwo_red_two.png"),
        ElmsIcon::SquareTwoRedThree => str_to_chars("squares/squaretwo_red_three.png"),
        ElmsIcon::SquareTwoRedFour => str_to_chars("squares/squaretwo_red_four.png"),
        ElmsIcon::SquareTwoYellow => str_to_chars("squares/squaretwo_yellow.png"),
        ElmsIcon::SharkPog => str_to_chars("sharkpog.png"),
        ElmsIcon::Unknown => str_to_chars("unknown.png"),
    };
    chars_to_string(&v)
}

/// The icon an asset path denotes; unrecognized paths denote `Unknown`.
/// A five-character `x.png` path with a lower-case first letter denotes
/// that letter's icon.
pub open spec fn spec_elms_icon_from_path(s: Seq<char>) -> ElmsIcon {
    if s == "1.png"@ {
        ElmsIcon::Num(1)
    } else if s == "2.png"@ {
        ElmsIcon::Num(2)
    } else if s == "3.png"@ {
        ElmsIcon::Num(3)
    } else if s == "4.png"@ {
        ElmsIcon::Num(4)
    } else if s == "5.png"@ {
        ElmsIcon::Num(5)
    } else if s == "6.png"@ {
        ElmsIcon::Num(6)
    } else if s == "7.png"@ {
        ElmsIcon::Num(7)
    } else if s == "8.png"@ {
        ElmsIcon::Num(8)
    } else if s == "9.png"@ {
        ElmsIcon::Num(9)
    } else if s == "10.png"@ {
        ElmsIcon::Num(10)
    } else if s == "11.png"@ {
        ElmsIcon::Num(11)
    } else if s == "12.png"@ {
        ElmsIcon::Num(12)
    } else if s == "arrow.png"@ {
        ElmsIcon::Arrow
    } else if s == "squares/marker_lightblue.png"@ {
        ElmsIcon::MarkerLightBlue
    } else if s == "squares/square_blue.png"@ {
        ElmsIcon::SquareBlue
    } else if s == "squares/square_green.png"@ {
        ElmsIcon::SquareGreen
    } else if s == "squares/square_orange.png"@ {
        ElmsIcon::SquareOrange
    } else if s == "squares/square_orange_OT.png"@ {
        ElmsIcon::SquareOrangeOT
    } else if s == "squares/square_pink.png"@ {
        ElmsIcon::SquarePink
    } else if s == "squares/square_red.png"@ {
        ElmsIcon::SquareRed
    } else if s == "squares/square_red_MT.png"@ {
        ElmsIcon::SquareRedMT
    } else if s == "squares/square_yellow.png"@ {
        ElmsIcon::SquareYellow
    } else if s == "squares/squaretwo_blue.png"@ {
        ElmsIcon::SquareTwoBlue
    } else if s == "squares/squaretwo_blue_one.png"@ {
        ElmsIcon::SquareTwoBlueOne
    } else if s == "squares/squaretwo_blue_two.png"@ {
        ElmsIcon::SquareTwoBlueTwo
    } else if s == "squares/squaretwo_blue_three.png"@ {
        ElmsIcon::SquareTwoBlueThree
    } else if s == "squares/squaretwo_blue_four.png"@ {
        ElmsIcon::SquareTwoBlueFour
    } else if s == "squares/squaretwo_green.png"@ {
        ElmsIcon::SquareTwoGreen
    } else if s == "squares/squaretwo_green_one.png"@ {
        ElmsIcon::SquareTwoGreenOne
    } else if s == "squares/squaretwo_green_two.png"@ {
        ElmsIcon::SquareTwoGreenTwo
    } else if s == "squares/squaretwo_green_three.png"@ {
        ElmsIcon::SquareTwoGreenThree
    } else if s == "squares/squaretwo_green_four.png"@ {
        ElmsIcon::SquareTwoGreenFour
    } else if s == "squares/squaretwo_orange.png"@ {
        ElmsIcon::SquareTwoOrange
    } else if s == "squares/squaretwo_orange_one.png"@ {
        ElmsIcon::SquareTwoOrangeOne
    } else if s == "squares/squaretwo_orange_two.png"@ {
        ElmsIcon::SquareTwoOrangeTwo
    } else if s == "squares/squaretwo_orange_three.png"@ {
        ElmsIcon::SquareTwoOrangeThree
    } else if s == "squares/squaretwo_orange_four.png"@ {
        ElmsIcon::SquareTwoOrangeFour
    } else if s == "squares/squaretwo_pink.png"@ {
        ElmsIcon::SquareTwoPink
    } else if s == "squares/squaretwo_red.png"@ {
        ElmsIcon::SquareTwoRed
    } else if s == "squares/squaretwo_red_one.png"@ {
        ElmsIcon::SquareTwoRedOne
    } else if s == "squares/squaretwo_red_two.png"@ {
        ElmsIcon::SquareTwoRedTwo
    } else if s == "squares/squaretwo_red_three.png"@ {
        ElmsIcon::SquareTwoRedThree
    } else if s == "squares/squaretwo_red_four.png"@ {
        ElmsIcon::SquareTwoRedFour
    } else if s == "squares/squaretwo_yellow.png"@ {
        ElmsIcon::SquareTwoYellow
    } else if s == "sharkpog.png"@ {
        ElmsIcon::SharkPog
    } else if s.len() == 5 && s[1] == '.' && s[2] == 'p' && s[3] == 'n' && s[4] == 'g' && 'a'
        <= s[0] && s[0] <= 'z' {
        ElmsIcon::Letter(s[0])
    } else {
        ElmsIcon::Unknown
    }
}

fn chars_is(s: &Vec<char>, lit: &str) -> (r: bool)
    ensures
        r == (s@ == lit@),
{
    let l = str_to_chars(lit);
    eq_chars(s, &l)
}

/// Executable form of [`spec_elms_icon_from_path`].
pub fn elms_icon_from_path(path: &str) -> (r: ElmsIcon)
    ensures
        r == spec_elms_icon_from_path(path@),
{
    let s = str_to_chars(path);
    if chars_is(&s, "1.png") {
        return ElmsIcon::Num(1);
    }
    if chars_is(&s, "2.png") {
        return ElmsIcon::Num(2);
    }
    if chars_is(&s, "3.png") {
        return ElmsIcon::Num(3);
    }
    if chars_is(&s, "4.png") {
        return ElmsIcon::Num(4);
    }
    if chars_is(&s, "5.png") {
        return ElmsIcon::Num(5);
    }
    if chars_is(&s, "6.png") {
        return ElmsIcon::Num(6);
    }
    if chars_is(&s, "7.png") {
        return ElmsIcon::Num(7);
    }
    if chars_is(&s, "8.png") {
        return ElmsIcon::Num(8);
    }
    if chars_is(&s, "9.png") {
        return ElmsIcon::Num(9);
    }
    if chars_is(&s, "10.png") {
        return ElmsIcon::Num(10);
    }
    if chars_is(&s, "11.png") {
        return ElmsIcon::Num(11);
    }
    if chars_is(&s, "12.png") {
        return ElmsIcon::Num(12);
    }
    if chars_is(&s, "arrow.png") {
        return ElmsIcon::Arrow;
    }
    if chars_is(&s, "squares/marker_lightblue.png") {
        return ElmsIcon::MarkerLightBlue;
    }
    if chars_is(&s, "squares/square_blue.png") {
        return ElmsIcon::SquareBlue;
    }
    if chars_is(&s, "squares/square_green.png") {
        return ElmsIcon::SquareGreen;
    }
    if chars_is(&s, "squares/square_orange.png") {
        return ElmsIcon::SquareOrange;
    }
    if chars_is(&s, "squares/square_orange_OT.png") {
        return ElmsIcon::SquareOrangeOT;
    }
    if chars_is(&s, "squares/square_pink.png") {
        return ElmsIcon::SquarePink;
    }
    if chars_is(&s, "squares/square_red.png") {
        return ElmsIcon::SquareRed;
    }
    if chars_is(&s, "squares/square_red_MT.png") {
        return ElmsIcon::SquareRedMT;
    }
    if chars_is(&s, "squares/square_yellow.png") {
        return ElmsIcon::SquareYellow;
    }
    if chars_is(&s, "squares/squaretwo_blue.png") {
        return ElmsIcon::SquareTwoBlue;
    }
    if chars_is(&s, "squares/squaretwo_blue_one.png") {
        return ElmsIcon::SquareTwoBlueOne;
    }
    if chars_is(&s, "squares/squaretwo_blue_two.png") {
        return ElmsIcon::SquareTwoBlueTwo;
    }
    if chars_is(&s, "squares/squaretwo_blue_three.png") {
        return ElmsIcon::SquareTwoBlueThree;
    }
    if chars_is(&s, "squares/squaretwo_blue_four.png") {
        return ElmsIcon::SquareTwoBlueFour;
    }
    if chars_is(&s, "squares/squaretwo_green.png") {
        return ElmsIcon::SquareTwoGreen;
    }
    if chars_is(&s, "squares/squaretwo_green_one.png") {
        return ElmsIcon::SquareTwoGreenOne;
    }
    if chars_is(&s, "squares/squaretwo_green_two.png") {
        return ElmsIcon::SquareTwoGreenTwo;
    }
    if chars_is(&s, "squares/squaretwo_green_three.png") {
        return ElmsIcon::SquareTwoGreenThree;
    }
    if chars_is(&s, "squares/squaretwo_green_four.png") {
        return ElmsIcon::SquareTwoGreenFour;
    }
    if chars_is(&s, "squares/squaretwo_orange.png") {
        return ElmsIcon::SquareTwoOrange;
    }
    if chars_is(&s, "squares/squaretwo_orange_one.png") {
        return ElmsIcon::SquareTwoOrangeOne;
    }
    if chars_is(&s, "squares/squaretwo_orange_two.png") {
        return ElmsIcon::SquareTwoOrangeTwo;
    }
    if chars_is(&s, "squares/squaretwo_orange_three.png") {
        return ElmsIcon::SquareTwoOrangeThree;
    }
    if chars_is(&s, "squares/squaretwo_orange_four.png") {
        return ElmsIcon::SquareTwoOrangeFour;
    }
    if chars_is(&s, "squares/squaretwo_pink.png") {
        return ElmsIcon::SquareTwoPink;
    }
    if chars_is(&s, "squares/squaretwo_red.png") {
        return ElmsIcon::SquareTwoRed;
    }
    if chars_is(&s, "squares/squaretwo_red_one.png") {
        return ElmsIcon::SquareTwoRedOne;
    }
    if chars_is(&s, "squares/squaretwo_red_two.png") {
        return ElmsIcon::SquareTwoRedTwo;
    }
    if chars_is(&s, "squares/squaretwo_red_three.png") {
        return ElmsIcon::SquareTwoRedThree;
    }
    if chars_is(&s, "squares/squaretwo_red_four.png") {
        return ElmsIcon::SquareTwoRedFour;
    }
    if chars_is(&s, "squares/squaretwo_yellow.png") {
        return ElmsIcon::SquareTwoYellow;
    }
    if chars_is(&s, "sharkpog.png") {
        return ElmsIcon::SharkPog;
    }
    if s.len() == 5 && s[1] == '.' && s[2] == 'p' && s[3] == 'n' && s[4] == 'g' {
        let c0 = s[0];
        if 'a' <= c0 && c0 <= 'z' {
            return ElmsIcon::Letter(c0);
        }
    }
    ElmsIcon::Unknown
}

// ---------------------------------------------------------------------------
// Rich-marker textures
// ---------------------------------------------------------------------------
/// The in-game texture token of a known rich-marker icon.
pub open spec fn spec_og_chars(icon: M0rIcon) -> Seq<char> {
    match icon {
        M0rIcon::Circle => seq!['^', '1'],
        M0rIcon::Hexagon => seq!['^', '2'],
        M0rIcon::Square => seq!['^', '3'],
        M0rIcon::Diamond => seq!['^', '4'],
        M0rIcon::Octagon => seq!['^', '5'],
        M0rIcon::Chevron => seq!['^', '6'],
        M0rIcon::Blank => seq!['^', '7'],
        M0rIcon::SharkPog => seq!['^', '8'],
        M0rIcon::AllianceBadgeAldmeri => seq!['^', '9'],
        M0rIcon::AllianceBadgeEbonheart => seq!['^', '1', '0'],
        M0rIcon::AllianceBadgeDaggerfall => seq!['^', '1', '1'],
        M0rIcon::RoleIconDPS => seq!['^', '1', '2'],
        M0rIcon::RoleIconTank => seq!['^', '1', '3'],
        M0rIcon::RoleIconHealer => seq!['^', '1', '4'],
        M0rIcon::ClassDragonknight => seq!['^', '1', '5'],
        M0rIcon::ClassSorcerer => seq!['^', '1', '6'],
        M0rIcon::ClassNightblade => seq!['^', '1', '7'],
        M0rIcon::ClassWarden => seq!['^', '1', '8'],
        M0rIcon::ClassNecromancer => seq!['^', '1', '9'],
        M0rIcon::ClassTemplar => seq!['^', '2', '0'],
        M0rIcon::ClassArcanist => seq!['^', '2', '1'],
    }
}

/// The known icon a texture token denotes, if any.
pub open spec fn spec_og_icon(s: Seq<char>) -> Option<M0rIcon> {
    if s.len() == 2 && s[0] == '^' {
        if s[1] == '1' {
            Option::Some(M0rIcon::Circle)
        } else if s[1] == '2' {
            Option::Some(M0rIcon::Hexagon)
        } else if s[1] == '3' {
            Option::Some(M0rIcon::Square)
        } else if s[1] == '4' {
            Option::Some(M0rIcon::Diamond)
        } else if s[1] == '5' {
            Option::Some(M0rIcon::Octagon)
        } else if s[1] == '6' {
            Option::Some(M0rIcon::Chevron)
        } else if s[1] == '7' {
            Option::Some(M0rIcon::Blank)
        } else if s[1] == '8' {
            Option::Some(M0rIcon::SharkPog)
        } else if s[1] == '9' {
            Option::Some(M0rIcon::AllianceBadgeAldmeri)
        } else {
            Option::None
        }
    } else if s.len() == 3 && s[0] == '^' && s[1] == '1' {
        if s[2] == '0' {
            Option::Some(M0rIcon::AllianceBadgeEbonheart)
        } else if s[2] == '1' {
            Option::Some(M0rIcon::AllianceBadgeDaggerfall)
        } else if s[2] == '2' {
            Option::Some(M0rIcon::RoleIconDPS)
        } else if s[2] == '3' {
            Option::Some(M0rIcon::RoleIconTank)
        } else if s[2] == '4' {
            Option::Some(M0rIcon::RoleIconHealer)
        } else if s[2] == '5' {
            Option::Some(M0rIcon::ClassDragonknight)
        } else if s[2] == '6' {
            Option::Some(M0rIcon::ClassSorcerer)
        } else if s[2] == '7' {
            Option::Some(M0rIcon::ClassNightblade)
        } else if s[2] == '8' {
            Option::Some(M0rIcon::ClassWarden)
        } else if s[2] == '9' {
            Option::Some(M0rIcon::ClassNecromancer)
        } else {
            Option::None
        }
    } else if s.len() == 3 && s[0] == '^' && s[1] == '2' {
        if s[2] == '0' {
            Option::Some(M0rIcon::ClassTemplar)
        } else if s[2] == '1' {
            Option::Some(M0rIcon::ClassArcanist)
        } else {
            Option::None
        }
    } else {
        Option::None
    }
}

/// Every known icon's token reads back as that icon.
pub proof fn lemma_og_roundtrip(icon: M0rIcon)
    ensures
        spec_og_icon(spec_og_chars(icon)) == Option::Some(icon),
{
}

/// The texture a token of the rich format denotes: a known icon for the
/// `^N` tokens, no texture for an empty token, and otherwise the free text
/// kept verbatim.
pub fn texture_from_og_chars(tok: &Vec<char>) -> (r: M0rTexture)
    ensures
        match spec_og_icon(tok@) {
            Option::Some(icon) => r == M0rTexture::Known(icon),
            Option::None => if tok@.len() == 0 {
                r == M0rTexture::Absent
            } else {
                r matches M0rTexture::Unknown(t) && t@ == tok@
            },
        },
{
    if tok.len() == 2 && tok[0] == '^' {
        let c = tok[1];
        let icon: Option<M0rIcon> = if c == '1' {
            Some(M0rIcon::Circle)
        } else if c == '2' {
            Some(M0rIcon::Hexagon)
        } else if c == '3' {
            Some(M0rIcon::Square)
        } else if c == '4' {
            Some(M0rIcon::Diamond)
        } else if c == '5' {
            Some(M0rIcon::Octagon)
        } else if c == '6' {
            Some(M0rIcon::Chevron)
        } else if c == '7' {
            Some(M0rIcon::Blank)
        } else if c == '8' {
            Some(M0rIcon::SharkPog)
        } else if c == '9' {
            Some(M0rIcon::AllianceBadgeAldmeri)
        } else {
            None
        };
        match icon {
            Option::Some(i) => {
                proof {
                    assert(tok@ =~= seq!['^', c]);
                }
                return M0rTexture::Known(i);
            },
            Option::None => {
                return M0rTexture::Unknown(chars_to_string(tok));
            },
        }
    }
    if tok.len() == 3 && tok[0] == '^' {
        let c1 = tok[1];
        let c2 = tok[2];
        let icon: Option<M0rIcon> = if c1 == '1' && c2 == '0' {
            Some(M0rIcon::AllianceBadgeEbonheart)
        } else if c1 == '1' && c2 == '1' {
            Some(M0rIcon::AllianceBadgeDaggerfall)
        } else if c1 == '1' && c2 == '2' {
            Some(M0rIcon::RoleIconDPS)
        } else if c1 == '1' && c2 == '3' {
            Some(M0rIcon::RoleIconTank)
        } else if c1 == '1' && c2 == '4' {
            Some(M0rIcon::RoleIconHealer)
        } else if c1 == '1' && c2 == '5' {
            Some(M0rIcon::ClassDragonknight)
        } else if c1 == '1' && c2 == '6' {
            Some(M0rIcon::ClassSorcerer)
        } else if c1 == '1' && c2 == '7' {
            Some(M0rIcon::ClassNightblade)
        } else if c1 == '1' && c2 == '8' {
            Some(M0rIcon::ClassWarden)
        } else if c1 == '1' && c2 == '9' {
            Some(M0rIcon::ClassNecromancer)
        } else if c1 == '2' && c2 == '0' {
            Some(M0rIcon::ClassTemplar)
        } else if c1 == '2' && c2 == '1' {
            Some(M0rIcon::ClassArcanist)
        } else {
            None
        };
        match icon {
            Option::Some(i) => {
                proof {
                    assert(tok@ =~= seq!['^', c1, c2]);
                }
                return M0rTexture::Known(i);
            },
            Option::None => {
                return M0rTexture::Unknown(chars_to_string(tok));
            },
        }
    }
    if tok.len() == 0 {
        return M0rTexture::Absent;
    }
    proof {
        assert(spec_og_icon(tok@) is None);
    }
    M0rTexture::Unknown(chars_to_string(tok))
}

/// [`texture_from_og_chars`] on a string slice.
pub fn m0r_texture_from_og(s: &str) -> (r: M0rTexture)
    ensures
        match spec_og_icon(s@) {
            Option::Some(icon) => r == M0rTexture::Known(icon),
            Option::None => if s@.len() == 0 {
                r == M0rTexture::Absent
            } else {
                r matches M0rTexture::Unknown(t) && t@ == s@
            },
        },
{
    let v = str_to_chars(s);
    texture_from_og_chars(&v)
}

/// The token a texture writes as: known icons write their `^N` token, free
/// text is kept verbatim, and "no texture" writes the blank icon's token —
/// the format has no way to say "none", a documented lossy fallback.
pub fn m0r_texture_to_og(tex: &M0rTexture) -> (s: String)
    ensures
        match *tex {
            M0rTexture::Known(icon) => s@ == spec_og_chars(icon),
            M0rTexture::Unknown(t) => s@ == t@,
            M0rTexture::Absent => s@ == seq!['^', '7'],
        },
{
    match tex {
        M0rTexture::Known(icon) => {
            let mut v: Vec<char> = Vec::new();
            v.push('^');
            match icon {
                M0rIcon::Circle => v.push('1'),
                M0rIcon::Hexagon => v.push('2'),
                M0rIcon::Square => v.push('3'),
                M0rIcon::Diamond => v.push('4'),
                M0rIcon::Octagon => v.push('5'),
                M0rIcon::Chevron => v.push('6'),
                M0rIcon::Blank => v.push('7'),
                M0rIcon::SharkPog => v.push('8'),
                M0rIcon::AllianceBadgeAldmeri => v.push('9'),
                M0rIcon::AllianceBadgeEbonheart => {
                    v.push('1');
                    v.push('0');
                },
                M0rIcon::AllianceBadgeDaggerfall => {
                    v.push('1');
                    v.push('1');
                },
                M0rIcon::RoleIconDPS => {
                    v.push('1');
                    v.push('2');
                },
                M0rIcon::RoleIconTank => {
                    v.push('1');
                    v.push('3');
                },
                M0rIcon::RoleIconHealer => {
                    v.push('1');
                    v.push('4');
                },
                M0rIcon::ClassDragonknight => {
                    v.push('1');
                    v.push('5');
                },
                M0rIcon::ClassSorcerer => {
                    v.push('1');
                    v.push('6');
                },
                M0rIcon::ClassNightblade => {
                    v.push('1');
                    v.push('7');
                },
                M0rIcon::ClassWarden => {
                    v.push('1');
                    v.push('8');
                },
                M0rIcon::ClassNecromancer => {
                    v.push('1');
                    v.push('9');
                },
                M0rIcon::ClassTemplar => {
                    v.push('2');
                    v.push('0');
                },
                M0rIcon::ClassArcanist => {
                    v.push('2');
                    v.push('1');
                },
            }
            assert(v@ =~= spec_og_chars(*icon));
            chars_to_string(&v)
        },
        M0rTexture::Unknown(t) => {
            let v = str_to_chars(t.as_str());
            chars_to_string(&v)
        },
        M0rTexture::Absent => {
            let mut v: Vec<char> = Vec::new();
            v.push('^');
            v.push('7');
            assert(v@ =~= seq!['^', '7']);
            chars_to_string(&v)
        },
    }
}

/// The asset path a texture is drawn from; unknown textures share one
/// placeholder image and "no texture" shares the blank icon's image.
pub open spec fn spec_m0r_texture_path_chars(tex: M0rTexture) -> Seq<char> {
    match tex {
        M0rTexture::Known(icon) => match icon {
            M0rIcon::Blank => "blank.png"@,
            M0rIcon::Circle => "circle.svg"@,
            M0rIcon::Hexagon => "hexagon.svg"@,
            M0rIcon::Square => "square.svg"@,
            M0rIcon::Diamond => "diamond.svg"@,
            M0rIcon::Octagon => "octagon.svg"@,
            M0rIcon::Chevron => "chevron.svg"@,
            M0rIcon::SharkPog => "sharkpog.png"@,
            M0rIcon::AllianceBadgeAldmeri => "alliancebadge_aldmeri.png"@,
            M0rIcon::AllianceBadgeEbonheart => "alliancebadge_ebonheart.png"@,
            M0rIcon::AllianceBadgeDaggerfall => "alliancebadge_daggerfall.png"@,
            M0rIcon::RoleIconDPS => "lfg_roleicon_dps.png"@,
            M0rIcon::RoleIconTank => "lfg_roleicon_tank.png"@,
            M0rIcon::RoleIconHealer => "lfg_roleicon_healer.png"@,
            M0rIcon::ClassDragonknight => "gp_class_dragonknight.png"@,
            M0rIcon::ClassSorcerer => "gp_class_sorcerer.png"@,
            M0rIcon::ClassNightblade => "gp_class_nightblade.png"@,
            M0rIcon::ClassWarden => "gp_class_warden.png"@,
            M0rIcon::ClassNecromancer => "gp_class_necromancer.png"@,
            M0rIcon::ClassTemplar => "gp_class_templar.png"@,
            M0rIcon::ClassArcanist => "gp_class_arcanist.png"@,
        },
        M0rTexture::Unknown(_) => "unknown.png"@,
        M0rTexture::Absent => "blank.png"@,
    }
}

/// Executable form of [`spec_m0r_texture_path_chars`].
pub fn m0r_texture_path(tex: &M0rTexture) -> (s: String)
    ensures
        s@ == spec_m0r_texture_path_chars(*tex),
{
    let v: Vec<char> = match tex {
        M0rTexture::Known(icon) => match icon {
            M0rIcon::Blank => str_to_chars("blank.png"),
            M0rIcon::Circle => str_to_chars("circle.svg"),
            M0rIcon::Hexagon => str_to_chars("hexagon.svg"),
            M0rIcon::Square => str_to_chars("square.svg"),
            M0rIcon::Diamond => str_to_chars("diamond.svg"),
            M0rIcon::Octagon => str_to_chars("octagon.svg"),
            M0rIcon::Chevron => str_to_chars("chevron.svg"),
            M0rIcon::SharkPog => str_to_chars("sharkpog.png"),
            M0rIcon::AllianceBadgeAldmeri => str_to_chars("alliancebadge_aldmeri.png"),
            M0rIcon::AllianceBadgeEbonheart => str_to_chars("alliancebadge_ebonheart.png"),
            M0rIcon::AllianceBadgeDaggerfall => str_to_chars("alliancebadge_daggerfall.png"),
            M0rIcon::RoleIconDPS => str_to_chars("lfg_roleicon_dps.png"),
            M0rIcon::RoleIconTank => str_to_chars("lfg_roleicon_tank.png"),
            M0rIcon::RoleIconHealer => str_to_chars("lfg_roleicon_healer.png"),
            M0rIcon::ClassDragonknight => str_to_chars("gp_class_dragonknight.png"),
            M0rIcon::ClassSorcerer => str_to_chars("gp_class_sorcerer.png"),
            M0rIcon::ClassNightblade => str_to_chars("gp_class_nightblade.png"),
            M0rIcon::ClassWarden => str_to_chars("gp_class_warden.png"),
            M0rIcon::ClassNecromancer => str_to_chars("gp_class_necromancer.png"),
            M0rIcon::ClassTemplar => str_to_chars("gp_class_templar.png"),
            M0rIcon::ClassArcanist => str_to_chars("gp_class_arcanist.png"),
        },
        M0rTexture::Unknown(_) => str_to_chars("unknown.png"),
        M0rTexture::Absent => str_to_chars("blank.png"),
    };
    chars_to_string(&v)
}

// ---------------------------------------------------------------------------
// Inline vector shapes
// ---------------------------------------------------------------------------
/// The inline vector data of the icons that are drawn as paths rather than
/// loaded from image assets.
pub struct SVGData {
    pub path: String,
    pub view_box: String,
}

/// Whether an icon is drawn as an inline vector path.
pub open spec fn spec_has_svg(tex: M0rTexture) -> bool {
    match tex {
        M0rTexture::Known(icon) => match icon {
            M0rIcon::Circle => true,
            M0rIcon::Hexagon => true,
            M0rIcon::Square => true,
            M0rIcon::Diamond => true,
            M0rIcon::Octagon => true,
            M0rIcon::Chevron => true,
            _ => false,
        },
        _ => false,
    }
}

/// The vector path and view box of the six path-drawn icons; nothing for
/// every other texture.
pub fn get_svg(tex: &M0rTexture) -> (r: Option<SVGData>)
    ensures
        r is Some <==> spec_has_svg(*tex),
        r is Some ==> ({
            let d = r->0;
            match *tex {
                M0rTexture::Known(icon) => match icon {
                    M0rIcon::Circle => d.path@
                        == "M127.5 252.5c69.036 0 125-55.964 125-125 0-69.0356-55.964-125-125-125-69.0356 0-125 55.9644-125 125 0 69.036 55.9644 125 125 125Z"@
                        && d.view_box@ == "0 0 255 255"@,
                    M0rIcon::Hexagon => d.path@ == "M64 223.5h127l64-110-64-111H64l-64 111z"@
                        && d.view_box@ == "0 0 256 226"@,
                    M0rIcon::Square => d.path@ == "M3 3v249h249V3z"@ && d.view_box@
                        == "0 0 256 256"@,
                    M0rIcon::Diamond => d.path@ == "M0 128 128 0l127 128-127 127z"@
                        && d.view_box@ == "0 0 256 256"@,
                    M0rIcon::Octagon => d.path@
                        == "M2.5 178.277V75.7233L75.7233 2.5H178.277L251.5 75.7233V178.277L178.277 251.5H75.7233z"@
                        && d.view_box@ == "0 0 254 254"@,
                    M0rIcon::Chevron => d.path@ == "M0 100-125 0v-100L0 0l125-100V0z"@
                        && d.view_box@ == "-128 -128 256 256"@,
                    _ => false,
                },
                _ => false,
            }
        }),
{
    match tex {
        M0rTexture::Known(icon) => match icon {
            M0rIcon::Circle => Some(
                SVGData {
                    path: chars_to_string(
                        &str_to_chars(
                            "M127.5 252.5c69.036 0 125-55.964 125-125 0-69.0356-55.964-125-125-125-69.0356 0-125 55.9644-125 125 0 69.036 55.9644 125 125 125Z",
                        ),
                    ),
                    view_box: chars_to_string(&str_to_chars("0 0 255 255")),
                },
            ),
            M0rIcon::Hexagon => Some(
                SVGData {
                    path: chars_to_string(&str_to_chars("M64 223.5h127l64-110-64-111H64l-64 111z")),
                    view_box: chars_to_string(&str_to_chars("0 0 256 226")),
                },
            ),
            M0rIcon::Square => Some(
                SVGData {
                    path: chars_to_string(&str_to_chars("M3 3v249h249V3z")),
                    view_box: chars_to_string(&str_to_chars("0 0 256 256")),
                },
            ),
            M0rIcon::Diamond => Some(
                SVGData {
                    path: chars_to_string(&str_to_chars("M0 128 128 0l127 128-127 127z")),
                    view_box: chars_to_string(&str_to_chars("0 0 256 256")),
                },
            ),
            M0rIcon::Octagon => Some(
                SVGData {
                    path: chars_to_string(
                        &str_to_chars(
                            "M2.5 178.277V75.7233L75.7233 2.5H178.277L251.5 75.7233V178.277L178.277 251.5H75.7233z",
                        ),
                    ),
                    view_box: chars_to_string(&str_to_chars("0 0 254 254")),
                },
            ),
            M0rIcon::Chevron => Some(
                SVGData {
                    path: chars_to_string(&str_to_chars("M0 100-125 0v-100L0 0l125-100V0z")),
                    view_box: chars_to_string(&str_to_chars("-128 -128 256 256")),
                },
            ),
            _ => None,
        },
        _ => None,
    }
}

} // verus!

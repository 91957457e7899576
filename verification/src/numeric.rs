//! Decimal and hexadecimal numerals as character sequences.
//!
//! The three marker-string formats write numbers as decimal or hex tokens
//! and read them back leniently: a malformed or out-of-range token never
//! aborts a parse, it defaults (to zero, or to "no value", depending on the
//! format).  The spec functions here pin down both directions exactly.

use vstd::prelude::*;

verus! {

// ---------------------------------------------------------------------------
// Digits
// ---------------------------------------------------------------------------
pub open spec fn is_dec_digit(c: char) -> bool {
    '0' as int <= c as int && c as int <= '9' as int
}

pub open spec fn dec_digit_val(c: char) -> nat {
    if is_dec_digit(c) {
        (c as int - '0' as int) as nat
    } else {
        0
    }
}

pub open spec fn is_hex_digit(c: char) -> bool {
    ||| is_dec_digit(c)
    ||| 'a' as int <= c as int && c as int <= 'f' as int
    ||| 'A' as int <= c as int && c as int <= 'F' as int
}

pub open spec fn hex_digit_val(c: char) -> nat {
    if is_dec_digit(c) {
        (c as int - '0' as int) as nat
    } else if 'a' as int <= c as int && c as int <= 'f' as int {
        (c as int - 'a' as int + 10) as nat
    } else if 'A' as int <= c as int && c as int <= 'F' as int {
        (c as int - 'A' as int + 10) as nat
    } else {
        0
    }
}

pub open spec fn all_dec_digits(s: Seq<char>) -> bool {
    forall|i: int| 0 <= i < s.len() ==> is_dec_digit(#[trigger] s[i])
}

pub open spec fn all_hex_digits(s: Seq<char>) -> bool {
    forall|i: int| 0 <= i < s.len() ==> is_hex_digit(#[trigger] s[i])
}

/// The value of a sequence of decimal digits, most significant first.
pub open spec fn dec_seq_val(s: Seq<char>) -> nat
    decreases s.len(),
{
    if s.len() == 0 {
        0
    } else {
        dec_seq_val(s.drop_last()) * 10 + dec_digit_val(s.last())
    }
}

/// The value of a sequence of hex digits, most significant first.
pub open spec fn hex_seq_val(s: Seq<char>) -> nat
    decreases s.len(),
{
    if s.len() == 0 {
        0
    } else {
        hex_seq_val(s.drop_last()) * 16 + hex_digit_val(s.last())
    }
}

/// Executable classification of a decimal digit.
pub fn dec_digit_of(c: char) -> (r: Option<u8>)
    ensures
        r is Some <==> is_dec_digit(c),
        r is Some ==> r->0 == dec_digit_val(c),
{
    let u: u32 = c as u32;
    if 48 <= u && u <= 57 {
        Some((u - 48) as u8)
    } else {
        None
    }
}

/// Executable classification of a hex digit (either case).
pub fn hex_digit_of(c: char) -> (r: Option<u8>)
    ensures
        r is Some <==> is_hex_digit(c),
        r is Some ==> r->0 == hex_digit_val(c),
{
    let u: u32 = c as u32;
    if 48 <= u && u <= 57 {
        Some((u - 48) as u8)
    } else if 97 <= u && u <= 102 {
        Some((u - 97 + 10) as u8)
    } else if 65 <= u && u <= 70 {
        Some((u - 65 + 10) as u8)
    } else {
        None
    }
}

// ---------------------------------------------------------------------------
// Formatting
// ---------------------------------------------------------------------------
/// The character of a single decimal digit value.
pub open spec fn dec_digit_char(d: nat) -> char {
    ((48 + d) as u8) as char
}

/// The character of a single hex digit value, upper case letters.
pub open spec fn hex_digit_char_upper(d: nat) -> char {
    if d < 10 {
        ((48 + d) as u8) as char
    } else {
        ((55 + d) as u8) as char
    }
}

/// The character of a single hex digit value, lower case letters.
pub open spec fn hex_digit_char_lower(d: nat) -> char {
    if d < 10 {
        ((48 + d) as u8) as char
    } else {
        ((87 + d) as u8) as char
    }
}

/// The shortest decimal numeral of `n` (so "0" for zero, no leading zeros).
pub open spec fn spec_dec_chars(n: nat) -> Seq<char>
    decreases n,
{
    if n < 10 {
        seq![dec_digit_char(n)]
    } else {
        spec_dec_chars(n / 10).push(dec_digit_char(n % 10))
    }
}

/// The shortest decimal numeral of a signed value, '-' prefixed if negative.
pub open spec fn spec_dec_chars_signed(n: int) -> Seq<char> {
    if n < 0 {
        seq!['-'] + spec_dec_chars((-n) as nat)
    } else {
        spec_dec_chars(n as nat)
    }
}

/// The shortest upper-case hex numeral of `n`.
pub open spec fn spec_hex_chars_upper(n: nat) -> Seq<char>
    decreases n,
{
    if n < 16 {
        seq![hex_digit_char_upper(n)]
    } else {
        spec_hex_chars_upper(n / 16).push(hex_digit_char_upper(n % 16))
    }
}

/// The shortest lower-case hex numeral of `n`.
pub open spec fn spec_hex_chars_lower(n: nat) -> Seq<char>
    decreases n,
{
    if n < 16 {
        seq![hex_digit_char_lower(n)]
    } else {
        spec_hex_chars_lower(n / 16).push(hex_digit_char_lower(n % 16))
    }
}

/// Appends the decimal numeral of `n` to `out`.
pub fn push_dec_u64(out: &mut Vec<char>, n: u64)
    ensures
        final(out)@ == old(out)@ + spec_dec_chars(n as nat),
    decreases n,
{
    if n < 10 {
        out.push((48 + n as u8) as char);
    } else {
        push_dec_u64(out, n / 10);
        out.push((48 + (n % 10) as u8) as char);
    }
}

/// Appends the signed decimal numeral of `n` to `out`.
pub fn push_dec_i64(out: &mut Vec<char>, n: i64)
    ensures
        final(out)@ == old(out)@ + spec_dec_chars_signed(n as int),
{
    if n < 0 {
        out.push('-');
        let m: u64 = if n == i64::MIN {
            9223372036854775808u64
        } else {
            (-n) as u64
        };
        assert(m == (-(n as int)) as nat);
        push_dec_u64(out, m);
        assert(final(out)@ == old(out)@ + seq!['-'] + spec_dec_chars((-(n as int)) as nat));
        assert(old(out)@ + seq!['-'] + spec_dec_chars((-(n as int)) as nat) == old(out)@ + (
        seq!['-'] + spec_dec_chars((-(n as int)) as nat)));
    } else {
        push_dec_u64(out, n as u64);
    }
}

fn hex_upper_char_of(d: u64) -> (c: char)
    requires
        d < 16,
    ensures
        c == hex_digit_char_upper(d as nat),
{
    if d < 10 {
        (48 + d as u8) as char
    } else {
        (55 + d as u8) as char
    }
}

fn hex_lower_char_of(d: u64) -> (c: char)
    requires
        d < 16,
    ensures
        c == hex_digit_char_lower(d as nat),
{
    if d < 10 {
        (48 + d as u8) as char
    } else {
        (87 + d as u8) as char
    }
}

/// Appends the upper-case hex numeral of `n` to `out`.
pub fn push_hex_u64_upper(out: &mut Vec<char>, n: u64)
    ensures
        final(out)@ == old(out)@ + spec_hex_chars_upper(n as nat),
    decreases n,
{
    if n < 16 {
        let c = hex_upper_char_of(n);
        out.push(c);
    } else {
        push_hex_u64_upper(out, n / 16);
        let c = hex_upper_char_of(n % 16);
        out.push(c);
    }
}

/// Appends the lower-case hex numeral of `n` to `out`.
pub fn push_hex_u64_lower(out: &mut Vec<char>, n: u64)
    ensures
        final(out)@ == old(out)@ + spec_hex_chars_lower(n as nat),
    decreases n,
{
    if n < 16 {
        let c = hex_lower_char_of(n);
        out.push(c);
    } else {
        push_hex_u64_lower(out, n / 16);
        let c = hex_lower_char_of(n % 16);
        out.push(c);
    }
}

/// The upper-case hex numeral of an `i32` in two's-complement form, as the
/// usual formatting of signed integers as hex writes it.
pub open spec fn spec_hex_chars_i32(n: i32) -> Seq<char> {
    spec_hex_chars_upper((n as u32) as nat)
}

/// Appends the upper-case two's-complement hex numeral of `n` to `out`.
pub fn push_hex_i32_upper(out: &mut Vec<char>, n: i32)
    ensures
        final(out)@ == old(out)@ + spec_hex_chars_i32(n),
{
    push_hex_u64_upper(out, n as u32 as u64);
}

/// A byte as exactly two upper-case hex digits.
pub open spec fn spec_hex2(b: u8) -> Seq<char> {
    seq![hex_digit_char_upper((b / 16) as nat), hex_digit_char_upper((b % 16) as nat)]
}

/// Appends a byte as exactly two upper-case hex digits to `out`.
pub fn push_hex2(out: &mut Vec<char>, b: u8)
    ensures
        final(out)@ == old(out)@ + spec_hex2(b),
{
    let hi = hex_upper_char_of((b / 16) as u64);
    let lo = hex_upper_char_of((b % 16) as u64);
    out.push(hi);
    out.push(lo);
    assert(final(out)@ =~= old(out)@ + spec_hex2(b));
}

// ---------------------------------------------------------------------------
// Formatting round-trip facts
// ---------------------------------------------------------------------------
/// A decimal numeral consists of decimal digits and reads back as its value.
pub proof fn lemma_dec_chars_value(n: nat)
    ensures
        spec_dec_chars(n).len() >= 1,
        all_dec_digits(spec_dec_chars(n)),
        dec_seq_val(spec_dec_chars(n)) == n,
    decreases n,
{
    if n < 10 {
        let s = spec_dec_chars(n);
        assert(s =~= seq![dec_digit_char(n)]);
        assert(is_dec_digit(dec_digit_char(n)));
        assert(s.drop_last() =~= Seq::<char>::empty());
        assert(dec_seq_val(s.drop_last()) == 0);
        assert(dec_seq_val(s) == dec_digit_val(dec_digit_char(n)));
    } else {
        lemma_dec_chars_value(n / 10);
        let t = spec_dec_chars(n / 10);
        let s = spec_dec_chars(n);
        assert(s == t.push(dec_digit_char(n % 10)));
        assert(s.drop_last() =~= t);
        assert(s.last() == dec_digit_char(n % 10));
        assert(is_dec_digit(dec_digit_char(n % 10)));
        assert(dec_digit_val(dec_digit_char(n % 10)) == n % 10);
        assert(all_dec_digits(s)) by {
            assert(forall|i: int|
                0 <= i < s.len() ==> #[trigger] s[i] == if i < t.len() {
                    t[i]
                } else {
                    dec_digit_char(n % 10)
                });
        }
        assert(dec_seq_val(s) == dec_seq_val(t) * 10 + n % 10);
        assert(dec_seq_val(s) == (n / 10) * 10 + n % 10);
        assert((n / 10) * 10 + n % 10 == n) by (nonlinear_arith);
    }
}

// ---------------------------------------------------------------------------
// Parsing
// ---------------------------------------------------------------------------
/// Whether a token is a well-formed unsigned hex numeral whose value fits
/// below the given bound.
pub open spec fn spec_hex_fits(s: Seq<char>, bound: nat) -> bool {
    s.len() > 0 && all_hex_digits(s) && hex_seq_val(s) <= bound
}

/// `u64::from_str_radix(s, 16).unwrap_or(0)` on a digits-only token.
pub open spec fn spec_parse_hex_u64(s: Seq<char>) -> u64 {
    if spec_hex_fits(s, u64::MAX as nat) {
        hex_seq_val(s) as u64
    } else {
        0
    }
}

proof fn lemma_hex_prefix_le(s: Seq<char>, i: int)
    requires
        0 <= i <= s.len(),
    ensures
        hex_seq_val(s.take(i)) <= hex_seq_val(s),
    decreases s.len() - i,
{
    if i == s.len() {
        assert(s.take(i) =~= s);
    } else {
        lemma_hex_prefix_le(s, i + 1);
        let t = s.take(i + 1);
        assert(t.drop_last() =~= s.take(i));
        assert(hex_seq_val(t) == hex_seq_val(s.take(i)) * 16 + hex_digit_val(t.last()));
        assert(hex_seq_val(s.take(i)) <= hex_seq_val(s.take(i)) * 16) by (nonlinear_arith);
    }
}

/// Parses an unsigned hex token starting at `start`, with the leniency the
/// line format uses: any malformed, empty or overflowing token reads as 0.
pub fn parse_hex_u64_from(tok: &Vec<char>, start: usize) -> (r: u64)
    requires
        start <= tok@.len(),
    ensures
        r == spec_parse_hex_u64(tok@.skip(start as int)),
{
    let ghost s = tok@.skip(start as int);
    if start == tok.len() {
        return 0;
    }
    let mut acc: u64 = 0;
    let mut i: usize = start;
    while i < tok.len()
        invariant
            start <= i <= tok@.len(),
            s == tok@.skip(start as int),
            s.len() > 0,
            all_hex_digits(s.take(i - start)),
            acc as nat == hex_seq_val(s.take(i - start)),
        decreases tok@.len() - i,
    {
        let c = tok[i];
        assert(s[i - start] == c);
        match hex_digit_of(c) {
            Option::None => {
                assert(!is_hex_digit(s[i - start]));
                return 0;
            },
            Option::Some(d) => {
                if acc > (u64::MAX - d as u64) / 16 {
                    proof {
                        let t = s.take(i - start + 1);
                        assert(t.drop_last() =~= s.take(i - start));
                        assert(hex_seq_val(t) == acc as nat * 16 + d as nat);
                        assert(acc as nat * 16 + d as nat > u64::MAX as nat) by (nonlinear_arith)
                            requires
                                acc > (u64::MAX - d as u64) / 16,
                                d < 16,
                        ;
                        lemma_hex_prefix_le(s, i - start + 1);
                    }
                    return 0;
                }
                proof {
                    let t = s.take(i - start + 1);
                    assert(t.drop_last() =~= s.take(i - start));
                    assert(t.last() == c);
                    assert(acc as nat * 16 + d as nat <= u64::MAX as nat) by (nonlinear_arith)
                        requires
                            acc <= (u64::MAX - d as u64) / 16,
                            d < 16,
                    ;
                }
                acc = acc * 16 + d as u64;
            },
        }
        i = i + 1;
    }
    assert(s.take(i - start) =~= s);
    acc
}

/// `u64::from_str_radix` leniency for a whole token.
pub fn parse_hex_u64(tok: &Vec<char>) -> (r: u64)
    ensures
        r == spec_parse_hex_u64(tok@),
{
    let r = parse_hex_u64_from(tok, 0);
    assert(tok@.skip(0) =~= tok@);
    r
}

/// `i32::from_str_radix(s, 16).unwrap_or(0)`: an optional leading minus,
/// then hex digits; anything else, or an out-of-range value, reads as 0.
pub open spec fn spec_parse_hex_i32(s: Seq<char>) -> i32 {
    if s.len() > 0 && s[0] == '-' {
        let t = s.skip(1);
        if spec_hex_fits(t, 0x8000_0000) {
            (-(hex_seq_val(t) as int)) as i32
        } else {
            0
        }
    } else if spec_hex_fits(s, i32::MAX as nat) {
        hex_seq_val(s) as i32
    } else {
        0
    }
}

/// Executable form of [`spec_parse_hex_i32`].
pub fn parse_hex_i32(tok: &Vec<char>) -> (r: i32)
    ensures
        r == spec_parse_hex_i32(tok@),
{
    if tok.len() > 0 && tok[0] == '-' {
        let ghost t = tok@.skip(1);
        let v = parse_hex_u64_from(tok, 1);
        proof {
            if spec_hex_fits(t, 0x8000_0000) {
                assert(spec_parse_hex_u64(t) == hex_seq_val(t));
            }
        }
        if v <= 0x8000_0000u64 && v > 0 {
            proof {
                if !spec_hex_fits(t, 0x8000_0000) {
                    assert(spec_parse_hex_u64(t) == 0);
                }
            }
            (-((v - 1) as i32)) - 1
        } else if v > 0x8000_0000u64 {
            0
        } else {
            // v == 0: either the token after '-' reads as zero or is malformed.
            0
        }
    } else {
        let v = parse_hex_u64(tok);
        if v <= i32::MAX as u64 {
            v as i32
        } else {
            0
        }
    }
}

/// Whether a token is a well-formed unsigned decimal numeral below a bound.
pub open spec fn spec_dec_fits(s: Seq<char>, bound: nat) -> bool {
    s.len() > 0 && all_dec_digits(s) && dec_seq_val(s) <= bound
}

proof fn lemma_dec_prefix_le(s: Seq<char>, i: int)
    requires
        0 <= i <= s.len(),
    ensures
        dec_seq_val(s.take(i)) <= dec_seq_val(s),
    decreases s.len() - i,
{
    if i == s.len() {
        assert(s.take(i) =~= s);
    } else {
        lemma_dec_prefix_le(s, i + 1);
        let t = s.take(i + 1);
        assert(t.drop_last() =~= s.take(i));
        assert(dec_seq_val(t) == dec_seq_val(s.take(i)) * 10 + dec_digit_val(t.last()));
        assert(dec_seq_val(s.take(i)) <= dec_seq_val(s.take(i)) * 10) by (nonlinear_arith);
    }
}

/// `s.parse::<u64>().ok()` on a digits-only token: `Some` exactly when the
/// token is non-empty, all decimal digits, and in range.
pub open spec fn spec_parse_dec_u64(s: Seq<char>) -> Option<u64> {
    if spec_dec_fits(s, u64::MAX as nat) {
        Option::Some(dec_seq_val(s) as u64)
    } else {
        Option::None
    }
}

/// Executable form of [`spec_parse_dec_u64`], over a token range.
pub fn parse_dec_u64_range(tok: &Vec<char>, start: usize, end: usize) -> (r: Option<u64>)
    requires
        start <= end <= tok@.len(),
    ensures
        r == spec_parse_dec_u64(tok@.subrange(start as int, end as int)),
{
    let ghost s = tok@.subrange(start as int, end as int);
    if start == end {
        return None;
    }
    let mut acc: u64 = 0;
    let mut i: usize = start;
    while i < end
        invariant
            start <= i <= end <= tok@.len(),
            s == tok@.subrange(start as int, end as int),
            s.len() > 0,
            all_dec_digits(s.take(i - start)),
            acc as nat == dec_seq_val(s.take(i - start)),
        decreases end - i,
    {
        let c = tok[i];
        assert(s[i - start] == c);
        match dec_digit_of(c) {
            Option::None => {
                assert(!is_dec_digit(s[i - start]));
                return None;
            },
            Option::Some(d) => {
                if acc > (u64::MAX - d as u64) / 10 {
                    proof {
                        let t = s.take(i - start + 1);
                        assert(t.drop_last() =~= s.take(i - start));
                        assert(acc as nat * 10 + d as nat > u64::MAX as nat) by (nonlinear_arith)
                            requires
                                acc > (u64::MAX - d as u64) / 10,
                                d < 10,
                        ;
                        lemma_dec_prefix_le(s, i - start + 1);
                    }
                    return None;
                }
                proof {
                    let t = s.take(i - start + 1);
                    assert(t.drop_last() =~= s.take(i - start));
                    assert(t.last() == c);
                    assert(acc as nat * 10 + d as nat <= u64::MAX as nat) by (nonlinear_arith)
                        requires
                            acc <= (u64::MAX - d as u64) / 10,
                            d < 10,
                    ;
                }
                acc = acc * 10 + d as u64;
            },
        }
        i = i + 1;
    }
    assert(s.take(i - start) =~= s);
    Some(acc)
}

/// Executable form of [`spec_parse_dec_u64`] for a whole token.
pub fn parse_dec_u64(tok: &Vec<char>) -> (r: Option<u64>)
    ensures
        r == spec_parse_dec_u64(tok@),
{
    let r = parse_dec_u64_range(tok, 0, tok.len());
    assert(tok@.subrange(0, tok@.len() as int) =~= tok@);
    r
}

/// `s.parse::<i64>().ok()` restricted to an optional '-' sign (no '+'):
/// the signed decimal tokens the rich format reads.
pub open spec fn spec_parse_dec_signed(s: Seq<char>) -> Option<int> {
    if s.len() > 0 && s[0] == '-' {
        let t = s.skip(1);
        if spec_dec_fits(t, u64::MAX as nat) {
            Option::Some(-(dec_seq_val(t) as int))
        } else {
            Option::None
        }
    } else {
        if spec_dec_fits(s, u64::MAX as nat) {
            Option::Some(dec_seq_val(s) as int)
        } else {
            Option::None
        }
    }
}

/// `s.parse::<i8>().ok()` under the same sign discipline.
pub open spec fn spec_parse_dec_i8(s: Seq<char>) -> Option<i8> {
    match spec_parse_dec_signed(s) {
        Option::Some(v) => if i8::MIN as int <= v <= i8::MAX as int {
            Option::Some(v as i8)
        } else {
            Option::None
        },
        Option::None => Option::None,
    }
}

/// `s.parse::<i16>().ok()` under the same sign discipline.
pub open spec fn spec_parse_dec_i16(s: Seq<char>) -> Option<i16> {
    match spec_parse_dec_signed(s) {
        Option::Some(v) => if i16::MIN as int <= v <= i16::MAX as int {
            Option::Some(v as i16)
        } else {
            Option::None
        },
        Option::None => Option::None,
    }
}

fn parse_dec_signed(tok: &Vec<char>) -> (r: Option<i64>)
    ensures
        match spec_parse_dec_signed(tok@) {
            Option::Some(v) => if i64::MIN as int <= v <= i64::MAX as int {
                r == Option::Some(v as i64)
            } else {
                r is None
            },
            Option::None => r is None,
        },
{
    if tok.len() > 0 && tok[0] == '-' {
        let ghost t = tok@.skip(1);
        match parse_dec_u64_range(tok, 1, tok.len()) {
            Option::Some(v) => {
                assert(tok@.subrange(1, tok@.len() as int) =~= t);
                if v <= 0x8000_0000_0000_0000u64 {
                    if v == 0 {
                        Some(0i64)
                    } else {
                        Some((-((v - 1) as i64)) - 1)
                    }
                } else {
                    None
                }
            },
            Option::None => {
                assert(tok@.subrange(1, tok@.len() as int) =~= t);
                None
            },
        }
    } else {
        match parse_dec_u64(tok) {
            Option::Some(v) => {
                if v <= i64::MAX as u64 {
                    Some(v as i64)
                } else {
                    None
                }
            },
            Option::None => None,
        }
    }
}

/// Executable form of [`spec_parse_dec_i8`].
pub fn parse_dec_i8(tok: &Vec<char>) -> (r: Option<i8>)
    ensures
        r == spec_parse_dec_i8(tok@),
{
    match parse_dec_signed(tok) {
        Option::Some(v) => {
            if i8::MIN as i64 <= v && v <= i8::MAX as i64 {
                Some(v as i8)
            } else {
                None
            }
        },
        Option::None => None,
    }
}

/// Executable form of [`spec_parse_dec_i16`].
pub fn parse_dec_i16(tok: &Vec<char>) -> (r: Option<i16>)
    ensures
        r == spec_parse_dec_i16(tok@),
{
    match parse_dec_signed(tok) {
        Option::Some(v) => {
            if i16::MIN as i64 <= v && v <= i16::MAX as i64 {
                Some(v as i16)
            } else {
                None
            }
        },
        Option::None => None,
    }
}



/// Like [`parse_hex_u64`], but telling a malformed token apart from a
/// genuine zero: `None` exactly when the token is empty, has a non-hex
/// character, or overflows.
pub fn parse_hex_u64_opt(tok: &Vec<char>) -> (r: Option<u64>)
    ensures
        r is Some <==> spec_hex_fits(tok@, u64::MAX as nat),
        r is Some ==> r->0 as nat == hex_seq_val(tok@),
{
    let ghost s = tok@;
    if tok.len() == 0 {
        return None;
    }
    let mut acc: u64 = 0;
    let mut i: usize = 0;
    while i < tok.len()
        invariant
            i <= tok@.len(),
            s == tok@,
            s.len() > 0,
            all_hex_digits(s.take(i as int)),
            acc as nat == hex_seq_val(s.take(i as int)),
        decreases tok@.len() - i,
    {
        let c = tok[i];
        match hex_digit_of(c) {
            Option::None => {
                assert(!is_hex_digit(s[i as int]));
                return None;
            },
            Option::Some(d) => {
                if acc > (u64::MAX - d as u64) / 16 {
                    proof {
                        let t = s.take(i as int + 1);
                        assert(t.drop_last() =~= s.take(i as int));
                        assert(hex_seq_val(t) == acc as nat * 16 + d as nat);
                        assert(acc as nat * 16 + d as nat > u64::MAX as nat) by (nonlinear_arith)
                            requires
                                acc > (u64::MAX - d as u64) / 16,
                                d < 16,
                        ;
                        lemma_hex_prefix_le_pub(s, i as int + 1);
                    }
                    return None;
                }
                proof {
                    let t = s.take(i as int + 1);
                    assert(t.drop_last() =~= s.take(i as int));
                    assert(t.last() == c);
                    assert(acc as nat * 16 + d as nat <= u64::MAX as nat) by (nonlinear_arith)
                        requires
                            acc <= (u64::MAX - d as u64) / 16,
                            d < 16,
                    ;
                }
                acc = acc * 16 + d as u64;
            },
        }
        i = i + 1;
    }
    assert(s.take(i as int) =~= s);
    Some(acc)
}

/// A prefix of a hex-digit sequence never exceeds the whole sequence's
/// value.
pub proof fn lemma_hex_prefix_le_pub(s: Seq<char>, i: int)
    requires
        0 <= i <= s.len(),
    ensures
        hex_seq_val(s.take(i)) <= hex_seq_val(s),
    decreases s.len() - i,
{
    if i == s.len() {
        assert(s.take(i) =~= s);
    } else {
        lemma_hex_prefix_le_pub(s, i + 1);
        let t = s.take(i + 1);
        assert(t.drop_last() =~= s.take(i));
        assert(hex_seq_val(t) == hex_seq_val(s.take(i)) * 16 + hex_digit_val(t.last()));
        assert(hex_seq_val(s.take(i)) <= hex_seq_val(s.take(i)) * 16) by (nonlinear_arith);
    }
}

// ---------------------------------------------------------------------------
// Wrapping coordinate arithmetic
// ---------------------------------------------------------------------------
/// An integer reduced into `i32` range by wrapping, as two's-complement
/// addition overflows.
pub open spec fn wrap_i32(v: int) -> i32 {
    (((v + 0x8000_0000) % 0x1_0000_0000) - 0x8000_0000) as i32
}

/// Wrapping `i32` addition.
pub fn wrap_add_i32(a: i32, b: i32) -> (r: i32)
    ensures
        r as int == wrap_i32(a as int + b as int),
{
    let s: i64 = a as i64 + b as i64;
    let r: i64 = if s > i32::MAX as i64 {
        s - 0x1_0000_0000i64
    } else if s < i32::MIN as i64 {
        s + 0x1_0000_0000i64
    } else {
        s
    };
    proof {
        let v = a as int + b as int;
        if v > i32::MAX as int {
            assert((v + 0x8000_0000) % 0x1_0000_0000 == v + 0x8000_0000 - 0x1_0000_0000)
                by (nonlinear_arith)
                requires
                    0x1_0000_0000 <= v + 0x8000_0000 < 0x2_0000_0000,
            ;
        } else if v < i32::MIN as int {
            assert((v + 0x8000_0000) % 0x1_0000_0000 == v + 0x8000_0000 + 0x1_0000_0000)
                by (nonlinear_arith)
                requires
                    (-0x1_0000_0000) <= v + 0x8000_0000 < 0,
            ;
        } else {
            assert((v + 0x8000_0000) % 0x1_0000_0000 == v + 0x8000_0000) by (nonlinear_arith)
                requires
                    0 <= v + 0x8000_0000 < 0x1_0000_0000,
            ;
        }
    }
    r as i32
}

/// Wrapping `i32` subtraction.
pub fn wrap_sub_i32(a: i32, b: i32) -> (r: i32)
    ensures
        r as int == wrap_i32(a as int - b as int),
{
    let s: i64 = a as i64 - b as i64;
    let r: i64 = if s > i32::MAX as i64 {
        s - 0x1_0000_0000i64
    } else if s < i32::MIN as i64 {
        s + 0x1_0000_0000i64
    } else {
        s
    };
    proof {
        let v = a as int - b as int;
        if v > i32::MAX as int {
            assert((v + 0x8000_0000) % 0x1_0000_0000 == v + 0x8000_0000 - 0x1_0000_0000)
                by (nonlinear_arith)
                requires
                    0x1_0000_0000 <= v + 0x8000_0000 < 0x2_0000_0000,
            ;
        } else if v < i32::MIN as int {
            assert((v + 0x8000_0000) % 0x1_0000_0000 == v + 0x8000_0000 + 0x1_0000_0000)
                by (nonlinear_arith)
                requires
                    (-0x1_0000_0000) <= v + 0x8000_0000 < 0,
            ;
        } else {
            assert((v + 0x8000_0000) % 0x1_0000_0000 == v + 0x8000_0000) by (nonlinear_arith)
                requires
                    0 <= v + 0x8000_0000 < 0x1_0000_0000,
            ;
        }
    }
    r as i32
}

/// Integer halving that truncates toward zero, as `/ 2` does on machine
/// integers.
pub open spec fn trunc_half(v: int) -> int {
    if v >= 0 {
        v / 2
    } else {
        -((-v) / 2)
    }
}

/// Truncating halve of an `i32`.
pub fn half_i32(a: i32) -> (r: i32)
    ensures
        r as int == trunc_half(a as int),
{
    if a >= 0 {
        let u: u32 = a as u32;
        (u / 2) as i32
    } else {
        let m: u32 = if a == i32::MIN {
            0x8000_0000u32
        } else {
            (-a) as u32
        };
        let h: u32 = m / 2;
        -(h as i32)
    }
}

} // verus!

//! The rich format's free-text escaping.
//!
//! Literal `:`, `,`, `]`, `;` and `>` would corrupt the record grammar, so
//! on encode each is substituted with a private-use-area codepoint
//! (U+E000..U+E004), and an embedded newline becomes the three characters
//! `\\n` — a backslash pair and an `n` — so the text survives a one-line
//! input field.  Decoding reverses both substitutions.

use vstd::prelude::*;

use crate::strutil::chars_to_string;

verus! {

/// What one character encodes to.
pub open spec fn esc_char(c: char) -> Seq<char> {
    if c == ':' {
        seq!['\u{E000}']
    } else if c == ',' {
        seq!['\u{E001}']
    } else if c == ']' {
        seq!['\u{E002}']
    } else if c == ';' {
        seq!['\u{E003}']
    } else if c == '>' {
        seq!['\u{E004}']
    } else if c == '\n' {
        seq!['\\', '\\', 'n']
    } else {
        seq![c]
    }
}

/// The escaped form of a text: each character's encoding, in order.
pub open spec fn spec_escape(s: Seq<char>) -> Seq<char>
    decreases s.len(),
{
    if s.len() == 0 {
        Seq::empty()
    } else {
        spec_escape(s.drop_last()) + esc_char(s.last())
    }
}

/// The delimiter a private-use-area codepoint stands for, if any.
pub open spec fn unesc_char(c: char) -> Option<char> {
    if c == '\u{E000}' {
        Option::Some(':')
    } else if c == '\u{E001}' {
        Option::Some(',')
    } else if c == '\u{E002}' {
        Option::Some(']')
    } else if c == '\u{E003}' {
        Option::Some(';')
    } else if c == '\u{E004}' {
        Option::Some('>')
    } else {
        Option::None
    }
}

/// The decoded form: a left-to-right scan that turns each `\\n` triple
/// back into a newline and each private-use codepoint back into its
/// delimiter, and keeps everything else.
pub open spec fn spec_unescape(s: Seq<char>) -> Seq<char>
    decreases s.len(),
{
    if s.len() == 0 {
        Seq::empty()
    } else if s.len() >= 3 && s[0] == '\\' && s[1] == '\\' && s[2] == 'n' {
        seq!['\n'] + spec_unescape(s.skip(3))
    } else {
        match unesc_char(s[0]) {
            Option::Some(d) => seq![d] + spec_unescape(s.skip(1)),
            Option::None => seq![s[0]] + spec_unescape(s.skip(1)),
        }
    }
}

/// Appends the escaped form of `s` to `out`.
pub fn push_escaped(out: &mut Vec<char>, s: &Vec<char>)
    ensures
        final(out)@ == old(out)@ + spec_escape(s@),
{
    let mut i: usize = 0;
    proof {
        assert(s@.take(0) =~= Seq::<char>::empty());
        assert(old(out)@ + Seq::<char>::empty() =~= old(out)@);
    }
    while i < s.len()
        invariant
            i <= s@.len(),
            out@ == old(out)@ + spec_escape(s@.take(i as int)),
        decreases s@.len() - i,
    {
        proof {
            assert(s@.take(i + 1).drop_last() =~= s@.take(i as int));
            assert(s@.take(i + 1).last() == s@[i as int]);
        }
        let c = s[i];
        if c == ':' {
            out.push('\u{E000}');
        } else if c == ',' {
            out.push('\u{E001}');
        } else if c == ']' {
            out.push('\u{E002}');
        } else if c == ';' {
            out.push('\u{E003}');
        } else if c == '>' {
            out.push('\u{E004}');
        } else if c == '\n' {
            out.push('\\');
            out.push('\\');
            out.push('n');
        } else {
            out.push(c);
        }
        proof {
            assert(out@ =~= old(out)@ + spec_escape(s@.take(i + 1)));
        }
        i = i + 1;
    }
    proof {
        assert(s@.take(i as int) =~= s@);
    }
}

/// The escaped form of a text as a fresh string.
pub fn escape_text(s: &Vec<char>) -> (r: String)
    ensures
        r@ == spec_escape(s@),
{
    let mut out: Vec<char> = Vec::new();
    push_escaped(&mut out, s);
    chars_to_string(&out)
}

/// The decoded form of a token.
pub fn unescape_chars(s: &Vec<char>) -> (r: Vec<char>)
    ensures
        r@ == spec_unescape(s@),
{
    let mut out: Vec<char> = Vec::new();
    let n = s.len();
    let mut i: usize = 0;
    proof {
        assert(s@.skip(0) =~= s@);
        assert(Seq::<char>::empty() + spec_unescape(s@) =~= spec_unescape(s@));
    }
    while i < n
        invariant
            i <= n,
            n == s@.len(),
            spec_unescape(s@) == out@ + spec_unescape(s@.skip(i as int)),
        decreases n - i,
    {
        let ghost rest = s@.skip(i as int);
        proof {
            assert(rest.len() == n - i);
            assert(forall|j: int| 0 <= j < rest.len() ==> rest[j] == s@[i + j]);
        }
        if n - i >= 3 && s[i] == '\\' && s[i + 1] == '\\' && s[i + 2] == 'n' {
            proof {
                assert(rest.skip(3) =~= s@.skip(i + 3));
                assert(out@ + (seq!['\n'] + spec_unescape(s@.skip(i + 3))) =~= out@.push('\n')
                    + spec_unescape(s@.skip(i + 3)));
            }
            out.push('\n');
            i = i + 3;
        } else {
            let c = s[i];
            let d: char = if c == '\u{E000}' {
                ':'
            } else if c == '\u{E001}' {
                ','
            } else if c == '\u{E002}' {
                ']'
            } else if c == '\u{E003}' {
                ';'
            } else if c == '\u{E004}' {
                '>'
            } else {
                c
            };
            proof {
                assert(rest.skip(1) =~= s@.skip(i + 1));
                assert(out@ + (seq![d] + spec_unescape(s@.skip(i + 1))) =~= out@.push(d)
                    + spec_unescape(s@.skip(i + 1)));
            }
            out.push(d);
            i = i + 1;
        }
    }
    proof {
        assert(s@.skip(i as int).len() == 0);
        assert(spec_unescape(s@.skip(i as int)) =~= Seq::<char>::empty());
        assert(out@ + Seq::<char>::empty() =~= out@);
        assert(s@.skip(0) =~= s@);
    }
    out
}

// ---------------------------------------------------------------------------
// Round trip
// ---------------------------------------------------------------------------
/// Texts the escaping is faithful for: none of the private-use codepoints
/// the encoder itself produces, and no literal backslash-backslash-`n`
/// that would collide with the newline encoding.
pub open spec fn escapable(s: Seq<char>) -> bool {
    &&& forall|i: int| 0 <= i < s.len() ==> unesc_char(#[trigger] s[i]) is None
    &&& forall|i: int|
        0 <= i && i + 2 < s.len() ==> !(#[trigger] s[i] == '\\' && s[i + 1] == '\\' && s[i + 2]
            == 'n')
}


proof fn lemma_escapable_drop_first(s: Seq<char>)
    requires
        escapable(s),
        s.len() > 0,
    ensures
        escapable(s.drop_first()),
{
    let t = s.drop_first();
    assert forall|i: int| 0 <= i < t.len() implies unesc_char(#[trigger] t[i]) is None by {
        assert(t[i] == s[i + 1]);
    }
    assert forall|i: int|
        0 <= i && i + 2 < t.len() implies !(#[trigger] t[i] == '\\' && t[i + 1] == '\\' && t[i
        + 2] == 'n') by {
        assert(t[i] == s[i + 1] && t[i + 1] == s[i + 2] && t[i + 2] == s[i + 3]);
    }
}

proof fn lemma_escapable_drop_last(s: Seq<char>)
    requires
        escapable(s),
        s.len() > 0,
    ensures
        escapable(s.drop_last()),
{
    let t = s.drop_last();
    assert forall|i: int| 0 <= i < t.len() implies unesc_char(#[trigger] t[i]) is None by {
        assert(t[i] == s[i]);
    }
    assert forall|i: int|
        0 <= i && i + 2 < t.len() implies !(#[trigger] t[i] == '\\' && t[i + 1] == '\\' && t[i
        + 2] == 'n') by {
        assert(t[i] == s[i] && t[i + 1] == s[i + 1] && t[i + 2] == s[i + 2]);
    }
}

proof fn lemma_escape_unescape_step(s: Seq<char>)
    requires
        escapable(s),
        s.len() > 0,
    ensures
        spec_escape(s) == esc_char(s[0]) + spec_escape(s.drop_first()),
    decreases s.len(),
{
    if s.len() == 1 {
        assert(s.drop_last() =~= Seq::<char>::empty());
        assert(s.drop_first() =~= Seq::<char>::empty());
        assert(spec_escape(s) =~= esc_char(s[0]) + spec_escape(s.drop_first()));
    } else {
        let t = s.drop_last();
        assert(forall|j: int| 0 <= j < t.len() ==> t[j] == s[j]);
        lemma_escapable_drop_last(s);
        lemma_escape_unescape_step(t);
        assert(t.drop_first() =~= s.drop_first().drop_last());
        assert(s.drop_first().last() == s.last());
        assert(spec_escape(s) == spec_escape(t) + esc_char(s.last()));
        assert((esc_char(s[0]) + spec_escape(t.drop_first())) + esc_char(s.last()) =~= esc_char(
            s[0],
        ) + (spec_escape(s.drop_first().drop_last()) + esc_char(s.drop_first().last())));
        assert(spec_escape(s.drop_first().drop_last()) + esc_char(s.drop_first().last())
            == spec_escape(s.drop_first()));
    }
}

/// Escaping then unescaping returns the text unchanged, provided the text
/// carries none of the encoder's own private-use codepoints and no
/// literal `\\n` triple.  A text with an embedded newline, or any of the
/// five delimiters, is squarely inside this set.
pub proof fn lemma_escape_roundtrip(s: Seq<char>)
    requires
        escapable(s),
    ensures
        spec_unescape(spec_escape(s)) == s,
    decreases s.len(),
{
    if s.len() == 0 {
        assert(spec_escape(s) =~= Seq::<char>::empty());
        assert(spec_unescape(spec_escape(s)) =~= s);
    } else {
        lemma_escape_unescape_step(s);
        let c = s[0];
        let rest = s.drop_first();
        assert(forall|j: int| 0 <= j < rest.len() ==> rest[j] == s[j + 1]);
        lemma_escapable_drop_first(s);
        lemma_escape_roundtrip(rest);
        let e = spec_escape(s);
        let er = spec_escape(rest);
        assert(e == esc_char(c) + er);
        if c == '\n' {
            assert(e[0] == '\\' && e[1] == '\\' && e[2] == 'n');
            assert(e.skip(3) =~= er);
            assert(spec_unescape(e) == seq!['\n'] + spec_unescape(er));
            assert(seq!['\n'] + rest =~= s);
        } else if c == ':' || c == ',' || c == ']' || c == ';' || c == '>' {
            assert(e.skip(1) =~= er);
            assert(unesc_char(e[0]) == Option::Some(c));
            assert(!(e.len() >= 3 && e[0] == '\\' && e[1] == '\\' && e[2] == 'n'));
            assert(spec_unescape(e) == seq![c] + spec_unescape(er));
            assert(seq![c] + rest =~= s);
        } else {
            assert(e[0] == c);
            assert(e.skip(1) =~= er);
            assert(unesc_char(c) is None);
            // the only way the scan could take the newline triple here is a
            // literal backslash pair before 'n', which escapable rules out
            if e.len() >= 3 && e[0] == '\\' && e[1] == '\\' && e[2] == 'n' {
                assert(c == '\\');
                assert(er[0] == '\\' && er[1] == 'n');
                if rest[0] == '\n' {
                    assert(esc_char(rest[0])[1] == '\\');
                    assert(er == esc_char(rest[0]) + spec_escape(rest.drop_first())) by {
                        lemma_escapable_drop_first(s);
                        lemma_escape_unescape_step(rest);
                    }
                    assert(false);
                } else {
                    assert(er == esc_char(rest[0]) + spec_escape(rest.drop_first())) by {
                        lemma_escape_unescape_step(rest);
                    }
                    assert(esc_char(rest[0]).len() == 1 || rest[0] == '\n');
                    assert(rest[0] == '\\');
                    let rest2 = rest.drop_first();
                    assert(forall|j: int| 0 <= j < rest2.len() ==> rest2[j] == s[j + 2]);
                    assert(spec_escape(rest2)[0] == 'n');
                    if rest2.len() == 0 {
                        assert(spec_escape(rest2) =~= Seq::<char>::empty());
                        assert(false);
                    } else {
                        assert(spec_escape(rest2) == esc_char(rest2[0]) + spec_escape(
                            rest2.drop_first(),
                        )) by {
                            lemma_escapable_drop_first(s);
                            lemma_escapable_drop_first(rest);
                            lemma_escape_unescape_step(rest2);
                        }
                        assert(esc_char(rest2[0])[0] == 'n');
                        assert(rest2[0] == 'n');
                        assert(s[0] == '\\' && s[1] == '\\' && s[2] == 'n');
                        assert(false);
                    }
                }
            }
            assert(spec_unescape(e) == seq![c] + spec_unescape(er));
            assert(seq![c] + rest =~= s);
        }
    }
}

} // verus!

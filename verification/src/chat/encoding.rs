//! Translates Unicode chat text into Tibia 1.03's single-byte character encoding (Windows-1252).
//!
//! Tibia 1.03 predates Unicode support and expects Windows-1252 byte values for extended
//! characters. The two functions here handle the subset of characters players are likely to
//! type: German umlauts (Ää, Öö, Üü, ß) and Scandinavian letters (Åå, Ææ, Øø). Pure ASCII
//! passes through unchanged in both cases.

use vstd::prelude::*;

verus! {

broadcast use vstd::string::group_string_axioms;

/// The low byte of a character's code point; lossless for code points up to U+00FF.
pub open spec fn char_byte(c: char) -> u8 {
    ((c as u32) % 256) as u8
}

/// The byte a character is sent as, with the supported lower-case letters folded to
/// upper case.
pub open spec fn upper_char_byte(c: char) -> u8 {
    if c == 'ä' {
        0xC4
    } else if c == 'å' {
        0xC5
    } else if c == 'ö' {
        0xD6
    } else if c == 'ü' {
        0xDC
    } else if c == 'æ' {
        0xC6
    } else if c == 'ø' {
        0xD8
    } else {
        char_byte(c)
    }
}

/// The Windows-1252 encoding of a text, one byte per character.
pub open spec fn spec_translate(s: Seq<char>) -> Seq<u8> {
    s.map_values(|c: char| char_byte(c))
}

/// The upper-case-folding Windows-1252 encoding of a text, one byte per character.
pub open spec fn spec_translate_upper(s: Seq<char>) -> Seq<u8> {
    s.map_values(|c: char| upper_char_byte(c))
}

fn low_byte(c: char) -> (b: u8)
    ensures
        b == char_byte(c),
{
    ((c as u32) % 256) as u8
}

/// Translates a Unicode string into Tibia 1.03's Windows-1252 encoding, preserving case.
///
/// Extended characters are mapped to their Windows-1252 byte values. Any character
/// outside the handled set is reduced to the low byte of its code point, which is
/// lossless for ASCII but silently truncates anything above U+00FF.
pub fn translate(input: &str) -> (out: Vec<u8>)
    ensures
        out@ == spec_translate(input@),
{
    let mut out: Vec<u8> = Vec::new();
    for c in it: input.chars()
        invariant
            it.seq() == input@,
            out@ == spec_translate(input@.take(it.index() as int)),
    {
        let b: u8 = match c {
            'Ä' => 0xC4,
            'Å' => 0xC5,
            'Æ' => 0xC6,
            'Ö' => 0xD6,
            'Ø' => 0xD8,
            'Ü' => 0xDC,
            'ß' => 0xDF,
            'ä' => 0xE4,
            'å' => 0xE5,
            'æ' => 0xE6,
            'ö' => 0xF6,
            'ø' => 0xF8,
            'ü' => 0xFC,
            c => low_byte(c),
        };
        out.push(b);
        proof {
            assert(input@.take(it.index() + 1) =~= input@.take(it.index() as int).push(c));
        }
    }
    proof {
        assert(input@.take(input@.len() as int) =~= input@);
    }
    out
}

/// Translates a Unicode string into Tibia 1.03's Windows-1252 encoding, folding to uppercase.
///
/// Both cases of each supported character map to the same uppercase Windows-1252 byte,
/// matching the game's case-insensitive name and channel comparisons. `ß` has no
/// uppercase form in Windows-1252, so it is left as-is (0xDF).
pub fn translate_upper(input: &str) -> (out: Vec<u8>)
    ensures
        out@ == spec_translate_upper(input@),
{
    let mut out: Vec<u8> = Vec::new();
    for c in it: input.chars()
        invariant
            it.seq() == input@,
            out@ == spec_translate_upper(input@.take(it.index() as int)),
    {
        let b: u8 = match c {
            'Ä' | 'ä' => 0xC4,
            'Å' | 'å' => 0xC5,
            'Ö' | 'ö' => 0xD6,
            'Ü' | 'ü' => 0xDC,
            'ß' => 0xDF,
            'Æ' | 'æ' => 0xC6,
            'Ø' | 'ø' => 0xD8,
            c => low_byte(c),
        };
        out.push(b);
        proof {
            assert(input@.take(it.index() + 1) =~= input@.take(it.index() as int).push(c));
        }
    }
    proof {
        assert(input@.take(input@.len() as int) =~= input@);
    }
    out
}

/// Pure ASCII passes through both encodings unchanged, one byte per character.
pub proof fn lemma_ascii_unchanged(s: Seq<char>)
    requires
        forall|i: int| 0 <= i < s.len() ==> (#[trigger] s[i] as u32) < 128,
    ensures
        spec_translate(s) == spec_translate_upper(s),
        spec_translate(s).len() == s.len(),
        forall|i: int| 0 <= i < s.len() ==> #[trigger] spec_translate(s)[i] as u32 == s[i] as u32,
{
    assert forall|i: int| 0 <= i < s.len() implies #[trigger] spec_translate(s)[i] as u32 == s[i] as u32 by {
        assert((s[i] as u32) < 128);
    }
    assert(spec_translate(s) =~= spec_translate_upper(s)) by {
        assert forall|i: int| 0 <= i < s.len() implies spec_translate(s)[i] == spec_translate_upper(s)[i] by {
            assert((s[i] as u32) < 128);
        }
    }
}

} // verus!

//! Glyph ramps, ordered from the darkest glyph to the brightest, and the
//! mapping from a brightness level to a glyph.
//!
//! A brightness level is the whole number `floor(brightness * n)`, where `n`
//! is the length of the ramp in use. Levels below zero and levels past the
//! end of the ramp are drawn with the first and the last glyph.

use vstd::prelude::*;

verus! {

/// The standard ramp.
pub const CHARSET: [char; 10] = [' ', '.', ':', '-', '=', '+', '*', '#', '%', '@'];

/// The extended ramp.
pub const CHARSET_HD: [char; 70] = [
    ' ', '.', '\'', '`', '^', '"', ',', ':', ';', 'I',
    'l', '!', 'i', '>', '<', '~', '+', '_', '-', '?',
    ']', '[', '}', '{', '1', ')', '(', '|', '\\', '/',
    't', 'f', 'j', 'r', 'x', 'n', 'u', 'v', 'c', 'z',
    'X', 'Y', 'U', 'J', 'C', 'L', 'Q', '0', 'O', 'Z',
    'm', 'w', 'q', 'p', 'd', 'b', 'k', 'h', 'a', 'o',
    '*', '#', 'M', 'W', '&', '8', '%', 'B', '@', '$',
];

/// The glyphs of the chosen ramp, darkest first.
pub open spec fn ramp(use_extended_charset: bool) -> Seq<char> {
    if use_extended_charset {
        CHARSET_HD@
    } else {
        CHARSET@
    }
}

/// The position on a ramp of `len` glyphs at which `level` is drawn: the
/// level itself where it lies on the ramp, else the nearer end of the ramp.
pub open spec fn clamped_index(level: int, len: int) -> int {
    if level < 0 {
        0
    } else if level >= len {
        len - 1
    } else {
        level
    }
}

/// The glyph with which `level` is drawn.
pub open spec fn glyph_of(level: int, use_extended_charset: bool) -> char {
    let glyphs = ramp(use_extended_charset);
    glyphs[clamped_index(level, glyphs.len() as int)]
}

/// The number of glyphs on the chosen ramp.
pub fn ramp_len(use_extended_charset: bool) -> (len: usize)
    ensures
        len == ramp(use_extended_charset).len(),
        len == if use_extended_charset { 70usize } else { 10usize },
{
    if use_extended_charset {
        CHARSET_HD.len()
    } else {
        CHARSET.len()
    }
}

/// The position on the chosen ramp at which `level` is drawn. It lies on the
/// ramp whatever the level is.
pub fn glyph_index(level: i64, use_extended_charset: bool) -> (index: usize)
    ensures
        index == clamped_index(level as int, ramp(use_extended_charset).len() as int),
        index < ramp(use_extended_charset).len(),
{
    let len = ramp_len(use_extended_charset);
    if level < 0 {
        0
    } else if level >= len as i64 {
        len - 1
    } else {
        level as usize
    }
}

/// The glyph with which `level` is drawn on the chosen ramp.
pub fn level_to_glyph(level: i64, use_extended_charset: bool) -> (glyph: char)
    ensures
        glyph == glyph_of(level as int, use_extended_charset),
        ramp(use_extended_charset).contains(glyph),
{
    let index = glyph_index(level, use_extended_charset);
    if use_extended_charset {
        CHARSET_HD[index]
    } else {
        CHARSET[index]
    }
}

/// A brighter level is never drawn with a glyph that stands earlier on the
/// ramp.
pub proof fn lemma_glyph_index_is_monotone(darker: int, brighter: int, len: int)
    requires
        darker <= brighter,
        len > 0,
    ensures
        0 <= clamped_index(darker, len) <= clamped_index(brighter, len) < len,
{
}

/// Level zero, the level of a ray that met nothing, and every level below it
/// are drawn blank on either ramp.
pub proof fn lemma_dark_is_blank(level: int, use_extended_charset: bool)
    requires
        level <= 0,
    ensures
        glyph_of(level, use_extended_charset) == ' ',
{
}

} // verus!

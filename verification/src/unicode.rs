//! What the pipeline needs to know of a character: its script, its
//! combining class, whether it is a mark, and how it decomposes and composes.
use vstd::prelude::*;
use crate::common::Script;
use crate::tag::Tag;

verus! {

/// The script of a character, as the number of its four-letter code.
pub uninterp spec fn script_code_of(c: char) -> u32;

/// The canonical combining class of a character.
pub uninterp spec fn combining_class_of(c: char) -> u8;

/// Whether the general category of a character is one of the mark categories.
pub uninterp spec fn mark_category_of(c: char) -> bool;

/// The full canonical decomposition of a character.
pub uninterp spec fn decomposition_of(c: char) -> Seq<char>;

/// The character that two characters compose to canonically, if any.
pub uninterp spec fn composition_of(a: char, b: char) -> Option<char>;

/// A number that is a Unicode scalar value: a code point that is no
/// surrogate.
pub open spec fn is_scalar_value(cp: u32) -> bool {
    cp < 0xD800 || 0xE000 <= cp <= 0x10FFFF
}

/// `char::from_u32`: the character with this number, for a scalar value, and
/// `None` for any other number.
#[verifier::external_body]
pub(crate) fn scalar_value(cp: u32) -> (c: Option<char>)
    ensures
        c == (if is_scalar_value(cp) {
            Some(cp as char)
        } else {
            None
        }),
{
    char::from_u32(cp)
}

/// `unicode_script::Script::from(char)`, read through `as_iso15924_tag`:
/// the script property of the character as the big-endian number of its
/// four-letter code. The result depends on the character alone.
#[verifier::external_body]
pub(crate) fn char_script_code(c: char) -> (code: u32)
    ensures
        code == script_code_of(c),
{
    unicode_script::Script::from(c).as_iso15924_tag()
}

/// `unicode_normalization::char::canonical_combining_class`: the combining
/// class that the Unicode character database gives the character.
#[verifier::external_body]
pub(crate) fn char_combining_class(c: char) -> (class: u8)
    ensures
        class == combining_class_of(c),
{
    unicode_normalization::char::canonical_combining_class(c)
}

/// `unicode_normalization::char::is_combining_mark`: whether the character
/// has a general category of mark.
#[verifier::external_body]
pub(crate) fn char_is_mark(c: char) -> (mark: bool)
    ensures
        mark == mark_category_of(c),
{
    unicode_normalization::char::is_combining_mark(c)
}

/// Takes one more part of a decomposition in.
fn take_part(parts: &mut Vec<char>, part: char)
    ensures
        final(parts)@ == old(parts)@.push(part),
{
    parts.push(part);
}

/// `unicode_normalization::char::decompose_canonical`: the characters that it
/// emits for the character, in the order in which it emits them. The result
/// depends on the character alone.
#[verifier::external_body]
pub(crate) fn char_decomposition(c: char) -> (parts: Vec<char>)
    ensures
        parts@ == decomposition_of(c),
{
    let mut parts: Vec<char> = Vec::new();
    unicode_normalization::char::decompose_canonical(c, |part| take_part(&mut parts, part));
    parts
}

/// `unicode_normalization::char::compose`: the canonical composition of two
/// characters, where there is one.
#[verifier::external_body]
pub(crate) fn char_composition(a: char, b: char) -> (composed: Option<char>)
    ensures
        composed == composition_of(a, b),
{
    unicode_normalization::char::compose(a, b)
}

/// The script code of a code point; unknown for a number that is no scalar
/// value.
pub open spec fn script_of(cp: u32) -> u32 {
    if is_scalar_value(cp) {
        script_code_of(cp as char)
    } else {
        crate::tag::SCRIPT_UNKNOWN
    }
}

/// The combining class of a code point; zero for a number that is no scalar
/// value.
pub open spec fn combining_class(cp: u32) -> u8 {
    if is_scalar_value(cp) {
        combining_class_of(cp as char)
    } else {
        0
    }
}

/// Whether a code point is a mark; a number that is no scalar value is none.
pub open spec fn is_mark(cp: u32) -> bool {
    is_scalar_value(cp) && mark_category_of(cp as char)
}

/// The code points of a run of characters.
pub open spec fn code_points(chars: Seq<char>) -> Seq<u32> {
    Seq::new(chars.len(), |i: int| chars[i] as u32)
}

/// The canonical decomposition of a code point; a number that is no scalar
/// value stands for itself.
pub open spec fn decomposition(cp: u32) -> Seq<u32> {
    if is_scalar_value(cp) {
        code_points(decomposition_of(cp as char))
    } else {
        seq![cp]
    }
}

/// The canonical composition of two code points, if both are scalar values
/// and compose.
pub open spec fn composition(a: u32, b: u32) -> Option<u32> {
    if is_scalar_value(a) && is_scalar_value(b) {
        match composition_of(a as char, b as char) {
            Some(c) => Some(c as u32),
            None => None,
        }
    } else {
        None
    }
}

/// The script of a code point.
pub fn script(cp: u32) -> (script: Script)
    ensures
        script.0.0 == script_of(cp),
{
    match scalar_value(cp) {
        Some(c) => Script(Tag(char_script_code(c))),
        None => Script(Tag(crate::tag::SCRIPT_UNKNOWN)),
    }
}

/// The canonical combining class of a code point.
pub fn canonical_combining_class(cp: u32) -> (class: u8)
    ensures
        class == combining_class(cp),
{
    match scalar_value(cp) {
        Some(c) => char_combining_class(c),
        None => 0,
    }
}

/// Whether a code point is a combining mark.
pub fn is_combining_mark(cp: u32) -> (mark: bool)
    ensures
        mark == is_mark(cp),
{
    match scalar_value(cp) {
        Some(c) => char_is_mark(c),
        None => false,
    }
}

/// The full canonical decomposition of a code point.
pub fn decompose(cp: u32) -> (parts: Vec<u32>)
    ensures
        parts@ == decomposition(cp),
{
    match scalar_value(cp) {
        Some(c) => {
            let chars = char_decomposition(c);
            let mut parts: Vec<u32> = Vec::new();
            let mut i: usize = 0;
            while i < chars.len()
                invariant
                    i <= chars.len(),
                    parts@ == code_points(chars@.take(i as int)),
                decreases chars.len() - i,
            {
                parts.push(chars[i] as u32);
                i += 1;
                assert(parts@ =~= code_points(chars@.take(i as int)));
            }
            assert(chars@.take(i as int) =~= chars@);
            parts
        },
        None => {
            let mut parts: Vec<u32> = Vec::new();
            parts.push(cp);
            assert(parts@ =~= seq![cp]);
            parts
        },
    }
}

/// The canonical composition of two code points.
pub fn compose(a: u32, b: u32) -> (composed: Option<u32>)
    ensures
        composed == composition(a, b),
{
    match scalar_value(a) {
        Some(first) => match scalar_value(b) {
            Some(second) => match char_composition(first, second) {
                Some(c) => Some(c as u32),
                None => None,
            },
            None => None,
        },
        None => None,
    }
}

} // verus!

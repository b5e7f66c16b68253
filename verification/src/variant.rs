//! Classification of OpenType feature tags into the variant designators
//! this engine can reverse.

use vstd::prelude::*;

verus! {

/// How a produced glyph relates to its base codepoint.
///
/// `Direct` marks the font's default glyph for a codepoint (no feature
/// applied); `Ssty` the script-style alternate (tag "ssty"); `Math` an
/// alternate drawn from a MATH variant construction (no tag of its own);
/// `CharacterVariant(n)` the feature "cvNN" for n in 1..=99; and
/// `StylisticSet(n)` the feature "ssNN" for n in 1..=20. No other values
/// are constructible.
#[derive(Debug, Clone, Copy, PartialEq, Eq, Structural)]
pub enum Variant {
    Direct,
    Ssty,
    Math,
    CharacterVariant(u16),
    StylisticSet(u16),
}

/// True when `c` is an ASCII decimal digit.
pub open spec fn is_ascii_digit(c: u8) -> bool {
    48 <= c <= 57
}

/// The number written by the two decimal digits `a` then `b`.
pub open spec fn two_digit_value(a: u8, b: u8) -> int {
    (a - 48) * 10 + (b - 48)
}

/// The variant a 4-byte feature tag designates, if any.
///
/// "ssty" maps to `Ssty`; "cv01".."cv99" to `CharacterVariant(1..=99)`;
/// "ss01".."ss20" to `StylisticSet(1..=20)`, decimal suffixes with leading
/// zeros permitted. "cv00", "ss00", suffixes out of range or not numeric,
/// and every other prefix are unsupported and map to `None`.
pub open spec fn spec_tag_variant(t: Seq<u8>) -> Option<Variant>
    recommends
        t.len() == 4,
{
    if t.len() == 4 && t[0] == 115 && t[1] == 115 && t[2] == 116 && t[3] == 121 {
        Some(Variant::Ssty)
    } else if t.len() == 4 && t[0] == 99 && t[1] == 118 && is_ascii_digit(t[2]) && is_ascii_digit(
        t[3],
    ) && 1 <= two_digit_value(t[2], t[3]) <= 99 {
        Some(Variant::CharacterVariant(two_digit_value(t[2], t[3]) as u16))
    } else if t.len() == 4 && t[0] == 115 && t[1] == 115 && is_ascii_digit(t[2]) && is_ascii_digit(
        t[3],
    ) && 1 <= two_digit_value(t[2], t[3]) <= 20 {
        Some(Variant::StylisticSet(two_digit_value(t[2], t[3]) as u16))
    } else {
        None
    }
}

/// Classify a 4-byte feature tag, exactly as `spec_tag_variant` states.
pub fn get_tag_variant(tag: &[u8; 4]) -> (r: Option<Variant>)
    ensures
        r == spec_tag_variant(tag@),
{
    if tag[0] == 115 && tag[1] == 115 && tag[2] == 116 && tag[3] == 121 {
        Some(Variant::Ssty)
    } else if tag[0] == 99 && tag[1] == 118 && 48 <= tag[2] && tag[2] <= 57 && 48 <= tag[3]
        && tag[3] <= 57 {
        let n: u16 = (tag[2] - 48) as u16 * 10 + (tag[3] - 48) as u16;
        if 1 <= n && n <= 99 {
            Some(Variant::CharacterVariant(n))
        } else {
            None
        }
    } else if tag[0] == 115 && tag[1] == 115 && 48 <= tag[2] && tag[2] <= 57 && 48 <= tag[3]
        && tag[3] <= 57 {
        let n: u16 = (tag[2] - 48) as u16 * 10 + (tag[3] - 48) as u16;
        if 1 <= n && n <= 20 {
            Some(Variant::StylisticSet(n))
        } else {
            None
        }
    } else {
        None
    }
}

/// Over all two-digit suffixes: every "cv" tag with value 1..=99 is
/// supported and yields that value, every "ss" tag with value 1..=20
/// likewise, and the value 0 (and, for "ss", values above 20) is
/// unsupported.
pub proof fn lemma_tag_ranges(a: u8, b: u8)
    requires
        is_ascii_digit(a),
        is_ascii_digit(b),
    ensures
        1 <= two_digit_value(a, b) <= 99 ==> spec_tag_variant(seq![99u8, 118u8, a, b])
            == Some(Variant::CharacterVariant(two_digit_value(a, b) as u16)),
        two_digit_value(a, b) == 0 ==> spec_tag_variant(seq![99u8, 118u8, a, b]) is None,
        1 <= two_digit_value(a, b) <= 20 ==> spec_tag_variant(seq![115u8, 115u8, a, b])
            == Some(Variant::StylisticSet(two_digit_value(a, b) as u16)),
        two_digit_value(a, b) == 0 || two_digit_value(a, b) > 20 ==> spec_tag_variant(
            seq![115u8, 115u8, a, b],
        ) is None,
{
}

} // verus!

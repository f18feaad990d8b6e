use vstd::prelude::*;

verus! {

/// A character occupies a wide display cell when it lies in the CJK
/// unified ideograph block (U+4E00..U+9FFF) or in extension A
/// (U+3400..U+4DBF); every other character occupies a thin cell.
pub open spec fn is_wide_char_spec(c: char) -> bool {
    (0x4E00 <= c as u32 && c as u32 <= 0x9FFF) || (0x3400 <= c as u32 && c as u32 <= 0x4DBF)
}

/// Classify a character as wide (CJK) or thin for cell layout.
pub fn is_wide_char(c: char) -> (wide: bool)
    ensures
        wide == is_wide_char_spec(c),
{
    let u = c as u32;
    (0x4E00 <= u && u <= 0x9FFF) || (0x3400 <= u && u <= 0x4DBF)
}

} // verus!

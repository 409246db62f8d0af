use vstd::prelude::*;

verus! {

/// Index of the part that a point of space belongs to; 0 means no part.
pub type PartIndex = u32;

/// The display colour of the model with index `m_index`: models whose index
/// has 1 to 8 ten-thousands get a fixed colour per ten-thousand, the others
/// a colour scrambled from the index with its high bit of each channel set.
pub open spec fn model_color_spec(m_index: u32) -> u32 {
    let group = m_index / 10000;
    if group == 1 {
        0x00FF00
    } else if group == 2 {
        0xFF2000
    } else if group == 3 {
        0xEEEEEE
    } else if group == 4 {
        0x0080FF
    } else if group == 5 {
        0xFF8000
    } else if group == 6 {
        0xFFFF00
    } else if group == 7 {
        0xFF00FF
    } else if group == 8 {
        0xFF80FF
    } else {
        (((m_index as nat + 1) * 0x274381) % 0x1_0000_0000) as u32 | 0x808080u32
    }
}

/// Colour in which the viewer draws the model of part `m_index`.
pub fn model_color(m_index: PartIndex) -> (r: u32)
    requires
        m_index < u32::MAX,
    ensures
        r == model_color_spec(m_index),
{
    match m_index / 10000 {
        1 => 0x00FF00,
        2 => 0xFF2000,
        3 => 0xEEEEEE,
        4 => 0x0080FF,
        5 => 0xFF8000,
        6 => 0xFFFF00,
        7 => 0xFF00FF,
        8 => 0xFF80FF,
        _ => (m_index + 1).wrapping_mul(0x274381) | 0x808080,
    }
}


/// Colours outside the fixed palette are light: the high bit of each of
/// their red, green and blue channels is set.
pub proof fn lemma_scrambled_colors_are_light(m_index: u32)
    requires
        !(1 <= m_index / 10000 <= 8),
    ensures
        model_color_spec(m_index) & 0x808080u32 == 0x808080u32,
{
    let x = (((m_index as nat + 1) * 0x274381) % 0x1_0000_0000) as u32;
    assert((x | 0x808080u32) & 0x808080u32 == 0x808080u32) by (bit_vector);
}

} // verus!

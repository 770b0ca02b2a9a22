use vstd::prelude::*;

verus! {

/// One glyph of the built-in font: a hexadecimal digit and its five rows.
/// Each row byte uses its four most significant bits.
pub struct Character {
    pub glyph: char,
    pub bitmap: [u8; 5],
}

impl Character {
    pub fn new(glyph: char, bitmap: [u8; 5]) -> (r: Self)
        ensures
            r.glyph == glyph,
            r.bitmap == bitmap,
    {
        Character { glyph, bitmap }
    }
}

/// The five rows of the glyph of hexadecimal digit `d`.
pub open spec fn glyph_rows(d: int) -> Seq<u8> {
    if d == 0 {
        seq![0xf0, 0x90, 0x90, 0x90, 0xf0]
    } else if d == 1 {
        seq![0x20, 0x60, 0x20, 0x20, 0x70]
    } else if d == 2 {
        seq![0xf0, 0x10, 0xf0, 0x80, 0xf0]
    } else if d == 3 {
        seq![0xf0, 0x10, 0xf0, 0x10, 0xf0]
    } else if d == 4 {
        seq![0x90, 0x90, 0xf0, 0x10, 0x10]
    } else if d == 5 {
        seq![0xf0, 0x80, 0xf0, 0x10, 0xf0]
    } else if d == 6 {
        seq![0xf0, 0x80, 0xf0, 0x90, 0xf0]
    } else if d == 7 {
        seq![0xf0, 0x10, 0x20, 0x40, 0x40]
    } else if d == 8 {
        seq![0xf0, 0x90, 0xf0, 0x90, 0xf0]
    } else if d == 9 {
        seq![0xf0, 0x90, 0xf0, 0x10, 0xf0]
    } else if d == 10 {
        seq![0xf0, 0x90, 0xf0, 0x90, 0x90]
    } else if d == 11 {
        seq![0xe0, 0x90, 0xe0, 0x90, 0xe0]
    } else if d == 12 {
        seq![0xf0, 0x80, 0x80, 0x80, 0xf0]
    } else if d == 13 {
        seq![0xe0, 0x90, 0x90, 0x90, 0xe0]
    } else if d == 14 {
        seq![0xf0, 0x80, 0xf0, 0x80, 0xf0]
    } else {
        seq![0xf0, 0x80, 0xf0, 0x80, 0x80]
    }
}

/// The upper-case hexadecimal digit for `d` in `0..16`.
pub open spec fn hex_digit(d: int) -> char {
    if d < 10 {
        (('0' as int) + d) as char
    } else {
        (('A' as int) + d - 10) as char
    }
}

/// Byte `a` of the font as it lies in memory: glyph after glyph, five bytes each.
pub open spec fn font_byte(a: int) -> u8 {
    glyph_rows(a / 5)[a % 5]
}

/// The sixteen glyphs of the font, in the order of their digits.
pub fn font_characters() -> (r: Vec<Character>)
    ensures
        r@.len() == 16,
        forall|d: int| 0 <= d < 16 ==> #[trigger] r@[d].bitmap@ == glyph_rows(d),
        forall|d: int| 0 <= d < 16 ==> #[trigger] r@[d].glyph == hex_digit(d),
{
    let r = vec![
        Character::new('0', [0xf0, 0x90, 0x90, 0x90, 0xf0]),
        Character::new('1', [0x20, 0x60, 0x20, 0x20, 0x70]),
        Character::new('2', [0xf0, 0x10, 0xf0, 0x80, 0xf0]),
        Character::new('3', [0xf0, 0x10, 0xf0, 0x10, 0xf0]),
        Character::new('4', [0x90, 0x90, 0xf0, 0x10, 0x10]),
        Character::new('5', [0xf0, 0x80, 0xf0, 0x10, 0xf0]),
        Character::new('6', [0xf0, 0x80, 0xf0, 0x90, 0xf0]),
        Character::new('7', [0xf0, 0x10, 0x20, 0x40, 0x40]),
        Character::new('8', [0xf0, 0x90, 0xf0, 0x90, 0xf0]),
        Character::new('9', [0xf0, 0x90, 0xf0, 0x10, 0xf0]),
        Character::new('A', [0xf0, 0x90, 0xf0, 0x90, 0x90]),
        Character::new('B', [0xe0, 0x90, 0xe0, 0x90, 0xe0]),
        Character::new('C', [0xf0, 0x80, 0x80, 0x80, 0xf0]),
        Character::new('D', [0xe0, 0x90, 0x90, 0x90, 0xe0]),
        Character::new('E', [0xf0, 0x80, 0xf0, 0x80, 0xf0]),
        Character::new('F', [0xf0, 0x80, 0xf0, 0x80, 0x80]),
    ];
    assert forall|d: int| 0 <= d < 16 implies #[trigger] r@[d].bitmap@ == glyph_rows(d)
        && r@[d].glyph == hex_digit(d) by {
        assert(r@[d].bitmap@ =~= glyph_rows(d));
    }
    r
}

} // verus!

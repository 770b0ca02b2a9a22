use chip8::{font_characters, Character};

fn print_character(character: &Character) {
    println!("Printing character {}", character.glyph);
    let rows: Vec<String> = character
        .bitmap
        .iter()
        .map(|line_byte| {
            let mut line = String::with_capacity(4);
            for shift in (4..=7).rev() {
                line.push(if line_byte & (1 << shift) != 0 { 'X' } else { ' ' });
            }
            line
        })
        .collect();
    println!("{}\n", rows.join("\n"));
}

#[test]
fn test_characters() {
    for character in font_characters().iter() {
        print_character(character);
    }
}

#[test]
fn font_has_sixteen_hex_glyphs() {
    let characters = font_characters();
    assert_eq!(characters.len(), 16);
    let digits = "0123456789ABCDEF";
    for (character, digit) in characters.iter().zip(digits.chars()) {
        assert_eq!(character.glyph, digit);
        for row in character.bitmap.iter() {
            assert_eq!(row & 0x0F, 0);
        }
    }
    assert_eq!(characters[0].bitmap, [0xf0, 0x90, 0x90, 0x90, 0xf0]);
    assert_eq!(characters[15].bitmap, [0xf0, 0x80, 0xf0, 0x80, 0x80]);
}

#[test]
fn character_new_keeps_fields() {
    let c = Character::new('7', [1, 2, 3, 4, 5]);
    assert_eq!(c.glyph, '7');
    assert_eq!(c.bitmap, [1, 2, 3, 4, 5]);
}

use chip8::{keypad_key, Audio, BeepCommand, Display, DisplayError};

#[test]
fn display_draw_xors_and_refuses_out_of_bounds() {
    let mut d = Display::new();
    assert_eq!(d.draw(vec![0x81], 56, 0), Ok(()));
    assert!(d.pixel(0, 56) && d.pixel(0, 63) && !d.pixel(0, 57));
    assert_eq!(d.draw(vec![0x80], 56, 0), Ok(()));
    assert!(!d.pixel(0, 56) && d.pixel(0, 63));
    assert_eq!(d.draw(vec![0xFF], 57, 0), Err(DisplayError::OutOfBounds));
    assert_eq!(d.draw(vec![0xFF, 0xFF], 0, 31), Err(DisplayError::OutOfBounds));
    assert!(d.pixel(0, 63));
    d.clear();
    assert!(!d.pixel(0, 63));
}

#[test]
fn audio_starts_and_stops_the_tone() {
    let mut a = Audio::new(2);
    assert_eq!(a.update(false), BeepCommand::Play);
    assert_eq!(a.sound_timer, 1);
    assert_eq!(a.update(true), BeepCommand::Keep);
    assert_eq!(a.sound_timer, 0);
    assert_eq!(a.update(true), BeepCommand::Stop);
    assert_eq!(a.sound_timer, 0);
    assert_eq!(a.update(false), BeepCommand::Keep);
}

#[test]
fn keyboard_layout() {
    assert_eq!(keypad_key('1'), Some(0x1));
    assert_eq!(keypad_key('4'), Some(0xC));
    assert_eq!(keypad_key('x'), Some(0x0));
    assert_eq!(keypad_key('v'), Some(0xF));
    assert_eq!(keypad_key('p'), None);
}

use chip8::keypad::KEYMAP;
use chip8::Keycode;

#[test]
fn keys_map_to_their_table_positions() {
    assert_eq!(Keycode::Num1.index(), 0);
    assert_eq!(Keycode::Num2.index(), 1);
    assert_eq!(Keycode::Num3.index(), 2);
    assert_eq!(Keycode::Num4.index(), 3);
    assert_eq!(Keycode::Num5.index(), 4);
    assert_eq!(Keycode::Num6.index(), 5);
    assert_eq!(Keycode::Num7.index(), 6);
    assert_eq!(Keycode::Num8.index(), 7);
    assert_eq!(Keycode::Num9.index(), 8);
    assert_eq!(Keycode::Num0.index(), 9);
    assert_eq!(Keycode::A.index(), 10);
    assert_eq!(Keycode::B.index(), 11);
    assert_eq!(Keycode::C.index(), 12);
    assert_eq!(Keycode::D.index(), 13);
    assert_eq!(Keycode::E.index(), 14);
    assert_eq!(Keycode::F.index(), 15);
}

#[test]
fn key_mapping_is_a_bijection() {
    for (position, keycode) in KEYMAP.iter().enumerate() {
        assert_eq!(keycode.index() as usize, position);
        assert_eq!(KEYMAP[keycode.index() as usize], *keycode);
    }
}

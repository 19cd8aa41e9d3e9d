use raxis::runtime::vkey::VKey;

#[test]
fn letters_digits_and_named_keys_have_their_codes() {
    assert_eq!(VKey::try_from(0x41), Ok(VKey::A));
    assert_eq!(VKey::try_from(0x5A), Ok(VKey::Z));
    assert_eq!(VKey::try_from(0x30), Ok(VKey::N0));
    assert_eq!(VKey::try_from(0x1B), Ok(VKey::ESCAPE));
    assert_eq!(VKey::try_from(0x0D), Ok(VKey::RETURN));
    assert_eq!(VKey::try_from(0x25), Ok(VKey::LEFT));
    assert_eq!(VKey::try_from(0x70), Ok(VKey::F1));
    assert_eq!(VKey::try_from(0xC3), Ok(VKey::GAMEPAD_A));
    assert_eq!(VKey::try_from(0xFE), Ok(VKey::OEM_CLEAR));
}

#[test]
fn codes_without_a_key_are_rejected() {
    assert_eq!(VKey::try_from(0x00), Err(()));
    assert_eq!(VKey::try_from(0x07), Err(()));
    assert_eq!(VKey::try_from(0x15), Err(()));
    assert_eq!(VKey::try_from(0x100), Err(()));
    assert_eq!(VKey::try_from(-1), Err(()));
    assert_eq!(VKey::from_code(0x3A), None);
}

#[test]
fn key_codes_round_trip() {
    for key in [VKey::LBUTTON, VKey::SPACE, VKey::DELETE, VKey::NUMPAD9, VKey::F24, VKey::VOLUME_UP, VKey::OEM_102, VKey::Q] {
        assert_eq!(VKey::try_from(key.code()), Ok(key));
        assert_eq!(VKey::from_code(key.code()), Some(key));
    }
    assert_eq!(VKey::SPACE.code(), 0x20);
    assert_eq!(VKey::LWIN.code(), 0x5B);
}

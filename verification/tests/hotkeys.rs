use info_display::hotkeys::{key_action, KeyAction};

#[test]
fn volume_keys_show_the_volume() {
    assert_eq!(key_action(174), KeyAction::ShowMedia { mode: 1 });
    assert_eq!(key_action(175), KeyAction::ShowMedia { mode: 1 });
}

#[test]
fn transport_keys_show_the_track() {
    for code in 176..=179 {
        assert_eq!(key_action(code), KeyAction::ShowMedia { mode: 0 });
    }
}

#[test]
fn pause_key_goes_to_the_next_screen() {
    assert_eq!(key_action(180), KeyAction::NextScreen);
}

#[test]
fn other_keys_are_ignored() {
    for code in [0u32, 1, 173, 181, 255, u32::MAX] {
        assert_eq!(key_action(code), KeyAction::Ignore);
    }
}

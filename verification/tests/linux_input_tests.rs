use mykvm_core::linux_input::ks;
use mykvm_core::linux_input::{
    injector_warning_due, inject_key, inject_mouse_button, inject_mouse_move, inject_scroll,
    keymap_is_fresh, keysym_to_windows_vk, pressed_keycodes, release_all_injected,
    windows_vk_to_keysym, x11_button, InjectionState, Keymap, XRequest,
};
use mykvm_core::packet::MouseButton;

#[test]
fn letters_and_digits_round_trip() {
    for c in b'a'..=b'z' {
        let sym = c as u32;
        assert_eq!(keysym_to_windows_vk(sym), Some((c - 0x20) as u16));
        assert_eq!(keysym_to_windows_vk(sym - 0x20), Some((c - 0x20) as u16));
        assert_eq!(windows_vk_to_keysym((c - 0x20) as u16), Some(sym));
    }
    for c in b'0'..=b'9' {
        let sym = c as u32;
        assert_eq!(keysym_to_windows_vk(sym), Some(c as u16));
        assert_eq!(windows_vk_to_keysym(c as u16), Some(sym));
    }
}

#[test]
fn shifted_punctuation_lands_on_base_vk() {
    // Shift+1 produces '!' — must map to VK 1, never to a shift of its own.
    assert_eq!(keysym_to_windows_vk(0x21), Some(0x31)); // !
    assert_eq!(keysym_to_windows_vk(0x40), Some(0x32)); // @
    assert_eq!(keysym_to_windows_vk(0x3A), Some(0xBA)); // :
    assert_eq!(keysym_to_windows_vk(0x3B), Some(0xBA)); // ;
    assert_eq!(keysym_to_windows_vk(0x7E), Some(0xC0)); // ~
    assert_eq!(keysym_to_windows_vk(0x60), Some(0xC0)); // `
    // And injection of the OEM VK returns the unshifted base keysym.
    assert_eq!(windows_vk_to_keysym(0xBA), Some(0x3B));
    assert_eq!(windows_vk_to_keysym(0xC0), Some(0x60));
    assert_eq!(windows_vk_to_keysym(0xDE), Some(0x27));
    assert_eq!(windows_vk_to_keysym(0xDC), Some(0x5C));
}

#[test]
fn modifiers_keep_left_right_distinction() {
    assert_eq!(keysym_to_windows_vk(ks::SHIFT_L), Some(0xA0));
    assert_eq!(keysym_to_windows_vk(ks::SHIFT_R), Some(0xA1));
    assert_eq!(keysym_to_windows_vk(ks::CONTROL_L), Some(0xA2));
    assert_eq!(keysym_to_windows_vk(ks::CONTROL_R), Some(0xA3));
    assert_eq!(keysym_to_windows_vk(ks::ALT_L), Some(0xA4));
    assert_eq!(keysym_to_windows_vk(ks::ALT_R), Some(0xA5));
    assert_eq!(keysym_to_windows_vk(ks::SUPER_L), Some(0x5B));
    assert_eq!(keysym_to_windows_vk(ks::SUPER_R), Some(0x5C));
    // Generic VKs fall back to the left keysym for injection.
    assert_eq!(windows_vk_to_keysym(0x10), Some(ks::SHIFT_L));
    assert_eq!(windows_vk_to_keysym(0x11), Some(ks::CONTROL_L));
    assert_eq!(windows_vk_to_keysym(0x12), Some(ks::ALT_L));
    assert_eq!(windows_vk_to_keysym(0xA0), Some(ks::SHIFT_L));
    assert_eq!(windows_vk_to_keysym(0xA1), Some(ks::SHIFT_R));
    assert_eq!(windows_vk_to_keysym(0x5B), Some(ks::SUPER_L));
    assert_eq!(windows_vk_to_keysym(0x5C), Some(ks::SUPER_R));
}

#[test]
fn navigation_and_function_keys() {
    assert_eq!(keysym_to_windows_vk(ks::HOME), Some(0x24));
    assert_eq!(keysym_to_windows_vk(ks::END), Some(0x23));
    assert_eq!(keysym_to_windows_vk(ks::PAGE_UP), Some(0x21));
    assert_eq!(keysym_to_windows_vk(ks::DELETE), Some(0x2E));
    assert_eq!(keysym_to_windows_vk(ks::RETURN), Some(0x0D));
    assert_eq!(keysym_to_windows_vk(ks::TAB), Some(0x09));
    for f in 1..=24u16 {
        let sym = 0xFFBE + f as u32 - 1;
        assert_eq!(keysym_to_windows_vk(sym), Some(0x70 + f - 1));
        assert_eq!(windows_vk_to_keysym(0x70 + f - 1), Some(sym));
    }
}

#[test]
fn keypad_maps_both_ways() {
    for i in 0..=9u16 {
        assert_eq!(keysym_to_windows_vk(0xFFB0 + i as u32), Some(0x60 + i));
        assert_eq!(windows_vk_to_keysym(0x60 + i), Some(0xFFB0 + i as u32));
    }
    assert_eq!(keysym_to_windows_vk(ks::KP_DECIMAL), Some(0x6E));
    assert_eq!(keysym_to_windows_vk(ks::KP_DIVIDE), Some(0x6F));
    assert_eq!(keysym_to_windows_vk(ks::KP_ENTER), Some(0x0D));
    // NumLock-off navigation from the keypad.
    assert_eq!(keysym_to_windows_vk(ks::KP_HOME), Some(0x24));
    assert_eq!(keysym_to_windows_vk(ks::KP_LEFT), Some(0x25));
    assert_eq!(keysym_to_windows_vk(ks::KP_BEGIN), Some(0x0C));
    assert_eq!(keysym_to_windows_vk(ks::KP_DELETE), Some(0x2E));
}

#[test]
fn unmapped_keys_return_none() {
    // Media keys have no VK counterpart in the wire protocol.
    assert_eq!(keysym_to_windows_vk(0x1008FF13), None); // XF86AudioRaiseVolume
    assert_eq!(windows_vk_to_keysym(0xAE), None); // VK_VOLUME_MUTE-ish range
    assert_eq!(windows_vk_to_keysym(0xB0), None);
    // Dead keys are dropped on capture (documented limitation).
    assert_eq!(keysym_to_windows_vk(0xFE51), None); // dead_acute
}

#[test]
fn every_vk_with_a_keysym_comes_back_to_its_key() {
    for vk in 0..=0xFFFFu16 {
        if let Some(sym) = windows_vk_to_keysym(vk) {
            let back = keysym_to_windows_vk(sym).expect("a keysym we inject is one we capture");
            // The generic modifiers come back as their left-hand key.
            let expected = match vk {
                0x10 => 0xA0,
                0x11 => 0xA2,
                0x12 => 0xA4,
                other => other,
            };
            assert_eq!(back, expected, "vk {vk:#x}");
        }
    }
}

#[test]
fn tab_variants_and_print_keys_share_a_vk() {
    assert_eq!(keysym_to_windows_vk(ks::ISO_LEFT_TAB), Some(0x09));
    assert_eq!(keysym_to_windows_vk(ks::PRINT), Some(0x2C));
    assert_eq!(keysym_to_windows_vk(ks::SYS_REQ), Some(0x2C));
    assert_eq!(keysym_to_windows_vk(ks::META_L), Some(0x5B));
    assert_eq!(keysym_to_windows_vk(0x20), Some(0x20));
    assert_eq!(windows_vk_to_keysym(0x20), Some(0x20));
    assert_eq!(windows_vk_to_keysym(0x14), Some(ks::CAPS_LOCK));
}

fn sample_keymap() -> Keymap {
    // Keycodes 8..=11, two keysyms each.
    Keymap::new(8, 2, vec![0x61, 0x41, 0x31, 0x21, 0, 0xff0d, 0, 0])
}

#[test]
fn effective_keysym_follows_shift_and_caps_lock() {
    let map = sample_keymap();
    assert_eq!(map.row_count(), 4);
    assert_eq!(map.effective_keysym(8, 0), 0x61);
    assert_eq!(map.effective_keysym(8, 1), 0x41);
    // Caps Lock shifts letters only.
    assert_eq!(map.effective_keysym(8, 2), 0x41);
    assert_eq!(map.effective_keysym(9, 2), 0x31);
    assert_eq!(map.effective_keysym(9, 1), 0x21);
    // An empty level falls back to the first mapped one.
    assert_eq!(map.effective_keysym(10, 0), 0xff0d);
    assert_eq!(map.effective_keysym(11, 0), 0);
    // Outside the mapping.
    assert_eq!(map.effective_keysym(7, 0), 0);
    assert_eq!(map.effective_keysym(12, 0), 0);
}

#[test]
fn keycode_for_keysym_scans_every_level() {
    let map = sample_keymap();
    assert_eq!(map.keycode_for_keysym(0x61), Some(8));
    assert_eq!(map.keycode_for_keysym(0x21), Some(9));
    assert_eq!(map.keycode_for_keysym(0xff0d), Some(10));
    assert_eq!(map.keycode_for_keysym(0x7a), None);
    // A zero keysyms-per-keycode is read as one.
    let single = Keymap::new(250, 0, vec![1, 2, 3, 4, 5, 6, 7, 8]);
    assert_eq!(single.keycode_for_keysym(5), Some(254));
    assert_eq!(single.keycode_for_keysym(6), Some(255));
    assert_eq!(single.keycode_for_keysym(7), None);
}

#[test]
fn pressed_keycodes_reads_the_bitmap_within_range() {
    let mut keys = vec![0u8; 32];
    keys[1] = 0b0000_0101; // keycodes 8 and 10
    keys[31] = 0b1000_0000; // keycode 255
    keys[0] = 0b0000_0001; // keycode 0, below the range
    assert_eq!(pressed_keycodes(&keys, 8, 255), vec![8, 10, 255]);
    assert_eq!(pressed_keycodes(&keys, 9, 254), vec![10]);
    assert_eq!(pressed_keycodes(&keys, 0, 255), vec![0, 8, 10, 255]);
}

#[test]
fn motion_is_clamped_to_sixteen_bits() {
    assert_eq!(inject_mouse_move(10, -20, None), vec![XRequest::Motion { x: 10, y: -20 }]);
    assert_eq!(
        inject_mouse_move(100_000, -100_000, Some(MouseButton::Left)),
        vec![XRequest::Motion { x: 32767, y: -32768 }]
    );
}

#[test]
fn mouse_buttons_move_first_and_are_tracked() {
    let mut state = InjectionState::new();
    assert_eq!(x11_button(MouseButton::Forward), 9);
    assert_eq!(
        inject_mouse_button(&mut state, MouseButton::Right, true, 5, 6),
        vec![
            XRequest::Motion { x: 5, y: 6 },
            XRequest::Button { button: 3, down: true },
        ]
    );
    assert_eq!(
        inject_mouse_button(&mut state, MouseButton::Forward, true, 0, 0),
        vec![XRequest::Button { button: 9, down: true }]
    );
    assert_eq!(
        inject_mouse_button(&mut state, MouseButton::Right, false, 0, 0),
        vec![XRequest::Button { button: 3, down: false }]
    );
    // Only the forward button is still held.
    assert_eq!(
        release_all_injected(&mut state),
        vec![XRequest::Button { button: 9, down: false }]
    );
    assert!(release_all_injected(&mut state).is_empty());
}

#[test]
fn scrolling_clicks_the_wheel_buttons() {
    assert_eq!(
        inject_scroll(-1, 2),
        vec![
            XRequest::Button { button: 4, down: true },
            XRequest::Button { button: 4, down: false },
            XRequest::Button { button: 4, down: true },
            XRequest::Button { button: 4, down: false },
            XRequest::Button { button: 6, down: true },
            XRequest::Button { button: 6, down: false },
        ]
    );
    assert_eq!(
        inject_scroll(1, -1),
        vec![
            XRequest::Button { button: 5, down: true },
            XRequest::Button { button: 5, down: false },
            XRequest::Button { button: 7, down: true },
            XRequest::Button { button: 7, down: false },
        ]
    );
    assert!(inject_scroll(0, 0).is_empty());
}

#[test]
fn release_all_lets_go_of_keys_newest_first() {
    let mut state = InjectionState::new();
    assert_eq!(
        inject_key(&mut state, 0xA0, true),
        vec![XRequest::Key { keysym: ks::SHIFT_L, down: true }]
    );
    inject_key(&mut state, 0x41, true);
    inject_key(&mut state, 0x41, true);
    inject_key(&mut state, 0x31, true);
    inject_key(&mut state, 0x31, false);
    // No keysym: dropped and not tracked.
    assert!(inject_key(&mut state, 0xAE, true).is_empty());
    inject_mouse_button(&mut state, MouseButton::Left, true, 0, 0);
    assert_eq!(
        release_all_injected(&mut state),
        vec![
            XRequest::Key { keysym: 0x61, down: false },
            XRequest::Key { keysym: ks::SHIFT_L, down: false },
            XRequest::Button { button: 1, down: false },
        ]
    );
    assert!(release_all_injected(&mut state).is_empty());
}

#[test]
fn keymap_and_warning_timers() {
    assert!(keymap_is_fresh(10_000, 10_999));
    assert!(!keymap_is_fresh(10_000, 11_000));
    assert!(keymap_is_fresh(10_000, 9_000));
    assert!(injector_warning_due(None, 0));
    assert!(!injector_warning_due(Some(50_000), 59_999));
    assert!(injector_warning_due(Some(50_000), 60_000));
    assert!(!injector_warning_due(Some(50_000), 40_000));
}

#[test]
fn every_shifted_punctuation_key_shares_the_vk_of_its_base() {
    let pairs: [(u32, u32); 21] = [
        (0x21, 0x31), (0x40, 0x32), (0x23, 0x33), (0x24, 0x34), (0x25, 0x35), (0x5E, 0x36),
        (0x26, 0x37), (0x2A, 0x38), (0x28, 0x39), (0x29, 0x30), (0x3A, 0x3B), (0x2B, 0x3D),
        (0x3C, 0x2C), (0x5F, 0x2D), (0x3E, 0x2E), (0x3F, 0x2F), (0x7E, 0x60), (0x7B, 0x5B),
        (0x7C, 0x5C), (0x7D, 0x5D), (0x22, 0x27),
    ];
    for (shifted, base) in pairs {
        let vk = keysym_to_windows_vk(shifted).expect("mapped");
        assert_eq!(keysym_to_windows_vk(base), Some(vk));
        assert_eq!(windows_vk_to_keysym(vk), Some(base));
    }
}

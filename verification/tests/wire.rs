use kando_cosmic_helper::wire;
use kando_cosmic_helper::wire::WindowState;

#[test]
fn seat_flags_tell_the_devices() {
    assert_eq!(wire::seat_devices(0), Some((false, false)));
    assert_eq!(wire::seat_devices(1), Some((true, false)));
    assert_eq!(wire::seat_devices(2), Some((false, false)));
    assert_eq!(wire::seat_devices(4), Some((false, true)));
    assert_eq!(wire::seat_devices(7), Some((true, true)));
    assert_eq!(wire::seat_devices(8), None);
    assert_eq!(wire::seat_devices(9), None);
}

#[test]
fn group_flags_with_unknown_bits_count_as_none() {
    assert!(wire::can_create_workspace(1));
    assert!(!wire::can_create_workspace(0));
    assert!(!wire::can_create_workspace(3));
}

#[test]
fn workspace_flags_tell_the_active_one() {
    assert!(wire::is_active(1));
    assert!(wire::is_active(5));
    assert!(!wire::is_active(2));
    assert!(!wire::is_active(9));
}

#[test]
fn cosmic_flags_with_unknown_bits_count_as_none() {
    assert_eq!(wire::cosmic_requests(0), 0);
    assert_eq!(wire::cosmic_requests(7), 7);
    assert_eq!(wire::cosmic_requests(8), 0);
    assert_eq!(wire::cosmic_requests(9), 0);
    assert_eq!(wire::cosmic_state(1), 1);
    assert_eq!(wire::cosmic_state(0), 0);
    assert_eq!(wire::cosmic_state(3), 0);
}

#[test]
fn words_are_read_in_the_byte_order_of_the_machine() {
    let mut raw: Vec<u8> = Vec::new();
    raw.extend_from_slice(&0x0102_0304u32.to_ne_bytes());
    raw.extend_from_slice(&7u32.to_ne_bytes());
    raw.push(9);
    assert_eq!(wire::words(&raw), vec![0x0102_0304, 7]);
    assert!(wire::words(&vec![1, 2, 3]).is_empty());
}

#[test]
fn words_are_read_in_either_byte_order() {
    let raw = vec![1, 2, 3, 4, 255, 255, 255, 255, 9];
    assert_eq!(wire::words_in(&raw, true), vec![0x0403_0201, u32::MAX]);
    assert_eq!(wire::words_in(&raw, false), vec![0x0102_0304, u32::MAX]);
}

#[test]
fn states_of_windows_have_the_numbers_of_the_protocol() {
    let all = [
        (WindowState::Maximized, 0),
        (WindowState::Minimized, 1),
        (WindowState::Activated, 2),
        (WindowState::Fullscreen, 3),
        (WindowState::Sticky, 4),
    ];
    for (state, code) in all {
        assert!(wire::has_state(&vec![90, code], state));
        assert!(!wire::has_state(&vec![90, code + 5], state));
    }
    assert!(!wire::has_state(&vec![], WindowState::Activated));
}

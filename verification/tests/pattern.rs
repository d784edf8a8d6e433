use game_tweaks::pattern::{
    is_editor_update, is_property_write, EDITOR_UPDATE_LEN, PROPERTY_WRITE_LEN,
};

const EDITOR_UPDATE: [u8; EDITOR_UPDATE_LEN] = [
    0x48, 0x89, 0x5c, 0x24, 0x08, 0x48, 0x89, 0x74, 0x24, 0x10, 0x48, 0x89, 0x7c, 0x24, 0x18, 0x55,
    0x41, 0x54, 0x41, 0x55, 0x41, 0x56, 0x41, 0x57, 0x48, 0x8b, 0xec, 0x48, 0x83, 0xec, 0x70, 0x4c,
    0x8b, 0xf1, 0x33, 0xff, 0x89, 0x7d, 0xf0, 0x48, 0x39, 0xb9, 0xb8, 0x01, 0x02, 0x03,
];

const OPEN: [usize; 5] = [30, 38, 43, 44, 45];

const PROPERTY_WRITE: [u8; PROPERTY_WRITE_LEN] = [0xf3, 0x0f, 0x11, 0x10, 0x48, 0x83, 0xc4, 0x30];

#[test]
fn the_editor_update_is_recognised() {
    assert!(is_editor_update(&EDITOR_UPDATE));
}

#[test]
fn only_open_bytes_of_the_editor_update_may_change() {
    for i in 0..EDITOR_UPDATE_LEN {
        let mut bytes = EDITOR_UPDATE;
        bytes[i] ^= 0x5a;
        assert_eq!(is_editor_update(&bytes), OPEN.contains(&i), "byte {i}");
    }
}

#[test]
fn the_property_write_is_recognised() {
    assert!(is_property_write(&PROPERTY_WRITE));
    for i in 0..PROPERTY_WRITE_LEN {
        let mut bytes = PROPERTY_WRITE;
        bytes[i] ^= 0x5a;
        assert!(!is_property_write(&bytes), "byte {i}");
    }
}

#[test]
fn other_lengths_do_not_match() {
    assert!(!is_editor_update(&[]));
    assert!(!is_editor_update(&EDITOR_UPDATE[..EDITOR_UPDATE_LEN - 1]));
    assert!(!is_property_write(&PROPERTY_WRITE[1..]));
    let mut longer = PROPERTY_WRITE.to_vec();
    longer.push(0);
    assert!(!is_property_write(&longer));
}

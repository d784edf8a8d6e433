use game_tweaks::capture::{table_update, CaptureTable, BURST_MS, MAX_PROPS};

fn table(arrivals: &[(u64, u64)]) -> CaptureTable {
    let mut table = CaptureTable::new();
    for (prop, now) in arrivals {
        table.record(*prop, *now);
    }
    table
}

#[test]
fn a_fresh_table_is_empty() {
    let table = CaptureTable::new();
    assert_eq!(table.addrs, [0, 0, 0, 0, 0]);
    assert_eq!(table.serial, 0);
    assert_eq!(table.last_ms, 0);
    assert!(!table.has_selection());
    assert_eq!(table.next_taken(0), MAX_PROPS);
}

#[test]
fn a_burst_fills_the_slots_in_order() {
    let table = table(&[(0x1000, 100), (0x1004, 110), (0x1008, 135)]);
    assert_eq!(table.addrs, [0x1000, 0x1004, 0x1008, 0, 0]);
    assert_eq!(table.serial, 3);
    assert_eq!(table.last_ms, 135);
    assert!(table.has_selection());
}

#[test]
fn a_known_address_changes_nothing() {
    let table = table(&[(0x1000, 100), (0x1004, 110), (0x1000, 9000)]);
    assert_eq!(table.addrs, [0x1000, 0x1004, 0, 0, 0]);
    assert_eq!(table.serial, 2);
    assert_eq!(table.last_ms, 110);
}

#[test]
fn a_gap_of_the_burst_length_continues_the_burst() {
    let table = table(&[(0x1000, 100), (0x1004, 100 + BURST_MS)]);
    assert_eq!(table.addrs, [0x1000, 0x1004, 0, 0, 0]);
    assert_eq!(table.serial, 2);
}

#[test]
fn a_longer_gap_starts_a_new_component() {
    let table = table(&[(0x1000, 100), (0x1004, 101), (0x2000, 101 + BURST_MS + 1)]);
    assert_eq!(table.addrs, [0x2000, 0, 0, 0, 0]);
    assert_eq!(table.serial, 4);
    assert_eq!(table.last_ms, 127);
}

#[test]
fn known_addresses_do_not_prolong_a_burst() {
    let table = table(&[(0x1000, 100), (0x1000, 120), (0x1004, 126)]);
    assert_eq!(table.addrs, [0x1004, 0, 0, 0, 0]);
}

#[test]
fn a_clock_that_runs_backwards_starts_nothing_new() {
    let table = table(&[(0x1000, 100), (0x1004, 5)]);
    assert_eq!(table.addrs, [0x1000, 0x1004, 0, 0, 0]);
    assert_eq!(table.last_ms, 5);
}

#[test]
fn a_full_table_leaves_out_a_sixth_address() {
    let table = table(&[(1, 10), (2, 11), (3, 12), (4, 13), (5, 14), (6, 15)]);
    assert_eq!(table.addrs, [1, 2, 3, 4, 5]);
    assert_eq!(table.serial, 5);
    assert_eq!(table.last_ms, 15);
}

#[test]
fn a_full_table_makes_room_for_a_new_component() {
    let table = table(&[(1, 10), (2, 11), (3, 12), (4, 13), (5, 14), (6, 40)]);
    assert_eq!(table.addrs, [6, 0, 0, 0, 0]);
    assert_eq!(table.serial, 7);
}

#[test]
fn the_serial_wraps_around() {
    let mut table = CaptureTable { addrs: [7, 0, 0, 0, 0], serial: u32::MAX, last_ms: 1 };
    table.record(8, 100);
    assert_eq!(table.addrs, [8, 0, 0, 0, 0]);
    assert_eq!(table.serial, 1);
}

#[test]
fn clearing_moves_the_serial() {
    let mut table = table(&[(1, 10), (2, 11)]);
    table.clear();
    assert_eq!(table.addrs, [0, 0, 0, 0, 0]);
    assert_eq!(table.serial, 3);
    assert_eq!(table.last_ms, 0);
    table.record(3, 1000);
    assert_eq!(table.addrs, [3, 0, 0, 0, 0]);
    assert_eq!(table.serial, 4);
}

#[test]
fn clearing_wraps_the_serial_around() {
    let mut table = CaptureTable { addrs: [7, 0, 0, 0, 0], serial: u32::MAX, last_ms: 1 };
    table.clear();
    assert_eq!(table.serial, 0);
}

#[test]
fn a_burst_moves_the_serial_once_for_each_address() {
    assert_eq!(table(&[(1, 10), (2, 11), (3, 12), (4, 13), (5, 14), (6, 15)]).serial, 5);
    assert_eq!(table(&[(9, 10), (1, 100), (2, 101), (3, 102)]).serial, 1 + 3 + 1);
}

#[test]
fn an_update_claims_the_slot_of_a_capture() {
    let before = table(&[(1, 10), (2, 11)]);
    let mut after = before;
    after.record(3, 12);
    let update = table_update(&before, &after);
    assert!(!update.free_all);
    assert_eq!(update.claims, [0, 0, 3, 0, 0]);
    assert_eq!(update.serial_moves, 1);
    assert_eq!(update.last_ms, 12);
}

#[test]
fn an_update_frees_the_slots_for_a_new_burst() {
    let before = CaptureTable { addrs: [1, 2, 0, 0, 0], serial: u32::MAX, last_ms: 11 };
    let mut after = before;
    after.record(3, 100);
    let update = table_update(&before, &after);
    assert!(update.free_all);
    assert_eq!(update.claims, [3, 0, 0, 0, 0]);
    assert_eq!(update.serial_moves, 2);
}

#[test]
fn an_update_frees_the_slots_for_clearing() {
    for before in [table(&[(1, 10), (2, 11)]), CaptureTable::new()] {
        let mut after = before;
        after.clear();
        let update = table_update(&before, &after);
        assert!(update.free_all);
        assert_eq!(update.claims, [0; 5]);
        assert_eq!(update.serial_moves, 1);
        assert_eq!(update.last_ms, 0);
    }
}

#[test]
fn an_update_without_a_change_does_nothing() {
    let table = table(&[(1, 10), (2, 11)]);
    let update = table_update(&table, &table);
    assert!(!update.free_all);
    assert_eq!(update.claims, [0; 5]);
    assert_eq!(update.serial_moves, 0);
    assert_eq!(update.last_ms, 11);
}

#[test]
fn free_slots_in_between_are_passed_over() {
    let table = CaptureTable { addrs: [0, 5, 0, 6, 0], serial: 0, last_ms: 0 };
    assert!(!table.has_selection());
    assert_eq!(table.next_taken(0), 1);
    assert_eq!(table.next_taken(1), 1);
    assert_eq!(table.next_taken(2), 3);
    assert_eq!(table.next_taken(4), MAX_PROPS);
    assert_eq!(table.next_taken(MAX_PROPS), MAX_PROPS);
}

#[test]
fn a_free_slot_in_between_is_taken_first() {
    let mut table = CaptureTable { addrs: [0, 5, 0, 6, 0], serial: 9, last_ms: 0 };
    table.record(7, 1);
    assert_eq!(table.addrs, [7, 5, 0, 6, 0]);
    assert_eq!(table.serial, 10);
}

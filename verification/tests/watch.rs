use game_tweaks::watch::{
    BreakpointChange, PropertyWatch, Registers, Removal, Teardown, Trap, Verdict,
    EXCEPTION_CONTINUE_EXECUTION, EXCEPTION_CONTINUE_SEARCH, EXCEPTION_SINGLE_STEP,
};

const TARGET: u64 = 0x1_4000_1000;

fn trap(code: u32, rip: u64, rax: u64) -> Option<Trap> {
    Some(Trap { code, regs: Registers { rip, rax, eflags: 0x246 } })
}

fn capturing() -> PropertyWatch {
    let mut watch = PropertyWatch::new();
    watch.target = TARGET;
    watch.enable_feature(0x77);
    watch.set_capture(true);
    watch
}

#[test]
fn an_exception_without_description_is_passed_on() {
    let verdict = capturing().exception_handler(None, 1);
    assert_eq!(verdict, Verdict { disposition: EXCEPTION_CONTINUE_SEARCH, regs: None });
    assert_eq!(verdict.disposition, 0);
}

#[test]
fn another_exception_is_passed_on() {
    let mut watch = capturing();
    let verdict = watch.exception_handler(trap(0xC000_0005, TARGET, 0x10), 1);
    assert_eq!(verdict, Verdict { disposition: EXCEPTION_CONTINUE_SEARCH, regs: None });
    assert_eq!(watch.table.addrs, [0; 5]);
}

#[test]
fn a_single_step_elsewhere_is_ignored() {
    let mut watch = capturing();
    let verdict = watch.exception_handler(trap(EXCEPTION_SINGLE_STEP, TARGET + 1, 0x10), 1);
    assert_eq!(verdict, Verdict { disposition: EXCEPTION_CONTINUE_EXECUTION, regs: None });
    assert_eq!(verdict.disposition, -1);
    assert_eq!(watch.table.addrs, [0; 5]);
}

#[test]
fn a_single_step_before_the_target_is_known_is_ignored() {
    let mut watch = PropertyWatch::new();
    let verdict = watch.exception_handler(trap(EXCEPTION_SINGLE_STEP, 0, 0x10), 1);
    assert_eq!(verdict, Verdict { disposition: EXCEPTION_CONTINUE_EXECUTION, regs: None });
}

#[test]
fn a_hit_captures_the_address() {
    let mut watch = capturing();
    let verdict = watch.exception_handler(trap(EXCEPTION_SINGLE_STEP, TARGET, 0xABC0), 50);
    assert_eq!(verdict.disposition, EXCEPTION_CONTINUE_EXECUTION);
    assert_eq!(
        verdict.regs,
        Some(Registers { rip: TARGET, rax: 0xABC0, eflags: 0x1_0246 })
    );
    assert_eq!(watch.table.addrs, [0xABC0, 0, 0, 0, 0]);
    assert_eq!(watch.table.serial, 1);
    assert_eq!(watch.table.last_ms, 50);
}

#[test]
fn a_hit_with_a_null_address_captures_nothing() {
    let mut watch = capturing();
    let verdict = watch.exception_handler(trap(EXCEPTION_SINGLE_STEP, TARGET, 0), 50);
    assert_eq!(verdict.regs, Some(Registers { rip: TARGET, rax: 0, eflags: 0x1_0246 }));
    assert_eq!(watch.table.addrs, [0; 5]);
    assert_eq!(watch.table.last_ms, 0);
}

#[test]
fn a_hit_while_not_capturing_captures_nothing() {
    let mut watch = capturing();
    watch.set_capture(false);
    let verdict = watch.exception_handler(trap(EXCEPTION_SINGLE_STEP, TARGET, 0x10), 50);
    assert!(verdict.regs.is_some());
    assert_eq!(watch.table.addrs, [0; 5]);
}

#[test]
fn a_blocked_write_is_skipped() {
    let mut watch = capturing();
    watch.block_writes = true;
    let verdict = watch.exception_handler(trap(EXCEPTION_SINGLE_STEP, TARGET, 0x10), 50);
    assert_eq!(
        verdict.regs,
        Some(Registers { rip: TARGET + 4, rax: 0x10, eflags: 0x1_0246 })
    );
    assert_eq!(watch.table.addrs, [0x10, 0, 0, 0, 0]);
}

#[test]
fn the_breakpoint_follows_capturing() {
    let mut watch = PropertyWatch::new();
    watch.target = TARGET;
    assert_eq!(watch.set_capture(false), BreakpointChange::Keep);
    assert_eq!(watch.set_capture(true), BreakpointChange::Arm { addr: TARGET });
    assert!(watch.capture && watch.bp_set);
    assert_eq!(watch.set_capture(true), BreakpointChange::Keep);
    assert_eq!(watch.set_capture(false), BreakpointChange::Disarm);
    assert!(!watch.capture && !watch.bp_set);
}

#[test]
fn a_handler_is_registered_once() {
    let mut watch = PropertyWatch::new();
    assert!(watch.needs_handler(true));
    assert!(!watch.needs_handler(false));
    watch.enable_feature(0x77);
    assert!(watch.enabled);
    assert_eq!(watch.veh_handle, 0x77);
    assert!(!watch.needs_handler(true));
    watch.enable_feature(0);
    assert_eq!(watch.veh_handle, 0x77);
}

#[test]
fn a_handler_that_failed_is_tried_again() {
    let mut watch = PropertyWatch::new();
    watch.enable_feature(0);
    assert!(watch.enabled);
    assert!(watch.needs_handler(true));
}

#[test]
fn disabling_removes_everything() {
    let mut watch = capturing();
    watch.block_writes = true;
    let removed = watch.disable_feature();
    assert_eq!(
        removed,
        Teardown { breakpoint: BreakpointChange::Disarm, handler: Some(0x77) }
    );
    assert!(!watch.enabled && !watch.capture && !watch.bp_set && !watch.block_writes);
    assert_eq!(watch.veh_handle, 0);
    assert_eq!(watch.target, TARGET);
    assert_eq!(
        watch.disable_feature(),
        Teardown { breakpoint: BreakpointChange::Keep, handler: None }
    );
}

#[test]
fn disabling_keeps_what_was_captured() {
    let mut watch = capturing();
    watch.exception_handler(trap(EXCEPTION_SINGLE_STEP, TARGET, 0x10), 50);
    watch.disable_feature();
    assert_eq!(watch.table.addrs, [0x10, 0, 0, 0, 0]);
}

#[test]
fn the_toggle_switches_the_feature() {
    let mut watch = PropertyWatch::new();
    assert_eq!(
        watch.feature_toggled(true, 0x99),
        Teardown { breakpoint: BreakpointChange::Keep, handler: None }
    );
    assert!(watch.enabled);
    assert_eq!(
        watch.feature_toggled(false, 0),
        Teardown { breakpoint: BreakpointChange::Keep, handler: Some(0x99) }
    );
    assert!(!watch.enabled);
}

#[test]
fn the_breakpoint_is_removed_before_the_handler() {
    let mut watch = capturing();
    assert_eq!(
        watch.disable_feature().steps(),
        vec![Removal::Breakpoint, Removal::Handler { handle: 0x77 }]
    );
    assert_eq!(watch.disable_feature().steps(), vec![]);
    watch.enable_feature(0x88);
    assert_eq!(watch.disable_feature().steps(), vec![Removal::Handler { handle: 0x88 }]);
    watch.enable_feature(0);
    watch.set_capture(true);
    assert_eq!(watch.disable_feature().steps(), vec![Removal::Breakpoint]);
}

#[test]
fn a_burst_of_hits_is_captured_in_order() {
    let mut watch = capturing();
    for (i, rax) in [0x30, 0x10, 0x20].into_iter().enumerate() {
        watch.exception_handler(trap(EXCEPTION_SINGLE_STEP, TARGET, rax), 100 + 25 * i as u64);
    }
    assert_eq!(watch.table.addrs, [0x30, 0x10, 0x20, 0, 0]);
    assert_eq!(watch.table.serial, 3);
    assert_eq!(watch.table.last_ms, 150);
    watch.exception_handler(trap(EXCEPTION_SINGLE_STEP, TARGET, 0x40), 176);
    assert_eq!(watch.table.addrs, [0x40, 0, 0, 0, 0]);
    assert_eq!(watch.table.serial, 5);
}

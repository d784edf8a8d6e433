use game_tweaks::threads::{
    clear_breakpoint, set_breakpoint, BreakpointRegisters, ThreadEntry, ThreadWalk, WalkAction,
    WalkReply, NO_SNAPSHOT, THREAD_ACCESS,
};

const PID: u32 = 42;

/// All actions of a walk over `entries`; a thread opens to ten times its id,
/// but for thread 13, which cannot be opened.
fn walk(snapshot: u64, entries: &[(u32, u32)]) -> Vec<WalkAction> {
    let mut left = entries.iter();
    let mut walk = ThreadWalk::for_each_thread(PID);
    let mut actions = Vec::new();
    while walk.action != WalkAction::Done {
        actions.push(walk.action);
        let mut reply = WalkReply { handle: 0, entry: None };
        match walk.action {
            WalkAction::TakeSnapshot => reply.handle = snapshot,
            WalkAction::FirstEntry { .. } | WalkAction::NextEntry { .. } => {
                reply.entry = left.next().map(|e| ThreadEntry { owner: e.0, thread: e.1 });
            }
            WalkAction::OpenThread { thread: 13, .. } => {}
            WalkAction::OpenThread { thread, .. } => reply.handle = u64::from(thread) * 10,
            _ => {}
        }
        walk = walk.advance(reply);
    }
    actions
}

#[test]
fn own_threads_are_visited_and_closed() {
    let snapshot = 5;
    assert_eq!(
        walk(snapshot, &[(PID, 1), (7, 2), (PID, 13), (PID, 3)]),
        vec![
            WalkAction::TakeSnapshot,
            WalkAction::FirstEntry { snapshot },
            WalkAction::OpenThread { snapshot, thread: 1 },
            WalkAction::Visit { snapshot, handle: 10 },
            WalkAction::CloseThread { snapshot, handle: 10 },
            WalkAction::NextEntry { snapshot },
            WalkAction::NextEntry { snapshot },
            WalkAction::OpenThread { snapshot, thread: 13 },
            WalkAction::NextEntry { snapshot },
            WalkAction::OpenThread { snapshot, thread: 3 },
            WalkAction::Visit { snapshot, handle: 30 },
            WalkAction::CloseThread { snapshot, handle: 30 },
            WalkAction::NextEntry { snapshot },
            WalkAction::CloseSnapshot { snapshot },
        ]
    );
}

#[test]
fn an_empty_snapshot_is_closed() {
    let snapshot = 5;
    assert_eq!(
        walk(snapshot, &[]),
        vec![
            WalkAction::TakeSnapshot,
            WalkAction::FirstEntry { snapshot },
            WalkAction::CloseSnapshot { snapshot },
        ]
    );
}

#[test]
fn without_a_snapshot_nothing_is_done() {
    assert_eq!(walk(NO_SNAPSHOT, &[(PID, 1)]), vec![WalkAction::TakeSnapshot]);
    assert_eq!(NO_SNAPSHOT, -1i64 as u64);
}

#[test]
fn a_walk_that_is_over_stays_over() {
    let over = ThreadWalk { pid: PID, action: WalkAction::Done };
    assert_eq!(over.advance(WalkReply { handle: 1, entry: None }), over);
}

#[test]
fn the_breakpoint_goes_to_the_first_debug_register() {
    assert_eq!(
        set_breakpoint(true, 0x1234),
        Some(BreakpointRegisters { dr0: 0x1234, dr7: 1 })
    );
    assert_eq!(clear_breakpoint(true), Some(BreakpointRegisters { dr0: 0, dr7: 0 }));
}

#[test]
fn unreadable_registers_are_left_alone() {
    assert_eq!(set_breakpoint(false, 0x1234), None);
    assert_eq!(clear_breakpoint(false), None);
}

#[test]
fn threads_are_opened_for_their_context() {
    assert_eq!(THREAD_ACCESS, 0x1e);
}

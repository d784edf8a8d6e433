//! The state of the property editor that the exception handler shares with
//! the user interface, and what each event does to it.

use vstd::prelude::*;

use crate::capture::{burst_over, captured, first_free, free_slots, moved};
use crate::capture::{law_burst_goes_on, law_gap_starts_afresh, law_known_address_changes_nothing};
use crate::capture::{law_burst_is_captured, law_captured_is_all, law_free_slots_hold_nothing};
use crate::capture::{law_packed_is_captured_and_free, law_record_captures, law_record_keeps_slots};
use crate::capture::{law_serial_follows_table, packed, recorded_all, records, stored};
use crate::capture::{CaptureTable, BURST_MS, MAX_PROPS};

verus! {

/// The code of the exception that a debug breakpoint raises.
pub const EXCEPTION_SINGLE_STEP: u32 = 0x8000_0004;

/// Tells the system to resume the thread.
pub const EXCEPTION_CONTINUE_EXECUTION: i32 = -1;

/// Tells the system to ask the next handler.
pub const EXCEPTION_CONTINUE_SEARCH: i32 = 0;

/// Length in bytes of the watched instruction, `movss [rax],xmm2`.
pub const WRITE_LEN: u64 = 4;

/// The flag that lets one instruction run without triggering again.
pub const RESUME_FLAG: u32 = 0x1_0000;

/// The registers of the interrupted thread that the handler deals with.
#[derive(Clone, Copy, PartialEq, Eq, Structural, Debug)]
pub struct Registers {
    pub rip: u64,
    /// At the watched instruction, the address of the written property.
    pub rax: u64,
    pub eflags: u32,
}

/// An exception as the system reports it.
#[derive(Clone, Copy, PartialEq, Eq, Structural, Debug)]
pub struct Trap {
    pub code: u32,
    pub regs: Registers,
}

/// What the exception handler decided.
#[derive(Clone, Copy, PartialEq, Eq, Structural, Debug)]
pub struct Verdict {
    /// The value to return to the system.
    pub disposition: i32,
    /// The registers to resume the thread with, if they change.
    pub regs: Option<Registers>,
}

/// What to do about the hardware breakpoint, on every thread.
#[derive(Clone, Copy, PartialEq, Eq, Structural, Debug)]
pub enum BreakpointChange {
    Keep,
    Arm { addr: u64 },
    Disarm,
}

/// What to take out of the process; `steps` gives the order.
#[derive(Clone, Copy, PartialEq, Eq, Structural, Debug)]
pub struct Teardown {
    pub breakpoint: BreakpointChange,
    /// The exception handler to remove, if one is registered.
    pub handler: Option<u64>,
}

/// One thing to take out of the process.
#[derive(Clone, Copy, PartialEq, Eq, Structural, Debug)]
pub enum Removal {
    /// Remove the breakpoint from every thread.
    Breakpoint,
    /// Remove the exception handler.
    Handler { handle: u64 },
}

/// The removals that a teardown calls for, the breakpoint's first: a breakpoint
/// that is hit when the handler is gone crashes the game.
pub open spec fn removals(teardown: Teardown) -> Seq<Removal> {
    (if teardown.breakpoint == BreakpointChange::Disarm {
        seq![Removal::Breakpoint]
    } else {
        seq![]
    }) + (match teardown.handler {
        Some(handle) => seq![Removal::Handler { handle }],
        None => seq![],
    })
}

impl Teardown {
    /// The removals, in the order in which to perform them.
    pub fn steps(&self) -> (steps: Vec<Removal>)
        ensures
            steps@ == removals(*self),
    {
        let mut steps: Vec<Removal> = Vec::new();
        if self.breakpoint == BreakpointChange::Disarm {
            steps.push(Removal::Breakpoint);
        }
        if let Some(handle) = self.handler {
            steps.push(Removal::Handler { handle });
        }
        assert(steps@ =~= removals(*self));
        steps
    }
}

/// The shared state.
#[derive(Clone, Copy)]
pub struct PropertyWatch {
    /// Address of the watched instruction; 0 before it was found.
    pub target: u64,
    /// The feature is on.
    pub enabled: bool,
    /// Addresses are being captured.
    pub capture: bool,
    /// The game's own property writes are skipped.
    pub block_writes: bool,
    /// The breakpoint is armed.
    pub bp_set: bool,
    /// Handle of the registered exception handler; 0 for none.
    pub veh_handle: u64,
    pub table: CaptureTable,
}

/// The state with capturing switched on or off: the breakpoint goes with it.
pub open spec fn capture_set(watch: PropertyWatch, on: bool) -> PropertyWatch {
    PropertyWatch { capture: on, bp_set: on, ..watch }
}

/// What switching capturing on or off does to the breakpoint.
pub open spec fn breakpoint_change(watch: PropertyWatch, on: bool) -> BreakpointChange {
    if on && !watch.bp_set {
        BreakpointChange::Arm { addr: watch.target }
    } else if !on && watch.bp_set {
        BreakpointChange::Disarm
    } else {
        BreakpointChange::Keep
    }
}

/// The state with the feature on. `added` is the handle that registering the
/// exception handler gave, where that was called for.
pub open spec fn feature_on(watch: PropertyWatch, added: u64) -> PropertyWatch {
    PropertyWatch {
        enabled: true,
        veh_handle: if watch.veh_handle == 0 {
            added
        } else {
            watch.veh_handle
        },
        ..watch
    }
}

/// The state with the feature off.
pub open spec fn feature_off(watch: PropertyWatch) -> PropertyWatch {
    PropertyWatch {
        enabled: false,
        capture: false,
        bp_set: false,
        block_writes: false,
        veh_handle: 0,
        ..watch
    }
}

/// What switching the feature off takes out of the process.
pub open spec fn teardown(watch: PropertyWatch) -> Teardown {
    Teardown {
        breakpoint: breakpoint_change(watch, false),
        handler: if watch.veh_handle == 0 {
            None
        } else {
            Some(watch.veh_handle)
        },
    }
}

/// What the exception handler makes of the state: only the table changes, and
/// only by a capture.
pub open spec fn handled(
    before: PropertyWatch,
    trap: Option<Trap>,
    now: u64,
    after: PropertyWatch,
) -> bool {
    &&& after == (PropertyWatch { table: after.table, ..before })
    &&& match trap {
        Some(t) => if before.captures(t) {
            records(before.table, t.regs.rax, now, after.table)
        } else {
            after.table == before.table
        },
        None => after.table == before.table,
    }
}

/// The state after the feature's toggle was set.
pub open spec fn toggled(watch: PropertyWatch, on: bool, added: u64) -> PropertyWatch {
    if on {
        feature_on(watch, added)
    } else {
        feature_off(watch)
    }
}

/// A teardown with nothing in it.
pub open spec fn nothing_to_remove() -> Teardown {
    Teardown { breakpoint: BreakpointChange::Keep, handler: None }
}

/// What setting the feature's toggle takes out of the process.
pub open spec fn toggle_removes(watch: PropertyWatch, on: bool) -> Teardown {
    if on {
        nothing_to_remove()
    } else {
        teardown(watch)
    }
}

impl PropertyWatch {
    /// The table is packed, the breakpoint is armed exactly while addresses
    /// are being captured, and while the feature is off nothing of it is left
    /// in the process.
    pub open spec fn wf(self) -> bool {
        &&& packed(self.table.addrs@)
        &&& self.bp_set == self.capture
        &&& !self.enabled ==> !self.capture && !self.block_writes && self.veh_handle == 0
    }

    /// Whether the trap comes from the breakpoint on the watched instruction.
    pub open spec fn hit_by(self, trap: Trap) -> bool {
        &&& trap.code == EXCEPTION_SINGLE_STEP
        &&& self.target != 0
        &&& trap.regs.rip == self.target
    }

    /// Whether the trap tells the address of a property to capture.
    pub open spec fn captures(self, trap: Trap) -> bool {
        self.hit_by(trap) && self.capture && trap.regs.rax != 0
    }

    /// The registers to go on with after a hit: the instruction is skipped
    /// where the game's writes are blocked.
    pub open spec fn resumed(self, regs: Registers) -> Registers {
        Registers {
            rip: if self.block_writes {
                (regs.rip + WRITE_LEN) as u64
            } else {
                regs.rip
            },
            eflags: regs.eflags | RESUME_FLAG,
            ..regs
        }
    }

    /// What the exception handler decides.
    pub open spec fn verdict_on(self, trap: Option<Trap>) -> Verdict {
        match trap {
            Some(t) => Verdict {
                disposition: if t.code == EXCEPTION_SINGLE_STEP {
                    EXCEPTION_CONTINUE_EXECUTION
                } else {
                    EXCEPTION_CONTINUE_SEARCH
                },
                regs: if self.hit_by(t) {
                    Some(self.resumed(t.regs))
                } else {
                    None
                },
            },
            None => Verdict { disposition: EXCEPTION_CONTINUE_SEARCH, regs: None },
        }
    }

    /// Whether switching the feature on or off has to register the exception
    /// handler first.
    pub open spec fn handler_needed(self, on: bool) -> bool {
        on && self.veh_handle == 0
    }

    /// The state before anything was found, switched on or captured.
    pub fn new() -> (watch: Self)
        ensures
            watch.wf(),
            watch.target == 0,
            !watch.enabled,
            !watch.capture,
            !watch.block_writes,
            !watch.bp_set,
            watch.veh_handle == 0,
            watch.table.addrs@ == free_slots(MAX_PROPS as nat),
            watch.table.serial == 0,
            watch.table.last_ms == 0,
    {
        proof {
            law_free_slots_hold_nothing(MAX_PROPS as nat);
        }
        PropertyWatch {
            target: 0,
            enabled: false,
            capture: false,
            block_writes: false,
            bp_set: false,
            veh_handle: 0,
            table: CaptureTable::new(),
        }
    }

    /// Decides on an exception, at the time `now`; `None` stands for one that
    /// came without a description.
    pub fn exception_handler(&mut self, trap: Option<Trap>, now: u64) -> (verdict: Verdict)
        requires
            trap matches Some(t) ==> old(self).hit_by(t) && old(self).block_writes ==> t.regs.rip
                + WRITE_LEN <= u64::MAX,
        ensures
            verdict.disposition == (match trap {
                Some(t) => if t.code == EXCEPTION_SINGLE_STEP {
                    EXCEPTION_CONTINUE_EXECUTION
                } else {
                    EXCEPTION_CONTINUE_SEARCH
                },
                None => EXCEPTION_CONTINUE_SEARCH,
            }),
            verdict.regs == (match trap {
                Some(t) => if old(self).hit_by(t) {
                    Some(old(self).resumed(t.regs))
                } else {
                    None
                },
                None => None,
            }),
            verdict == old(self).verdict_on(trap),
            handled(*old(self), trap, now, *final(self)),
            packed(old(self).table.addrs@) ==> packed(final(self).table.addrs@),
            old(self).wf() ==> final(self).wf(),
    {
        let trap = match trap {
            Some(t) => t,
            None => {
                return Verdict { disposition: EXCEPTION_CONTINUE_SEARCH, regs: None };
            },
        };
        if trap.code != EXCEPTION_SINGLE_STEP {
            return Verdict { disposition: EXCEPTION_CONTINUE_SEARCH, regs: None };
        }
        if self.target == 0 || trap.regs.rip != self.target {
            // Not raised by the breakpoint.
            return Verdict { disposition: EXCEPTION_CONTINUE_EXECUTION, regs: None };
        }
        if self.capture && trap.regs.rax != 0 {
            proof {
                if packed(self.table.addrs@) {
                    law_record_captures(self.table.addrs@, self.table.last_ms, trap.regs.rax, now);
                }
            }
            self.table.record(trap.regs.rax, now);
        }
        let mut regs = trap.regs;
        if self.block_writes {
            regs.rip = regs.rip + WRITE_LEN;
        }
        regs.eflags = regs.eflags | RESUME_FLAG;
        Verdict { disposition: EXCEPTION_CONTINUE_EXECUTION, regs: Some(regs) }
    }

    /// Switches capturing on or off.
    pub fn set_capture(&mut self, on: bool) -> (change: BreakpointChange)
        ensures
            *final(self) == capture_set(*old(self), on),
            change == breakpoint_change(*old(self), on),
    {
        self.capture = on;
        if on && !self.bp_set {
            self.bp_set = true;
            BreakpointChange::Arm { addr: self.target }
        } else if !on && self.bp_set {
            self.bp_set = false;
            BreakpointChange::Disarm
        } else {
            BreakpointChange::Keep
        }
    }

    /// Whether switching the feature on or off has to register the exception
    /// handler first.
    pub fn needs_handler(&self, on: bool) -> (needed: bool)
        ensures
            needed == (on && self.veh_handle == 0),
            needed == self.handler_needed(on),
    {
        on && self.veh_handle == 0
    }

    /// Switches the feature on. `added` is the handle that registering the
    /// exception handler gave; it counts only where none was registered.
    pub fn enable_feature(&mut self, added: u64)
        ensures
            *final(self) == feature_on(*old(self), added),
    {
        if self.veh_handle == 0 {
            self.veh_handle = added;
        }
        self.enabled = true;
    }

    /// Switches the feature off, and says what that takes out of the process.
    pub fn disable_feature(&mut self) -> (removed: Teardown)
        ensures
            *final(self) == feature_off(*old(self)),
            removed == teardown(*old(self)),
    {
        self.enabled = false;
        let breakpoint = self.set_capture(false);
        self.block_writes = false;
        let handle: u64 = self.veh_handle;
        self.veh_handle = 0;
        Teardown {
            breakpoint,
            handler: if handle != 0 {
                Some(handle)
            } else {
                None
            },
        }
    }

    /// Follows the feature's toggle. `added` is as for `enable_feature`.
    pub fn feature_toggled(&mut self, on: bool, added: u64) -> (removed: Teardown)
        ensures
            *final(self) == (if on {
                feature_on(*old(self), added)
            } else {
                feature_off(*old(self))
            }),
            *final(self) == toggled(*old(self), on, added),
            removed == toggle_removes(*old(self), on),
            removed == (if on {
                nothing_to_remove()
            } else {
                teardown(*old(self))
            }),
    {
        if on {
            self.enable_feature(added);
            Teardown { breakpoint: BreakpointChange::Keep, handler: None }
        } else {
            self.disable_feature()
        }
    }
}

/// Each event keeps the state well formed. Capturing is switched on only while
/// the feature is on.
pub proof fn law_events_keep_wf(watch: PropertyWatch, on: bool, added: u64)
    requires
        watch.wf(),
    ensures
        feature_on(watch, added).wf(),
        feature_off(watch).wf(),
        watch.enabled || !on ==> capture_set(watch, on).wf(),
{
}

/// The breakpoint is set only where it is not armed and cleared only where it
/// is, so `bp_set` always tells whether it is armed: `armed` is the truth in
/// the process before the change.
pub proof fn law_breakpoint_is_tracked(watch: PropertyWatch, on: bool, armed: bool)
    requires
        watch.bp_set == armed,
    ensures
        match breakpoint_change(watch, on) {
            BreakpointChange::Keep => capture_set(watch, on).bp_set == armed,
            BreakpointChange::Arm { addr } => !armed && capture_set(watch, on).bp_set && addr
                == watch.target,
            BreakpointChange::Disarm => armed && !capture_set(watch, on).bp_set,
        },
{
}

/// Switching the feature off removes the breakpoint if it is armed and the
/// exception handler if one is registered, and leaves neither behind. A second
/// time there is nothing to remove.
pub proof fn law_disable_leaves_nothing(watch: PropertyWatch)
    ensures
        watch.bp_set <==> teardown(watch).breakpoint == BreakpointChange::Disarm,
        watch.veh_handle != 0 <==> teardown(watch).handler == Some(watch.veh_handle),
        !feature_off(watch).enabled,
        !feature_off(watch).capture,
        !feature_off(watch).bp_set,
        !feature_off(watch).block_writes,
        feature_off(watch).veh_handle == 0,
        teardown(feature_off(watch)) == nothing_to_remove(),
        feature_off(feature_off(watch)) == feature_off(watch),
{
}

/// Switching the feature on and off again undoes itself: the state is as
/// before, and exactly the handler that was added is removed.
pub proof fn law_off_undoes_on(watch: PropertyWatch, added: u64)
    requires
        watch.wf(),
        !watch.enabled,
    ensures
        feature_off(feature_on(watch, added)) == watch,
        teardown(feature_on(watch, added)) == (Teardown {
            breakpoint: BreakpointChange::Keep,
            handler: if added == 0 {
                None
            } else {
                Some(added)
            },
        }),
{
}

/// While the feature is on, a second switching on changes nothing and needs no
/// second handler.
pub proof fn law_on_is_idempotent(watch: PropertyWatch, added: u64, again: u64)
    requires
        added != 0,
    ensures
        feature_on(feature_on(watch, added), again) == feature_on(watch, added),
{
}

/// A thread that hit the breakpoint goes on at the watched instruction, or right
/// behind it where the game's writes are blocked. It does not hit the
/// breakpoint again at once, and its other flags stay.
pub proof fn law_hit_is_resumed(watch: PropertyWatch, regs: Registers)
    requires
        regs.rip + WRITE_LEN <= u64::MAX,
    ensures
        watch.block_writes ==> watch.resumed(regs).rip == regs.rip + WRITE_LEN,
        !watch.block_writes ==> watch.resumed(regs).rip == regs.rip,
        watch.resumed(regs).rax == regs.rax,
        watch.resumed(regs).eflags & RESUME_FLAG == RESUME_FLAG,
        watch.resumed(regs).eflags & !RESUME_FLAG == regs.eflags & !RESUME_FLAG,
{
    let flags = regs.eflags;
    assert((flags | 0x1_0000u32) & 0x1_0000u32 == 0x1_0000u32) by (bit_vector);
    assert((flags | 0x1_0000u32) & !0x1_0000u32 == flags & !0x1_0000u32) by (bit_vector);
}

/// Whether the breakpoint is armed after the removals.
pub open spec fn armed_still(armed: bool, done: Seq<Removal>) -> bool {
    armed && !done.contains(Removal::Breakpoint)
}

/// Whether an exception handler was removed.
pub open spec fn handler_gone(done: Seq<Removal>) -> bool {
    exists|i: int| 0 <= i < done.len() && #[trigger] done[i] is Handler
}

/// However far switching the feature off has come, the exception handler is not
/// gone while the breakpoint is still armed. In the end neither is left.
pub proof fn law_handler_outlives_breakpoint(watch: PropertyWatch, done: int)
    requires
        0 <= done <= removals(teardown(watch)).len(),
    ensures
        handler_gone(removals(teardown(watch)).take(done)) ==> !armed_still(
            watch.bp_set,
            removals(teardown(watch)).take(done),
        ),
        !armed_still(watch.bp_set, removals(teardown(watch))),
        watch.veh_handle != 0 ==> removals(teardown(watch)).contains(
            Removal::Handler { handle: watch.veh_handle },
        ),
{
    let all = removals(teardown(watch));
    let part = all.take(done);
    if watch.bp_set {
        assert(all[0] == Removal::Breakpoint);
        if handler_gone(part) {
            assert(part[0] == Removal::Breakpoint);
        }
    }
    if watch.veh_handle != 0 {
        assert(all[all.len() - 1] == (Removal::Handler { handle: watch.veh_handle }));
    }
}

/// The handler moves the serial if and only if it changes the table: not at all
/// where nothing is stored, by one where the address goes to a free slot, and
/// by two where the table is emptied first and the address is all that it holds.
pub proof fn law_handler_moves_serial(
    before: PropertyWatch,
    trap: Option<Trap>,
    now: u64,
    after: PropertyWatch,
)
    requires
        handled(before, trap, now, after),
    ensures
        after.table.serial != before.table.serial <==> after.table.addrs@ != before.table.addrs@,
        ({
            let (old_addrs, addrs) = (before.table.addrs@, after.table.addrs@);
            let (old_serial, serial) = (before.table.serial, after.table.serial);
            let at = first_free(old_addrs, 0);
            match trap {
                Some(t) => if !before.captures(t) || old_addrs.contains(t.regs.rax) {
                    addrs == old_addrs && serial == old_serial
                } else if burst_over(before.table.last_ms, now) {
                    &&& addrs == seq![t.regs.rax] + free_slots((MAX_PROPS - 1) as nat)
                    &&& serial == moved(old_serial, 2)
                } else if at < MAX_PROPS {
                    &&& addrs == old_addrs.update(at, t.regs.rax)
                    &&& serial == moved(old_serial, 1)
                } else {
                    addrs == old_addrs && serial == old_serial
                },
                None => addrs == old_addrs && serial == old_serial,
            }
        }),
{
    if let Some(t) = trap {
        if before.captures(t) {
            let table = before.table;
            law_serial_follows_table(table.addrs@, table.serial, table.last_ms, t.regs.rax, now);
            if !table.addrs@.contains(t.regs.rax) && burst_over(table.last_ms, now) {
                assert(first_free(free_slots(MAX_PROPS as nat), 0) == 0);
                assert(after.table.addrs@ =~= seq![t.regs.rax] + free_slots(
                    (MAX_PROPS - 1) as nat,
                ));
            }
        }
    }
}

/// The handler keeps a table packed. Each address in it is the new one or was in
/// the same slot before, and slot 0 is free if and only if nothing is captured.
pub proof fn law_handler_keeps_packed(
    before: PropertyWatch,
    trap: Option<Trap>,
    now: u64,
    after: PropertyWatch,
)
    requires
        handled(before, trap, now, after),
        packed(before.table.addrs@),
    ensures
        packed(after.table.addrs@),
        forall|i: int|
            0 <= i < MAX_PROPS && #[trigger] after.table.addrs@[i] != 0 ==> {
                ||| trap matches Some(t) && after.table.addrs@[i] == t.regs.rax
                ||| after.table.addrs@[i] == before.table.addrs@[i]
            },
        after.table.addrs@[0] == 0 <==> captured(after.table.addrs@).len() == 0,
{
    if let Some(t) = trap {
        if before.captures(t) {
            let table = before.table;
            law_record_captures(table.addrs@, table.last_ms, t.regs.rax, now);
            law_record_keeps_slots(table.addrs@, table.last_ms, t.regs.rax, now);
        }
    }
    law_captured_is_all(after.table.addrs@);
}

/// The addresses that the traps tell.
pub open spec fn told(traps: Seq<Trap>) -> Seq<u64> {
    Seq::new(traps.len(), |i: int| traps[i].regs.rax)
}

/// The handler runs on one trap after the other: `states[i]` is the state
/// before the trap at `i`, which comes at `times[i]`.
pub open spec fn handled_all(
    states: Seq<PropertyWatch>,
    traps: Seq<Trap>,
    times: Seq<u64>,
) -> bool {
    &&& states.len() == traps.len() + 1
    &&& times.len() == traps.len()
    &&& forall|i: int|
        0 <= i < traps.len() ==> handled(
            #[trigger] states[i],
            Some(traps[i]),
            times[i],
            states[i + 1],
        )
}

proof fn lemma_handled_all(
    states: Seq<PropertyWatch>,
    traps: Seq<Trap>,
    times: Seq<u64>,
    n: int,
)
    requires
        handled_all(states, traps, times),
        forall|i: int| 0 <= i < traps.len() ==> states[0].captures(#[trigger] traps[i]),
        0 <= n <= traps.len(),
    ensures
        states[n] == (PropertyWatch { table: states[n].table, ..states[0] }),
        ({
            let first = states[0].table;
            let table = states[n].table;
            recorded_all(
                first.addrs@,
                first.serial,
                first.last_ms,
                told(traps).take(n),
                times.take(n),
            ) == (table.addrs@, table.serial, table.last_ms)
        }),
    decreases n,
{
    if n > 0 {
        lemma_handled_all(states, traps, times, n - 1);
        assert(handled(states[n - 1], Some(traps[n - 1]), times[n - 1], states[n - 1 + 1]));
        assert(states[0].captures(traps[n - 1]));
        assert(told(traps).take(n).drop_last() =~= told(traps).take(n - 1));
        assert(times.take(n).drop_last() =~= times.take(n - 1));
    }
}

/// While addresses are being captured, a burst of hits that tell distinct new
/// addresses leaves the table with exactly those addresses, in their order, as
/// many as there are slots for, and with free slots behind. The serial moves by
/// one for each address that is stored, and by one more where an earlier burst
/// was dropped, which cannot be where the time stamp was 0. The time stamp is
/// that of the last hit.
pub proof fn law_handler_captures_burst(
    states: Seq<PropertyWatch>,
    traps: Seq<Trap>,
    times: Seq<u64>,
)
    requires
        handled_all(states, traps, times),
        traps.len() > 0,
        forall|i: int| 0 <= i < traps.len() ==> states[0].captures(#[trigger] traps[i]),
        told(traps).no_duplicates(),
        packed(states[0].table.addrs@),
        !states[0].table.addrs@.contains(traps[0].regs.rax),
        burst_over(states[0].table.last_ms, times[0]) || captured(states[0].table.addrs@).len()
            == 0,
        forall|i: int| 0 < i < times.len() ==> !burst_over(#[trigger] times[i - 1], times[i]),
    ensures
        ({
            let first = states[0].table;
            let table = states.last().table;
            let n = stored(traps.len(), MAX_PROPS as nat);
            let dropped = burst_over(first.last_ms, times[0]);
            &&& table.addrs@ == told(traps).take(n as int) + free_slots((MAX_PROPS - n) as nat)
            &&& table.serial == moved(
                first.serial,
                n + if dropped {
                    1int
                } else {
                    0
                },
            )
            &&& table.last_ms == times.last()
            &&& first.last_ms == 0 ==> !dropped
        }),
{
    let n = traps.len() as int;
    let first = states[0].table;
    let props = told(traps);
    lemma_handled_all(states, traps, times, n);
    assert(props.take(n) =~= props);
    assert(times.take(n) =~= times);
    assert(!props.contains(0)) by {
        if props.contains(0) {
            let i = choose|i: int| 0 <= i < props.len() && props[i] == 0;
            assert(states[0].captures(traps[i]));
        }
    }
    law_burst_is_captured(first.addrs@, first.serial, first.last_ms, props, times);
    law_packed_is_captured_and_free(states[n].table.addrs@);
}

/// What the system is told about an exception, and how the thread goes on. An
/// exception is ours to resume exactly if it is a single step; the registers
/// change exactly if it was raised at the watched instruction. Then the thread
/// goes on there, or behind the instruction's four bytes where the game's writes
/// are blocked, with the resume flag set and its other flags as they were.
pub proof fn law_verdict_on_trap(watch: PropertyWatch, trap: Trap)
    ensures
        ({
            let verdict = watch.verdict_on(Some(trap));
            &&& trap.code == 0x8000_0004 ==> verdict.disposition == -1
            &&& trap.code != 0x8000_0004 ==> verdict.disposition == 0
            &&& verdict.regs is Some <==> trap.code == 0x8000_0004 && trap.regs.rip
                == watch.target && trap.regs.rip != 0
            &&& verdict.regs matches Some(regs) ==> {
                &&& !watch.block_writes ==> regs.rip == trap.regs.rip
                &&& watch.block_writes && trap.regs.rip + 4 <= u64::MAX ==> regs.rip
                    == trap.regs.rip + 4
                &&& regs.rax == trap.regs.rax
                &&& regs.eflags & 0x1_0000u32 == 0x1_0000u32
                &&& regs.eflags & !0x1_0000u32 == trap.regs.eflags & !0x1_0000u32
            }
        }),
        watch.verdict_on(None).disposition == 0,
        watch.verdict_on(None).regs is None,
{
    let flags = trap.regs.eflags;
    assert((flags | 0x1_0000u32) & 0x1_0000u32 == 0x1_0000u32) by (bit_vector);
    assert((flags | 0x1_0000u32) & !0x1_0000u32 == flags & !0x1_0000u32) by (bit_vector);
}

/// The handler changes nothing but the table, and the table only by a single step
/// at the watched instruction while addresses are being captured. There the
/// address in RAX is in the table afterwards, unless it is null or no slot is
/// free; one that was not there, and came more than `BURST_MS` after the last,
/// is alone in it, and one that came within `BURST_MS` leaves all others there.
pub proof fn law_handler_captures_hits(
    before: PropertyWatch,
    trap: Trap,
    now: u64,
    after: PropertyWatch,
)
    requires
        handled(before, Some(trap), now, after),
    ensures
        after.target == before.target,
        after.enabled == before.enabled,
        after.capture == before.capture,
        after.block_writes == before.block_writes,
        after.bp_set == before.bp_set,
        after.veh_handle == before.veh_handle,
        ({
            let addrs = before.table.addrs@;
            let prop = trap.regs.rax;
            let captures = trap.code == 0x8000_0004 && before.target != 0 && trap.regs.rip
                == before.target && before.capture && prop != 0;
            let known = exists|i: int| 0 <= i < MAX_PROPS && #[trigger] addrs[i] == prop;
            let last = before.table.last_ms;
            &&& !captures || known ==> {
                &&& after.table.addrs@ == addrs
                &&& after.table.serial == before.table.serial
                &&& after.table.last_ms == last
            }
            &&& captures && !known ==> after.table.last_ms == now
            &&& captures && !known && last != 0 && now > last + BURST_MS ==> {
                &&& after.table.addrs@[0] == prop
                &&& forall|i: int| 1 <= i < MAX_PROPS ==> #[trigger] after.table.addrs@[i] == 0
                &&& after.table.serial == (before.table.serial + 2) % 0x1_0000_0000
            }
            &&& captures && !known && (last == 0 || now <= last + BURST_MS) ==> {
                &&& forall|i: int|
                    0 <= i < MAX_PROPS && #[trigger] addrs[i] != 0 ==> after.table.addrs@[i]
                        == addrs[i]
                &&& forall|k: int|
                    0 <= k < MAX_PROPS && #[trigger] addrs[k] == 0 && (forall|j: int|
                        0 <= j < k ==> #[trigger] addrs[j] != 0) ==> {
                        &&& after.table.addrs@ == addrs.update(k, prop)
                        &&& after.table.serial == (before.table.serial + 1) % 0x1_0000_0000
                    }
                &&& (forall|i: int| 0 <= i < MAX_PROPS ==> #[trigger] addrs[i] != 0) ==> {
                    &&& after.table.addrs@ == addrs
                    &&& after.table.serial == before.table.serial
                }
            }
        }),
{
    let addrs = before.table.addrs@;
    let prop = trap.regs.rax;
    let last = before.table.last_ms;
    if before.captures(trap) {
        if exists|i: int| 0 <= i < MAX_PROPS && #[trigger] addrs[i] == prop {
            let slot = choose|i: int| 0 <= i < MAX_PROPS && #[trigger] addrs[i] == prop;
            law_known_address_changes_nothing(before.table, prop, now, after.table, slot);
        } else if last != 0 && now > last + BURST_MS {
            law_gap_starts_afresh(before.table, prop, now, after.table);
        } else {
            law_burst_goes_on(before.table, prop, now, after.table);
        }
    }
}

/// Switching capturing on or off leaves it on or off, and the breakpoint with it:
/// the change that is called for makes the breakpoint armed or not, whichever is
/// asked for, at the watched instruction, and none is called for where it is so
/// already. Nothing else of the state changes.
pub proof fn law_capture_follows_switch(watch: PropertyWatch, on: bool)
    ensures
        ({
            let after = capture_set(watch, on);
            &&& after.capture == on
            &&& after.bp_set == on
            &&& after.target == watch.target
            &&& after.enabled == watch.enabled
            &&& after.block_writes == watch.block_writes
            &&& after.veh_handle == watch.veh_handle
            &&& after.table == watch.table
        }),
        on == watch.bp_set ==> breakpoint_change(watch, on) is Keep,
        on && !watch.bp_set ==> breakpoint_change(watch, on) == (BreakpointChange::Arm {
            addr: watch.target,
        }),
        !on && watch.bp_set ==> breakpoint_change(watch, on) is Disarm,
{
}

/// The feature's toggle leaves the feature on or off. Switching on keeps all that
/// was switched, found or captured, and adds an exception handler exactly where
/// there was none; switching off stops capturing and blocking, and keeps the
/// watched instruction and the table.
pub proof fn law_toggle_switches_feature(watch: PropertyWatch, on: bool, added: u64)
    ensures
        ({
            let after = toggled(watch, on, added);
            &&& after.enabled == on
            &&& after.target == watch.target
            &&& after.table == watch.table
            &&& on ==> {
                &&& after.capture == watch.capture
                &&& after.block_writes == watch.block_writes
                &&& after.bp_set == watch.bp_set
                &&& watch.handler_needed(on) ==> after.veh_handle == added
                &&& !watch.handler_needed(on) ==> after.veh_handle == watch.veh_handle
            }
            &&& !on ==> {
                &&& !after.capture
                &&& !after.block_writes
                &&& !after.bp_set
                &&& after.veh_handle == 0
            }
        }),
        watch.handler_needed(on) <==> on && watch.veh_handle == 0,
{
}

/// What switching the feature off removes is what is there: the breakpoint
/// exactly if it is armed, and the exception handler exactly if one is
/// registered, under its own handle.
pub proof fn law_teardown_matches_state(watch: PropertyWatch)
    ensures
        watch.bp_set ==> teardown(watch).breakpoint is Disarm,
        !watch.bp_set ==> teardown(watch).breakpoint is Keep,
        watch.veh_handle == 0 ==> teardown(watch).handler is None,
        watch.veh_handle != 0 ==> teardown(watch).handler == Some(watch.veh_handle),
        nothing_to_remove().breakpoint is Keep,
        nothing_to_remove().handler is None,
{
}

/// The removals are those that a teardown names, each once, and the exception
/// handler's comes after the breakpoint's.
pub proof fn law_removals_are_those_named(teardown: Teardown)
    ensures
        removals(teardown).contains(Removal::Breakpoint) <==> teardown.breakpoint is Disarm,
        forall|handle: u64| #[trigger]
            removals(teardown).contains(Removal::Handler { handle }) <==> teardown.handler == Some(
                handle,
            ),
        removals(teardown).no_duplicates(),
        forall|i: int, j: int|
            0 <= i < removals(teardown).len() && 0 <= j < removals(teardown).len()
                && #[trigger] removals(teardown)[i] is Breakpoint && #[trigger] removals(
                teardown,
            )[j] is Handler ==> i < j,
{
    let all = removals(teardown);
    if teardown.breakpoint is Disarm {
        assert(all[0] == Removal::Breakpoint);
    }
    if let Some(handle) = teardown.handler {
        assert(all[all.len() - 1] == (Removal::Handler { handle }));
    }
}

/// While the feature is off, a well formed state has nothing in the process. In
/// any well formed state the breakpoint is armed exactly while addresses are
/// being captured, and no address is captured twice.
pub proof fn law_well_formed_state(watch: PropertyWatch)
    requires
        watch.wf(),
    ensures
        watch.bp_set == watch.capture,
        !watch.enabled ==> !watch.capture && !watch.bp_set && !watch.block_writes
            && watch.veh_handle == 0,
        forall|i: int, j: int|
            0 <= i < j < MAX_PROPS && #[trigger] watch.table.addrs@[j] != 0 ==> #[trigger]
            watch.table.addrs@[i] != 0 && watch.table.addrs@[i] != watch.table.addrs@[j],
{
}

/// An exception that came without a description changes nothing.
pub proof fn law_handler_ignores_bare_exception(
    before: PropertyWatch,
    now: u64,
    after: PropertyWatch,
)
    requires
        handled(before, None, now, after),
    ensures
        after == before,
{
}

/// Setting the toggle on removes nothing. Setting it off removes the breakpoint
/// exactly if it is armed and the exception handler exactly if one is registered,
/// and setting it off again removes nothing more.
pub proof fn law_toggle_removes_what_is_there(watch: PropertyWatch, on: bool, added: u64)
    ensures
        ({
            let removed = toggle_removes(watch, on);
            let again = toggle_removes(toggled(watch, false, added), on);
            &&& removed.breakpoint is Disarm <==> !on && watch.bp_set
            &&& removed.breakpoint is Keep <==> on || !watch.bp_set
            &&& removed.handler is Some <==> !on && watch.veh_handle != 0
            &&& removed.handler matches Some(handle) ==> handle == watch.veh_handle
            &&& again.breakpoint is Keep
            &&& again.handler is None
        }),
{
}

} // verus!

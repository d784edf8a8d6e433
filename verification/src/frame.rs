//! What holds of whole frames of the property editor's panel.

use vstd::prelude::*;

use crate::capture::{captured, cleared, distinct, first_taken, free_slots, records};
use crate::capture::{law_captured_is_all, law_free_slots_hold_nothing, law_record_captures};
use crate::capture::{law_serial_follows_table, lemma_first_free, lemma_first_taken};
use crate::capture::{CaptureTable, MAX_PROPS};
use crate::property_editor::EditorModel;
use crate::property_editor::{law_applied_values_are_read_back, property_writes, written};
use crate::render::{editor_after, first_step, read_from, refresh_due, step_after, watch_after};
use crate::render::{lemma_step_after, ApplySwitch, Checkbox, Divider, Note, RenderStep, Reply};
use crate::watch::{BreakpointChange, PropertyWatch};

verus! {

/// A frame from `step` on, in which `replies` says what comes of each step: the
/// editor and the shared state at its end, and the steps on the way.
pub open spec fn frame(
    editor: EditorModel,
    watch: PropertyWatch,
    step: RenderStep,
    replies: spec_fn(RenderStep) -> Reply,
) -> (EditorModel, PropertyWatch, Seq<RenderStep>)
    decreases step.steps_ahead(),
{
    if step is Done || !step.wf() {
        (editor, watch, seq![])
    } else {
        proof {
            lemma_step_after(editor, watch, step, replies(step));
        }
        let rest = frame(
            editor_after(editor, watch, step, replies(step)),
            watch_after(watch, step, replies(step)),
            step_after(editor, watch, step, replies(step)),
            replies,
        );
        (rest.0, rest.1, seq![step] + rest.2)
    }
}

/// The slots, from `from` on, that hold an address.
pub open spec fn taken_slots(addrs: Seq<u64>, from: int) -> Seq<int>
    decreases addrs.len() - from,
{
    if from >= addrs.len() {
        seq![]
    } else if addrs[from] == 0 {
        taken_slots(addrs, from + 1)
    } else {
        seq![from] + taken_slots(addrs, from + 1)
    }
}

/// The slots whose input field is drawn among the steps.
pub open spec fn drawn_inputs(steps: Seq<RenderStep>) -> Seq<int>
    decreases steps.len(),
{
    if steps.len() == 0 {
        seq![]
    } else {
        let rest = drawn_inputs(steps.drop_first());
        match steps[0] {
            RenderStep::InputValue { index, .. } => seq![index as int] + rest,
            _ => rest,
        }
    }
}

/// The slots whose input field is still to be drawn from a step on.
spec fn inputs_ahead(addrs: Seq<u64>, step: RenderStep) -> Seq<int> {
    match step {
        RenderStep::ReadProperty { .. } => taken_slots(addrs, 0),
        RenderStep::Separator { place: Divider::Header { selected } } => if selected {
            taken_slots(addrs, 0)
        } else {
            seq![]
        },
        RenderStep::PropertyName { index } => seq![index as int] + taken_slots(addrs, index + 1),
        RenderStep::InputWidth { index } => seq![index as int] + taken_slots(addrs, index + 1),
        RenderStep::InputValue { index, .. } => seq![index as int] + taken_slots(
            addrs,
            index + 1,
        ),
        RenderStep::Apply { cause: ApplySwitch::Input { index } } => taken_slots(addrs, index + 1),
        _ => if step.steps_ahead() > 50 && addrs[0] != 0 {
            taken_slots(addrs, 0)
        } else {
            seq![]
        },
    }
}

proof fn lemma_taken_slots(addrs: Seq<u64>, from: int)
    requires
        0 <= from <= addrs.len(),
    ensures
        ({
            let at = first_taken(addrs, from);
            taken_slots(addrs, from) == if at < addrs.len() {
                seq![at] + taken_slots(addrs, at + 1)
            } else {
                seq![]
            }
        }),
    decreases addrs.len() - from,
{
    if from < addrs.len() && addrs[from] == 0 {
        lemma_taken_slots(addrs, from + 1);
    }
}

/// One step draws at most its own input field, and leaves the rest ahead.
#[verifier::rlimit(40)]
proof fn lemma_inputs_ahead_step(
    editor: EditorModel,
    watch: PropertyWatch,
    step: RenderStep,
    reply: Reply,
)
    requires
        step.wf(),
        step != RenderStep::Done,
    ensures
        inputs_ahead(watch.table.addrs@, step) == (match step {
            RenderStep::InputValue { index, .. } => seq![index as int],
            _ => seq![],
        }) + inputs_ahead(
            watch_after(watch, step, reply).table.addrs@,
            step_after(editor, watch, step, reply),
        ),
{
    let addrs = watch.table.addrs@;
    let next = step_after(editor, watch, step, reply);
    lemma_taken_slots(addrs, 0);
    lemma_first_taken(addrs, 0);
    match step {
        RenderStep::ReadProperty { index, .. } => {
            lemma_first_taken(addrs, index + 1);
        },
        RenderStep::InputValue { index, .. } => {
            lemma_taken_slots(addrs, index + 1);
            lemma_first_taken(addrs, index + 1);
        },
        RenderStep::Apply { cause: ApplySwitch::Input { index } } => {
            lemma_taken_slots(addrs, index + 1);
            lemma_first_taken(addrs, index + 1);
        },
        RenderStep::DebugLine { index, .. } => {
            lemma_first_taken(addrs, index + 1);
        },
        _ => {},
    }
    assert(Seq::<int>::empty() + inputs_ahead(watch_after(watch, step, reply).table.addrs@, next)
        =~= inputs_ahead(watch_after(watch, step, reply).table.addrs@, next));
}

proof fn lemma_inputs_ahead(
    editor: EditorModel,
    watch: PropertyWatch,
    step: RenderStep,
    replies: spec_fn(RenderStep) -> Reply,
)
    requires
        step.wf(),
    ensures
        drawn_inputs(frame(editor, watch, step, replies).2) == inputs_ahead(
            watch.table.addrs@,
            step,
        ),
    decreases step.steps_ahead(),
{
    if step != RenderStep::Done {
        let reply = replies(step);
        let edited = editor_after(editor, watch, step, reply);
        let after = watch_after(watch, step, reply);
        let next = step_after(editor, watch, step, reply);
        lemma_step_after(editor, watch, step, reply);
        lemma_inputs_ahead_step(editor, watch, step, reply);
        lemma_inputs_ahead(edited, after, next, replies);
        let rest = frame(edited, after, next, replies).2;
        assert((seq![step] + rest).drop_first() =~= rest);
        assert(Seq::<int>::empty() + drawn_inputs(rest) =~= drawn_inputs(rest));
    }
}

/// Whatever the user does, a frame shows the value of each captured property
/// once and in the order of the slots, and none where no component is captured
/// or the feature is off.
pub proof fn law_frame_shows_captured(
    editor: EditorModel,
    watch: PropertyWatch,
    replies: spec_fn(RenderStep) -> Reply,
)
    ensures
        drawn_inputs(frame(editor, watch, first_step(watch), replies).2) == (if watch.enabled
            && watch.table.addrs@[0] != 0 {
            taken_slots(watch.table.addrs@, 0)
        } else {
            seq![]
        }),
{
    lemma_inputs_ahead(editor, watch, first_step(watch), replies);
}

/// The slots whose address is listed among the steps.
pub open spec fn listed_addresses(steps: Seq<RenderStep>) -> Seq<int>
    decreases steps.len(),
{
    if steps.len() == 0 {
        seq![]
    } else {
        let rest = listed_addresses(steps.drop_first());
        match steps[0] {
            RenderStep::DebugLine { index, .. } => seq![index as int] + rest,
            _ => rest,
        }
    }
}

/// Whether the checkbox of the list is still to be drawn from a step on.
spec fn list_ahead(addrs: Seq<u64>, step: RenderStep) -> bool {
    match step {
        RenderStep::Separator { place: Divider::Header { selected } } => selected,
        RenderStep::Note { note } => note == Note::BeforeApply,
        RenderStep::ReadProperty { .. } => true,
        RenderStep::DebugLine { .. } => false,
        RenderStep::Done => false,
        _ => step.steps_ahead() > 50 ==> addrs[0] != 0,
    }
}

#[verifier::rlimit(40)]
proof fn lemma_list_ahead(
    editor: EditorModel,
    watch: PropertyWatch,
    step: RenderStep,
    replies: spec_fn(RenderStep) -> Reply,
)
    requires
        step.wf(),
    ensures
        ({
            let end = frame(editor, watch, step, replies);
            let listed = listed_addresses(end.2);
            match step {
                RenderStep::DebugLine { index, .. } => listed == seq![index as int] + taken_slots(
                    watch.table.addrs@,
                    index + 1,
                ) && end.0 == editor && end.1 == watch,
                _ => listed == if list_ahead(watch.table.addrs@, step) && end.0.show_debug {
                    taken_slots(end.1.table.addrs@, 0)
                } else {
                    seq![]
                },
            }
        }),
    decreases step.steps_ahead(),
{
    let addrs = watch.table.addrs@;
    let reply = replies(step);
    let next = step_after(editor, watch, step, reply);
    let after = watch_after(watch, step, reply);
    if step != RenderStep::Done {
        lemma_step_after(editor, watch, step, reply);
        lemma_list_ahead(editor_after(editor, watch, step, reply), after, next, replies);
        let rest = frame(editor_after(editor, watch, step, reply), after, next, replies).2;
        assert((seq![step] + rest).drop_first() =~= rest);
        lemma_taken_slots(addrs, 0);
        lemma_first_taken(addrs, 0);
        match step {
            RenderStep::ReadProperty { index, .. } => {
                lemma_first_taken(addrs, index + 1);
            },
            RenderStep::InputValue { index, .. } => {
                lemma_first_taken(addrs, index + 1);
            },
            RenderStep::Apply { cause: ApplySwitch::Input { index } } => {
                lemma_first_taken(addrs, index + 1);
            },
            RenderStep::DebugLine { index, .. } => {
                lemma_taken_slots(addrs, index + 1);
                lemma_first_taken(addrs, index + 1);
            },
            _ => {},
        }
    }
}

/// Whatever the user does, a frame lists the address of each captured property
/// once and in the order of the slots if the list is switched on by its end,
/// and none otherwise. What the user emptied in the frame is not listed.
pub proof fn law_frame_lists_captured(
    editor: EditorModel,
    watch: PropertyWatch,
    replies: spec_fn(RenderStep) -> Reply,
)
    ensures
        ({
            let end = frame(editor, watch, first_step(watch), replies);
            listed_addresses(end.2) == if watch.enabled && watch.table.addrs@[0] != 0
                && end.0.show_debug {
                taken_slots(end.1.table.addrs@, 0)
            } else {
                seq![]
            }
        }),
{
    lemma_list_ahead(editor, watch, first_step(watch), replies);
}

/// Whether the breakpoint is armed after a change.
pub open spec fn changed(armed: bool, change: BreakpointChange) -> bool {
    match change {
        BreakpointChange::Keep => armed,
        BreakpointChange::Arm { .. } => true,
        BreakpointChange::Disarm => false,
    }
}

/// Whether the breakpoint is armed after the steps were performed.
pub open spec fn armed_after(armed: bool, steps: Seq<RenderStep>) -> bool
    decreases steps.len(),
{
    if steps.len() == 0 {
        armed
    } else {
        let next = match steps[0] {
            RenderStep::Breakpoint { change, .. } => changed(armed, change),
            _ => armed,
        };
        armed_after(next, steps.drop_first())
    }
}

#[verifier::rlimit(40)]
proof fn lemma_armed_after(
    editor: EditorModel,
    watch: PropertyWatch,
    step: RenderStep,
    replies: spec_fn(RenderStep) -> Reply,
    armed: bool,
)
    requires
        step.wf(),
        match step {
            RenderStep::Breakpoint { change, .. } => changed(armed, change) == watch.bp_set,
            _ => armed == watch.bp_set,
        },
    ensures
        ({
            let end = frame(editor, watch, step, replies);
            armed_after(armed, end.2) == end.1.bp_set
        }),
    decreases step.steps_ahead(),
{
    if step != RenderStep::Done {
        let reply = replies(step);
        let next = step_after(editor, watch, step, reply);
        let after = watch_after(watch, step, reply);
        let armed_next = match step {
            RenderStep::Breakpoint { change, .. } => changed(armed, change),
            _ => armed,
        };
        lemma_step_after(editor, watch, step, reply);
        lemma_armed_after(
            editor_after(editor, watch, step, reply),
            after,
            next,
            replies,
            armed_next,
        );
        let rest = frame(editor_after(editor, watch, step, reply), after, next, replies).2;
        assert((seq![step] + rest).drop_first() =~= rest);
    }
}

/// Whatever the user does, at the end of a frame the breakpoint is armed
/// exactly if the shared state says so, provided that it was so before.
pub proof fn law_frame_tracks_breakpoint(
    editor: EditorModel,
    watch: PropertyWatch,
    replies: spec_fn(RenderStep) -> Reply,
)
    ensures
        ({
            let end = frame(editor, watch, first_step(watch), replies);
            armed_after(watch.bp_set, end.2) == end.1.bp_set
        }),
{
    lemma_armed_after(editor, watch, first_step(watch), replies, watch.bp_set);
}

/// Nobody touches the panel, and the memory holds the property `mem(a)` at each
/// address `a`.
pub open spec fn untouched(
    replies: spec_fn(RenderStep) -> Reply,
    mem: spec_fn(u64) -> u32,
) -> bool {
    forall|step: RenderStep| #[trigger]
        replies(step) == (Reply {
            hit: false,
            checked: match step {
                RenderStep::Checkbox { checked, .. } => checked,
                _ => false,
            },
            bits: match step {
                RenderStep::ReadProperty { addr, .. } => mem(addr),
                _ => 0,
            },
        })
}

/// The values after those of the captured properties were read, from slot
/// `from` on.
pub open spec fn read_values(
    addrs: Seq<u64>,
    values: Seq<u32>,
    from: int,
    mem: spec_fn(u64) -> u32,
) -> Seq<u32> {
    Seq::new(
        values.len(),
        |i: int|
            if i >= from && addrs[i] != 0 {
                mem(addrs[i])
            } else {
                values[i]
            },
    )
}

/// A checkbox shows the state that it is for.
spec fn faithful(editor: EditorModel, step: RenderStep) -> bool {
    match step {
        RenderStep::Checkbox { which: Checkbox::InstantUpdate, checked } => checked
            == editor.instant_update,
        RenderStep::Checkbox { which: Checkbox::ShowDebug, checked } => checked
            == editor.show_debug,
        _ => true,
    }
}

/// Once the values were read, nothing changes in a frame that nobody touches.
proof fn lemma_untouched_tail(
    editor: EditorModel,
    watch: PropertyWatch,
    step: RenderStep,
    replies: spec_fn(RenderStep) -> Reply,
    mem: spec_fn(u64) -> u32,
)
    requires
        step.wf(),
        step.steps_ahead() <= 40,
        faithful(editor, step),
        untouched(replies, mem),
    ensures
        frame(editor, watch, step, replies).0 == editor,
        frame(editor, watch, step, replies).1 == watch,
    decreases step.steps_ahead(),
{
    if step != RenderStep::Done {
        let reply = replies(step);
        let next = step_after(editor, watch, step, reply);
        lemma_step_after(editor, watch, step, reply);
        assert(editor_after(editor, watch, step, reply) == editor);
        assert(watch_after(watch, step, reply) == watch);
        assert(faithful(editor, next));
        lemma_untouched_tail(editor, watch, next, replies, mem);
    }
}

/// Reading the values, from the slot that is up next.
proof fn lemma_untouched_reads(
    editor: EditorModel,
    watch: PropertyWatch,
    from: int,
    serial: u32,
    replies: spec_fn(RenderStep) -> Reply,
    mem: spec_fn(u64) -> u32,
)
    requires
        0 <= from <= MAX_PROPS,
        editor.values.len() == MAX_PROPS,
        untouched(replies, mem),
        first_taken(watch.table.addrs@, from) < MAX_PROPS || editor.last_serial == serial,
    ensures
        ({
            let end = frame(editor, watch, read_from(watch.table, from, serial), replies);
            &&& end.0 == (EditorModel {
                values: read_values(watch.table.addrs@, editor.values, from, mem),
                last_serial: serial,
                ..editor
            })
            &&& end.1 == watch
        }),
    decreases MAX_PROPS - from,
{
    let addrs = watch.table.addrs@;
    let step = read_from(watch.table, from, serial);
    let at = first_taken(addrs, from);
    lemma_first_taken(addrs, from);
    if at < MAX_PROPS {
        let after = editor_after(editor, watch, step, replies(step));
        lemma_first_taken(addrs, at + 1);
        lemma_untouched_reads(after, watch, at + 1, serial, replies, mem);
        assert(read_values(addrs, after.values, at + 1, mem) =~= read_values(
            addrs,
            editor.values,
            from,
            mem,
        ));
    } else {
        lemma_untouched_tail(editor, watch, step, replies, mem);
        assert(read_values(addrs, editor.values, from, mem) =~= editor.values);
    }
}

/// A frame that nobody touches leaves the shared state alone. It changes the
/// editor only where reading the values is due: then the values of the
/// captured properties are those in memory, and reading is no longer due.
pub proof fn law_untouched_frame_refreshes(
    editor: EditorModel,
    watch: PropertyWatch,
    replies: spec_fn(RenderStep) -> Reply,
    mem: spec_fn(u64) -> u32,
)
    requires
        watch.enabled,
        editor.values.len() == MAX_PROPS,
        untouched(replies, mem),
    ensures
        ({
            let end = frame(editor, watch, first_step(watch), replies);
            &&& end.1 == watch
            &&& end.0 == (if refresh_due(editor, watch.table) {
                EditorModel {
                    values: read_values(watch.table.addrs@, editor.values, 0, mem),
                    last_serial: watch.table.serial,
                    ..editor
                }
            } else {
                editor
            })
            &&& !refresh_due(end.0, end.1.table)
        }),
{
    reveal_with_fuel(frame, 7);
    if refresh_due(editor, watch.table) {
        lemma_untouched_reads(editor, watch, 0, watch.table.serial, replies, mem);
    } else {
        let header = RenderStep::Separator {
            place: Divider::Header { selected: watch.table.addrs@[0] != 0 },
        };
        lemma_untouched_tail(editor, watch, header, replies, mem);
    }
}

/// Values that were applied stay as they are when they are read again.
pub proof fn law_applied_values_survive_refresh(
    mem: spec_fn(u64) -> u32,
    addrs: Seq<u64>,
    values: Seq<u32>,
)
    requires
        distinct(addrs),
        values.len() == addrs.len(),
    ensures
        read_values(addrs, values, 0, written(mem, property_writes(addrs, values, 0))) == values,
{
    law_applied_values_are_read_back(mem, addrs, values);
    assert(read_values(addrs, values, 0, written(mem, property_writes(addrs, values, 0)))
        =~= values);
}

/// Where the shown values are those of the table, a capture that changes the
/// table makes reading them due.
pub proof fn law_changed_table_is_read(
    editor: EditorModel,
    before: CaptureTable,
    prop: u64,
    now: u64,
    after: CaptureTable,
)
    requires
        records(before, prop, now, after),
        prop != 0,
        editor.read_on_select,
        editor.last_serial == before.serial,
    ensures
        refresh_due(editor, after) <==> after.addrs@ != before.addrs@,
{
    law_serial_follows_table(before.addrs@, before.serial, before.last_ms, prop, now);
    lemma_first_free(before.addrs@, 0);
}

/// The first capture after the user emptied the table is all that the table
/// holds, and reading its value is due. The one exception is a serial that
/// comes to 0 on the way.
pub proof fn law_capture_after_clear_is_read(
    editor: EditorModel,
    before: CaptureTable,
    prop: u64,
    now: u64,
    after: CaptureTable,
)
    requires
        records(cleared(before), prop, now, after),
        prop != 0,
        editor.read_on_select,
        editor.last_serial == 0,
        before.serial != u32::MAX - 1,
    ensures
        captured(after.addrs@) == seq![prop],
        refresh_due(editor, after),
{
    let empty = cleared(before).addrs@;
    assert(empty =~= free_slots(MAX_PROPS as nat));
    law_free_slots_hold_nothing(MAX_PROPS as nat);
    law_record_captures(empty, 0, prop, now);
    law_captured_is_all(empty);
    law_captured_is_all(after.addrs@);
    assert(captured(after.addrs@) =~= seq![prop]);
}

} // verus!

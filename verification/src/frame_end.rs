//! What a frame of the property editor's panel leaves behind.

use vstd::prelude::*;

use crate::capture::{cleared, law_clear_frees_all, lemma_first_taken};
use crate::capture::{law_serial_tells_changes, recorded_all};
use crate::capture::{CaptureTable, MAX_PROPS};
use crate::frame::{frame, law_untouched_frame_refreshes, taken_slots, untouched};
use crate::frame_steps::{law_frame_takes_these_steps, panel_ahead};
use crate::frame_writes::{frame_writes, input_reply, instant_writes, shown};
use crate::frame_writes::{law_frame_keeps_entered_values, law_frame_writes_on_demand};
use crate::property_editor::{fresh_editor, law_apply_writes_taken, property_writes, writes_slot};
use crate::property_editor::{EditorModel, PropertyWrite};
use crate::render::{editor_after, first_step, step_after, watch_after};
use crate::render::{lemma_step_after, ApplySwitch, Button, CaptureSwitch, Checkbox};
use crate::render::{RenderStep, Reply};
use crate::watch::{BreakpointChange, PropertyWatch};

verus! {

/// Whether capturing is on, and the breakpoint armed, after the capture checkbox
/// was drawn.
spec fn after_capture_box(
    capture: bool,
    armed: bool,
    replies: spec_fn(RenderStep) -> Reply,
) -> (bool, bool) {
    let reply = replies(RenderStep::Checkbox { which: Checkbox::Capture, checked: capture });
    if reply.hit {
        (reply.checked, reply.checked)
    } else {
        (capture, armed)
    }
}

/// Whether capturing is on, and the breakpoint armed, at the end of a frame.
spec fn capture_ahead(
    watch: PropertyWatch,
    step: RenderStep,
    replies: spec_fn(RenderStep) -> Reply,
) -> (bool, bool) {
    match step {
        RenderStep::PollCaptureKey => if replies(step).hit {
            after_capture_box(!watch.capture, !watch.capture, replies)
        } else {
            after_capture_box(watch.capture, watch.bp_set, replies)
        },
        RenderStep::Breakpoint { asked_by: CaptureSwitch::Key, .. } => after_capture_box(
            watch.capture,
            watch.bp_set,
            replies,
        ),
        RenderStep::Checkbox { which: Checkbox::Capture, .. } => if replies(step).hit {
            (replies(step).checked, replies(step).checked)
        } else {
            (watch.capture, watch.bp_set)
        },
        _ => (watch.capture, watch.bp_set),
    }
}

/// Whether the game's writes are blocked at the end of a frame.
spec fn blocked_ahead(
    watch: PropertyWatch,
    step: RenderStep,
    replies: spec_fn(RenderStep) -> Reply,
) -> bool {
    let drawn = match step {
        RenderStep::Checkbox { which: Checkbox::BlockWrites, .. } => step,
        _ => RenderStep::Checkbox { which: Checkbox::BlockWrites, checked: watch.block_writes },
    };
    if step.steps_ahead() >= 54 && replies(drawn).hit {
        replies(drawn).checked
    } else {
        watch.block_writes
    }
}

/// Whether the user empties the table from a step on.
spec fn clear_ahead(
    addrs: Seq<u64>,
    step: RenderStep,
    replies: spec_fn(RenderStep) -> Reply,
) -> bool {
    panel_ahead(addrs, step) && step.steps_ahead() >= 12 && replies(
        RenderStep::Button { button: Button::Clear },
    ).hit
}

/// The serial of the values at the end of a frame.
spec fn serial_ahead(
    editor: EditorModel,
    table: CaptureTable,
    step: RenderStep,
    replies: spec_fn(RenderStep) -> Reply,
) -> u32 {
    if clear_ahead(table.addrs@, step, replies) {
        0
    } else {
        match step {
            RenderStep::ReadProperty { serial, .. } => serial,
            _ => if step.steps_ahead() > 50 && editor.read_on_select && table.addrs@[0] != 0 {
                table.serial
            } else {
                editor.last_serial
            },
        }
    }
}

/// Whether instant update is on at the end of a frame.
spec fn instant_ahead(
    editor: EditorModel,
    step: RenderStep,
    replies: spec_fn(RenderStep) -> Reply,
) -> bool {
    let drawn = match step {
        RenderStep::Checkbox { which: Checkbox::InstantUpdate, .. } => step,
        _ => RenderStep::Checkbox {
            which: Checkbox::InstantUpdate,
            checked: editor.instant_update,
        },
    };
    if step.steps_ahead() >= 51 {
        replies(drawn).checked
    } else {
        editor.instant_update
    }
}

/// Whether the addresses are listed at the end of a frame.
spec fn listing_ahead(
    editor: EditorModel,
    addrs: Seq<u64>,
    step: RenderStep,
    replies: spec_fn(RenderStep) -> Reply,
) -> bool {
    let drawn = match step {
        RenderStep::Checkbox { which: Checkbox::ShowDebug, .. } => step,
        _ => RenderStep::Checkbox { which: Checkbox::ShowDebug, checked: editor.show_debug },
    };
    if panel_ahead(addrs, step) && step.steps_ahead() >= 11 {
        replies(drawn).checked
    } else {
        editor.show_debug
    }
}

/// Each step leaves the switches ahead as they were foreseen.
#[verifier::rlimit(60)]
proof fn lemma_step_switches(
    editor: EditorModel,
    watch: PropertyWatch,
    step: RenderStep,
    replies: spec_fn(RenderStep) -> Reply,
)
    requires
        step.wf(),
        step != RenderStep::Done,
    ensures
        ({
            let after = watch_after(watch, step, replies(step));
            let next = step_after(editor, watch, step, replies(step));
            &&& capture_ahead(after, next, replies) == capture_ahead(watch, step, replies)
            &&& blocked_ahead(after, next, replies) == blocked_ahead(watch, step, replies)
            &&& after.target == watch.target
            &&& after.enabled == watch.enabled
            &&& after.veh_handle == watch.veh_handle
        }),
{
    let addrs = watch.table.addrs@;
    lemma_first_taken(addrs, 0);
    match step {
        RenderStep::ReadProperty { index, .. } => lemma_first_taken(addrs, index + 1),
        RenderStep::InputValue { index, .. } => lemma_first_taken(addrs, index + 1),
        RenderStep::Apply { cause: ApplySwitch::Input { index } } => lemma_first_taken(
            addrs,
            index + 1,
        ),
        RenderStep::DebugLine { index, .. } => lemma_first_taken(addrs, index + 1),
        _ => {},
    }
}

/// Each step leaves the table ahead as it was foreseen.
#[verifier::rlimit(60)]
proof fn lemma_step_table(
    editor: EditorModel,
    watch: PropertyWatch,
    step: RenderStep,
    replies: spec_fn(RenderStep) -> Reply,
)
    requires
        step.wf(),
        step != RenderStep::Done,
    ensures
        ({
            let after = watch_after(watch, step, replies(step));
            let next = step_after(editor, watch, step, replies(step));
            &&& (if clear_ahead(after.table.addrs@, next, replies) {
                cleared(after.table)
            } else {
                after.table
            }) == (if clear_ahead(watch.table.addrs@, step, replies) {
                cleared(watch.table)
            } else {
                watch.table
            })
            &&& next.steps_ahead() >= 11 ==> panel_ahead(after.table.addrs@, next) == panel_ahead(
                watch.table.addrs@,
                step,
            )
            &&& next.steps_ahead() >= 12 ==> after.table == watch.table
        }),
{
    let addrs = watch.table.addrs@;
    lemma_first_taken(addrs, 0);
    match step {
        RenderStep::ReadProperty { index, .. } => lemma_first_taken(addrs, index + 1),
        RenderStep::InputValue { index, .. } => lemma_first_taken(addrs, index + 1),
        RenderStep::Apply { cause: ApplySwitch::Input { index } } => lemma_first_taken(
            addrs,
            index + 1,
        ),
        RenderStep::DebugLine { index, .. } => lemma_first_taken(addrs, index + 1),
        _ => {},
    }
}

spec fn serial_kept(
    editor: EditorModel,
    watch: PropertyWatch,
    step: RenderStep,
    replies: spec_fn(RenderStep) -> Reply,
) -> bool {
    let edited = editor_after(editor, watch, step, replies(step));
    let after = watch_after(watch, step, replies(step));
    let next = step_after(editor, watch, step, replies(step));
    serial_ahead(edited, after.table, next, replies) == serial_ahead(
        editor,
        watch.table,
        step,
        replies,
    )
}

/// Each step leaves the serial ahead as it was foreseen.
#[verifier::rlimit(60)]
proof fn lemma_step_serial(
    editor: EditorModel,
    watch: PropertyWatch,
    step: RenderStep,
    replies: spec_fn(RenderStep) -> Reply,
)
    requires
        step.wf(),
        step != RenderStep::Done,
    ensures
        serial_kept(editor, watch, step, replies),
{
    let addrs = watch.table.addrs@;
    lemma_first_taken(addrs, 0);
    match step {
        RenderStep::Checkbox { which: Checkbox::InstantUpdate, .. } => {
            assert(serial_kept(editor, watch, step, replies));
        },
        RenderStep::Checkbox { which: Checkbox::ShowDebug, .. } => {
            assert(serial_kept(editor, watch, step, replies));
        },
        RenderStep::Checkbox { .. } => {
            assert(serial_kept(editor, watch, step, replies));
        },
        RenderStep::ReadProperty { index, .. } => {
            lemma_first_taken(addrs, index + 1);
            assert(serial_kept(editor, watch, step, replies));
        },
        RenderStep::InputValue { index, .. } => {
            lemma_first_taken(addrs, index + 1);
            assert(serial_kept(editor, watch, step, replies));
        },
        RenderStep::Apply { cause: ApplySwitch::Input { index } } => {
            lemma_first_taken(addrs, index + 1);
            assert(serial_kept(editor, watch, step, replies));
        },
        RenderStep::DebugLine { index, .. } => {
            lemma_first_taken(addrs, index + 1);
            assert(serial_kept(editor, watch, step, replies));
        },
        RenderStep::Separator { .. } => {
            assert(serial_kept(editor, watch, step, replies));
        },
        RenderStep::Button { .. } => {
            assert(serial_kept(editor, watch, step, replies));
        },
        RenderStep::Note { .. } => {
            assert(serial_kept(editor, watch, step, replies));
        },
        RenderStep::PropertyName { .. } | RenderStep::InputWidth { .. } => {
            assert(serial_kept(editor, watch, step, replies));
        },
        _ => {
            assert(serial_kept(editor, watch, step, replies));
        },
    }
}

/// Each step leaves instant update ahead as it was foreseen.
#[verifier::rlimit(60)]
proof fn lemma_step_instant(
    editor: EditorModel,
    watch: PropertyWatch,
    step: RenderStep,
    replies: spec_fn(RenderStep) -> Reply,
)
    requires
        step.wf(),
        step != RenderStep::Done,
    ensures
        ({
            let edited = editor_after(editor, watch, step, replies(step));
            let next = step_after(editor, watch, step, replies(step));
            &&& edited.read_on_select == editor.read_on_select
            &&& instant_ahead(edited, next, replies) == instant_ahead(editor, step, replies)
        }),
{
    lemma_step_table(editor, watch, step, replies);
    let addrs = watch.table.addrs@;
    lemma_first_taken(addrs, 0);
    match step {
        RenderStep::ReadProperty { index, .. } => lemma_first_taken(addrs, index + 1),
        RenderStep::InputValue { index, .. } => lemma_first_taken(addrs, index + 1),
        RenderStep::Apply { cause: ApplySwitch::Input { index } } => lemma_first_taken(
            addrs,
            index + 1,
        ),
        RenderStep::DebugLine { index, .. } => lemma_first_taken(addrs, index + 1),
        _ => {},
    }
}

/// Each step leaves the listing ahead as it was foreseen.
#[verifier::rlimit(60)]
proof fn lemma_step_listing(
    editor: EditorModel,
    watch: PropertyWatch,
    step: RenderStep,
    replies: spec_fn(RenderStep) -> Reply,
)
    requires
        step.wf(),
        step != RenderStep::Done,
    ensures
        ({
            let edited = editor_after(editor, watch, step, replies(step));
            let after = watch_after(watch, step, replies(step));
            let next = step_after(editor, watch, step, replies(step));
            listing_ahead(edited, after.table.addrs@, next, replies) == listing_ahead(
                editor,
                watch.table.addrs@,
                step,
                replies,
            )
        }),
{
    lemma_step_table(editor, watch, step, replies);
    let addrs = watch.table.addrs@;
    lemma_first_taken(addrs, 0);
    match step {
        RenderStep::ReadProperty { index, .. } => lemma_first_taken(addrs, index + 1),
        RenderStep::InputValue { index, .. } => lemma_first_taken(addrs, index + 1),
        RenderStep::Apply { cause: ApplySwitch::Input { index } } => lemma_first_taken(
            addrs,
            index + 1,
        ),
        RenderStep::DebugLine { index, .. } => lemma_first_taken(addrs, index + 1),
        _ => {},
    }
}

proof fn lemma_frame_end(
    editor: EditorModel,
    watch: PropertyWatch,
    step: RenderStep,
    replies: spec_fn(RenderStep) -> Reply,
)
    requires
        step.wf(),
    ensures
        ({
            let end = frame(editor, watch, step, replies);
            &&& (end.1.capture, end.1.bp_set) == capture_ahead(watch, step, replies)
            &&& end.1.block_writes == blocked_ahead(watch, step, replies)
            &&& end.0.last_serial == serial_ahead(editor, watch.table, step, replies)
            &&& end.0.read_on_select == editor.read_on_select
            &&& end.0.instant_update == instant_ahead(editor, step, replies)
            &&& end.0.show_debug == listing_ahead(editor, watch.table.addrs@, step, replies)
            &&& end.1.table == (if clear_ahead(watch.table.addrs@, step, replies) {
                cleared(watch.table)
            } else {
                watch.table
            })
            &&& end.1.target == watch.target
            &&& end.1.enabled == watch.enabled
            &&& end.1.veh_handle == watch.veh_handle
        }),
    decreases step.steps_ahead(),
{
    if step != RenderStep::Done {
        lemma_step_after(editor, watch, step, replies(step));
        lemma_step_switches(editor, watch, step, replies);
        lemma_step_table(editor, watch, step, replies);
        lemma_step_serial(editor, watch, step, replies);
        lemma_step_instant(editor, watch, step, replies);
        lemma_step_listing(editor, watch, step, replies);
        lemma_frame_end(
            editor_after(editor, watch, step, replies(step)),
            watch_after(watch, step, replies(step)),
            step_after(editor, watch, step, replies(step)),
            replies,
        );
    }
}

/// Whatever the user does, two things decide in a frame whether addresses are
/// captured afterwards: the key, which turns it over, and then the checkbox, which
/// shows it as it is by then and, if clicked, leaves it as the checkbox was left.
/// The breakpoint goes with it. While the feature is off, nothing does.
pub proof fn law_frame_switches_capture(
    editor: EditorModel,
    watch: PropertyWatch,
    replies: spec_fn(RenderStep) -> Reply,
)
    ensures
        ({
            let end = frame(editor, watch, first_step(watch), replies).1;
            let pressed = replies(RenderStep::PollCaptureKey).hit;
            let shown = watch.capture != pressed;
            let reply = replies(
                RenderStep::Checkbox { which: Checkbox::Capture, checked: shown },
            );
            &&& !watch.enabled ==> end.capture == watch.capture && end.bp_set == watch.bp_set
            &&& watch.enabled && reply.hit ==> end.capture == reply.checked && end.bp_set
                == reply.checked
            &&& watch.enabled && !reply.hit && pressed ==> end.capture == !watch.capture
                && end.bp_set == !watch.capture
            &&& watch.enabled && !reply.hit && !pressed ==> end.capture == watch.capture
                && end.bp_set == watch.bp_set
        }),
{
    lemma_frame_end(editor, watch, first_step(watch), replies);
}

/// Whatever the user does, the game's writes are blocked after a frame exactly if
/// the checkbox for it was clicked and left checked, or was not clicked and they
/// were blocked before. While the feature is off, nothing changes it.
pub proof fn law_frame_switches_blocking(
    editor: EditorModel,
    watch: PropertyWatch,
    replies: spec_fn(RenderStep) -> Reply,
)
    ensures
        ({
            let end = frame(editor, watch, first_step(watch), replies).1;
            let reply = replies(
                RenderStep::Checkbox {
                    which: Checkbox::BlockWrites,
                    checked: watch.block_writes,
                },
            );
            &&& watch.enabled && reply.hit ==> end.block_writes == reply.checked
            &&& watch.enabled && !reply.hit ==> end.block_writes == watch.block_writes
            &&& !watch.enabled ==> end.block_writes == watch.block_writes
        }),
{
    lemma_frame_end(editor, watch, first_step(watch), replies);
}

/// Whatever the user does, a frame switches neither the feature on or off nor
/// changes what is watched or registered. The table changes only where the user
/// empties it, which takes a captured component.
pub proof fn law_frame_keeps_the_rest(
    editor: EditorModel,
    watch: PropertyWatch,
    replies: spec_fn(RenderStep) -> Reply,
)
    ensures
        ({
            let end = frame(editor, watch, first_step(watch), replies).1;
            let emptied = watch.enabled && watch.table.addrs@[0] != 0 && replies(
                RenderStep::Button { button: Button::Clear },
            ).hit;
            &&& end.enabled == watch.enabled
            &&& end.target == watch.target
            &&& end.veh_handle == watch.veh_handle
            &&& !emptied ==> end.table == watch.table
            &&& emptied ==> {
                &&& forall|i: int| 0 <= i < MAX_PROPS ==> #[trigger] end.table.addrs@[i] == 0
                &&& end.table.last_ms == 0
                &&& end.table.serial == (watch.table.serial + 1) % 0x1_0000_0000
            }
        }),
{
    lemma_frame_end(editor, watch, first_step(watch), replies);
    law_clear_frees_all(watch.table);
}

/// Whatever the user does, after a frame instant update is as its checkbox was
/// left, and so is the list of addresses where a component is captured. The serial
/// that the values belong to is the table's where they were read, and 0 where the
/// user emptied the table.
pub proof fn law_frame_sets_options(
    editor: EditorModel,
    watch: PropertyWatch,
    replies: spec_fn(RenderStep) -> Reply,
)
    ensures
        ({
            let end = frame(editor, watch, first_step(watch), replies).0;
            let selected = watch.enabled && watch.table.addrs@[0] != 0;
            let emptied = selected && replies(RenderStep::Button { button: Button::Clear }).hit;
            let instant = RenderStep::Checkbox {
                which: Checkbox::InstantUpdate,
                checked: editor.instant_update,
            };
            let listing = RenderStep::Checkbox {
                which: Checkbox::ShowDebug,
                checked: editor.show_debug,
            };
            &&& end.read_on_select == editor.read_on_select
            &&& watch.enabled ==> end.instant_update == replies(instant).checked
            &&& !watch.enabled ==> end.instant_update == editor.instant_update
            &&& selected ==> end.show_debug == replies(listing).checked
            &&& !selected ==> end.show_debug == editor.show_debug
            &&& emptied ==> end.last_serial == 0
            &&& selected && !emptied && editor.read_on_select ==> end.last_serial
                == watch.table.serial
            &&& !selected || (!emptied && !editor.read_on_select) ==> end.last_serial
                == editor.last_serial
        }),
{
    lemma_frame_end(editor, watch, first_step(watch), replies);
}

/// Whatever the user does, each captured property shows the value read in the
/// frame if the table's serial is another than that of the values and reading on
/// select is on, and else the value from before. After the frame it has the value
/// entered for it, or the one shown where none was entered. All other values stay.
pub proof fn law_frame_shows_and_takes_values(
    editor: EditorModel,
    watch: PropertyWatch,
    replies: spec_fn(RenderStep) -> Reply,
    i: int,
)
    requires
        editor.values.len() == MAX_PROPS,
        0 <= i < MAX_PROPS,
    ensures
        ({
            let end = frame(editor, watch, first_step(watch), replies).0;
            let addr = watch.table.addrs@[i];
            let serial = watch.table.serial;
            let shown = if editor.read_on_select && serial != editor.last_serial {
                replies(RenderStep::ReadProperty { index: i as usize, addr, serial }).bits
            } else {
                editor.values[i]
            };
            let reply = replies(RenderStep::InputValue { index: i as usize, bits: shown });
            let drawn = watch.enabled && watch.table.addrs@[0] != 0 && addr != 0;
            &&& end.values.len() == MAX_PROPS
            &&& drawn && reply.hit ==> end.values[i] == reply.bits
            &&& drawn && !reply.hit ==> end.values[i] == shown
            &&& !drawn ==> end.values[i] == editor.values[i]
        }),
{
    law_frame_keeps_entered_values(editor, watch, replies);
}

/// A frame that nobody touches shows the values of the captured component as they
/// are in memory whenever the table's serial is another than that of the values
/// shown before, however far it moved on; the values belong to that serial then.
/// With the same serial, or without reading on select, the values stay.
pub proof fn law_changed_serial_is_read(
    editor: EditorModel,
    watch: PropertyWatch,
    replies: spec_fn(RenderStep) -> Reply,
    mem: spec_fn(u64) -> u32,
)
    requires
        watch.enabled,
        editor.values.len() == MAX_PROPS,
        untouched(replies, mem),
        watch.table.addrs@[0] != 0,
    ensures
        ({
            let end = frame(editor, watch, first_step(watch), replies).0;
            let table = watch.table;
            &&& editor.read_on_select && table.serial != editor.last_serial ==> {
                &&& forall|i: int|
                    0 <= i < MAX_PROPS && #[trigger] table.addrs@[i] != 0 ==> end.values[i] == mem(
                        table.addrs@[i],
                    )
                &&& forall|i: int|
                    0 <= i < MAX_PROPS && #[trigger] table.addrs@[i] == 0 ==> end.values[i]
                        == editor.values[i]
                &&& end.last_serial == table.serial
            }
            &&& !editor.read_on_select || table.serial == editor.last_serial ==> {
                &&& end.values == editor.values
                &&& end.last_serial == editor.last_serial
            }
        }),
{
    law_untouched_frame_refreshes(editor, watch, replies, mem);
}

/// However many captures come between two frames, the frame after them shows what
/// is captured then: where the values belonged to the table before, and the slots
/// are others now, a frame that nobody touches ends with the value in memory of
/// each captured property.
pub proof fn law_captures_between_frames_are_read(
    editor: EditorModel,
    before: CaptureTable,
    props: Seq<u64>,
    times: Seq<u64>,
    watch: PropertyWatch,
    replies: spec_fn(RenderStep) -> Reply,
    mem: spec_fn(u64) -> u32,
)
    requires
        props.len() == times.len(),
        props.len() < 0x8000_0000,
        !props.contains(0),
        recorded_all(before.addrs@, before.serial, before.last_ms, props, times) == (
            watch.table.addrs@,
            watch.table.serial,
            watch.table.last_ms,
        ),
        editor.last_serial == before.serial,
        editor.read_on_select,
        editor.values.len() == MAX_PROPS,
        watch.enabled,
        untouched(replies, mem),
        watch.table.addrs@ != before.addrs@,
    ensures
        ({
            let end = frame(editor, watch, first_step(watch), replies).0;
            &&& forall|i: int|
                0 <= i < MAX_PROPS && #[trigger] watch.table.addrs@[i] != 0 ==> end.values[i]
                    == mem(watch.table.addrs@[i])
            &&& end.last_serial == watch.table.serial
        }),
{
    law_serial_tells_changes(before.addrs@, before.serial, before.last_ms, props, times);
    law_changed_serial_is_read(editor, watch, replies, mem);
}

/// The taken slots are those that hold an address, in ascending order.
pub proof fn law_taken_slots(addrs: Seq<u64>, from: int)
    requires
        0 <= from <= addrs.len(),
    ensures
        forall|i: int| #[trigger]
            taken_slots(addrs, from).contains(i) <==> from <= i < addrs.len() && addrs[i] != 0,
        forall|j: int, k: int|
            0 <= j < k < taken_slots(addrs, from).len() ==> #[trigger] taken_slots(addrs, from)[j]
                < #[trigger] taken_slots(addrs, from)[k],
    decreases addrs.len() - from,
{
    if from < addrs.len() {
        law_taken_slots(addrs, from + 1);
        let rest = taken_slots(addrs, from + 1);
        let slots = taken_slots(addrs, from);
        if addrs[from] != 0 {
            assert forall|i: int| #[trigger] slots.contains(i) <==> from <= i < addrs.len()
                && addrs[i] != 0 by {
                if slots.contains(i) {
                    let k = choose|k: int| 0 <= k < slots.len() && slots[k] == i;
                    if k > 0 {
                        assert(rest[k - 1] == i);
                        assert(rest.contains(i));
                    }
                }
                if i == from {
                    assert(slots[0] == i);
                }
                if rest.contains(i) {
                    let k = choose|k: int| 0 <= k < rest.len() && rest[k] == i;
                    assert(slots[k + 1] == i);
                }
            }
            assert forall|j: int, k: int| 0 <= j < k < slots.len() implies #[trigger] slots[j]
                < #[trigger] slots[k] by {
                assert(slots[k] == rest[k - 1]);
                assert(rest.contains(rest[k - 1]));
                if j > 0 {
                    assert(slots[j] == rest[j - 1]);
                }
            }
        }
    }
}

/// Whatever the table, applying writes the value of each taken slot to the address
/// in it, once and in the order of the slots.
pub proof fn law_apply_goes_by_slots(addrs: Seq<u64>, values: Seq<u32>, from: int)
    requires
        0 <= from <= addrs.len(),
    ensures
        property_writes(addrs, values, from).len() == taken_slots(addrs, from).len(),
        forall|k: int|
            0 <= k < taken_slots(addrs, from).len() ==> {
                &&& (#[trigger] property_writes(addrs, values, from)[k]).addr == addrs[taken_slots(
                    addrs,
                    from,
                )[k]]
                &&& property_writes(addrs, values, from)[k].bits == values[taken_slots(
                    addrs,
                    from,
                )[k]]
            },
    decreases addrs.len() - from,
{
    if from < addrs.len() {
        law_apply_goes_by_slots(addrs, values, from + 1);
        if addrs[from] != 0 {
            let (writes, rest) = (
                property_writes(addrs, values, from),
                property_writes(addrs, values, from + 1),
            );
            let (slots, others) = (taken_slots(addrs, from), taken_slots(addrs, from + 1));
            assert forall|k: int| 0 <= k < slots.len() implies {
                &&& (#[trigger] writes[k]).addr == addrs[slots[k]]
                &&& writes[k].bits == values[slots[k]]
            } by {
                if k > 0 {
                    assert(writes[k] == rest[k - 1]);
                    assert(slots[k] == others[k - 1]);
                }
            }
        }
    }
}

/// Where the breakpoint is armed exactly while addresses are being captured, a
/// frame that ends with capturing off removes it, if it was on, and does not arm it
/// again behind that; and one that ends with capturing on arms it at the watched
/// instruction, if it was off, and does not remove it behind that.
pub proof fn law_frame_moves_breakpoint(
    editor: EditorModel,
    watch: PropertyWatch,
    replies: spec_fn(RenderStep) -> Reply,
)
    requires
        editor.values.len() == MAX_PROPS,
        watch.bp_set == watch.capture,
    ensures
        ({
            let end = frame(editor, watch, first_step(watch), replies);
            let change = |change: BreakpointChange, asked_by: CaptureSwitch|
                RenderStep::Breakpoint { change, asked_by };
            let arm = BreakpointChange::Arm { addr: watch.target };
            &&& end.1.bp_set == end.1.capture
            &&& watch.capture && !end.1.capture ==> {
                &&& end.2.contains(change(BreakpointChange::Disarm, CaptureSwitch::Key))
                    || end.2.contains(change(BreakpointChange::Disarm, CaptureSwitch::Checkbox))
                &&& forall|addr: u64|
                    !end.2.contains(
                        #[trigger] change(BreakpointChange::Arm { addr }, CaptureSwitch::Checkbox),
                    )
            }
            &&& !watch.capture && end.1.capture ==> {
                &&& end.2.contains(change(arm, CaptureSwitch::Key)) || end.2.contains(
                    change(arm, CaptureSwitch::Checkbox),
                )
                &&& !end.2.contains(change(BreakpointChange::Disarm, CaptureSwitch::Checkbox))
            }
        }),
{
    law_frame_switches_capture(editor, watch, replies);
    let steps = frame(editor, watch, first_step(watch), replies).2;
    assert forall|change: BreakpointChange, asked_by: CaptureSwitch|
        #[trigger] steps.contains(RenderStep::Breakpoint { change, asked_by }) implies {
        let pressed = replies(RenderStep::PollCaptureKey).hit;
        let shown = watch.capture != pressed;
        let reply = replies(RenderStep::Checkbox { which: Checkbox::Capture, checked: shown });
        asked_by == CaptureSwitch::Checkbox ==> reply.hit && (change is Disarm ==> !reply.checked)
            && (change is Arm ==> reply.checked)
    } by {
        law_frame_takes_these_steps(
            editor,
            watch,
            replies,
            RenderStep::Breakpoint { change, asked_by },
        );
    }
    let arm = BreakpointChange::Arm { addr: watch.target };
    let off = BreakpointChange::Disarm;
    let (key, clicked) = (CaptureSwitch::Key, CaptureSwitch::Checkbox);
    law_frame_takes_these_steps(
        editor,
        watch,
        replies,
        RenderStep::Breakpoint { change: arm, asked_by: key },
    );
    law_frame_takes_these_steps(
        editor,
        watch,
        replies,
        RenderStep::Breakpoint { change: arm, asked_by: clicked },
    );
    law_frame_takes_these_steps(
        editor,
        watch,
        replies,
        RenderStep::Breakpoint { change: off, asked_by: key },
    );
    law_frame_takes_these_steps(
        editor,
        watch,
        replies,
        RenderStep::Breakpoint { change: off, asked_by: clicked },
    );
}

/// A click on the Apply button writes, as the last thing in the frame, the value
/// that each captured property has at the frame's end to its address, and nothing
/// else.
pub proof fn law_button_writes_end_values(
    editor: EditorModel,
    watch: PropertyWatch,
    replies: spec_fn(RenderStep) -> Reply,
)
    requires
        editor.values.len() == MAX_PROPS,
        watch.enabled,
        watch.table.addrs@[0] != 0,
        replies(RenderStep::Button { button: Button::Apply }).hit,
    ensures
        ({
            let addrs = watch.table.addrs@;
            let end = frame(editor, watch, first_step(watch), replies).0;
            let all = frame_writes(editor, watch, first_step(watch), replies);
            let writes = all[all.len() - 1];
            &&& all.len() > 0
            &&& forall|i: int|
                0 <= i < MAX_PROPS && #[trigger] addrs[i] != 0 ==> writes.contains(
                    PropertyWrite { addr: addrs[i], bits: end.values[i] },
                )
            &&& forall|k: int|
                0 <= k < writes.len() ==> exists|i: int|
                    0 <= i < MAX_PROPS && #[trigger] addrs[i] != 0 && #[trigger] writes[k] == (
                    PropertyWrite { addr: addrs[i], bits: end.values[i] })
        }),
{
    let addrs = watch.table.addrs@;
    let end = frame(editor, watch, first_step(watch), replies).0;
    law_frame_writes_on_demand(editor, watch, replies);
    law_apply_writes_taken(addrs, end.values);
    let writes = property_writes(addrs, end.values, 0);
    let all = frame_writes(editor, watch, first_step(watch), replies);
    assert(all[all.len() - 1] == writes);
    assert forall|k: int| 0 <= k < writes.len() implies exists|i: int|
        0 <= i < MAX_PROPS && #[trigger] addrs[i] != 0 && #[trigger] writes[k] == (PropertyWrite {
            addr: addrs[i],
            bits: end.values[i],
        }) by {
        assert(writes_slot(addrs, end.values, 0, writes[k]));
        let i = choose|i: int|
            0 <= i < addrs.len() && #[trigger] addrs[i] != 0 && writes[k] == (PropertyWrite {
                addr: addrs[i],
                bits: end.values[i],
            });
        assert(addrs[i] != 0);
    }
}

proof fn lemma_instant_writes_slot(
    addrs: Seq<u64>,
    values: Seq<u32>,
    replies: spec_fn(RenderStep) -> Reply,
    from: int,
    i: int,
)
    requires
        0 <= from <= i < addrs.len(),
        values.len() == addrs.len(),
        addrs[i] != 0,
        input_reply(values, replies, i).hit,
    ensures
        exists|k: int|
            0 <= k < instant_writes(addrs, values, true, replies, from).len() && (
            #[trigger] instant_writes(addrs, values, true, replies, from)[k]).contains(
                PropertyWrite { addr: addrs[i], bits: input_reply(values, replies, i).bits },
            ),
    decreases i - from,
{
    let all = instant_writes(addrs, values, true, replies, from);
    let write = PropertyWrite { addr: addrs[i], bits: input_reply(values, replies, i).bits };
    let reply = input_reply(values, replies, from);
    let entered = values.update(from, reply.bits);
    if from == i {
        law_apply_writes_taken(addrs, entered);
        assert(all[0] == property_writes(addrs, entered, 0));
        assert(addrs[i] != 0);
        assert(all[0].contains(write));
    } else if addrs[from] != 0 && reply.hit {
        lemma_instant_writes_slot(addrs, entered, replies, from + 1, i);
        let rest = instant_writes(addrs, entered, true, replies, from + 1);
        let k = choose|k: int| 0 <= k < rest.len() && (#[trigger] rest[k]).contains(write);
        assert(all[k + 1] == rest[k]);
        assert(all[k + 1].contains(write));
    } else {
        lemma_instant_writes_slot(addrs, values, replies, from + 1, i);
        let rest = instant_writes(addrs, values, true, replies, from + 1);
        assert(all == rest);
    }
}

/// With instant update left on by its checkbox, a value that is entered for a
/// captured property is written to its address in the same frame.
pub proof fn law_entered_value_is_written_at_once(
    editor: EditorModel,
    watch: PropertyWatch,
    replies: spec_fn(RenderStep) -> Reply,
    i: int,
    bits: u32,
)
    requires
        editor.values.len() == MAX_PROPS,
        watch.enabled,
        watch.table.addrs@[0] != 0,
        0 <= i < MAX_PROPS,
        watch.table.addrs@[i] != 0,
        replies(
            RenderStep::Checkbox {
                which: Checkbox::InstantUpdate,
                checked: editor.instant_update,
            },
        ).checked,
        frame(editor, watch, first_step(watch), replies).2.contains(
            RenderStep::InputValue { index: i as usize, bits },
        ),
        replies(RenderStep::InputValue { index: i as usize, bits }).hit,
    ensures
        exists|k: int|
            0 <= k < frame_writes(editor, watch, first_step(watch), replies).len() && (
            #[trigger] frame_writes(editor, watch, first_step(watch), replies)[k]).contains(
                PropertyWrite {
                    addr: watch.table.addrs@[i],
                    bits: replies(RenderStep::InputValue { index: i as usize, bits }).bits,
                },
            ),
{
    let addrs = watch.table.addrs@;
    let values = shown(editor, watch.table, replies);
    law_frame_takes_these_steps(
        editor,
        watch,
        replies,
        RenderStep::InputValue { index: i as usize, bits },
    );
    assert(values[i] == bits);
    lemma_instant_writes_slot(addrs, values, replies, 0, i);
    law_frame_writes_on_demand(editor, watch, replies);
    let write = PropertyWrite {
        addr: addrs[i],
        bits: replies(RenderStep::InputValue { index: i as usize, bits }).bits,
    };
    let part = instant_writes(addrs, values, true, replies, 0);
    let all = frame_writes(editor, watch, first_step(watch), replies);
    let k = choose|k: int| 0 <= k < part.len() && (#[trigger] part[k]).contains(write);
    assert(all[k] == part[k]);
    assert(all[k].contains(write));
}

/// A new editor shows the first component that is captured, however many addresses
/// were told before its first frame: a frame that nobody touches ends with the
/// value in memory of each captured property. Nothing is written unasked, as
/// instant update is off, and no addresses are listed.
pub proof fn law_new_editor_reads_first_component(
    before: CaptureTable,
    props: Seq<u64>,
    times: Seq<u64>,
    watch: PropertyWatch,
    replies: spec_fn(RenderStep) -> Reply,
    mem: spec_fn(u64) -> u32,
)
    requires
        before.serial == 0,
        forall|i: int| 0 <= i < MAX_PROPS ==> #[trigger] before.addrs@[i] == 0,
        props.len() == times.len(),
        props.len() < 0x8000_0000,
        !props.contains(0),
        recorded_all(before.addrs@, before.serial, before.last_ms, props, times) == (
            watch.table.addrs@,
            watch.table.serial,
            watch.table.last_ms,
        ),
        watch.enabled,
        untouched(replies, mem),
        watch.table.addrs@[0] != 0,
    ensures
        fresh_editor().values.len() == MAX_PROPS,
        forall|i: int|
            0 <= i < MAX_PROPS && #[trigger] watch.table.addrs@[i] != 0 ==> frame(
                fresh_editor(),
                watch,
                first_step(watch),
                replies,
            ).0.values[i] == mem(watch.table.addrs@[i]),
        !fresh_editor().instant_update,
        !fresh_editor().show_debug,
{
    assert(before.addrs@[0] == 0);
    assert(watch.table.addrs@ != before.addrs@);
    law_captures_between_frames_are_read(
        fresh_editor(),
        before,
        props,
        times,
        watch,
        replies,
        mem,
    );
}

} // verus!

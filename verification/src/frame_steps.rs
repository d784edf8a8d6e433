//! Which steps a frame of the property editor's panel takes, and in which order.

use vstd::prelude::*;

use crate::capture::lemma_first_taken;
use crate::capture::{CaptureTable, MAX_PROPS};
use crate::frame::frame;
use crate::property_editor::EditorModel;
use crate::render::{editor_after, first_step, step_after, watch_after};
use crate::render::{lemma_step_after, ApplySwitch, Button, CaptureSwitch, Checkbox, Divider, Note};
use crate::render::{RenderStep, Reply, Tip};
use crate::watch::{BreakpointChange, PropertyWatch};

verus! {

/// Whether a change makes the breakpoint at `target` armed or not, whichever is
/// asked for, and is none where it is so already.
spec fn fits(change: BreakpointChange, armed: bool, on: bool, target: u64) -> bool {
    match change {
        BreakpointChange::Keep => armed == on,
        BreakpointChange::Arm { addr } => !armed && on && addr == target,
        BreakpointChange::Disarm => armed && !on,
    }
}

/// Whether the values and the buttons are drawn, as far as it is known at a step.
pub open spec fn panel_ahead(addrs: Seq<u64>, step: RenderStep) -> bool {
    match step {
        RenderStep::Separator { place: Divider::Header { selected } } => selected,
        RenderStep::Note { note } => note == Note::BeforeApply,
        RenderStep::ReadProperty { .. } => true,
        _ => step.steps_ahead() > 50 ==> addrs[0] != 0,
    }
}

/// The value that the input field of a slot will show.
spec fn value_ahead(
    editor: EditorModel,
    table: CaptureTable,
    step: RenderStep,
    replies: spec_fn(RenderStep) -> Reply,
    i: int,
) -> u32 {
    let addr = table.addrs@[i];
    match step {
        RenderStep::ReadProperty { index, serial, .. } => if i >= index && addr != 0 {
            replies(RenderStep::ReadProperty { index: i as usize, addr, serial }).bits
        } else {
            editor.values[i]
        },
        _ => if step.steps_ahead() > 50 && editor.read_on_select && table.serial
            != editor.last_serial && addr != 0 {
            replies(
                RenderStep::ReadProperty { index: i as usize, addr, serial: table.serial },
            ).bits
        } else {
            editor.values[i]
        },
    }
}

/// Whether a change of a value will be applied at once.
spec fn instant_ahead(
    editor: EditorModel,
    step: RenderStep,
    replies: spec_fn(RenderStep) -> Reply,
) -> bool {
    match step {
        RenderStep::Checkbox { which: Checkbox::InstantUpdate, .. } => replies(step).checked,
        _ => if step.steps_ahead() > 51 {
            replies(
                RenderStep::Checkbox {
                    which: Checkbox::InstantUpdate,
                    checked: editor.instant_update,
                },
            ).checked
        } else {
            editor.instant_update
        },
    }
}

/// Whether the addresses will be listed.
spec fn listing_ahead(
    editor: EditorModel,
    addrs: Seq<u64>,
    step: RenderStep,
    replies: spec_fn(RenderStep) -> Reply,
) -> bool {
    match step {
        RenderStep::DebugLine { .. } => true,
        RenderStep::Checkbox { which: Checkbox::ShowDebug, .. } => replies(step).checked,
        _ => {
            &&& panel_ahead(addrs, step)
            &&& !(step.steps_ahead() >= 12 && replies(
                RenderStep::Button { button: Button::Clear },
            ).hit)
            &&& replies(
                RenderStep::Checkbox { which: Checkbox::ShowDebug, checked: editor.show_debug },
            ).checked
        },
    }
}

/// Whether `later` comes behind `step`, which is not known to be in its place.
spec fn comes(
    editor: EditorModel,
    watch: PropertyWatch,
    step: RenderStep,
    replies: spec_fn(RenderStep) -> Reply,
    later: RenderStep,
) -> bool {
    let addrs = watch.table.addrs@;
    let pressed = step is PollCaptureKey && replies(step).hit;
    let capture = watch.capture != pressed;
    let armed = if pressed {
        capture
    } else {
        watch.bp_set
    };
    let capture_box = match step {
        RenderStep::Checkbox { which: Checkbox::Capture, .. } => step,
        _ => RenderStep::Checkbox { which: Checkbox::Capture, checked: capture },
    };
    let panel = panel_ahead(addrs, step);
    match later {
        RenderStep::PollCaptureKey => false,
        RenderStep::Breakpoint { change, asked_by: CaptureSwitch::Key } => pressed && fits(
            change,
            watch.bp_set,
            capture,
            watch.target,
        ),
        RenderStep::Breakpoint { change, asked_by: CaptureSwitch::Checkbox } => replies(
            capture_box,
        ).hit && fits(change, armed, replies(capture_box).checked, watch.target),
        RenderStep::Checkbox { which: Checkbox::Capture, checked } => checked == capture,
        RenderStep::Checkbox { which: Checkbox::BlockWrites, checked } => checked
            == watch.block_writes,
        RenderStep::Checkbox { which: Checkbox::InstantUpdate, checked } => checked
            == editor.instant_update,
        RenderStep::Checkbox { which: Checkbox::ShowDebug, checked } => panel && checked
            == editor.show_debug,
        RenderStep::Hover { .. } => true,
        RenderStep::Tooltip { tip } => replies(RenderStep::Hover { tip }).hit,
        RenderStep::ReadProperty { index, addr, serial } => {
            &&& addr == addrs[index as int] && addr != 0
            &&& match step {
                RenderStep::ReadProperty { serial: begun, .. } => serial == begun,
                _ => addrs[0] != 0 && editor.read_on_select && watch.table.serial
                    != editor.last_serial && serial == watch.table.serial,
            }
        },
        RenderStep::Separator { place: Divider::Header { selected } } => selected == panel,
        RenderStep::Separator { place: Divider::Footer } => panel,
        RenderStep::Note { note: Note::BeforeApply } => panel,
        RenderStep::Note { .. } => !panel,
        RenderStep::PropertyName { index } => panel && addrs[index as int] != 0,
        RenderStep::InputWidth { index } => panel && addrs[index as int] != 0,
        RenderStep::InputValue { index, bits } => panel && addrs[index as int] != 0 && bits
            == value_ahead(editor, watch.table, step, replies, index as int),
        RenderStep::Apply { cause: ApplySwitch::Input { index } } => {
            &&& panel
            &&& addrs[index as int] != 0
            &&& instant_ahead(editor, step, replies)
            &&& replies(
                RenderStep::InputValue {
                    index,
                    bits: value_ahead(editor, watch.table, step, replies, index as int),
                },
            ).hit
        },
        RenderStep::Apply { cause: ApplySwitch::Button } => panel && replies(
            RenderStep::Button { button: Button::Apply },
        ).hit,
        RenderStep::Button { .. } => panel,
        RenderStep::SameLine => panel,
        RenderStep::DebugLine { index, addr } => addr == addrs[index as int] && addr != 0
            && listing_ahead(editor, addrs, step, replies),
        RenderStep::Done => false,
    }
}

/// A step shows the state as it is, and speaks of slots that are taken.
spec fn current(editor: EditorModel, addrs: Seq<u64>, step: RenderStep) -> bool {
    match step {
        RenderStep::ReadProperty { index, addr, .. } => addr == addrs[index as int] && addr != 0,
        RenderStep::PropertyName { index } => addrs[index as int] != 0,
        RenderStep::InputWidth { index } => addrs[index as int] != 0,
        RenderStep::InputValue { index, bits } => addrs[index as int] != 0 && bits
            == editor.values[index as int],
        _ => true,
    }
}

/// Whether a step is the one at hand or comes behind it.
spec fn ahead(
    editor: EditorModel,
    watch: PropertyWatch,
    step: RenderStep,
    replies: spec_fn(RenderStep) -> Reply,
    later: RenderStep,
) -> bool {
    &&& step != RenderStep::Done
    &&& later == step || (later.wf() && later.steps_ahead() < step.steps_ahead() && comes(
        editor,
        watch,
        step,
        replies,
        later,
    ))
}

/// Performing a step takes it from what is ahead, and nothing else.
spec fn kept(
    editor: EditorModel,
    watch: PropertyWatch,
    step: RenderStep,
    replies: spec_fn(RenderStep) -> Reply,
    later: RenderStep,
) -> bool {
    let edited = editor_after(editor, watch, step, replies(step));
    let after = watch_after(watch, step, replies(step));
    let next = step_after(editor, watch, step, replies(step));
    &&& current(edited, after.table.addrs@, next)
    &&& ahead(editor, watch, step, replies, later) <==> later == step || ahead(
        edited,
        after,
        next,
        replies,
        later,
    )
}

/// As `lemma_kept`, for the steps of the capture key and checkbox.
#[verifier::rlimit(100)]
proof fn lemma_kept_capture(
    editor: EditorModel,
    watch: PropertyWatch,
    step: RenderStep,
    replies: spec_fn(RenderStep) -> Reply,
    later: RenderStep,
)
    requires
        step.wf(),
        step != RenderStep::Done,
        editor.values.len() == MAX_PROPS,
        current(editor, watch.table.addrs@, step),
        step is PollCaptureKey || step is Breakpoint || (
        step matches RenderStep::Checkbox { which, .. } && which == Checkbox::Capture),
    ensures
        kept(editor, watch, step, replies, later),
{
    match step {
        RenderStep::PollCaptureKey => {
            if later is Breakpoint {
                assert(kept(editor, watch, step, replies, later));
            } else if later is Checkbox {
                assert(kept(editor, watch, step, replies, later));
            } else if later is InputValue || later is Apply {
                assert(kept(editor, watch, step, replies, later));
            } else if later is ReadProperty || later is DebugLine {
                assert(kept(editor, watch, step, replies, later));
            } else {
                assert(kept(editor, watch, step, replies, later));
            }
        },
        RenderStep::Breakpoint { .. } => {
            if later is Breakpoint {
                assert(kept(editor, watch, step, replies, later));
            } else if later is Checkbox {
                assert(kept(editor, watch, step, replies, later));
            } else if later is InputValue || later is Apply {
                assert(kept(editor, watch, step, replies, later));
            } else if later is ReadProperty || later is DebugLine {
                assert(kept(editor, watch, step, replies, later));
            } else {
                assert(kept(editor, watch, step, replies, later));
            }
        },
        _ => {
            if later is Breakpoint {
                assert(kept(editor, watch, step, replies, later));
            } else if later is Checkbox {
                assert(kept(editor, watch, step, replies, later));
            } else if later is InputValue || later is Apply {
                assert(kept(editor, watch, step, replies, later));
            } else if later is ReadProperty || later is DebugLine {
                assert(kept(editor, watch, step, replies, later));
            } else {
                assert(kept(editor, watch, step, replies, later));
            }
        },
    }
}

/// As `lemma_kept`, for the steps of the tooltips and the other checkbox.
#[verifier::rlimit(100)]
proof fn lemma_kept_tips(
    editor: EditorModel,
    watch: PropertyWatch,
    step: RenderStep,
    replies: spec_fn(RenderStep) -> Reply,
    later: RenderStep,
)
    requires
        step.wf(),
        step != RenderStep::Done,
        editor.values.len() == MAX_PROPS,
        current(editor, watch.table.addrs@, step),
        step is Hover || step is Tooltip || (step matches RenderStep::Checkbox { which, .. }
            && which == Checkbox::BlockWrites),
    ensures
        kept(editor, watch, step, replies, later),
{
    match step {
        RenderStep::Hover { .. } => {
            assert(kept(editor, watch, step, replies, later));
        },
        RenderStep::Tooltip { .. } => {
            assert(kept(editor, watch, step, replies, later));
        },
        _ => {
            assert(kept(editor, watch, step, replies, later));
        },
    }
}

/// As `lemma_kept`, for the steps of the values that are read.
#[verifier::rlimit(100)]
proof fn lemma_kept_reads(
    editor: EditorModel,
    watch: PropertyWatch,
    step: RenderStep,
    replies: spec_fn(RenderStep) -> Reply,
    later: RenderStep,
)
    requires
        step.wf(),
        step != RenderStep::Done,
        editor.values.len() == MAX_PROPS,
        current(editor, watch.table.addrs@, step),
        step is ReadProperty || (step matches RenderStep::Checkbox { which, .. } && which
            == Checkbox::InstantUpdate),
    ensures
        kept(editor, watch, step, replies, later),
{
    let addrs = watch.table.addrs@;
    match step {
        RenderStep::ReadProperty { index, .. } => {
            lemma_first_taken(addrs, index + 1);
            assert(kept(editor, watch, step, replies, later));
        },
        _ => {
            lemma_first_taken(addrs, 0);
            assert(kept(editor, watch, step, replies, later));
        },
    }
}

/// As `lemma_kept`, for the steps of the values that are shown.
#[verifier::rlimit(100)]
proof fn lemma_kept_rows(
    editor: EditorModel,
    watch: PropertyWatch,
    step: RenderStep,
    replies: spec_fn(RenderStep) -> Reply,
    later: RenderStep,
)
    requires
        step.wf(),
        step != RenderStep::Done,
        editor.values.len() == MAX_PROPS,
        current(editor, watch.table.addrs@, step),
        step is PropertyName || step is InputWidth || step is InputValue || (
        step matches RenderStep::Separator { place } && place is Header) || (
        step matches RenderStep::Apply { cause } && cause is Input),
    ensures
        kept(editor, watch, step, replies, later),
{
    let addrs = watch.table.addrs@;
    match step {
        RenderStep::Separator { .. } => {
            lemma_first_taken(addrs, 0);
            assert(kept(editor, watch, step, replies, later));
        },
        RenderStep::PropertyName { .. } => {
            assert(kept(editor, watch, step, replies, later));
        },
        RenderStep::InputWidth { .. } => {
            assert(kept(editor, watch, step, replies, later));
        },
        RenderStep::InputValue { index, .. } => {
            lemma_first_taken(addrs, index + 1);
            assert(kept(editor, watch, step, replies, later));
        },
        RenderStep::Apply { cause: ApplySwitch::Input { index } } => {
            lemma_first_taken(addrs, index + 1);
            assert(kept(editor, watch, step, replies, later));
        },
        _ => {
            assert(kept(editor, watch, step, replies, later));
        },
    }
}

/// As `lemma_kept`, for the steps of what is below the values.
#[verifier::rlimit(100)]
proof fn lemma_kept_footer(
    editor: EditorModel,
    watch: PropertyWatch,
    step: RenderStep,
    replies: spec_fn(RenderStep) -> Reply,
    later: RenderStep,
)
    requires
        step.wf(),
        step != RenderStep::Done,
        editor.values.len() == MAX_PROPS,
        current(editor, watch.table.addrs@, step),
        step is Note || step is Button || step is SameLine || step is DebugLine || (
        step matches RenderStep::Separator { place } && place is Footer) || (
        step matches RenderStep::Apply { cause } && cause is Button) || (
        step matches RenderStep::Checkbox { which, .. } && which == Checkbox::ShowDebug),
    ensures
        kept(editor, watch, step, replies, later),
{
    let addrs = watch.table.addrs@;
    match step {
        RenderStep::DebugLine { index, .. } => {
            lemma_first_taken(addrs, index + 1);
            assert(kept(editor, watch, step, replies, later));
        },
        RenderStep::Checkbox { .. } => {
            lemma_first_taken(addrs, 0);
            assert(kept(editor, watch, step, replies, later));
        },
        RenderStep::Button { .. } => {
            assert(kept(editor, watch, step, replies, later));
        },
        RenderStep::Note { .. } => {
            assert(kept(editor, watch, step, replies, later));
        },
        _ => {
            assert(kept(editor, watch, step, replies, later));
        },
    }
}

proof fn lemma_kept(
    editor: EditorModel,
    watch: PropertyWatch,
    step: RenderStep,
    replies: spec_fn(RenderStep) -> Reply,
    later: RenderStep,
)
    requires
        step.wf(),
        step != RenderStep::Done,
        editor.values.len() == MAX_PROPS,
        current(editor, watch.table.addrs@, step),
    ensures
        kept(editor, watch, step, replies, later),
{
    match step {
        RenderStep::PollCaptureKey | RenderStep::Breakpoint { .. } | RenderStep::Checkbox {
            which: Checkbox::Capture,
            ..
        } => {
            lemma_kept_capture(editor, watch, step, replies, later);
        },
        RenderStep::Hover { .. } | RenderStep::Tooltip { .. } | RenderStep::Checkbox {
            which: Checkbox::BlockWrites,
            ..
        } => {
            lemma_kept_tips(editor, watch, step, replies, later);
        },
        RenderStep::Checkbox { which: Checkbox::InstantUpdate, .. }
        | RenderStep::ReadProperty { .. } => {
            lemma_kept_reads(editor, watch, step, replies, later);
        },
        RenderStep::Separator { place: Divider::Header { .. } } | RenderStep::PropertyName { .. }
        | RenderStep::InputWidth { .. } | RenderStep::InputValue { .. } | RenderStep::Apply {
            cause: ApplySwitch::Input { .. },
        } => {
            lemma_kept_rows(editor, watch, step, replies, later);
        },
        _ => {
            lemma_kept_footer(editor, watch, step, replies, later);
        },
    }
}

proof fn lemma_frame_contains(
    editor: EditorModel,
    watch: PropertyWatch,
    step: RenderStep,
    replies: spec_fn(RenderStep) -> Reply,
    later: RenderStep,
)
    requires
        step.wf(),
        editor.values.len() == MAX_PROPS,
        current(editor, watch.table.addrs@, step),
    ensures
        frame(editor, watch, step, replies).2.contains(later) <==> ahead(
            editor,
            watch,
            step,
            replies,
            later,
        ),
    decreases step.steps_ahead(),
{
    if step != RenderStep::Done {
        let edited = editor_after(editor, watch, step, replies(step));
        let after = watch_after(watch, step, replies(step));
        let next = step_after(editor, watch, step, replies(step));
        lemma_step_after(editor, watch, step, replies(step));
        lemma_kept(editor, watch, step, replies, later);
        assert(edited.values.len() == MAX_PROPS);
        lemma_frame_contains(edited, after, next, replies, later);
        let rest = frame(edited, after, next, replies).2;
        let steps = frame(editor, watch, step, replies).2;
        assert(steps == seq![step] + rest);
        assert(steps[0] == step);
        if rest.contains(later) {
            let k = choose|k: int| 0 <= k < rest.len() && rest[k] == later;
            assert(steps[k + 1] == later);
        }
        if steps.contains(later) && later != step {
            let k = choose|k: int| 0 <= k < steps.len() && steps[k] == later;
            assert(rest[k - 1] == later);
        }
    }
}

/// Whatever the user does, these and no other steps are taken in a frame. The
/// feature has to be on for any. The key is polled and the first three checkboxes
/// are drawn, each showing the state that it is for; a switch of capturing, by key
/// or by checkbox, changes the breakpoint as needed. The values of the captured
/// properties are read if the table's serial is another than theirs and reading on
/// select is on. Where no component is captured two remarks follow. Else the name
/// and the value of each captured property are drawn, all are applied where one was
/// changed with instant update on, and the buttons and the list follow, the list
/// only if it is checked and the table was not emptied.
pub proof fn law_frame_takes_these_steps(
    editor: EditorModel,
    watch: PropertyWatch,
    replies: spec_fn(RenderStep) -> Reply,
    step: RenderStep,
)
    requires
        editor.values.len() == MAX_PROPS,
    ensures
        frame(editor, watch, first_step(watch), replies).2.contains(step) <==> watch.enabled && ({
            let addrs = watch.table.addrs@;
            let selected = addrs[0] != 0;
            let pressed = replies(RenderStep::PollCaptureKey).hit;
            let capture = if pressed {
                !watch.capture
            } else {
                watch.capture
            };
            let armed = if pressed {
                !watch.capture
            } else {
                watch.bp_set
            };
            let switched = replies(
                RenderStep::Checkbox { which: Checkbox::Capture, checked: capture },
            );
            let due = selected && editor.read_on_select && watch.table.serial
                != editor.last_serial;
            let shown = |i: usize|
                if due {
                    replies(
                        RenderStep::ReadProperty {
                            index: i,
                            addr: addrs[i as int],
                            serial: watch.table.serial,
                        },
                    ).bits
                } else {
                    editor.values[i as int]
                };
            match step {
                RenderStep::PollCaptureKey => true,
                RenderStep::Breakpoint { change, asked_by: CaptureSwitch::Key } => pressed
                    && match change {
                    BreakpointChange::Keep => watch.bp_set != watch.capture,
                    BreakpointChange::Arm { addr } => !watch.bp_set && !watch.capture && addr
                        == watch.target,
                    BreakpointChange::Disarm => watch.bp_set && watch.capture,
                },
                RenderStep::Breakpoint { change, asked_by: CaptureSwitch::Checkbox } => switched.hit
                    && match change {
                    BreakpointChange::Keep => armed == switched.checked,
                    BreakpointChange::Arm { addr } => !armed && switched.checked && addr
                        == watch.target,
                    BreakpointChange::Disarm => armed && !switched.checked,
                },
                RenderStep::Checkbox { which: Checkbox::Capture, checked } => checked == capture,
                RenderStep::Checkbox { which: Checkbox::BlockWrites, checked } => checked
                    == watch.block_writes,
                RenderStep::Checkbox { which: Checkbox::InstantUpdate, checked } => checked
                    == editor.instant_update,
                RenderStep::Checkbox { which: Checkbox::ShowDebug, checked } => selected && checked
                    == editor.show_debug,
                RenderStep::Hover { .. } => true,
                RenderStep::Tooltip { tip } => replies(RenderStep::Hover { tip }).hit,
                RenderStep::ReadProperty { index, addr, serial } => due && index < MAX_PROPS && addr
                    == addrs[index as int] && addr != 0 && serial == watch.table.serial,
                RenderStep::Separator { place: Divider::Header { selected: known } } => known
                    == selected,
                RenderStep::Separator { place: Divider::Footer } => selected,
                RenderStep::Note { note: Note::NothingCaptured } => !selected,
                RenderStep::Note { note: Note::HowToCapture } => !selected,
                RenderStep::Note { note: Note::BeforeApply } => selected,
                RenderStep::PropertyName { index } => selected && index < MAX_PROPS
                    && addrs[index as int] != 0,
                RenderStep::InputWidth { index } => selected && index < MAX_PROPS
                    && addrs[index as int] != 0,
                RenderStep::InputValue { index, bits } => selected && index < MAX_PROPS
                    && addrs[index as int] != 0 && bits == shown(index),
                RenderStep::Apply { cause: ApplySwitch::Input { index } } => {
                    &&& selected && index < MAX_PROPS && addrs[index as int] != 0
                    &&& replies(RenderStep::InputValue { index, bits: shown(index) }).hit
                    &&& replies(
                        RenderStep::Checkbox {
                            which: Checkbox::InstantUpdate,
                            checked: editor.instant_update,
                        },
                    ).checked
                },
                RenderStep::Apply { cause: ApplySwitch::Button } => selected && replies(
                    RenderStep::Button { button: Button::Apply },
                ).hit,
                RenderStep::Button { .. } => selected,
                RenderStep::SameLine => selected,
                RenderStep::DebugLine { index, addr } => {
                    &&& selected && index < MAX_PROPS && addr == addrs[index as int] && addr != 0
                    &&& !replies(RenderStep::Button { button: Button::Clear }).hit
                    &&& replies(
                        RenderStep::Checkbox {
                            which: Checkbox::ShowDebug,
                            checked: editor.show_debug,
                        },
                    ).checked
                },
                RenderStep::Done => false,
            }
        }),
{
    lemma_frame_contains(editor, watch, first_step(watch), replies, step);
}

proof fn lemma_frame_order(
    editor: EditorModel,
    watch: PropertyWatch,
    step: RenderStep,
    replies: spec_fn(RenderStep) -> Reply,
)
    requires
        step.wf(),
    ensures
        ({
            let steps = frame(editor, watch, step, replies).2;
            &&& forall|k: int|
                0 <= k < steps.len() ==> (#[trigger] steps[k]).steps_ahead() <= step.steps_ahead()
            &&& forall|j: int, k: int|
                0 <= j < k < steps.len() ==> (#[trigger] steps[j]).steps_ahead() > (
                #[trigger] steps[k]).steps_ahead()
        }),
    decreases step.steps_ahead(),
{
    if step != RenderStep::Done {
        let edited = editor_after(editor, watch, step, replies(step));
        let after = watch_after(watch, step, replies(step));
        let next = step_after(editor, watch, step, replies(step));
        lemma_step_after(editor, watch, step, replies(step));
        lemma_frame_order(edited, after, next, replies);
        let rest = frame(edited, after, next, replies).2;
        let steps = frame(editor, watch, step, replies).2;
        assert(steps == seq![step] + rest);
        assert forall|k: int| 0 <= k < steps.len() implies (#[trigger] steps[k]).steps_ahead()
            <= step.steps_ahead() by {
            if k > 0 {
                assert(steps[k] == rest[k - 1]);
            }
        }
        assert forall|j: int, k: int| 0 <= j < k < steps.len() implies (
        #[trigger] steps[j]).steps_ahead() > (#[trigger] steps[k]).steps_ahead() by {
            assert(steps[k] == rest[k - 1]);
            if j > 0 {
                assert(steps[j] == rest[j - 1]);
            }
        }
    }
}

/// Whatever the user does, no step is taken twice in a frame, and each comes with
/// fewer steps ahead than those in front of it.
pub proof fn law_frame_goes_on(
    editor: EditorModel,
    watch: PropertyWatch,
    replies: spec_fn(RenderStep) -> Reply,
)
    ensures
        frame(editor, watch, first_step(watch), replies).2.no_duplicates(),
        forall|j: int, k: int|
            0 <= j < k < frame(editor, watch, first_step(watch), replies).2.len() ==> (
            #[trigger] frame(editor, watch, first_step(watch), replies).2[j]).steps_ahead() > (
            #[trigger] frame(editor, watch, first_step(watch), replies).2[k]).steps_ahead(),
{
    lemma_frame_order(editor, watch, first_step(watch), replies);
}

/// The order of the panel: a step with more steps ahead comes first. The values are
/// read before the first is shown, each after those in lower slots; a slot's name,
/// its field and what is applied for it come before the next slot's; the table is
/// emptied after the values were applied, and listed after that.
pub proof fn law_panel_order(i: usize, j: usize)
    requires
        i < j < MAX_PROPS,
    ensures
        ({
            let ahead = |step: RenderStep| step.steps_ahead();
            let box_of = |which: Checkbox| RenderStep::Checkbox { which, checked: true };
            let change = |asked_by: CaptureSwitch|
                RenderStep::Breakpoint { change: BreakpointChange::Keep, asked_by };
            let read = |index: usize| RenderStep::ReadProperty { index, addr: 0, serial: 0 };
            let value = |index: usize| RenderStep::InputValue { index, bits: 0 };
            let applied = |index: usize|
                RenderStep::Apply { cause: ApplySwitch::Input { index } };
            let header = RenderStep::Separator { place: Divider::Header { selected: true } };
            let footer = RenderStep::Separator { place: Divider::Footer };
            let line = |index: usize| RenderStep::DebugLine { index, addr: 0 };
            &&& ahead(RenderStep::PollCaptureKey) > ahead(change(CaptureSwitch::Key))
            &&& ahead(change(CaptureSwitch::Key)) > ahead(box_of(Checkbox::Capture))
            &&& ahead(box_of(Checkbox::Capture)) > ahead(change(CaptureSwitch::Checkbox))
            &&& ahead(change(CaptureSwitch::Checkbox)) > ahead(
                RenderStep::Hover { tip: Tip::Capture },
            )
            &&& ahead(RenderStep::Hover { tip: Tip::Capture }) > ahead(
                RenderStep::Tooltip { tip: Tip::Capture },
            )
            &&& ahead(RenderStep::Tooltip { tip: Tip::Capture }) > ahead(
                box_of(Checkbox::BlockWrites),
            )
            &&& ahead(box_of(Checkbox::BlockWrites)) > ahead(
                RenderStep::Hover { tip: Tip::BlockWrites },
            )
            &&& ahead(RenderStep::Hover { tip: Tip::BlockWrites }) > ahead(
                RenderStep::Tooltip { tip: Tip::BlockWrites },
            )
            &&& ahead(RenderStep::Tooltip { tip: Tip::BlockWrites }) > ahead(
                box_of(Checkbox::InstantUpdate),
            )
            &&& ahead(box_of(Checkbox::InstantUpdate)) > ahead(read(i))
            &&& ahead(read(i)) > ahead(read(j))
            &&& ahead(read(j)) > ahead(header)
            &&& ahead(header) > ahead(RenderStep::Note { note: Note::NothingCaptured })
            &&& ahead(RenderStep::Note { note: Note::NothingCaptured }) > ahead(
                RenderStep::Note { note: Note::HowToCapture },
            )
            &&& ahead(header) > ahead(RenderStep::PropertyName { index: i })
            &&& ahead(RenderStep::PropertyName { index: i }) > ahead(
                RenderStep::InputWidth { index: i },
            )
            &&& ahead(RenderStep::InputWidth { index: i }) > ahead(value(i))
            &&& ahead(value(i)) > ahead(applied(i))
            &&& ahead(applied(i)) > ahead(RenderStep::PropertyName { index: j })
            &&& ahead(applied(j)) > ahead(footer)
            &&& ahead(footer) > ahead(RenderStep::Note { note: Note::BeforeApply })
            &&& ahead(RenderStep::Note { note: Note::BeforeApply }) > ahead(
                RenderStep::Button { button: Button::Apply },
            )
            &&& ahead(RenderStep::Button { button: Button::Apply }) > ahead(
                RenderStep::Apply { cause: ApplySwitch::Button },
            )
            &&& ahead(RenderStep::Apply { cause: ApplySwitch::Button }) > ahead(
                RenderStep::SameLine,
            )
            &&& ahead(RenderStep::SameLine) > ahead(RenderStep::Button { button: Button::Clear })
            &&& ahead(RenderStep::Button { button: Button::Clear }) > ahead(
                box_of(Checkbox::ShowDebug),
            )
            &&& ahead(box_of(Checkbox::ShowDebug)) > ahead(line(i))
            &&& ahead(line(i)) > ahead(line(j))
        }),
{
}

} // verus!

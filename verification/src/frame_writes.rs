//! What the user enters in a frame of the property editor's panel, and what is
//! written for it.

use vstd::prelude::*;

use crate::capture::{first_taken, lemma_first_taken};
use crate::capture::{CaptureTable, MAX_PROPS};
use crate::frame::frame;
use crate::property_editor::property_writes;
use crate::property_editor::{EditorModel, PropertyWrite};
use crate::render::{editor_after, first_step, refresh_due, step_after, watch_after};
use crate::render::{lemma_step_after, ApplySwitch, Button, Checkbox, Divider, Note};
use crate::render::{RenderStep, Reply};
use crate::watch::PropertyWatch;

verus! {

/// What comes of the input field of a slot, which shows the value in it.
pub open spec fn input_reply(
    values: Seq<u32>,
    replies: spec_fn(RenderStep) -> Reply,
    i: int,
) -> Reply {
    replies(RenderStep::InputValue { index: i as usize, bits: values[i] })
}

/// The values after the user changed what they wanted to, from slot `from` on.
pub open spec fn entered(
    addrs: Seq<u64>,
    values: Seq<u32>,
    replies: spec_fn(RenderStep) -> Reply,
    from: int,
) -> Seq<u32> {
    Seq::new(
        values.len(),
        |i: int|
            if i >= from && addrs[i] != 0 && input_reply(values, replies, i).hit {
                input_reply(values, replies, i).bits
            } else {
                values[i]
            },
    )
}

/// The values after those of the captured properties were read, from slot
/// `from` on.
pub open spec fn read_out(
    addrs: Seq<u64>,
    values: Seq<u32>,
    serial: u32,
    replies: spec_fn(RenderStep) -> Reply,
    from: int,
) -> Seq<u32> {
    Seq::new(
        values.len(),
        |i: int|
            if i >= from && addrs[i] != 0 {
                replies(
                    RenderStep::ReadProperty { index: i as usize, addr: addrs[i], serial },
                ).bits
            } else {
                values[i]
            },
    )
}

/// The values that a frame shows: those read in it, where reading is due.
pub open spec fn shown(
    editor: EditorModel,
    table: CaptureTable,
    replies: spec_fn(RenderStep) -> Reply,
) -> Seq<u32> {
    if refresh_due(editor, table) {
        read_out(table.addrs@, editor.values, table.serial, replies, 0)
    } else {
        editor.values
    }
}

/// Whether instant update is on once its checkbox was drawn.
pub open spec fn instant(editor: EditorModel, replies: spec_fn(RenderStep) -> Reply) -> bool {
    replies(
        RenderStep::Checkbox { which: Checkbox::InstantUpdate, checked: editor.instant_update },
    ).checked
}

/// Whether the Apply button is clicked.
pub open spec fn apply_clicked(replies: spec_fn(RenderStep) -> Reply) -> bool {
    replies(RenderStep::Button { button: Button::Apply }).hit
}

/// The writes for the values that the user changes, from slot `from` on: with
/// instant update, all values as they are after each change.
pub open spec fn instant_writes(
    addrs: Seq<u64>,
    values: Seq<u32>,
    instant: bool,
    replies: spec_fn(RenderStep) -> Reply,
    from: int,
) -> Seq<Seq<PropertyWrite>>
    decreases addrs.len() - from,
{
    if from >= addrs.len() {
        seq![]
    } else if addrs[from] != 0 && input_reply(values, replies, from).hit {
        let changed = values.update(from, input_reply(values, replies, from).bits);
        (if instant {
            seq![property_writes(addrs, changed, 0)]
        } else {
            seq![]
        }) + instant_writes(addrs, changed, instant, replies, from + 1)
    } else {
        instant_writes(addrs, values, instant, replies, from + 1)
    }
}

/// The writes for the Apply button.
pub open spec fn button_writes(
    addrs: Seq<u64>,
    values: Seq<u32>,
    replies: spec_fn(RenderStep) -> Reply,
) -> Seq<Seq<PropertyWrite>> {
    if apply_clicked(replies) {
        seq![property_writes(addrs, values, 0)]
    } else {
        seq![]
    }
}

/// What a step writes.
pub open spec fn step_writes(
    editor: EditorModel,
    watch: PropertyWatch,
    step: RenderStep,
) -> Seq<Seq<PropertyWrite>> {
    if step is Apply {
        seq![property_writes(watch.table.addrs@, editor.values, 0)]
    } else {
        seq![]
    }
}

/// All that a frame writes from `step` on, one entry for each time that the
/// values are applied.
pub open spec fn frame_writes(
    editor: EditorModel,
    watch: PropertyWatch,
    step: RenderStep,
    replies: spec_fn(RenderStep) -> Reply,
) -> Seq<Seq<PropertyWrite>>
    decreases step.steps_ahead(),
{
    if step is Done || !step.wf() {
        seq![]
    } else {
        proof {
            lemma_step_after(editor, watch, step, replies(step));
        }
        step_writes(editor, watch, step) + frame_writes(
            editor_after(editor, watch, step, replies(step)),
            watch_after(watch, step, replies(step)),
            step_after(editor, watch, step, replies(step)),
            replies,
        )
    }
}

/// A step is one that a frame comes to: it shows the state as it is, and speaks
/// of slots that are taken.
spec fn current(editor: EditorModel, addrs: Seq<u64>, step: RenderStep) -> bool {
    match step {
        RenderStep::Checkbox { which: Checkbox::InstantUpdate, checked } => checked
            == editor.instant_update,
        RenderStep::ReadProperty { index, addr, .. } => addr == addrs[index as int] && addr != 0,
        RenderStep::PropertyName { index } => addrs[index as int] != 0,
        RenderStep::InputWidth { index } => addrs[index as int] != 0,
        RenderStep::InputValue { index, bits } => addrs[index as int] != 0 && bits
            == editor.values[index as int],
        _ => true,
    }
}

/// The values at the end of a frame, from a step on.
spec fn values_ahead(
    editor: EditorModel,
    table: CaptureTable,
    step: RenderStep,
    replies: spec_fn(RenderStep) -> Reply,
) -> Seq<u32> {
    let addrs = table.addrs@;
    match step {
        RenderStep::ReadProperty { index, serial, .. } => entered(
            addrs,
            read_out(addrs, editor.values, serial, replies, index as int),
            replies,
            0,
        ),
        RenderStep::Separator { place: Divider::Header { selected: true } } => entered(
            addrs,
            editor.values,
            replies,
            0,
        ),
        RenderStep::PropertyName { index } => entered(addrs, editor.values, replies, index as int),
        RenderStep::InputWidth { index } => entered(addrs, editor.values, replies, index as int),
        RenderStep::InputValue { index, .. } => entered(
            addrs,
            editor.values,
            replies,
            index as int,
        ),
        RenderStep::Apply { cause: ApplySwitch::Input { index } } => entered(
            addrs,
            editor.values,
            replies,
            index + 1,
        ),
        _ => if step.steps_ahead() > 50 && addrs[0] != 0 {
            entered(addrs, shown(editor, table, replies), replies, 0)
        } else {
            editor.values
        },
    }
}

/// The writes for the values from slot `from` on, and for the Apply button.
spec fn rows_writes(
    addrs: Seq<u64>,
    values: Seq<u32>,
    instant: bool,
    replies: spec_fn(RenderStep) -> Reply,
    from: int,
) -> Seq<Seq<PropertyWrite>> {
    instant_writes(addrs, values, instant, replies, from) + button_writes(
        addrs,
        entered(addrs, values, replies, from),
        replies,
    )
}

/// The writes of a frame, from a step on.
spec fn writes_ahead(
    editor: EditorModel,
    table: CaptureTable,
    step: RenderStep,
    replies: spec_fn(RenderStep) -> Reply,
) -> Seq<Seq<PropertyWrite>> {
    let addrs = table.addrs@;
    let values = editor.values;
    let now = editor.instant_update;
    match step {
        RenderStep::ReadProperty { index, serial, .. } => rows_writes(
            addrs,
            read_out(addrs, values, serial, replies, index as int),
            now,
            replies,
            0,
        ),
        RenderStep::Separator { place: Divider::Header { selected: true } } => rows_writes(
            addrs,
            values,
            now,
            replies,
            0,
        ),
        RenderStep::PropertyName { index } => rows_writes(addrs, values, now, replies, index as int),
        RenderStep::InputWidth { index } => rows_writes(addrs, values, now, replies, index as int),
        RenderStep::InputValue { index, .. } => rows_writes(
            addrs,
            values,
            now,
            replies,
            index as int,
        ),
        RenderStep::Apply { cause: ApplySwitch::Input { index } } => seq![
            property_writes(addrs, values, 0),
        ] + rows_writes(addrs, values, now, replies, index + 1),
        RenderStep::Separator { place: Divider::Footer } => button_writes(addrs, values, replies),
        RenderStep::Note { note: Note::BeforeApply } => button_writes(addrs, values, replies),
        RenderStep::Button { button: Button::Apply } => button_writes(addrs, values, replies),
        RenderStep::Apply { cause: ApplySwitch::Button } => seq![
            property_writes(addrs, values, 0),
        ],
        _ => if step.steps_ahead() > 50 && addrs[0] != 0 {
            rows_writes(addrs, shown(editor, table, replies), instant(editor, replies), replies, 0)
        } else {
            seq![]
        },
    }
}

/// Free slots change nothing about what is entered and written.
proof fn lemma_skip_free(
    addrs: Seq<u64>,
    values: Seq<u32>,
    instant: bool,
    replies: spec_fn(RenderStep) -> Reply,
    from: int,
)
    requires
        0 <= from <= addrs.len(),
        values.len() == addrs.len(),
    ensures
        ({
            let at = first_taken(addrs, from);
            &&& entered(addrs, values, replies, from) == entered(addrs, values, replies, at)
            &&& instant_writes(addrs, values, instant, replies, from) == instant_writes(
                addrs,
                values,
                instant,
                replies,
                at,
            )
            &&& at == addrs.len() ==> entered(addrs, values, replies, from) == values
                && instant_writes(addrs, values, instant, replies, from) == Seq::<
                Seq<PropertyWrite>,
            >::empty()
        }),
    decreases addrs.len() - from,
{
    lemma_first_taken(addrs, from);
    let at = first_taken(addrs, from);
    if from < addrs.len() && addrs[from] == 0 {
        lemma_skip_free(addrs, values, instant, replies, from + 1);
        assert(entered(addrs, values, replies, from) =~= entered(addrs, values, replies, from + 1));
    }
    if at == addrs.len() {
        assert(entered(addrs, values, replies, from) =~= values);
    }
}

/// What is entered in one slot, and what in those behind it.
proof fn lemma_enter_one(
    addrs: Seq<u64>,
    values: Seq<u32>,
    replies: spec_fn(RenderStep) -> Reply,
    i: int,
)
    requires
        0 <= i < addrs.len(),
        values.len() == addrs.len(),
        addrs[i] != 0,
    ensures
        ({
            let reply = input_reply(values, replies, i);
            entered(addrs, values, replies, i) == (if reply.hit {
                entered(addrs, values.update(i, reply.bits), replies, i + 1)
            } else {
                entered(addrs, values, replies, i + 1)
            })
        }),
{
    let reply = input_reply(values, replies, i);
    let changed = values.update(i, reply.bits);
    if reply.hit {
        assert(entered(addrs, values, replies, i) =~= entered(addrs, changed, replies, i + 1));
    } else {
        assert(entered(addrs, values, replies, i) =~= entered(addrs, values, replies, i + 1));
    }
}

/// One value read, and those behind it.
proof fn lemma_read_one(
    addrs: Seq<u64>,
    values: Seq<u32>,
    serial: u32,
    replies: spec_fn(RenderStep) -> Reply,
    i: int,
)
    requires
        0 <= i < addrs.len(),
        addrs.len() <= MAX_PROPS,
        values.len() == addrs.len(),
        addrs[i] != 0,
    ensures
        ({
            let step = RenderStep::ReadProperty { index: i as usize, addr: addrs[i], serial };
            let read = values.update(i, replies(step).bits);
            let at = first_taken(addrs, i + 1);
            &&& read_out(addrs, values, serial, replies, i) == read_out(
                addrs,
                read,
                serial,
                replies,
                at,
            )
            &&& at == addrs.len() ==> read_out(addrs, values, serial, replies, i) == read
        }),
{
    let step = RenderStep::ReadProperty { index: i as usize, addr: addrs[i], serial };
    let read = values.update(i, replies(step).bits);
    let at = first_taken(addrs, i + 1);
    lemma_first_taken(addrs, i + 1);
    assert(read_out(addrs, values, serial, replies, i) =~= read_out(
        addrs,
        read,
        serial,
        replies,
        at,
    ));
    if at == addrs.len() {
        assert(read_out(addrs, values, serial, replies, i) =~= read);
    }
}

/// Each step leaves the values and the writes ahead as they were foreseen, but
/// for what it writes itself.
#[verifier::rlimit(60)]
proof fn lemma_step_foreseen(
    editor: EditorModel,
    watch: PropertyWatch,
    step: RenderStep,
    replies: spec_fn(RenderStep) -> Reply,
)
    requires
        step.wf(),
        step != RenderStep::Done,
        editor.values.len() == MAX_PROPS,
        current(editor, watch.table.addrs@, step),
    ensures
        ({
            let edited = editor_after(editor, watch, step, replies(step));
            let after = watch_after(watch, step, replies(step));
            let next = step_after(editor, watch, step, replies(step));
            &&& edited.values.len() == MAX_PROPS
            &&& current(edited, after.table.addrs@, next)
            &&& values_ahead(edited, after.table, next, replies) == values_ahead(
                editor,
                watch.table,
                step,
                replies,
            )
            &&& writes_ahead(editor, watch.table, step, replies) =~= step_writes(
                editor,
                watch,
                step,
            ) + writes_ahead(edited, after.table, next, replies)
        }),
{
    let addrs = watch.table.addrs@;
    let values = editor.values;
    let reply = replies(step);
    let edited = editor_after(editor, watch, step, reply);
    lemma_first_taken(addrs, 0);
    match step {
        RenderStep::Checkbox { which: Checkbox::InstantUpdate, .. } => {
            if refresh_due(editor, watch.table) {
                assert(first_taken(addrs, 0) == 0);
            }
        },
        RenderStep::ReadProperty { index, serial, .. } => {
            lemma_first_taken(addrs, index + 1);
            lemma_read_one(addrs, values, serial, replies, index as int);
        },
        RenderStep::Separator { place: Divider::Header { selected: true } } => {
            lemma_skip_free(addrs, values, editor.instant_update, replies, 0);
        },
        RenderStep::InputValue { index, .. } => {
            lemma_first_taken(addrs, index + 1);
            lemma_enter_one(addrs, values, replies, index as int);
            lemma_skip_free(addrs, edited.values, editor.instant_update, replies, index + 1);
        },
        RenderStep::Apply { cause: ApplySwitch::Input { index } } => {
            lemma_first_taken(addrs, index + 1);
            lemma_skip_free(addrs, values, editor.instant_update, replies, index + 1);
        },
        RenderStep::DebugLine { index, .. } => {
            lemma_first_taken(addrs, index + 1);
        },
        _ => {},
    }
}

proof fn lemma_frame_foreseen(
    editor: EditorModel,
    watch: PropertyWatch,
    step: RenderStep,
    replies: spec_fn(RenderStep) -> Reply,
)
    requires
        step.wf(),
        editor.values.len() == MAX_PROPS,
        current(editor, watch.table.addrs@, step),
    ensures
        frame(editor, watch, step, replies).0.values == values_ahead(
            editor,
            watch.table,
            step,
            replies,
        ),
        frame_writes(editor, watch, step, replies) == writes_ahead(
            editor,
            watch.table,
            step,
            replies,
        ),
    decreases step.steps_ahead(),
{
    if step != RenderStep::Done {
        lemma_step_after(editor, watch, step, replies(step));
        lemma_step_foreseen(editor, watch, step, replies);
        lemma_frame_foreseen(
            editor_after(editor, watch, step, replies(step)),
            watch_after(watch, step, replies(step)),
            step_after(editor, watch, step, replies(step)),
            replies,
        );
    }
}

/// Whatever the user does, at the end of a frame the value of each captured
/// property is the one entered for it, or the one shown where none was. Where
/// nothing is captured or the feature is off, the values stay.
pub proof fn law_frame_keeps_entered_values(
    editor: EditorModel,
    watch: PropertyWatch,
    replies: spec_fn(RenderStep) -> Reply,
)
    requires
        editor.values.len() == MAX_PROPS,
    ensures
        frame(editor, watch, first_step(watch), replies).0.values == (if watch.enabled
            && watch.table.addrs@[0] != 0 {
            entered(watch.table.addrs@, shown(editor, watch.table, replies), replies, 0)
        } else {
            editor.values
        }),
{
    lemma_frame_foreseen(editor, watch, first_step(watch), replies);
}

/// Whatever the user does, a frame writes exactly what is asked for: with
/// instant update the values after each change, and for the Apply button the
/// values at the end of the frame, those entered in it among them.
pub proof fn law_frame_writes_on_demand(
    editor: EditorModel,
    watch: PropertyWatch,
    replies: spec_fn(RenderStep) -> Reply,
)
    requires
        editor.values.len() == MAX_PROPS,
    ensures
        ({
            let addrs = watch.table.addrs@;
            let first = first_step(watch);
            frame_writes(editor, watch, first, replies) == (if watch.enabled && addrs[0] != 0 {
                instant_writes(
                    addrs,
                    shown(editor, watch.table, replies),
                    instant(editor, replies),
                    replies,
                    0,
                ) + button_writes(addrs, frame(editor, watch, first, replies).0.values, replies)
            } else {
                seq![]
            })
        }),
{
    lemma_frame_foreseen(editor, watch, first_step(watch), replies);
}

proof fn lemma_no_instant_writes(
    addrs: Seq<u64>,
    values: Seq<u32>,
    instant: bool,
    replies: spec_fn(RenderStep) -> Reply,
    from: int,
)
    requires
        forall|index: usize, bits: u32|
            (#[trigger] replies(RenderStep::InputValue { index, bits })).hit ==> !instant,
    ensures
        instant_writes(addrs, values, instant, replies, from).len() == 0,
    decreases addrs.len() - from,
{
    if from < addrs.len() {
        let reply = input_reply(values, replies, from);
        lemma_no_instant_writes(addrs, values, instant, replies, from + 1);
        lemma_no_instant_writes(addrs, values.update(from, reply.bits), instant, replies, from + 1);
    }
}

proof fn lemma_apply_steps(
    editor: EditorModel,
    watch: PropertyWatch,
    step: RenderStep,
    replies: spec_fn(RenderStep) -> Reply,
)
    requires
        step.wf(),
        frame_writes(editor, watch, step, replies).len() == 0,
    ensures
        forall|k: int|
            0 <= k < frame(editor, watch, step, replies).2.len()
                ==> !(#[trigger] frame(editor, watch, step, replies).2[k] is Apply),
    decreases step.steps_ahead(),
{
    if step != RenderStep::Done {
        let edited = editor_after(editor, watch, step, replies(step));
        let after = watch_after(watch, step, replies(step));
        let next = step_after(editor, watch, step, replies(step));
        lemma_step_after(editor, watch, step, replies(step));
        lemma_apply_steps(edited, after, next, replies);
        let steps = frame(editor, watch, step, replies).2;
        let rest = frame(edited, after, next, replies).2;
        assert forall|k: int| 0 <= k < steps.len() implies !(#[trigger] steps[k] is Apply) by {
            if k > 0 {
                assert(steps[k] == rest[k - 1]);
            }
        }
    }
}

/// Where the Apply button is not clicked, and no value is changed while instant
/// update is on, a frame writes nothing: the values are not applied in it.
pub proof fn law_frame_without_demand_writes_nothing(
    editor: EditorModel,
    watch: PropertyWatch,
    replies: spec_fn(RenderStep) -> Reply,
)
    requires
        editor.values.len() == MAX_PROPS,
        !apply_clicked(replies),
        forall|index: usize, bits: u32|
            (#[trigger] replies(RenderStep::InputValue { index, bits })).hit ==> !instant(
                editor,
                replies,
            ),
    ensures
        frame_writes(editor, watch, first_step(watch), replies).len() == 0,
        forall|k: int|
            0 <= k < frame(editor, watch, first_step(watch), replies).2.len()
                ==> !(#[trigger] frame(editor, watch, first_step(watch), replies).2[k] is Apply),
{
    law_frame_writes_on_demand(editor, watch, replies);
    lemma_no_instant_writes(
        watch.table.addrs@,
        shown(editor, watch.table, replies),
        instant(editor, replies),
        replies,
        0,
    );
    lemma_apply_steps(editor, watch, first_step(watch), replies);
}

} // verus!

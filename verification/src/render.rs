//! The property editor's panel, one step at a time.
//!
//! Drawing a frame alternates between the user interface, the game's memory
//! and decisions. A [`RenderStep`] is the next thing to do outside; what came
//! of it is a [`Reply`], from which [`PropertyEditorTweak::render`] decides on
//! the step after it.

use vstd::prelude::*;

use crate::capture::{cleared, first_taken, law_clear_frees_all, lemma_first_taken};
use crate::capture::{CaptureTable, MAX_PROPS};
use crate::property_editor::{EditorModel, PropertyEditorTweak};
use crate::watch::{breakpoint_change, capture_set};
use crate::watch::{BreakpointChange, PropertyWatch};

verus! {

/// Width of a value's input field.
pub const INPUT_WIDTH: u16 = 160;

#[derive(Clone, Copy, PartialEq, Eq, Structural, Debug)]
pub enum Checkbox {
    Capture,
    BlockWrites,
    InstantUpdate,
    ShowDebug,
}

impl Checkbox {
    pub open spec fn label_spec(self) -> Seq<char> {
        match self {
            Checkbox::Capture => "Capture Mode (F3)"@,
            Checkbox::BlockWrites => "Prevent property writes"@,
            Checkbox::InstantUpdate => "Instant update"@,
            Checkbox::ShowDebug => "Show captured addresses"@,
        }
    }

    pub fn label(self) -> (text: &'static str)
        ensures
            text@ == self.label_spec(),
    {
        match self {
            Checkbox::Capture => "Capture Mode (F3)",
            Checkbox::BlockWrites => "Prevent property writes",
            Checkbox::InstantUpdate => "Instant update",
            Checkbox::ShowDebug => "Show captured addresses",
        }
    }
}

#[derive(Clone, Copy, PartialEq, Eq, Structural, Debug)]
pub enum Button {
    Apply,
    Clear,
}

impl Button {
    pub open spec fn label_spec(self) -> Seq<char> {
        match self {
            Button::Apply => "Apply"@,
            Button::Clear => "Clear"@,
        }
    }

    pub fn label(self) -> (text: &'static str)
        ensures
            text@ == self.label_spec(),
    {
        match self {
            Button::Apply => "Apply",
            Button::Clear => "Clear",
        }
    }
}

/// The tooltips of the two checkboxes that have one.
#[derive(Clone, Copy, PartialEq, Eq, Structural, Debug)]
pub enum Tip {
    Capture,
    BlockWrites,
}

impl Tip {
    pub open spec fn text_spec(self) -> Seq<char> {
        match self {
            Tip::Capture => "Select a component to capture its property addresses."@,
            Tip::BlockWrites =>
                "Stops the game from writing/clamping the selected component's\nproperties so illegal values stick (disables the normal sliders)."@,
        }
    }

    pub fn text(self) -> (text: &'static str)
        ensures
            text@ == self.text_spec(),
    {
        match self {
            Tip::Capture => "Select a component to capture its property addresses.",
            Tip::BlockWrites =>
                "Stops the game from writing/clamping the selected component's\nproperties so illegal values stick (disables the normal sliders).",
        }
    }
}

/// The greyed out remarks.
#[derive(Clone, Copy, PartialEq, Eq, Structural, Debug)]
pub enum Note {
    NothingCaptured,
    HowToCapture,
    BeforeApply,
}

impl Note {
    pub open spec fn text_spec(self) -> Seq<char> {
        match self {
            Note::NothingCaptured => "No component captured."@,
            Note::HowToCapture => "Enable Capture Mode and select a component."@,
            Note::BeforeApply =>
                "Deselect the block before Apply,\nor it may not stick.\n(or use \"Prevent property writes\")"@,
        }
    }

    pub fn text(self) -> (text: &'static str)
        ensures
            text@ == self.text_spec(),
    {
        match self {
            Note::NothingCaptured => "No component captured.",
            Note::HowToCapture => "Enable Capture Mode and select a component.",
            Note::BeforeApply =>
                "Deselect the block before Apply,\nor it may not stick.\n(or use \"Prevent property writes\")",
        }
    }
}

/// What asked for a breakpoint change.
#[derive(Clone, Copy, PartialEq, Eq, Structural, Debug)]
pub enum CaptureSwitch {
    Key,
    Checkbox,
}

/// What asked for the values to be written.
#[derive(Clone, Copy, PartialEq, Eq, Structural, Debug)]
pub enum ApplySwitch {
    /// A change of the value in a slot, with instant update on.
    Input { index: usize },
    Button,
}

/// Where a separator stands.
#[derive(Clone, Copy, PartialEq, Eq, Structural, Debug)]
pub enum Divider {
    /// Below the checkboxes; whether a component is captured is known by then.
    Header { selected: bool },
    /// Below the values.
    Footer,
}

/// The next thing to do outside to draw a frame.
#[derive(Clone, Copy, PartialEq, Eq, Structural, Debug)]
pub enum RenderStep {
    /// Ask whether the F3 key was pressed, repeats aside.
    PollCaptureKey,
    /// Change the breakpoint on every thread.
    Breakpoint { change: BreakpointChange, asked_by: CaptureSwitch },
    /// Draw a checkbox.
    Checkbox { which: Checkbox, checked: bool },
    /// Ask whether the checkbox with this tooltip is hovered.
    Hover { tip: Tip },
    /// Show a tooltip.
    Tooltip { tip: Tip },
    /// Read the property at an address. `serial` is that of the table at the
    /// time when reading the values began.
    ReadProperty { index: usize, addr: u64, serial: u32 },
    /// Draw a separator.
    Separator { place: Divider },
    /// Draw a remark.
    Note { note: Note },
    /// Draw the name of a property.
    PropertyName { index: usize },
    /// Set the width of the next item to `INPUT_WIDTH`.
    InputWidth { index: usize },
    /// Draw the input field of a value.
    InputValue { index: usize, bits: u32 },
    /// Perform the writes that `PropertyEditorTweak::apply` asks for.
    Apply { cause: ApplySwitch },
    /// Draw a button.
    Button { button: Button },
    /// Put the next item beside the last one.
    SameLine,
    /// Draw the line that tells a captured address.
    DebugLine { index: usize, addr: u64 },
    /// The frame is drawn.
    Done,
}

/// What came of a step.
#[derive(Clone, Copy, PartialEq, Eq, Structural, Debug)]
pub struct Reply {
    /// The key was pressed, or the item was clicked, hovered or changed.
    pub hit: bool,
    /// Whether the checkbox is checked now.
    pub checked: bool,
    /// The bits of the value that was read or entered.
    pub bits: u32,
}

impl RenderStep {
    /// The slots that a step names exist.
    pub open spec fn wf(self) -> bool {
        match self {
            RenderStep::ReadProperty { index, .. } => index < MAX_PROPS,
            RenderStep::PropertyName { index } => index < MAX_PROPS,
            RenderStep::InputWidth { index } => index < MAX_PROPS,
            RenderStep::InputValue { index, .. } => index < MAX_PROPS,
            RenderStep::Apply { cause: ApplySwitch::Input { index } } => index < MAX_PROPS,
            RenderStep::DebugLine { index, .. } => index < MAX_PROPS,
            _ => true,
        }
    }

    /// A bound on the steps ahead.
    pub open spec fn steps_ahead(self) -> int {
        match self {
            RenderStep::PollCaptureKey => 60,
            RenderStep::Breakpoint { asked_by: CaptureSwitch::Key, .. } => 59,
            RenderStep::Checkbox { which: Checkbox::Capture, .. } => 58,
            RenderStep::Breakpoint { asked_by: CaptureSwitch::Checkbox, .. } => 57,
            RenderStep::Hover { tip: Tip::Capture } => 56,
            RenderStep::Tooltip { tip: Tip::Capture } => 55,
            RenderStep::Checkbox { which: Checkbox::BlockWrites, .. } => 54,
            RenderStep::Hover { tip: Tip::BlockWrites } => 53,
            RenderStep::Tooltip { tip: Tip::BlockWrites } => 52,
            RenderStep::Checkbox { which: Checkbox::InstantUpdate, .. } => 51,
            RenderStep::ReadProperty { index, .. } => 50 - index,
            RenderStep::Separator { place: Divider::Header { .. } } => 40,
            RenderStep::Note { note: Note::NothingCaptured } => 39,
            RenderStep::Note { note: Note::HowToCapture } => 38,
            RenderStep::PropertyName { index } => 37 - 4 * index,
            RenderStep::InputWidth { index } => 36 - 4 * index,
            RenderStep::InputValue { index, .. } => 35 - 4 * index,
            RenderStep::Apply { cause: ApplySwitch::Input { index } } => 34 - 4 * index,
            RenderStep::Separator { place: Divider::Footer } => 17,
            RenderStep::Note { note: Note::BeforeApply } => 16,
            RenderStep::Button { button: Button::Apply } => 15,
            RenderStep::Apply { cause: ApplySwitch::Button } => 14,
            RenderStep::SameLine => 13,
            RenderStep::Button { button: Button::Clear } => 12,
            RenderStep::Checkbox { which: Checkbox::ShowDebug, .. } => 11,
            RenderStep::DebugLine { index, .. } => 10 - index,
            RenderStep::Done => 0,
        }
    }
}

/// Whether the shown values are due to be read: a component is captured, and
/// the table changed since they were read last.
pub open spec fn refresh_due(editor: EditorModel, table: CaptureTable) -> bool {
    editor.read_on_select && table.addrs@[0] != 0 && table.serial != editor.last_serial
}

/// The step that reads the first captured value from slot `from` on, or what
/// comes after the last.
pub open spec fn read_from(table: CaptureTable, from: int, serial: u32) -> RenderStep {
    let at = first_taken(table.addrs@, from);
    if at < MAX_PROPS {
        RenderStep::ReadProperty { index: at as usize, addr: table.addrs@[at], serial }
    } else {
        RenderStep::Separator { place: Divider::Header { selected: true } }
    }
}

/// The step that shows the first captured value from slot `from` on, or what
/// comes after the last.
pub open spec fn show_from(table: CaptureTable, from: int) -> RenderStep {
    let at = first_taken(table.addrs@, from);
    if at < MAX_PROPS {
        RenderStep::PropertyName { index: at as usize }
    } else {
        RenderStep::Separator { place: Divider::Footer }
    }
}

/// The step that lists the first captured address from slot `from` on, or what
/// comes after the last.
pub open spec fn list_from(table: CaptureTable, from: int) -> RenderStep {
    let at = first_taken(table.addrs@, from);
    if at < MAX_PROPS {
        RenderStep::DebugLine { index: at as usize, addr: table.addrs@[at] }
    } else {
        RenderStep::Done
    }
}

/// The first step of a frame: while the feature is off nothing is drawn.
pub open spec fn first_step(watch: PropertyWatch) -> RenderStep {
    if watch.enabled {
        RenderStep::PollCaptureKey
    } else {
        RenderStep::Done
    }
}

/// The editor after a step.
pub open spec fn editor_after(
    editor: EditorModel,
    watch: PropertyWatch,
    step: RenderStep,
    reply: Reply,
) -> EditorModel {
    match step {
        RenderStep::Checkbox { which: Checkbox::InstantUpdate, .. } => EditorModel {
            instant_update: reply.checked,
            ..editor
        },
        RenderStep::Checkbox { which: Checkbox::ShowDebug, .. } => EditorModel {
            show_debug: reply.checked,
            ..editor
        },
        RenderStep::ReadProperty { index, serial, .. } => EditorModel {
            values: editor.values.update(index as int, reply.bits),
            last_serial: if first_taken(watch.table.addrs@, index + 1) < MAX_PROPS {
                editor.last_serial
            } else {
                serial
            },
            ..editor
        },
        RenderStep::InputValue { index, .. } if reply.hit => EditorModel {
            values: editor.values.update(index as int, reply.bits),
            ..editor
        },
        RenderStep::Button { button: Button::Clear } if reply.hit => EditorModel {
            last_serial: 0,
            ..editor
        },
        _ => editor,
    }
}

/// The shared state after a step.
pub open spec fn watch_after(watch: PropertyWatch, step: RenderStep, reply: Reply) -> PropertyWatch {
    match step {
        RenderStep::PollCaptureKey if reply.hit => capture_set(watch, !watch.capture),
        RenderStep::Checkbox { which: Checkbox::Capture, .. } if reply.hit => capture_set(
            watch,
            reply.checked,
        ),
        RenderStep::Checkbox { which: Checkbox::BlockWrites, .. } if reply.hit => PropertyWatch {
            block_writes: reply.checked,
            ..watch
        },
        RenderStep::Button { button: Button::Clear } if reply.hit => PropertyWatch {
            table: cleared(watch.table),
            ..watch
        },
        _ => watch,
    }
}

/// The step after a step.
pub open spec fn step_after(
    editor: EditorModel,
    watch: PropertyWatch,
    step: RenderStep,
    reply: Reply,
) -> RenderStep {
    match step {
        RenderStep::PollCaptureKey => if reply.hit {
            RenderStep::Breakpoint {
                change: breakpoint_change(watch, !watch.capture),
                asked_by: CaptureSwitch::Key,
            }
        } else {
            RenderStep::Checkbox { which: Checkbox::Capture, checked: watch.capture }
        },
        RenderStep::Breakpoint { asked_by: CaptureSwitch::Key, .. } => RenderStep::Checkbox {
            which: Checkbox::Capture,
            checked: watch.capture,
        },
        RenderStep::Checkbox { which: Checkbox::Capture, .. } => if reply.hit {
            RenderStep::Breakpoint {
                change: breakpoint_change(watch, reply.checked),
                asked_by: CaptureSwitch::Checkbox,
            }
        } else {
            RenderStep::Hover { tip: Tip::Capture }
        },
        RenderStep::Breakpoint { asked_by: CaptureSwitch::Checkbox, .. } => RenderStep::Hover {
            tip: Tip::Capture,
        },
        RenderStep::Hover { tip } if reply.hit => RenderStep::Tooltip { tip },
        RenderStep::Hover { tip: Tip::Capture } => RenderStep::Checkbox {
            which: Checkbox::BlockWrites,
            checked: watch.block_writes,
        },
        RenderStep::Tooltip { tip: Tip::Capture } => RenderStep::Checkbox {
            which: Checkbox::BlockWrites,
            checked: watch.block_writes,
        },
        RenderStep::Checkbox { which: Checkbox::BlockWrites, .. } => RenderStep::Hover {
            tip: Tip::BlockWrites,
        },
        RenderStep::Hover { tip: Tip::BlockWrites } => RenderStep::Checkbox {
            which: Checkbox::InstantUpdate,
            checked: editor.instant_update,
        },
        RenderStep::Tooltip { tip: Tip::BlockWrites } => RenderStep::Checkbox {
            which: Checkbox::InstantUpdate,
            checked: editor.instant_update,
        },
        RenderStep::Checkbox { which: Checkbox::InstantUpdate, .. } => if refresh_due(
            editor,
            watch.table,
        ) {
            read_from(watch.table, 0, watch.table.serial)
        } else {
            RenderStep::Separator {
                place: Divider::Header { selected: watch.table.addrs@[0] != 0 },
            }
        },
        RenderStep::ReadProperty { index, serial, .. } => read_from(
            watch.table,
            index + 1,
            serial,
        ),
        RenderStep::Separator { place: Divider::Header { selected } } => if selected {
            show_from(watch.table, 0)
        } else {
            RenderStep::Note { note: Note::NothingCaptured }
        },
        RenderStep::Note { note: Note::NothingCaptured } => RenderStep::Note {
            note: Note::HowToCapture,
        },
        RenderStep::Note { note: Note::HowToCapture } => RenderStep::Done,
        RenderStep::PropertyName { index } => RenderStep::InputWidth { index },
        RenderStep::InputWidth { index } => RenderStep::InputValue {
            index,
            bits: editor.values[index as int],
        },
        RenderStep::InputValue { index, .. } => if reply.hit && editor.instant_update {
            RenderStep::Apply { cause: ApplySwitch::Input { index } }
        } else {
            show_from(watch.table, index + 1)
        },
        RenderStep::Apply { cause: ApplySwitch::Input { index } } => show_from(
            watch.table,
            index + 1,
        ),
        RenderStep::Separator { place: Divider::Footer } => RenderStep::Note {
            note: Note::BeforeApply,
        },
        RenderStep::Note { note: Note::BeforeApply } => RenderStep::Button {
            button: Button::Apply,
        },
        RenderStep::Button { button: Button::Apply } => if reply.hit {
            RenderStep::Apply { cause: ApplySwitch::Button }
        } else {
            RenderStep::SameLine
        },
        RenderStep::Apply { cause: ApplySwitch::Button } => RenderStep::SameLine,
        RenderStep::SameLine => RenderStep::Button { button: Button::Clear },
        RenderStep::Button { button: Button::Clear } => RenderStep::Checkbox {
            which: Checkbox::ShowDebug,
            checked: editor.show_debug,
        },
        RenderStep::Checkbox { which: Checkbox::ShowDebug, .. } => if reply.checked {
            list_from(watch.table, 0)
        } else {
            RenderStep::Done
        },
        RenderStep::DebugLine { index, .. } => list_from(watch.table, index + 1),
        RenderStep::Done => RenderStep::Done,
    }
}

/// The steps of a frame name slots that exist, and come to an end.
pub proof fn lemma_step_after(
    editor: EditorModel,
    watch: PropertyWatch,
    step: RenderStep,
    reply: Reply,
)
    requires
        step.wf(),
    ensures
        step_after(editor, watch, step, reply).wf(),
        step != RenderStep::Done ==> 0 <= step_after(editor, watch, step, reply).steps_ahead()
            < step.steps_ahead(),
{
    let addrs = watch.table.addrs@;
    lemma_first_taken(addrs, 0);
    match step {
        RenderStep::ReadProperty { index, .. } => lemma_first_taken(addrs, index + 1),
        RenderStep::InputValue { index, .. } => lemma_first_taken(addrs, index + 1),
        RenderStep::Apply { cause: ApplySwitch::Input { index } } => lemma_first_taken(
            addrs,
            index + 1,
        ),
        RenderStep::DebugLine { index, .. } => lemma_first_taken(addrs, index + 1),
        _ => {},
    }
}

/// Drawing a frame keeps the shared state well formed, and the feature on.
proof fn lemma_watch_after(watch: PropertyWatch, step: RenderStep, reply: Reply)
    requires
        watch.wf() && watch.enabled,
    ensures
        watch_after(watch, step, reply).wf() && watch_after(watch, step, reply).enabled,
{
}

fn next_read(table: &CaptureTable, from: usize, serial: u32) -> (step: RenderStep)
    requires
        from <= MAX_PROPS,
    ensures
        step == read_from(*table, from as int, serial),
{
    let at: usize = table.next_taken(from);
    if at < MAX_PROPS {
        RenderStep::ReadProperty { index: at, addr: table.addrs[at], serial }
    } else {
        RenderStep::Separator { place: Divider::Header { selected: true } }
    }
}

fn next_shown(table: &CaptureTable, from: usize) -> (step: RenderStep)
    requires
        from <= MAX_PROPS,
    ensures
        step == show_from(*table, from as int),
{
    let at: usize = table.next_taken(from);
    if at < MAX_PROPS {
        RenderStep::PropertyName { index: at }
    } else {
        RenderStep::Separator { place: Divider::Footer }
    }
}

fn next_listed(table: &CaptureTable, from: usize) -> (step: RenderStep)
    requires
        from <= MAX_PROPS,
    ensures
        step == list_from(*table, from as int),
{
    let at: usize = table.next_taken(from);
    if at < MAX_PROPS {
        RenderStep::DebugLine { index: at, addr: table.addrs[at] }
    } else {
        RenderStep::Done
    }
}

impl PropertyEditorTweak {
    /// The first step of a frame.
    pub fn begin_frame(&self, watch: &PropertyWatch) -> (step: RenderStep)
        ensures
            step == first_step(*watch),
            step.wf(),
    {
        if watch.enabled {
            RenderStep::PollCaptureKey
        } else {
            RenderStep::Done
        }
    }

    /// Takes in what came of a step, and decides on the next.
    pub fn render(&mut self, watch: &mut PropertyWatch, step: RenderStep, reply: Reply) -> (next:
        RenderStep)
        requires
            step.wf(),
        ensures
            final(self)@ == editor_after(old(self)@, *old(watch), step, reply),
            *final(watch) == watch_after(*old(watch), step, reply),
            next == step_after(old(self)@, *old(watch), step, reply),
            next.wf(),
            step != RenderStep::Done ==> 0 <= next.steps_ahead() < step.steps_ahead(),
            old(watch).wf() && old(watch).enabled ==> final(watch).wf() && final(watch).enabled,
    {
        proof {
            lemma_step_after(self@, *watch, step, reply);
            if watch.wf() && watch.enabled {
                lemma_watch_after(*watch, step, reply);
            }
        }
        match step {
            RenderStep::PollCaptureKey | RenderStep::Breakpoint { .. } | RenderStep::Checkbox {
                which: Checkbox::Capture | Checkbox::BlockWrites,
                ..
            } | RenderStep::Hover { .. } | RenderStep::Tooltip { .. } => self.render_switches(
                watch,
                step,
                reply,
            ),
            RenderStep::Checkbox { which: Checkbox::InstantUpdate, .. }
            | RenderStep::ReadProperty { .. } => self.render_refresh(watch, step, reply),
            RenderStep::Separator { place: Divider::Header { .. } }
            | RenderStep::PropertyName { .. } | RenderStep::InputWidth { .. }
            | RenderStep::InputValue { .. } | RenderStep::Apply {
                cause: ApplySwitch::Input { .. },
            } => self.render_values(watch, step, reply),
            _ => self.render_footer(watch, step, reply),
        }
    }

    /// The steps of the capture key and of the first two checkboxes.
    fn render_switches(&self, watch: &mut PropertyWatch, step: RenderStep, reply: Reply) -> (next:
        RenderStep)
        requires
            step is PollCaptureKey || step is Breakpoint || step is Hover || step is Tooltip || (
            step matches RenderStep::Checkbox { which, .. } && (which == Checkbox::Capture || which
                == Checkbox::BlockWrites)),
        ensures
            self@ == editor_after(self@, *old(watch), step, reply),
            *final(watch) == watch_after(*old(watch), step, reply),
            next == step_after(self@, *old(watch), step, reply),
    {
        match step {
            RenderStep::PollCaptureKey => {
                if reply.hit {
                    let change = watch.set_capture(!watch.capture);
                    RenderStep::Breakpoint { change, asked_by: CaptureSwitch::Key }
                } else {
                    RenderStep::Checkbox { which: Checkbox::Capture, checked: watch.capture }
                }
            },
            RenderStep::Breakpoint { asked_by: CaptureSwitch::Key, .. } => RenderStep::Checkbox {
                which: Checkbox::Capture,
                checked: watch.capture,
            },
            RenderStep::Checkbox { which: Checkbox::Capture, .. } => {
                if reply.hit {
                    let change = watch.set_capture(reply.checked);
                    RenderStep::Breakpoint { change, asked_by: CaptureSwitch::Checkbox }
                } else {
                    RenderStep::Hover { tip: Tip::Capture }
                }
            },
            RenderStep::Breakpoint { asked_by: CaptureSwitch::Checkbox, .. } => RenderStep::Hover {
                tip: Tip::Capture,
            },
            RenderStep::Hover { tip } => {
                if reply.hit {
                    RenderStep::Tooltip { tip }
                } else {
                    self.after_tip(watch, tip)
                }
            },
            RenderStep::Tooltip { tip } => self.after_tip(watch, tip),
            _ => {
                if reply.hit {
                    watch.block_writes = reply.checked;
                }
                RenderStep::Hover { tip: Tip::BlockWrites }
            },
        }
    }

    /// The steps from the instant update checkbox to the last value read.
    fn render_refresh(&mut self, watch: &PropertyWatch, step: RenderStep, reply: Reply) -> (next:
        RenderStep)
        requires
            step.wf(),
            step is ReadProperty || (step matches RenderStep::Checkbox { which, .. } && which
                == Checkbox::InstantUpdate),
        ensures
            final(self)@ == editor_after(old(self)@, *watch, step, reply),
            *watch == watch_after(*watch, step, reply),
            next == step_after(old(self)@, *watch, step, reply),
    {
        match step {
            RenderStep::ReadProperty { index, serial, .. } => {
                self.values[index] = reply.bits;
                if watch.table.next_taken(index + 1) == MAX_PROPS {
                    self.last_serial = serial;
                }
                next_read(&watch.table, index + 1, serial)
            },
            _ => {
                self.instant_update = reply.checked;
                let selected = watch.table.has_selection();
                let serial: u32 = watch.table.serial;
                if self.read_on_select && selected && serial != self.last_serial {
                    next_read(&watch.table, 0, serial)
                } else {
                    RenderStep::Separator { place: Divider::Header { selected } }
                }
            },
        }
    }

    /// The steps that show the values.
    fn render_values(&mut self, watch: &PropertyWatch, step: RenderStep, reply: Reply) -> (next:
        RenderStep)
        requires
            step.wf(),
            step is PropertyName || step is InputWidth || step is InputValue || (
            step matches RenderStep::Separator { place } && place is Header) || (
            step matches RenderStep::Apply { cause } && cause is Input),
        ensures
            final(self)@ == editor_after(old(self)@, *watch, step, reply),
            *watch == watch_after(*watch, step, reply),
            next == step_after(old(self)@, *watch, step, reply),
    {
        match step {
            RenderStep::Separator { place: Divider::Header { selected } } => {
                if selected {
                    next_shown(&watch.table, 0)
                } else {
                    RenderStep::Note { note: Note::NothingCaptured }
                }
            },
            RenderStep::PropertyName { index } => RenderStep::InputWidth { index },
            RenderStep::InputWidth { index } => RenderStep::InputValue {
                index,
                bits: self.values[index],
            },
            RenderStep::InputValue { index, .. } => {
                if reply.hit {
                    self.values[index] = reply.bits;
                }
                if reply.hit && self.instant_update {
                    RenderStep::Apply { cause: ApplySwitch::Input { index } }
                } else {
                    next_shown(&watch.table, index + 1)
                }
            },
            RenderStep::Apply { cause: ApplySwitch::Input { index } } => next_shown(
                &watch.table,
                index + 1,
            ),
            _ => RenderStep::Done,
        }
    }

    /// The remarks, the buttons and the list of addresses.
    fn render_footer(&mut self, watch: &mut PropertyWatch, step: RenderStep, reply: Reply) -> (next:
        RenderStep)
        requires
            step.wf(),
            step is Note || step is Button || step is SameLine || step is DebugLine || step is Done
                || (step matches RenderStep::Separator { place } && place is Footer) || (
            step matches RenderStep::Apply { cause } && cause is Button) || (
            step matches RenderStep::Checkbox { which, .. } && which == Checkbox::ShowDebug),
        ensures
            final(self)@ == editor_after(old(self)@, *old(watch), step, reply),
            *final(watch) == watch_after(*old(watch), step, reply),
            next == step_after(old(self)@, *old(watch), step, reply),
    {
        match step {
            RenderStep::Note { note: Note::NothingCaptured } => RenderStep::Note {
                note: Note::HowToCapture,
            },
            RenderStep::Note { note: Note::HowToCapture } => RenderStep::Done,
            RenderStep::Note { note: Note::BeforeApply } => RenderStep::Button {
                button: Button::Apply,
            },
            RenderStep::Separator { .. } => RenderStep::Note { note: Note::BeforeApply },
            RenderStep::Button { button: Button::Apply } => {
                if reply.hit {
                    RenderStep::Apply { cause: ApplySwitch::Button }
                } else {
                    RenderStep::SameLine
                }
            },
            RenderStep::Apply { .. } => RenderStep::SameLine,
            RenderStep::SameLine => RenderStep::Button { button: Button::Clear },
            RenderStep::Button { button: Button::Clear } => {
                if reply.hit {
                    watch.table.clear();
                    self.last_serial = 0;
                }
                RenderStep::Checkbox { which: Checkbox::ShowDebug, checked: self.show_debug }
            },
            RenderStep::Checkbox { .. } => {
                self.show_debug = reply.checked;
                if self.show_debug {
                    next_listed(&watch.table, 0)
                } else {
                    RenderStep::Done
                }
            },
            RenderStep::DebugLine { index, .. } => next_listed(&watch.table, index + 1),
            _ => RenderStep::Done,
        }
    }

    /// What follows a checkbox with a tooltip.
    fn after_tip(&self, watch: &PropertyWatch, tip: Tip) -> (step: RenderStep)
        ensures
            step == (match tip {
                Tip::Capture => RenderStep::Checkbox {
                    which: Checkbox::BlockWrites,
                    checked: watch.block_writes,
                },
                Tip::BlockWrites => RenderStep::Checkbox {
                    which: Checkbox::InstantUpdate,
                    checked: self.instant_update,
                },
            }),
    {
        match tip {
            Tip::Capture => RenderStep::Checkbox {
                which: Checkbox::BlockWrites,
                checked: watch.block_writes,
            },
            Tip::BlockWrites => RenderStep::Checkbox {
                which: Checkbox::InstantUpdate,
                checked: self.instant_update,
            },
        }
    }
}

/// What one step does to the shared state, whatever that is by then: the key turns
/// capturing over; the capture checkbox, if clicked, leaves capturing and the
/// breakpoint as it was left itself, and the other checkbox blocking; emptying
/// the table frees it. No other step and no other reply changes anything.
pub proof fn law_step_switches(watch: PropertyWatch, step: RenderStep, reply: Reply)
    ensures
        ({
            let after = watch_after(watch, step, reply);
            let key = step is PollCaptureKey && reply.hit;
            let capture_box = step is Checkbox && step->which is Capture && reply.hit;
            let block_box = step is Checkbox && step->which is BlockWrites && reply.hit;
            let emptied = step is Button && step->button is Clear && reply.hit;
            &&& after.target == watch.target
            &&& after.enabled == watch.enabled
            &&& after.veh_handle == watch.veh_handle
            &&& key ==> after.capture != watch.capture && after.bp_set == after.capture
            &&& capture_box ==> after.capture == reply.checked && after.bp_set == reply.checked
            &&& !key && !capture_box ==> after.capture == watch.capture && after.bp_set
                == watch.bp_set
            &&& block_box ==> after.block_writes == reply.checked
            &&& !block_box ==> after.block_writes == watch.block_writes
            &&& emptied ==> {
                &&& forall|i: int| 0 <= i < MAX_PROPS ==> #[trigger] after.table.addrs@[i] == 0
                &&& after.table.last_ms == 0
                &&& after.table.serial == (watch.table.serial + 1) % 0x1_0000_0000
            }
            &&& !emptied ==> after.table == watch.table
        }),
{
    law_clear_frees_all(watch.table);
}

/// The step after a switch of capturing performs what the breakpoint needs for it:
/// it is armed at the watched instruction where capturing goes on and it is not
/// armed, removed where capturing goes off and it is, and kept otherwise.
pub proof fn law_switch_changes_breakpoint(
    editor: EditorModel,
    watch: PropertyWatch,
    step: RenderStep,
    reply: Reply,
)
    requires
        reply.hit,
        step is PollCaptureKey || (step is Checkbox && step->which is Capture),
    ensures
        ({
            let on = if step is PollCaptureKey {
                !watch.capture
            } else {
                reply.checked
            };
            &&& step_after(editor, watch, step, reply) is Breakpoint
            &&& on == watch.bp_set ==> step_after(editor, watch, step, reply)->change is Keep
            &&& on && !watch.bp_set ==> step_after(editor, watch, step, reply)->change == (
            BreakpointChange::Arm { addr: watch.target })
            &&& !on && watch.bp_set ==> step_after(editor, watch, step, reply)->change is Disarm
        }),
{
}

/// What one step does to the editor, whatever that is by then: a value changes
/// only by reading it or by entering another, and to what was read or entered; the
/// two options follow their checkboxes; and the values belong to the serial with
/// which reading them began once the last of them was read.
pub proof fn law_step_edits(
    editor: EditorModel,
    watch: PropertyWatch,
    step: RenderStep,
    reply: Reply,
)
    requires
        step.wf(),
        editor.values.len() == MAX_PROPS,
    ensures
        ({
            let after = editor_after(editor, watch, step, reply);
            let addrs = watch.table.addrs@;
            let instant_box = step is Checkbox && step->which is InstantUpdate;
            let list_box = step is Checkbox && step->which is ShowDebug;
            let emptied = step is Button && step->button is Clear && reply.hit;
            let all_read = step is ReadProperty && (forall|m: int|
                step->ReadProperty_index < m < MAX_PROPS ==> #[trigger] addrs[m] == 0);
            &&& after.read_on_select == editor.read_on_select
            &&& instant_box ==> after.instant_update == reply.checked
            &&& !instant_box ==> after.instant_update == editor.instant_update
            &&& list_box ==> after.show_debug == reply.checked
            &&& !list_box ==> after.show_debug == editor.show_debug
            &&& emptied ==> after.last_serial == 0
            &&& all_read ==> after.last_serial == step->serial
            &&& !emptied && !all_read ==> after.last_serial == editor.last_serial
            &&& after.values.len() == MAX_PROPS
            &&& forall|i: int|
                0 <= i < MAX_PROPS ==> #[trigger] after.values[i] == (if (step is ReadProperty
                    && step->ReadProperty_index == i) || (step is InputValue && reply.hit
                    && step->InputValue_index == i) {
                    reply.bits
                } else {
                    editor.values[i]
                })
        }),
{
    let addrs = watch.table.addrs@;
    if let RenderStep::ReadProperty { index, .. } = step {
        lemma_first_taken(addrs, index + 1);
    }
}

/// Whether reading, showing and listing go on, and where: from a slot on, the next
/// one up is the first that is taken, and where none is, the panel goes on.
pub proof fn law_next_slot_is_first_taken(table: CaptureTable, from: int, serial: u32)
    requires
        0 <= from <= MAX_PROPS,
    ensures
        ({
            let addrs = table.addrs@;
            let none = forall|m: int| from <= m < MAX_PROPS ==> #[trigger] addrs[m] == 0;
            &&& none ==> {
                &&& read_from(table, from, serial) == (RenderStep::Separator {
                    place: Divider::Header { selected: true },
                })
                &&& show_from(table, from) == (RenderStep::Separator { place: Divider::Footer })
                &&& list_from(table, from) == RenderStep::Done
            }
            &&& forall|at: int|
                from <= at < MAX_PROPS && #[trigger] addrs[at] != 0 && (forall|m: int|
                    from <= m < at ==> #[trigger] addrs[m] == 0) ==> {
                    &&& read_from(table, from, serial) == (RenderStep::ReadProperty {
                        index: at as usize,
                        addr: addrs[at],
                        serial,
                    })
                    &&& show_from(table, from) == (RenderStep::PropertyName { index: at as usize })
                    &&& list_from(table, from) == (RenderStep::DebugLine {
                        index: at as usize,
                        addr: addrs[at],
                    })
                }
        }),
{
    lemma_first_taken(table.addrs@, from);
}

/// Where the panel goes after a step whose outcome matters, whatever the state is
/// by then. After the instant update checkbox the values are read if a component is
/// captured, reading on select is on, and the serial is another than that of the
/// values. After an entered value all are applied if instant update is on. After
/// the checkbox of the list the addresses are listed if it is checked.
pub proof fn law_step_decides(
    editor: EditorModel,
    watch: PropertyWatch,
    step: RenderStep,
    reply: Reply,
)
    requires
        step.wf(),
    ensures
        ({
            let next = step_after(editor, watch, step, reply);
            let table = watch.table;
            &&& step is Checkbox && step->which is InstantUpdate ==> {
                let selected = table.addrs@[0] != 0;
                let due = selected && editor.read_on_select && table.serial != editor.last_serial;
                &&& due ==> next == (RenderStep::ReadProperty {
                    index: 0,
                    addr: table.addrs@[0],
                    serial: table.serial,
                })
                &&& !due ==> next == (RenderStep::Separator {
                    place: Divider::Header { selected },
                })
            }
            &&& step matches RenderStep::InputWidth { index } ==> next == (RenderStep::InputValue {
                index,
                bits: editor.values[index as int],
            })
            &&& step matches RenderStep::InputValue { index, .. } ==> (next is Apply <==> reply.hit
                && editor.instant_update)
            &&& step is Button && step->button is Apply ==> (next is Apply <==> reply.hit)
            &&& step is Checkbox && step->which is ShowDebug && !reply.checked ==> next is Done
            &&& step is Checkbox && step->which is ShowDebug && reply.checked && table.addrs@[0]
                != 0 ==> next == (RenderStep::DebugLine { index: 0, addr: table.addrs@[0] })
            &&& step is Separator && step->place is Header && !step->place->selected ==> next == (
            RenderStep::Note { note: Note::NothingCaptured })
        }),
{
    reveal_with_fuel(first_taken, 2);
    lemma_first_taken(watch.table.addrs@, 0);
    if let RenderStep::InputValue { index, .. } = step {
        lemma_first_taken(watch.table.addrs@, index + 1);
    }
}

} // verus!

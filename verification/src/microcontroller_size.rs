//! Lets microcontrollers grow past the editor's limit.
//!
//! The editor's width and length sliders hold the smallest and the largest
//! size they offer. Each frame the tweak finds the two sliders in the game's
//! memory and writes the range they are to offer.

use vstd::prelude::*;

use crate::tweak::{Slider, Toggle, TweakError};

verus! {

/// Where the tweak's settings are kept.
pub const CONFIG_ID: &'static str = "microcontroller_size_tweak";

/// The menu category.
pub const CATEGORY: &'static str = "Editor";

/// The range that the game's own sliders offer.
pub const VANILLA_MIN: i32 = 1;

pub const VANILLA_MAX: i32 = 6;

/// Offset of the microprocessor object in the editor; it is null while no
/// microcontroller is being edited.
pub const MICROPROCESSOR_OFFSET: u64 = 0xB8;

/// Offset of the object in the editor that holds the widgets.
pub const WIDGETS_OFFSET: u64 = 0x98;

/// Offset of the width widget in the object that holds the widgets.
pub const WIDTH_OFFSET: u64 = 0x98;

/// Offset of the length widget in the object that holds the widgets.
pub const LENGTH_OFFSET: u64 = 0xA0;

/// Offset of the slider in its widget.
pub const SLIDER_OFFSET: u64 = 0x90;

/// Offsets of the range in a slider.
pub const MIN_OFFSET: u64 = 0x68;

pub const MAX_OFFSET: u64 = 0x6c;

/// The sizes that a slider offers, from `min` to `max`.
#[derive(Clone, Copy, PartialEq, Eq, Structural, Debug)]
pub struct SizeRange {
    pub min: i32,
    pub max: i32,
}

/// A range to write to a slider, and the addresses of its two ends.
#[derive(Clone, Copy, PartialEq, Eq, Structural, Debug)]
pub struct BoundsWrite {
    pub min_addr: u64,
    pub max_addr: u64,
    pub range: SizeRange,
}

/// What to write to the two sliders.
#[derive(Clone, Copy, PartialEq, Eq, Structural, Debug)]
pub struct SliderWrites {
    pub width: Option<BoundsWrite>,
    pub length: Option<BoundsWrite>,
}

/// Whether the fields of a slider at this address have addresses.
pub open spec fn slider_fits(slider: u64) -> bool {
    slider + MAX_OFFSET <= u64::MAX
}

/// The write that gives a slider a range; a null slider is left alone.
pub open spec fn bounds_write(slider: u64, range: SizeRange) -> Option<BoundsWrite> {
    if slider == 0 {
        None
    } else {
        Some(
            BoundsWrite {
                min_addr: (slider + MIN_OFFSET) as u64,
                max_addr: (slider + MAX_OFFSET) as u64,
                range,
            },
        )
    }
}

/// The write that gives the slider at this address a range; there is none for
/// a null slider.
pub fn set_bounds(slider: u64, range: SizeRange) -> (write: Option<BoundsWrite>)
    requires
        slider_fits(slider),
    ensures
        write == bounds_write(slider, range),
{
    if slider == 0 {
        return None;
    }
    Some(BoundsWrite { min_addr: slider + MIN_OFFSET, max_addr: slider + MAX_OFFSET, range })
}

/// The way through the game's memory from the editor to its two sliders. Each
/// state that reads names what it is about to read.
#[derive(Clone, Copy, PartialEq, Eq, Structural, Debug)]
pub enum FrameWalk {
    Microprocessor { this: u64 },
    Widgets { this: u64, microprocessor: u64 },
    WidthWidget { widgets: u64 },
    WidthSlider { widgets: u64, widget: u64 },
    LengthWidget { widgets: u64, width: u64 },
    LengthSlider { width: u64, widget: u64 },
    /// There is nothing to do this frame.
    Idle,
    /// The sliders were looked up; one that is missing is null.
    Found { width: u64, length: u64 },
}

impl FrameWalk {
    /// The address to read next, or the end of the walk.
    pub open spec fn next_read(self) -> Option<u64> {
        match self {
            FrameWalk::Microprocessor { this } => Some((this + MICROPROCESSOR_OFFSET) as u64),
            FrameWalk::Widgets { this, .. } => Some((this + WIDGETS_OFFSET) as u64),
            FrameWalk::WidthWidget { widgets } => Some((widgets + WIDTH_OFFSET) as u64),
            FrameWalk::WidthSlider { widget, .. } => Some((widget + SLIDER_OFFSET) as u64),
            FrameWalk::LengthWidget { widgets, .. } => Some((widgets + LENGTH_OFFSET) as u64),
            FrameWalk::LengthSlider { widget, .. } => Some((widget + SLIDER_OFFSET) as u64),
            FrameWalk::Idle => None,
            FrameWalk::Found { .. } => None,
        }
    }

    /// The address to read next exists, and so do those of the sliders' fields
    /// once they were found.
    pub open spec fn wf(self) -> bool {
        match self {
            FrameWalk::Microprocessor { this } => this + MICROPROCESSOR_OFFSET <= u64::MAX,
            FrameWalk::Widgets { this, .. } => this + WIDGETS_OFFSET <= u64::MAX,
            FrameWalk::WidthWidget { widgets } => widgets + WIDTH_OFFSET <= u64::MAX,
            FrameWalk::WidthSlider { widget, .. } => widget + SLIDER_OFFSET <= u64::MAX,
            FrameWalk::LengthWidget { widgets, .. } => widgets + LENGTH_OFFSET <= u64::MAX,
            FrameWalk::LengthSlider { widget, .. } => widget + SLIDER_OFFSET <= u64::MAX,
            FrameWalk::Idle => true,
            FrameWalk::Found { width, length } => slider_fits(width) && slider_fits(length),
        }
    }

    /// The walk after the read gave `value`.
    pub open spec fn after(self, value: u64) -> FrameWalk {
        match self {
            FrameWalk::Microprocessor { this } => FrameWalk::Widgets {
                this,
                microprocessor: value,
            },
            FrameWalk::Widgets { microprocessor, .. } => if microprocessor != 0 && value != 0 {
                FrameWalk::WidthWidget { widgets: value }
            } else {
                FrameWalk::Idle
            },
            FrameWalk::WidthWidget { widgets } => if value == 0 {
                FrameWalk::LengthWidget { widgets, width: 0 }
            } else {
                FrameWalk::WidthSlider { widgets, widget: value }
            },
            FrameWalk::WidthSlider { widgets, .. } => FrameWalk::LengthWidget {
                widgets,
                width: value,
            },
            FrameWalk::LengthWidget { width, .. } => if value == 0 {
                FrameWalk::Found { width, length: 0 }
            } else {
                FrameWalk::LengthSlider { width, widget: value }
            },
            FrameWalk::LengthSlider { width, .. } => FrameWalk::Found { width, length: value },
            FrameWalk::Idle => self,
            FrameWalk::Found { .. } => self,
        }
    }

    /// The number of reads ahead, at most.
    pub open spec fn reads_ahead(self) -> nat {
        match self {
            FrameWalk::Microprocessor { .. } => 6,
            FrameWalk::Widgets { .. } => 5,
            FrameWalk::WidthWidget { .. } => 4,
            FrameWalk::WidthSlider { .. } => 3,
            FrameWalk::LengthWidget { .. } => 2,
            FrameWalk::LengthSlider { .. } => 1,
            FrameWalk::Idle => 0,
            FrameWalk::Found { .. } => 0,
        }
    }

    /// The walk of a frame, from the editor at `this`, which may be null.
    pub open spec fn start_spec(this: u64) -> FrameWalk {
        if this == 0 {
            FrameWalk::Idle
        } else {
            FrameWalk::Microprocessor { this }
        }
    }

    /// Where the walk ends in a memory that holds `mem(a)` at each address `a`.
    pub open spec fn end(self, mem: spec_fn(u64) -> u64) -> FrameWalk
        decreases self.reads_ahead(),
    {
        match self.next_read() {
            Some(addr) => self.after(mem(addr)).end(mem),
            None => self,
        }
    }

    /// Begins the walk of a frame.
    pub fn start(this: u64) -> (walk: FrameWalk)
        requires
            this + MICROPROCESSOR_OFFSET <= u64::MAX,
        ensures
            walk == FrameWalk::start_spec(this),
            walk.wf(),
    {
        if this == 0 {
            FrameWalk::Idle
        } else {
            FrameWalk::Microprocessor { this }
        }
    }

    /// The address to read next, or `None` at the end of the walk.
    pub fn reads(&self) -> (addr: Option<u64>)
        requires
            self.wf(),
        ensures
            addr == self.next_read(),
    {
        match *self {
            FrameWalk::Microprocessor { this } => Some(this + MICROPROCESSOR_OFFSET),
            FrameWalk::Widgets { this, .. } => Some(this + WIDGETS_OFFSET),
            FrameWalk::WidthWidget { widgets } => Some(widgets + WIDTH_OFFSET),
            FrameWalk::WidthSlider { widget, .. } => Some(widget + SLIDER_OFFSET),
            FrameWalk::LengthWidget { widgets, .. } => Some(widgets + LENGTH_OFFSET),
            FrameWalk::LengthSlider { widget, .. } => Some(widget + SLIDER_OFFSET),
            FrameWalk::Idle => None,
            FrameWalk::Found { .. } => None,
        }
    }

    /// The walk after the read gave `value`. Whether it is well formed is for
    /// `is_wf` to say.
    pub fn advance(self, value: u64) -> (walk: FrameWalk)
        ensures
            walk == self.after(value),
            self.next_read() is Some ==> walk.reads_ahead() < self.reads_ahead(),
    {
        match self {
            FrameWalk::Microprocessor { this } => FrameWalk::Widgets {
                this,
                microprocessor: value,
            },
            FrameWalk::Widgets { microprocessor, .. } => if microprocessor != 0 && value != 0 {
                FrameWalk::WidthWidget { widgets: value }
            } else {
                FrameWalk::Idle
            },
            FrameWalk::WidthWidget { widgets } => if value == 0 {
                FrameWalk::LengthWidget { widgets, width: 0 }
            } else {
                FrameWalk::WidthSlider { widgets, widget: value }
            },
            FrameWalk::WidthSlider { widgets, .. } => FrameWalk::LengthWidget {
                widgets,
                width: value,
            },
            FrameWalk::LengthWidget { width, .. } => if value == 0 {
                FrameWalk::Found { width, length: 0 }
            } else {
                FrameWalk::LengthSlider { width, widget: value }
            },
            FrameWalk::LengthSlider { width, .. } => FrameWalk::Found { width, length: value },
            FrameWalk::Idle => self,
            FrameWalk::Found { .. } => self,
        }
    }

    /// Whether the addresses that the walk calls for exist.
    pub fn is_wf(&self) -> (fits: bool)
        ensures
            fits == self.wf(),
    {
        match *self {
            FrameWalk::Microprocessor { this } => this <= u64::MAX - MICROPROCESSOR_OFFSET,
            FrameWalk::Widgets { this, .. } => this <= u64::MAX - WIDGETS_OFFSET,
            FrameWalk::WidthWidget { widgets } => widgets <= u64::MAX - WIDTH_OFFSET,
            FrameWalk::WidthSlider { widget, .. } => widget <= u64::MAX - SLIDER_OFFSET,
            FrameWalk::LengthWidget { widgets, .. } => widgets <= u64::MAX - LENGTH_OFFSET,
            FrameWalk::LengthSlider { widget, .. } => widget <= u64::MAX - SLIDER_OFFSET,
            FrameWalk::Idle => true,
            FrameWalk::Found { width, length } => width <= u64::MAX - MAX_OFFSET && length
                <= u64::MAX - MAX_OFFSET,
        }
    }
}

/// The slider behind a widget pointer in a memory that holds `mem(a)` at each
/// address `a`; null where there is no widget.
pub open spec fn slider_ptr(mem: spec_fn(u64) -> u64, widgets: u64, offset: u64) -> u64 {
    let widget = mem((widgets + offset) as u64);
    if widget == 0 {
        0
    } else {
        mem((widget + SLIDER_OFFSET) as u64)
    }
}

/// Whatever the memory holds, a frame's walk ends, and it ends with the sliders
/// behind the width and the length widget, provided that there is an editor
/// and a microcontroller is being edited in it.
pub proof fn law_walk_finds_sliders(this: u64, mem: spec_fn(u64) -> u64)
    ensures
        ({
            let microprocessor = mem((this + MICROPROCESSOR_OFFSET) as u64);
            let widgets = mem((this + WIDGETS_OFFSET) as u64);
            FrameWalk::start_spec(this).end(mem) == (if this != 0 && microprocessor != 0
                && widgets != 0 {
                FrameWalk::Found {
                    width: slider_ptr(mem, widgets, WIDTH_OFFSET),
                    length: slider_ptr(mem, widgets, LENGTH_OFFSET),
                }
            } else {
                FrameWalk::Idle
            })
        }),
{
    reveal_with_fuel(FrameWalk::end, 7);
}

/// The state of the tweak.
#[derive(Clone, Copy, PartialEq, Eq, Structural, Debug)]
pub struct MicrocontrollerSizeTweak {
    /// The configured range is in force.
    pub unlocked: bool,
    pub min_size: i32,
    pub max_size: i32,
    /// The sliders seen last; null before any was seen.
    pub width_slider: u64,
    pub length_slider: u64,
}

/// The range of the game's own sliders.
pub open spec fn vanilla_range() -> SizeRange {
    SizeRange { min: VANILLA_MIN, max: VANILLA_MAX }
}

/// The writes that give both sliders a range.
pub open spec fn slider_writes(width: u64, length: u64, range: SizeRange) -> SliderWrites {
    SliderWrites { width: bounds_write(width, range), length: bounds_write(length, range) }
}

impl MicrocontrollerSizeTweak {
    /// The fields of the sliders seen last have addresses.
    pub open spec fn wf(self) -> bool {
        slider_fits(self.width_slider) && slider_fits(self.length_slider)
    }

    /// The range that the sliders are to offer: the configured one where the
    /// size is unlocked, else the game's own.
    pub open spec fn range_spec(self) -> SizeRange {
        if self.unlocked {
            SizeRange { min: self.min_size, max: self.max_size }
        } else {
            vanilla_range()
        }
    }

    /// The state after a frame whose walk ended with `walk`.
    pub open spec fn framed(self, walk: FrameWalk) -> MicrocontrollerSizeTweak {
        match walk {
            FrameWalk::Found { width, length } => MicrocontrollerSizeTweak {
                width_slider: width,
                length_slider: length,
                ..self
            },
            _ => self,
        }
    }

    /// What is written in a frame whose walk ended with `walk`.
    pub open spec fn frame_writes(self, walk: FrameWalk) -> SliderWrites {
        match walk {
            FrameWalk::Found { width, length } => slider_writes(width, length, self.range_spec()),
            _ => SliderWrites { width: None, length: None },
        }
    }

    /// The state after the tweak was taken out.
    pub open spec fn ejected(self) -> MicrocontrollerSizeTweak {
        MicrocontrollerSizeTweak { unlocked: false, ..self }
    }

    /// What is written when the tweak is taken out.
    pub open spec fn eject_writes(self) -> SliderWrites {
        slider_writes(self.width_slider, self.length_slider, vanilla_range())
    }

    /// The state after one frame for each walk.
    pub open spec fn framed_all(self, walks: Seq<FrameWalk>) -> MicrocontrollerSizeTweak
        decreases walks.len(),
    {
        if walks.len() == 0 {
            self
        } else {
            self.framed_all(walks.drop_last()).framed(walks.last())
        }
    }

    /// The state after the unlock toggle was set.
    pub open spec fn unlocked_set(self, enabled: bool) -> MicrocontrollerSizeTweak {
        MicrocontrollerSizeTweak { unlocked: enabled, ..self }
    }

    /// The state after the slider for the smallest size was set.
    pub open spec fn min_size_set(self, size: i32) -> MicrocontrollerSizeTweak {
        MicrocontrollerSizeTweak { min_size: size, ..self }
    }

    /// The state after the slider for the largest size was set.
    pub open spec fn max_size_set(self, size: i32) -> MicrocontrollerSizeTweak {
        MicrocontrollerSizeTweak { max_size: size, ..self }
    }

    /// The state before anything was configured or seen.
    pub open spec fn at_start() -> MicrocontrollerSizeTweak {
        MicrocontrollerSizeTweak {
            unlocked: false,
            min_size: VANILLA_MIN,
            max_size: VANILLA_MAX,
            width_slider: 0,
            length_slider: 0,
        }
    }

    /// The state before anything was configured or seen.
    pub fn initial() -> (tweak: Self)
        ensures
            tweak == (MicrocontrollerSizeTweak {
                unlocked: false,
                min_size: VANILLA_MIN,
                max_size: VANILLA_MAX,
                width_slider: 0,
                length_slider: 0,
            }),
            tweak == Self::at_start(),
            tweak.wf(),
    {
        MicrocontrollerSizeTweak {
            unlocked: false,
            min_size: VANILLA_MIN,
            max_size: VANILLA_MAX,
            width_slider: 0,
            length_slider: 0,
        }
    }

    /// Sets the tweak up, given where the editor update function was found. The
    /// state stays as it is; beside it this gives the address to hook.
    pub fn new(state: Self, found: Option<u64>) -> (made: Result<(Self, u64), TweakError>)
        ensures
            made == (match found {
                Some(addr) => Ok((state, addr)),
                None => Err(TweakError::EditorUpdateNotFound),
            }),
    {
        match found {
            Some(addr) => Ok((state, addr)),
            None => Err(TweakError::EditorUpdateNotFound),
        }
    }

    /// The range that the sliders are to offer now.
    pub fn range(&self) -> (range: SizeRange)
        ensures
            range == self.range_spec(),
    {
        if self.unlocked {
            SizeRange { min: self.min_size, max: self.max_size }
        } else {
            SizeRange { min: VANILLA_MIN, max: VANILLA_MAX }
        }
    }

    /// Ends a frame: takes note of the sliders that its walk found, and says
    /// what to write to them.
    pub fn update(&mut self, walk: FrameWalk) -> (writes: SliderWrites)
        requires
            walk.wf(),
        ensures
            *final(self) == old(self).framed(walk),
            writes == old(self).frame_writes(walk),
            old(self).wf() ==> final(self).wf(),
    {
        match walk {
            FrameWalk::Found { width, length } => {
                self.width_slider = width;
                self.length_slider = length;
                let range = self.range();
                SliderWrites { width: set_bounds(width, range), length: set_bounds(length, range) }
            },
            _ => SliderWrites { width: None, length: None },
        }
    }

    /// Takes the tweak out: the size is locked, and the sliders seen last get
    /// the game's own range back.
    pub fn uninit(&mut self) -> (writes: SliderWrites)
        requires
            old(self).wf(),
        ensures
            *final(self) == old(self).ejected(),
            writes == old(self).eject_writes(),
            final(self).wf(),
    {
        self.unlocked = false;
        let range = SizeRange { min: VANILLA_MIN, max: VANILLA_MAX };
        SliderWrites {
            width: set_bounds(self.width_slider, range),
            length: set_bounds(self.length_slider, range),
        }
    }

    /// Follows the unlock toggle.
    pub fn set_unlocked(&mut self, enabled: bool)
        ensures
            *final(self) == (MicrocontrollerSizeTweak { unlocked: enabled, ..*old(self) }),
            *final(self) == old(self).unlocked_set(enabled),
    {
        self.unlocked = enabled;
    }

    /// Follows the slider for the smallest size.
    pub fn set_min_size(&mut self, size: i32)
        ensures
            *final(self) == (MicrocontrollerSizeTweak { min_size: size, ..*old(self) }),
            *final(self) == old(self).min_size_set(size),
    {
        self.min_size = size;
    }

    /// Follows the slider for the largest size.
    pub fn set_max_size(&mut self, size: i32)
        ensures
            *final(self) == (MicrocontrollerSizeTweak { max_size: size, ..*old(self) }),
            *final(self) == old(self).max_size_set(size),
    {
        self.max_size = size;
    }

    /// Whether the two size sliders in the menu are greyed out.
    pub fn size_sliders_disabled(&self) -> (disabled: bool)
        ensures
            disabled == !self.unlocked,
    {
        !self.unlocked
    }
}

/// The unlock toggle; it is off by default.
pub fn unlock_toggle() -> (toggle: Toggle)
    ensures
        toggle.label@ == "Unlock Microcontroller Size"@,
        toggle.tooltip@
            == "Microcontrollers are normally capped at 6x6 in the editor.\nThis raises the width/length size sliders' range so you can build\nlarger microcontrollers, with the sliders still working normally.\nUse the Min/Max sliders below to set the range."@,
        toggle.config_key@ == "unlock_microcontroller_size"@,
        !toggle.default,
        !toggle.vanilla,
{
    Toggle {
        label: "Unlock Microcontroller Size",
        tooltip:
            "Microcontrollers are normally capped at 6x6 in the editor.\nThis raises the width/length size sliders' range so you can build\nlarger microcontrollers, with the sliders still working normally.\nUse the Min/Max sliders below to set the range.",
        config_key: "unlock_microcontroller_size",
        default: false,
        vanilla: false,
    }
}

/// The slider for the smallest size.
pub fn min_size_slider() -> (slider: Slider)
    ensures
        slider.label@ == "MC Min Size"@,
        slider.tooltip@ == "Minimum value for the microcontroller width/length sliders."@,
        slider.config_key@ == "min_size"@,
        slider.default == VANILLA_MIN,
        slider.vanilla == VANILLA_MIN,
        slider.min == 1,
        slider.max == 16,
{
    Slider {
        label: "MC Min Size",
        tooltip: "Minimum value for the microcontroller width/length sliders.",
        config_key: "min_size",
        default: VANILLA_MIN,
        vanilla: VANILLA_MIN,
        min: 1,
        max: 16,
    }
}

/// The slider for the largest size.
pub fn max_size_slider() -> (slider: Slider)
    ensures
        slider.label@ == "MC Max Size"@,
        slider.tooltip@ == "Maximum value for the microcontroller width/length sliders."@,
        slider.config_key@ == "max_size"@,
        slider.default == VANILLA_MAX,
        slider.vanilla == VANILLA_MAX,
        slider.min == 1,
        slider.max == 64,
{
    Slider {
        label: "MC Max Size",
        tooltip: "Maximum value for the microcontroller width/length sliders.",
        config_key: "max_size",
        default: VANILLA_MAX,
        vanilla: VANILLA_MAX,
        min: 1,
        max: 64,
    }
}

/// With the sizes that the menu sliders start from, the sliders in the editor
/// offer the game's own range, whether the size is unlocked or not.
pub proof fn law_default_sizes_are_vanilla(tweak: MicrocontrollerSizeTweak)
    requires
        tweak.min_size == VANILLA_MIN,
        tweak.max_size == VANILLA_MAX,
    ensures
        tweak.range_spec() == vanilla_range(),
{
}

/// While the size is locked, every slider that a frame writes to gets the
/// game's own range, whatever range is configured.
pub proof fn law_locked_is_vanilla(tweak: MicrocontrollerSizeTweak, walk: FrameWalk)
    requires
        !tweak.unlocked,
    ensures
        tweak.frame_writes(walk).width matches Some(w) ==> w.range == vanilla_range(),
        tweak.frame_writes(walk).length matches Some(w) ==> w.range == vanilla_range(),
{
}

/// While the size is unlocked, every slider that a frame finds gets the
/// configured range.
pub proof fn law_unlocked_is_configured(tweak: MicrocontrollerSizeTweak, width: u64, length: u64)
    requires
        tweak.unlocked,
    ensures
        ({
            let writes = tweak.frame_writes(FrameWalk::Found { width, length });
            let configured = SizeRange { min: tweak.min_size, max: tweak.max_size };
            &&& width != 0 ==> (writes.width matches Some(w) && w.range == configured)
            &&& length != 0 ==> (writes.length matches Some(w) && w.range == configured)
        }),
{
}

/// Taking the tweak out puts the game's own range back at exactly the addresses
/// that the last frame wrote to, and a frame that still runs after that writes
/// the game's own range too.
pub proof fn law_eject_restores(
    tweak: MicrocontrollerSizeTweak,
    width: u64,
    length: u64,
    late: FrameWalk,
)
    ensures
        ({
            let last = FrameWalk::Found { width, length };
            let written = tweak.frame_writes(last);
            let framed = tweak.framed(last);
            let restored = framed.eject_writes();
            let afterwards = framed.ejected().frame_writes(late);
            &&& restored.width == (match written.width {
                Some(w) => Some(BoundsWrite { range: vanilla_range(), ..w }),
                None => None,
            })
            &&& restored.length == (match written.length {
                Some(w) => Some(BoundsWrite { range: vanilla_range(), ..w }),
                None => None,
            })
            &&& afterwards.width matches Some(w) ==> w.range == vanilla_range()
            &&& afterwards.length matches Some(w) ==> w.range == vanilla_range()
        }),
{
}

/// A frame leaves the settings alone, and takes note of the sliders that its walk
/// found; one whose walk found none keeps those seen last.
pub proof fn law_frame_keeps_settings(tweak: MicrocontrollerSizeTweak, walk: FrameWalk)
    ensures
        tweak.framed(walk).unlocked == tweak.unlocked,
        tweak.framed(walk).min_size == tweak.min_size,
        tweak.framed(walk).max_size == tweak.max_size,
        walk matches FrameWalk::Found { width, length } ==> {
            &&& tweak.framed(walk).width_slider == width
            &&& tweak.framed(walk).length_slider == length
        },
        !(walk is Found) ==> {
            &&& tweak.framed(walk).width_slider == tweak.width_slider
            &&& tweak.framed(walk).length_slider == tweak.length_slider
        },
{
}

/// A frame writes exactly to the sliders that its walk found: the lower end of the
/// range goes to the slider's minimum, the upper to its maximum, and the range is
/// the configured one while the size is unlocked and 1 to 6 while it is locked.
pub proof fn law_frame_writes_range(tweak: MicrocontrollerSizeTweak, walk: FrameWalk)
    requires
        walk.wf(),
    ensures
        !(walk is Found) ==> tweak.frame_writes(walk).width is None && tweak.frame_writes(
            walk,
        ).length is None,
        walk matches FrameWalk::Found { width, length } ==> {
            let writes = tweak.frame_writes(walk);
            &&& writes.width is Some <==> width != 0
            &&& writes.length is Some <==> length != 0
            &&& writes.width matches Some(w) ==> {
                &&& w.min_addr == width + 0x68
                &&& w.max_addr == width + 0x6c
                &&& w.range.min == if tweak.unlocked { tweak.min_size } else { 1 }
                &&& w.range.max == if tweak.unlocked { tweak.max_size } else { 6 }
            }
            &&& writes.length matches Some(w) ==> {
                &&& w.min_addr == length + 0x68
                &&& w.max_addr == length + 0x6c
                &&& w.range.min == if tweak.unlocked { tweak.min_size } else { 1 }
                &&& w.range.max == if tweak.unlocked { tweak.max_size } else { 6 }
            }
        },
{
}

proof fn lemma_framed_all(tweak: MicrocontrollerSizeTweak, walks: Seq<FrameWalk>)
    ensures
        tweak.framed_all(walks).unlocked == tweak.unlocked,
        tweak.framed_all(walks).min_size == tweak.min_size,
        tweak.framed_all(walks).max_size == tweak.max_size,
    decreases walks.len(),
{
    if walks.len() > 0 {
        lemma_framed_all(tweak, walks.drop_last());
        law_frame_keeps_settings(tweak.framed_all(walks.drop_last()), walks.last());
    }
}

/// The toggle lasts: however many frames passed since it was set and the range
/// configured, a frame that finds the sliders writes that range while it is on,
/// and 1 to 6 while it is off. In which order the three were set does not matter.
pub proof fn law_settings_last(
    tweak: MicrocontrollerSizeTweak,
    enabled: bool,
    min: i32,
    max: i32,
    walks: Seq<FrameWalk>,
    width: u64,
    length: u64,
)
    requires
        width + 0x6c <= u64::MAX,
        length + 0x6c <= u64::MAX,
    ensures
        ({
            let set = tweak.unlocked_set(enabled).min_size_set(min).max_size_set(max);
            let writes = set.framed_all(walks).frame_writes(FrameWalk::Found { width, length });
            let (low, high): (i32, i32) = if enabled {
                (min, max)
            } else {
                (1, 6)
            };
            &&& width != 0 ==> (writes.width matches Some(w) && w.range.min == low && w.range.max
                == high)
            &&& length != 0 ==> (writes.length matches Some(w) && w.range.min == low && w.range.max
                == high)
            &&& set == tweak.max_size_set(max).min_size_set(min).unlocked_set(enabled)
            &&& set == tweak.min_size_set(min).unlocked_set(enabled).max_size_set(max)
            &&& set.width_slider == tweak.width_slider
            &&& set.length_slider == tweak.length_slider
        }),
{
    let set = tweak.unlocked_set(enabled).min_size_set(min).max_size_set(max);
    lemma_framed_all(set, walks);
    law_frame_writes_range(set.framed_all(walks), FrameWalk::Found { width, length });
}

/// The sliders seen last are those of the last frame whose walk found any.
pub proof fn law_last_sliders_are_kept(
    tweak: MicrocontrollerSizeTweak,
    walks: Seq<FrameWalk>,
    at: int,
)
    requires
        0 <= at < walks.len(),
        walks[at] is Found,
        forall|i: int| at < i < walks.len() ==> !(#[trigger] walks[i] is Found),
    ensures
        walks[at] matches FrameWalk::Found { width, length } && tweak.framed_all(walks).width_slider
            == width && tweak.framed_all(walks).length_slider == length,
    decreases walks.len(),
{
    let front = walks.drop_last();
    if at < walks.len() - 1 {
        assert forall|i: int| at < i < front.len() implies !(#[trigger] front[i] is Found) by {
            assert(front[i] == walks[i]);
        }
        law_last_sliders_are_kept(tweak, front, at);
        assert(!(walks[walks.len() - 1] is Found));
    }
    law_frame_keeps_settings(tweak.framed_all(front), walks.last());
}

/// Taking the tweak out locks the size and keeps all else. Each slider that was
/// seen last gets 1 to 6 back, and a null one is left alone.
pub proof fn law_eject_writes_stock_range(tweak: MicrocontrollerSizeTweak)
    requires
        tweak.wf(),
    ensures
        !tweak.ejected().unlocked,
        tweak.ejected().min_size == tweak.min_size,
        tweak.ejected().max_size == tweak.max_size,
        tweak.ejected().width_slider == tweak.width_slider,
        tweak.ejected().length_slider == tweak.length_slider,
        tweak.eject_writes().width is Some <==> tweak.width_slider != 0,
        tweak.eject_writes().length is Some <==> tweak.length_slider != 0,
        tweak.eject_writes().width matches Some(w) ==> {
            &&& w.min_addr == tweak.width_slider + 0x68
            &&& w.max_addr == tweak.width_slider + 0x6c
            &&& w.range.min == 1
            &&& w.range.max == 6
        },
        tweak.eject_writes().length matches Some(w) ==> {
            &&& w.min_addr == tweak.length_slider + 0x68
            &&& w.max_addr == tweak.length_slider + 0x6c
            &&& w.range.min == 1
            &&& w.range.max == 6
        },
{
}

/// The way to the sliders, pointer by pointer. The walk finds something exactly if
/// there is an editor, a microcontroller is being edited in it and the widgets are
/// there; it finds the slider behind each of the two widgets, and null where a
/// widget is missing.
pub proof fn law_walk_follows_pointers(this: u64, mem: spec_fn(u64) -> u64)
    ensures
        ({
            let end = FrameWalk::start_spec(this).end(mem);
            let widgets = mem((this + 0x98) as u64);
            let width_widget = mem((widgets + 0x98) as u64);
            let length_widget = mem((widgets + 0xA0) as u64);
            &&& end is Found <==> this != 0 && mem((this + 0xB8) as u64) != 0 && widgets != 0
            &&& end is Found || end is Idle
            &&& end matches FrameWalk::Found { width, length } ==> {
                &&& width_widget == 0 ==> width == 0
                &&& width_widget != 0 ==> width == mem((width_widget + 0x90) as u64)
                &&& length_widget == 0 ==> length == 0
                &&& length_widget != 0 ==> length == mem((length_widget + 0x90) as u64)
            }
        }),
{
    reveal_with_fuel(FrameWalk::end, 7);
}

/// A walk reads until it ends. Where it is well formed, the address that it reads
/// lies an offset behind the object at hand, without running over the end of the
/// address space; and that is all that being well formed asks of it. At its end it
/// asks that the fields of the sliders have addresses.
pub proof fn law_walk_reads_fields(walk: FrameWalk)
    ensures
        walk.next_read() is None <==> walk is Idle || walk is Found,
        ({
            let (object, offset): (u64, int) = match walk {
                FrameWalk::Microprocessor { this } => (this, 0xB8),
                FrameWalk::Widgets { this, .. } => (this, 0x98),
                FrameWalk::WidthWidget { widgets } => (widgets, 0x98),
                FrameWalk::WidthSlider { widget, .. } => (widget, 0x90),
                FrameWalk::LengthWidget { widgets, .. } => (widgets, 0xA0),
                FrameWalk::LengthSlider { widget, .. } => (widget, 0x90),
                FrameWalk::Idle => (0, 0),
                FrameWalk::Found { width, length } => (
                    if width < length {
                        length
                    } else {
                        width
                    },
                    0x6c,
                ),
            };
            &&& walk.wf() <==> object + offset <= u64::MAX
            &&& walk.wf() && walk.next_read() is Some ==> walk.next_read() == Some(
                (object + offset) as u64,
            )
        }),
{
}

/// Before anything is configured the game keeps its own range: whether the size is
/// unlocked or not, and however many frames pass, a slider that is found gets 1 to
/// 6. Taking the tweak out before any frame found a slider writes nothing.
pub proof fn law_start_changes_nothing(
    enabled: bool,
    walks: Seq<FrameWalk>,
    width: u64,
    length: u64,
)
    requires
        width + 0x6c <= u64::MAX,
        length + 0x6c <= u64::MAX,
    ensures
        ({
            let start = MicrocontrollerSizeTweak::at_start();
            let set = start.unlocked_set(enabled).framed_all(walks);
            let writes = set.frame_writes(FrameWalk::Found { width, length });
            &&& !start.unlocked
            &&& writes.width matches Some(w) ==> w.range.min == 1 && w.range.max == 6
            &&& writes.length matches Some(w) ==> w.range.min == 1 && w.range.max == 6
            &&& start.eject_writes().width is None
            &&& start.eject_writes().length is None
        }),
{
    let start = MicrocontrollerSizeTweak::at_start();
    lemma_framed_all(start.unlocked_set(enabled), walks);
}

} // verus!

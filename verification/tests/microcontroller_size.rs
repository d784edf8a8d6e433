use game_tweaks::microcontroller_size::{
    max_size_slider, min_size_slider, set_bounds, unlock_toggle, BoundsWrite, FrameWalk,
    MicrocontrollerSizeTweak, SizeRange, SliderWrites, CATEGORY, CONFIG_ID,
};
use game_tweaks::tweak::TweakError;

const VANILLA: SizeRange = SizeRange { min: 1, max: 6 };

fn tweak() -> MicrocontrollerSizeTweak {
    MicrocontrollerSizeTweak::initial()
}

/// Where the walk from `this` ends in a memory with these words.
fn walk(this: u64, memory: &[(u64, u64)]) -> FrameWalk {
    let mut walk = FrameWalk::start(this);
    while let Some(addr) = walk.reads() {
        let word = memory.iter().find(|word| word.0 == addr).expect("a read outside");
        walk = walk.advance(word.1);
        assert!(walk.is_wf());
    }
    walk
}

fn bounds(slider: u64, range: SizeRange) -> Option<BoundsWrite> {
    Some(BoundsWrite { min_addr: slider + 0x68, max_addr: slider + 0x6c, range })
}

#[test]
fn both_sliders_are_found() {
    let memory = [
        (0x10B8, 1),
        (0x1098, 0x2000),
        (0x2098, 0x3000),
        (0x3090, 0x5000),
        (0x20A0, 0x4000),
        (0x4090, 0x6000),
    ];
    assert_eq!(walk(0x1000, &memory), FrameWalk::Found { width: 0x5000, length: 0x6000 });
}

#[test]
fn a_missing_widget_has_no_slider() {
    let memory = [(0x10B8, 1), (0x1098, 0x2000), (0x2098, 0), (0x20A0, 0x4000), (0x4090, 0x6000)];
    assert_eq!(walk(0x1000, &memory), FrameWalk::Found { width: 0, length: 0x6000 });
    let memory = [(0x10B8, 1), (0x1098, 0x2000), (0x2098, 0x3000), (0x3090, 0x5000), (0x20A0, 0)];
    assert_eq!(walk(0x1000, &memory), FrameWalk::Found { width: 0x5000, length: 0 });
}

#[test]
fn without_a_microcontroller_there_is_nothing_to_do() {
    assert_eq!(walk(0x1000, &[(0x10B8, 0), (0x1098, 0x2000)]), FrameWalk::Idle);
    assert_eq!(walk(0x1000, &[(0x10B8, 1), (0x1098, 0)]), FrameWalk::Idle);
    assert_eq!(walk(0, &[]), FrameWalk::Idle);
}

#[test]
fn addresses_past_the_end_are_noticed() {
    let widget = FrameWalk::WidthWidget { widgets: 0x2000 }.advance(u64::MAX - 0x8f);
    assert!(!widget.is_wf());
    let widget = FrameWalk::WidthWidget { widgets: 0x2000 }.advance(u64::MAX - 0x90);
    assert!(widget.is_wf());
    assert_eq!(widget.reads(), Some(u64::MAX));
    assert!(!FrameWalk::Found { width: u64::MAX, length: 0 }.is_wf());
    assert!(!FrameWalk::Found { width: 0, length: u64::MAX - 0x6b }.is_wf());
    assert!(FrameWalk::Found { width: 0, length: u64::MAX - 0x6c }.is_wf());
}

#[test]
fn a_null_slider_is_left_alone() {
    assert_eq!(set_bounds(0, VANILLA), None);
    assert_eq!(set_bounds(0x100, VANILLA), bounds(0x100, VANILLA));
}

#[test]
fn a_locked_frame_writes_the_vanilla_range() {
    let mut tweak = tweak();
    tweak.set_min_size(3);
    tweak.set_max_size(40);
    let writes = tweak.update(FrameWalk::Found { width: 0x5000, length: 0x6000 });
    assert_eq!(
        writes,
        SliderWrites { width: bounds(0x5000, VANILLA), length: bounds(0x6000, VANILLA) }
    );
    assert_eq!((tweak.width_slider, tweak.length_slider), (0x5000, 0x6000));
}

#[test]
fn an_unlocked_frame_writes_the_configured_range() {
    let mut tweak = tweak();
    tweak.set_unlocked(true);
    tweak.set_min_size(3);
    tweak.set_max_size(40);
    let range = SizeRange { min: 3, max: 40 };
    assert_eq!(tweak.range(), range);
    let writes = tweak.update(FrameWalk::Found { width: 0, length: 0x6000 });
    assert_eq!(writes, SliderWrites { width: None, length: bounds(0x6000, range) });
    assert_eq!((tweak.width_slider, tweak.length_slider), (0, 0x6000));
}

#[test]
fn an_idle_frame_writes_nothing() {
    let mut tweak = tweak();
    tweak.update(FrameWalk::Found { width: 0x5000, length: 0x6000 });
    let before = tweak;
    assert_eq!(tweak.update(FrameWalk::Idle), SliderWrites { width: None, length: None });
    assert_eq!(tweak, before);
}

#[test]
fn ejecting_restores_the_vanilla_range() {
    let mut tweak = tweak();
    tweak.set_unlocked(true);
    tweak.set_max_size(64);
    tweak.update(FrameWalk::Found { width: 0x5000, length: 0x6000 });
    assert_eq!(
        tweak.uninit(),
        SliderWrites { width: bounds(0x5000, VANILLA), length: bounds(0x6000, VANILLA) }
    );
    assert!(!tweak.unlocked);
    let late = tweak.update(FrameWalk::Found { width: 0x5000, length: 0x6000 });
    assert_eq!(
        late,
        SliderWrites { width: bounds(0x5000, VANILLA), length: bounds(0x6000, VANILLA) }
    );
}

#[test]
fn ejecting_before_any_frame_writes_nothing() {
    assert_eq!(tweak().uninit(), SliderWrites { width: None, length: None });
}

#[test]
fn a_tweak_starts_locked() {
    assert_eq!(
        tweak(),
        MicrocontrollerSizeTweak {
            unlocked: false,
            min_size: 1,
            max_size: 6,
            width_slider: 0,
            length_slider: 0,
        }
    );
    assert!(tweak().size_sliders_disabled());
}

#[test]
fn setting_up_keeps_the_sizes() {
    let mut sizes = tweak();
    sizes.set_unlocked(true);
    sizes.set_max_size(20);
    assert_eq!(MicrocontrollerSizeTweak::new(sizes, Some(0x9000)), Ok((sizes, 0x9000)));
}

#[test]
fn unlocking_with_the_default_sizes_keeps_the_vanilla_range() {
    let mut tweak = tweak();
    tweak.set_unlocked(true);
    assert_eq!(tweak.range(), VANILLA);
    assert!(!tweak.size_sliders_disabled());
}

#[test]
fn a_missing_update_function_is_an_error() {
    let error = MicrocontrollerSizeTweak::new(tweak(), None);
    assert_eq!(error, Err(TweakError::EditorUpdateNotFound));
    assert_eq!(
        TweakError::EditorUpdateNotFound.message(),
        "Error finding microcontroller editor update function"
    );
}

#[test]
fn the_menu_of_the_size_tweak() {
    assert_eq!(CONFIG_ID, "microcontroller_size_tweak");
    assert_eq!(CATEGORY, "Editor");
    let toggle = unlock_toggle();
    assert_eq!(toggle.label, "Unlock Microcontroller Size");
    assert_eq!(
        toggle.tooltip,
        "Microcontrollers are normally capped at 6x6 in the editor.\n\
         This raises the width/length size sliders' range so you can build\n\
         larger microcontrollers, with the sliders still working normally.\n\
         Use the Min/Max sliders below to set the range."
    );
    assert_eq!(toggle.config_key, "unlock_microcontroller_size");
    assert!(!toggle.default && !toggle.vanilla);
    let min = min_size_slider();
    assert_eq!((min.label, min.config_key), ("MC Min Size", "min_size"));
    assert_eq!(min.tooltip, "Minimum value for the microcontroller width/length sliders.");
    assert_eq!((min.default, min.vanilla, min.min, min.max), (1, 1, 1, 16));
    let max = max_size_slider();
    assert_eq!((max.label, max.config_key), ("MC Max Size", "max_size"));
    assert_eq!(max.tooltip, "Maximum value for the microcontroller width/length sliders.");
    assert_eq!((max.default, max.vanilla, max.min, max.max), (6, 6, 1, 64));
}

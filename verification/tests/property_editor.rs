use game_tweaks::capture::CaptureTable;
use game_tweaks::property_editor::{
    debug_line, feature_toggle, input_id, prop_name, PropertyEditorTweak, PropertyWrite, CATEGORY,
    CONFIG_ID, ONE_BITS,
};
use game_tweaks::render::{
    ApplySwitch, Button, CaptureSwitch, Checkbox, Divider, Note, RenderStep, Reply, Tip,
    INPUT_WIDTH,
};
use game_tweaks::tweak::TweakError;
use game_tweaks::watch::{BreakpointChange, PropertyWatch, Teardown};

const TARGET: u64 = 0x4000;

/// An editor with the feature on and these addresses captured.
fn editor(addrs: [u64; 5]) -> (PropertyEditorTweak, PropertyWatch) {
    let mut watch = PropertyWatch::new();
    let editor = match PropertyEditorTweak::new(&mut watch, Some(TARGET)) {
        Ok(editor) => editor,
        Err(_) => panic!("the instruction was found"),
    };
    watch.enable_feature(0x77);
    let mut now = 100;
    for addr in addrs {
        if addr != 0 {
            watch.table.record(addr, now);
            now += 1;
        }
    }
    (editor, watch)
}

/// What nobody does to a step: a property at `a` holds `a` plus 7.
fn untouched(step: RenderStep) -> Reply {
    match step {
        RenderStep::Checkbox { checked, .. } => Reply { hit: false, checked, bits: 0 },
        RenderStep::ReadProperty { addr, .. } => {
            Reply { hit: false, checked: false, bits: addr as u32 + 7 }
        }
        _ => Reply { hit: false, checked: false, bits: 0 },
    }
}

/// Draws a frame and gives its steps.
fn frame(
    editor: &mut PropertyEditorTweak,
    watch: &mut PropertyWatch,
    user: fn(RenderStep) -> Reply,
) -> Vec<RenderStep> {
    let mut steps = Vec::new();
    let mut step = editor.begin_frame(watch);
    while step != RenderStep::Done {
        steps.push(step);
        step = editor.render(watch, step, user(step));
    }
    steps
}

fn header(capture: bool, instant: bool) -> Vec<RenderStep> {
    vec![
        RenderStep::PollCaptureKey,
        RenderStep::Checkbox { which: Checkbox::Capture, checked: capture },
        RenderStep::Hover { tip: Tip::Capture },
        RenderStep::Checkbox { which: Checkbox::BlockWrites, checked: false },
        RenderStep::Hover { tip: Tip::BlockWrites },
        RenderStep::Checkbox { which: Checkbox::InstantUpdate, checked: instant },
    ]
}

#[test]
fn a_new_editor_shows_ones() {
    let (editor, watch) = editor([0; 5]);
    assert_eq!(editor.values, [1.0f32.to_bits(); 5]);
    assert_eq!(ONE_BITS, 1.0f32.to_bits());
    assert_eq!(editor.last_serial, 0);
    assert!(editor.read_on_select && !editor.instant_update && !editor.show_debug);
    assert_eq!(watch.target, TARGET);
}

#[test]
fn a_missing_property_write_is_an_error() {
    let mut watch = PropertyWatch::new();
    match PropertyEditorTweak::new(&mut watch, None) {
        Ok(_) => panic!("nothing was found"),
        Err(error) => {
            assert_eq!(error, TweakError::PropertyWriteNotFound);
            assert_eq!(error.message(), "Error finding property-write instruction");
        }
    }
    assert_eq!(watch.target, 0);
}

#[test]
fn nothing_is_drawn_while_the_feature_is_off() {
    let (mut editor, mut watch) = editor([0x1000, 0, 0, 0, 0]);
    watch.disable_feature();
    assert_eq!(frame(&mut editor, &mut watch, untouched), vec![]);
}

#[test]
fn without_a_component_the_panel_says_so() {
    let (mut editor, mut watch) = editor([0; 5]);
    let mut expected = header(false, false);
    expected.push(RenderStep::Separator { place: Divider::Header { selected: false } });
    expected.push(RenderStep::Note { note: Note::NothingCaptured });
    expected.push(RenderStep::Note { note: Note::HowToCapture });
    assert_eq!(frame(&mut editor, &mut watch, untouched), expected);
    assert_eq!(editor.values, [ONE_BITS; 5]);
}

#[test]
fn captured_values_are_read_once_and_shown() {
    let (mut editor, mut watch) = editor([0x1000, 0x2000, 0, 0, 0]);
    let rows = vec![
        RenderStep::Separator { place: Divider::Header { selected: true } },
        RenderStep::PropertyName { index: 0 },
        RenderStep::InputWidth { index: 0 },
        RenderStep::InputValue { index: 0, bits: 0x1007 },
        RenderStep::PropertyName { index: 1 },
        RenderStep::InputWidth { index: 1 },
        RenderStep::InputValue { index: 1, bits: 0x2007 },
        RenderStep::Separator { place: Divider::Footer },
        RenderStep::Note { note: Note::BeforeApply },
        RenderStep::Button { button: Button::Apply },
        RenderStep::SameLine,
        RenderStep::Button { button: Button::Clear },
        RenderStep::Checkbox { which: Checkbox::ShowDebug, checked: false },
    ];
    let mut expected = header(false, false);
    expected.push(RenderStep::ReadProperty { index: 0, addr: 0x1000, serial: 2 });
    expected.push(RenderStep::ReadProperty { index: 1, addr: 0x2000, serial: 2 });
    expected.extend(rows.clone());
    assert_eq!(frame(&mut editor, &mut watch, untouched), expected);
    assert_eq!(editor.values, [0x1007, 0x2007, ONE_BITS, ONE_BITS, ONE_BITS]);
    assert_eq!(editor.last_serial, 2);

    let mut expected = header(false, false);
    expected.extend(rows);
    assert_eq!(frame(&mut editor, &mut watch, untouched), expected);
}

#[test]
fn values_are_not_read_where_that_is_switched_off() {
    let (mut editor, mut watch) = editor([0x1000, 0, 0, 0, 0]);
    editor.read_on_select = false;
    frame(&mut editor, &mut watch, untouched);
    assert_eq!(editor.values, [ONE_BITS; 5]);
    assert_eq!(editor.last_serial, 0);
}

#[test]
fn the_key_switches_capturing() {
    let (mut editor, mut watch) = editor([0; 5]);
    let press = |step| match step {
        RenderStep::PollCaptureKey => Reply { hit: true, checked: false, bits: 0 },
        _ => untouched(step),
    };
    let steps = frame(&mut editor, &mut watch, press);
    assert_eq!(
        steps[1],
        RenderStep::Breakpoint {
            change: BreakpointChange::Arm { addr: TARGET },
            asked_by: CaptureSwitch::Key,
        }
    );
    assert_eq!(steps[2], RenderStep::Checkbox { which: Checkbox::Capture, checked: true });
    assert!(watch.capture && watch.bp_set);
    let steps = frame(&mut editor, &mut watch, press);
    assert_eq!(
        steps[1],
        RenderStep::Breakpoint {
            change: BreakpointChange::Disarm,
            asked_by: CaptureSwitch::Key,
        }
    );
    assert!(!watch.capture && !watch.bp_set);
}

#[test]
fn the_checkbox_switches_capturing() {
    let (mut editor, mut watch) = editor([0; 5]);
    let steps = frame(&mut editor, &mut watch, |step| match step {
        RenderStep::Checkbox { which: Checkbox::Capture, checked } => {
            Reply { hit: true, checked: !checked, bits: 0 }
        }
        _ => untouched(step),
    });
    assert_eq!(
        steps[2],
        RenderStep::Breakpoint {
            change: BreakpointChange::Arm { addr: TARGET },
            asked_by: CaptureSwitch::Checkbox,
        }
    );
    assert_eq!(steps[3], RenderStep::Hover { tip: Tip::Capture });
    assert!(watch.capture && watch.bp_set);
}

#[test]
fn hovering_shows_the_tooltips() {
    let (mut editor, mut watch) = editor([0; 5]);
    let steps = frame(&mut editor, &mut watch, |step| match step {
        RenderStep::Hover { .. } => Reply { hit: true, checked: false, bits: 0 },
        _ => untouched(step),
    });
    assert_eq!(steps[3], RenderStep::Tooltip { tip: Tip::Capture });
    assert_eq!(
        steps[4],
        RenderStep::Checkbox { which: Checkbox::BlockWrites, checked: false }
    );
    assert_eq!(steps[6], RenderStep::Tooltip { tip: Tip::BlockWrites });
}

#[test]
fn writes_are_blocked_and_instant_update_is_switched() {
    let (mut editor, mut watch) = editor([0; 5]);
    frame(&mut editor, &mut watch, |step| match step {
        RenderStep::Checkbox { checked, .. } => Reply { hit: true, checked: !checked, bits: 0 },
        _ => untouched(step),
    });
    assert!(watch.block_writes);
    assert!(editor.instant_update);
}

#[test]
fn an_edited_value_waits_for_apply() {
    let (mut editor, mut watch) = editor([0x1000, 0x2000, 0, 0, 0]);
    let steps = frame(&mut editor, &mut watch, |step| match step {
        RenderStep::InputValue { index: 1, .. } => Reply { hit: true, checked: false, bits: 99 },
        _ => untouched(step),
    });
    assert!(!steps.iter().any(|step| matches!(step, RenderStep::Apply { .. })));
    assert_eq!(editor.values, [0x1007, 99, ONE_BITS, ONE_BITS, ONE_BITS]);
    let steps = frame(&mut editor, &mut watch, |step| match step {
        RenderStep::Button { button: Button::Apply } => {
            Reply { hit: true, checked: false, bits: 0 }
        }
        _ => untouched(step),
    });
    assert!(steps.contains(&RenderStep::Apply { cause: ApplySwitch::Button }));
    assert_eq!(
        editor.apply(&watch.table),
        vec![PropertyWrite { addr: 0x1000, bits: 0x1007 }, PropertyWrite { addr: 0x2000, bits: 99 }]
    );
}

#[test]
fn an_edited_value_is_applied_at_once_with_instant_update() {
    let (mut editor, mut watch) = editor([0x1000, 0x2000, 0, 0, 0]);
    editor.instant_update = true;
    let steps = frame(&mut editor, &mut watch, |step| match step {
        RenderStep::InputValue { index: 0, .. } => Reply { hit: true, checked: false, bits: 99 },
        _ => untouched(step),
    });
    let input = steps.iter().position(|s| matches!(s, RenderStep::InputValue { index: 0, .. }));
    let input = input.unwrap();
    assert_eq!(steps[input + 1], RenderStep::Apply { cause: ApplySwitch::Input { index: 0 } });
    assert_eq!(steps[input + 2], RenderStep::PropertyName { index: 1 });
}

#[test]
fn a_field_that_did_not_change_keeps_its_value() {
    let (mut editor, mut watch) = editor([0x1000, 0, 0, 0, 0]);
    frame(&mut editor, &mut watch, |step| match step {
        RenderStep::InputValue { .. } => Reply { hit: false, checked: false, bits: 5 },
        _ => untouched(step),
    });
    assert_eq!(editor.values[0], 0x1007);
}

#[test]
fn applying_passes_over_free_slots() {
    let (mut editor, _) = editor([0; 5]);
    editor.values = [1, 2, 3, 4, 5];
    let table = CaptureTable { addrs: [0, 0x20, 0, 0, 0x50], serial: 0, last_ms: 0 };
    assert_eq!(
        editor.apply(&table),
        vec![PropertyWrite { addr: 0x20, bits: 2 }, PropertyWrite { addr: 0x50, bits: 5 }]
    );
    assert_eq!(editor.apply(&CaptureTable::new()), vec![]);
}

#[test]
fn applied_values_are_read_back() {
    let (mut editor, mut watch) = editor([0x1000, 0x2000, 0x3000, 0, 0]);
    editor.values = [11, 12, 13, 14, 15];
    let mut memory = vec![(0x1000, 1), (0x2000, 2), (0x3000, 3)];
    for write in editor.apply(&watch.table) {
        for word in memory.iter_mut() {
            if word.0 == write.addr {
                word.1 = write.bits;
            }
        }
    }
    let mut step = editor.begin_frame(&watch);
    while step != RenderStep::Done {
        let mut reply = untouched(step);
        if let RenderStep::ReadProperty { addr, .. } = step {
            reply.bits = memory.iter().find(|word| word.0 == addr).unwrap().1;
        }
        step = editor.render(&mut watch, step, reply);
    }
    assert_eq!(editor.values, [11, 12, 13, 14, 15]);
    assert_eq!(editor.last_serial, 3);
}

/// Draws a frame and gives what each of its Apply steps writes.
fn writes(
    editor: &mut PropertyEditorTweak,
    watch: &mut PropertyWatch,
    user: fn(RenderStep) -> Reply,
) -> Vec<Vec<PropertyWrite>> {
    let mut writes = Vec::new();
    let mut step = editor.begin_frame(watch);
    while step != RenderStep::Done {
        if let RenderStep::Apply { .. } = step {
            writes.push(editor.apply(&watch.table));
        }
        step = editor.render(watch, step, user(step));
    }
    writes
}

#[test]
fn a_frame_writes_nothing_unasked() {
    let (mut editor, mut watch) = editor([0x1000, 0x2000, 0, 0, 0]);
    assert!(writes(&mut editor, &mut watch, untouched).is_empty());
    editor.instant_update = true;
    assert!(writes(&mut editor, &mut watch, untouched).is_empty());
    // Switched off in the frame in which a value is changed.
    let written = writes(&mut editor, &mut watch, |step| match step {
        RenderStep::Checkbox { which: Checkbox::InstantUpdate, .. } => {
            Reply { hit: true, checked: false, bits: 0 }
        }
        RenderStep::InputValue { .. } => Reply { hit: true, checked: false, bits: 99 },
        _ => untouched(step),
    });
    assert!(written.is_empty());
    assert_eq!(editor.values, [99, 99, ONE_BITS, ONE_BITS, ONE_BITS]);
}

#[test]
fn a_frame_writes_what_was_entered_in_it() {
    let (mut editor, mut watch) = editor([0x1000, 0x2000, 0x3000, 0, 0]);
    editor.instant_update = true;
    let written = writes(&mut editor, &mut watch, |step| match step {
        RenderStep::InputValue { index: 0, .. } => Reply { hit: true, checked: false, bits: 50 },
        RenderStep::InputValue { index: 2, .. } => Reply { hit: true, checked: false, bits: 52 },
        RenderStep::Button { button: Button::Apply } => {
            Reply { hit: true, checked: false, bits: 0 }
        }
        _ => untouched(step),
    });
    let all = |first, second, third| {
        vec![
            PropertyWrite { addr: 0x1000, bits: first },
            PropertyWrite { addr: 0x2000, bits: second },
            PropertyWrite { addr: 0x3000, bits: third },
        ]
    };
    assert_eq!(
        written,
        vec![all(50, 0x2007, 0x3007), all(50, 0x2007, 52), all(50, 0x2007, 52)]
    );
    assert_eq!(editor.values, [50, 0x2007, 52, ONE_BITS, ONE_BITS]);
}

#[test]
fn values_behind_a_free_slot_are_read_back() {
    let (mut editor, mut watch) = editor([0; 5]);
    editor.values = [11, 12, 13, 14, 15];
    watch.table = CaptureTable { addrs: [0x1000, 0, 0x3000, 0, 0], serial: 8, last_ms: 5 };
    let mut memory = vec![(0x1000, 1), (0x2000, 2), (0x3000, 3)];
    for write in editor.apply(&watch.table) {
        for word in memory.iter_mut() {
            if word.0 == write.addr {
                word.1 = write.bits;
            }
        }
    }
    assert_eq!(memory, vec![(0x1000, 11), (0x2000, 2), (0x3000, 13)]);
    editor.values = [0; 5];
    let mut step = editor.begin_frame(&watch);
    while step != RenderStep::Done {
        let mut reply = untouched(step);
        if let RenderStep::ReadProperty { addr, .. } = step {
            reply.bits = memory.iter().find(|word| word.0 == addr).unwrap().1;
        }
        step = editor.render(&mut watch, step, reply);
    }
    assert_eq!(editor.values, [11, 0, 13, 0, 0]);
    assert_eq!(editor.last_serial, 8);
}

#[test]
fn clearing_empties_the_table() {
    let (mut editor, mut watch) = editor([0x1000, 0x2000, 0, 0, 0]);
    editor.show_debug = true;
    let steps = frame(&mut editor, &mut watch, |step| match step {
        RenderStep::Button { button: Button::Clear } => {
            Reply { hit: true, checked: false, bits: 0 }
        }
        _ => untouched(step),
    });
    assert!(!steps.iter().any(|step| matches!(step, RenderStep::DebugLine { .. })));
    assert_eq!(watch.table.addrs, [0; 5]);
    assert_eq!(watch.table.last_ms, 0);
    assert_eq!(watch.table.serial, 3);
    assert_eq!(editor.last_serial, 0);

    watch.table.record(0x5000, 9000);
    frame(&mut editor, &mut watch, untouched);
    assert_eq!(editor.values[0], 0x5007);
    assert_eq!(editor.last_serial, 4);
}

#[test]
fn the_list_shows_each_captured_address() {
    let (mut editor, mut watch) = editor([0x1000, 0x2000, 0, 0, 0]);
    let steps = frame(&mut editor, &mut watch, |step| match step {
        RenderStep::Checkbox { which: Checkbox::ShowDebug, .. } => {
            Reply { hit: true, checked: true, bits: 0 }
        }
        _ => untouched(step),
    });
    assert_eq!(
        steps[steps.len() - 2..],
        [
            RenderStep::DebugLine { index: 0, addr: 0x1000 },
            RenderStep::DebugLine { index: 1, addr: 0x2000 },
        ]
    );
    assert!(editor.show_debug);
}

#[test]
fn ejecting_switches_the_feature_off() {
    let (mut editor, mut watch) = editor([0; 5]);
    watch.set_capture(true);
    assert_eq!(
        editor.uninit(&mut watch),
        Teardown { breakpoint: BreakpointChange::Disarm, handler: Some(0x77) }
    );
    assert!(!watch.enabled);
}

#[test]
fn debug_lines_are_in_upper_case_hexadecimal() {
    assert_eq!(debug_line(0, 0x7FF6_12AB_CDEF), "Property 1 @ 0x7FF612ABCDEF");
    assert_eq!(debug_line(4, 0), "Property 5 @ 0x0");
    assert_eq!(debug_line(1, 16), "Property 2 @ 0x10");
    assert_eq!(debug_line(2, u64::MAX), "Property 3 @ 0xFFFFFFFFFFFFFFFF");
    for addr in [1u64, 9, 10, 15, 255, 256, 0x1234_5678_9ABC_DEF0] {
        assert_eq!(debug_line(3, addr), format!("Property {} @ 0x{addr:X}", 4));
    }
}

#[test]
fn the_texts_of_the_panel() {
    assert_eq!(prop_name(0), "Stiffness / Rotor Size / Burn Rate / Grip");
    assert_eq!(prop_name(1), "Damping / Fuel Amount / Radius");
    assert_eq!(prop_name(2), "Grip / Pressure");
    assert_eq!(prop_name(3), "Radius");
    assert_eq!(prop_name(4), "Pressure");
    for i in 0..5 {
        assert_eq!(input_id(i), format!("##prop{i}"));
    }
    assert_eq!(Checkbox::Capture.label(), "Capture Mode (F3)");
    assert_eq!(Checkbox::BlockWrites.label(), "Prevent property writes");
    assert_eq!(Checkbox::InstantUpdate.label(), "Instant update");
    assert_eq!(Checkbox::ShowDebug.label(), "Show captured addresses");
    assert_eq!(Button::Apply.label(), "Apply");
    assert_eq!(Button::Clear.label(), "Clear");
    assert_eq!(Tip::Capture.text(), "Select a component to capture its property addresses.");
    assert_eq!(
        Tip::BlockWrites.text(),
        "Stops the game from writing/clamping the selected component's\n\
         properties so illegal values stick (disables the normal sliders)."
    );
    assert_eq!(Note::NothingCaptured.text(), "No component captured.");
    assert_eq!(Note::HowToCapture.text(), "Enable Capture Mode and select a component.");
    assert_eq!(
        Note::BeforeApply.text(),
        "Deselect the block before Apply,\n\
         or it may not stick.\n\
         (or use \"Prevent property writes\")"
    );
    assert_eq!(INPUT_WIDTH, 160);
}

#[test]
fn the_menu_of_the_property_editor() {
    assert_eq!(CONFIG_ID, "property_editor_tweak");
    assert_eq!(CATEGORY, "Experimental");
    let toggle = feature_toggle();
    assert_eq!(toggle.label, "SWRIPE - Illegal Property Editor");
    assert_eq!(toggle.config_key, "illegal_property_editor");
    assert_eq!(
        toggle.tooltip,
        "Edit component properties past the editor's normal limits (ported from\n\
         SWRIPE). When enabled, turn on Capture Mode and select a component with\n\
         the normal select tool to capture its properties, then edit the values.\n\
         Uses a hardware breakpoint + exception handler - more invasive than the\n\
         other tweaks, so save often."
    );
    assert!(!toggle.default && !toggle.vanilla);
}

//! Edits component properties past the editor's limits.
//!
//! The exception handler captures the addresses of the selected component's
//! properties; the editor shows the values found there and writes others. A
//! property is a 32-bit float, which is only ever copied here, so its bits
//! stand for it.

use vstd::prelude::*;
use vstd::string::*;

use crate::capture::{captured, distinct, first_free, lemma_first_free, packed};
use crate::capture::{CaptureTable, MAX_PROPS};
use crate::tweak::{Toggle, TweakError};
use crate::watch::{feature_off, teardown, toggle_removes, toggled};
use crate::watch::{PropertyWatch, Teardown};

verus! {

/// Where the tweak's settings are kept.
pub const CONFIG_ID: &'static str = "property_editor_tweak";

/// The menu category.
pub const CATEGORY: &'static str = "Experimental";

/// The bits of the float 1.0.
pub const ONE_BITS: u32 = 0x3f80_0000;

/// The part of the tweak that only the user interface deals with.
#[derive(Clone, Copy)]
pub struct PropertyEditorTweak {
    /// The shown values, as bits, one for each slot of the table.
    pub values: [u32; MAX_PROPS],
    /// The table's serial when the values were last read.
    pub last_serial: u32,
    /// The values are read when a component is captured.
    pub read_on_select: bool,
    /// Each change of a value is written at once.
    pub instant_update: bool,
    /// The captured addresses are listed.
    pub show_debug: bool,
}

/// What a `PropertyEditorTweak` holds.
#[verifier::ext_equal]
pub struct EditorModel {
    pub values: Seq<u32>,
    pub last_serial: u32,
    pub read_on_select: bool,
    pub instant_update: bool,
    pub show_debug: bool,
}

impl View for PropertyEditorTweak {
    type V = EditorModel;

    open spec fn view(&self) -> EditorModel {
        EditorModel {
            values: self.values@,
            last_serial: self.last_serial,
            read_on_select: self.read_on_select,
            instant_update: self.instant_update,
            show_debug: self.show_debug,
        }
    }
}

/// A property value to write, as bits.
#[derive(Clone, Copy, PartialEq, Eq, Structural, Debug)]
pub struct PropertyWrite {
    pub addr: u64,
    pub bits: u32,
}

/// The writes that put each value to the address in the same slot, from slot
/// `from` on; free slots are passed over.
pub open spec fn property_writes(
    addrs: Seq<u64>,
    values: Seq<u32>,
    from: int,
) -> Seq<PropertyWrite>
    decreases addrs.len() - from,
{
    if from >= addrs.len() {
        seq![]
    } else if addrs[from] == 0 {
        property_writes(addrs, values, from + 1)
    } else {
        seq![PropertyWrite { addr: addrs[from], bits: values[from] }] + property_writes(
            addrs,
            values,
            from + 1,
        )
    }
}

/// The editor before anything was shown or switched.
pub open spec fn fresh_editor() -> EditorModel {
    EditorModel {
        values: Seq::new(MAX_PROPS as nat, |i: int| ONE_BITS),
        last_serial: 0,
        read_on_select: true,
        instant_update: false,
        show_debug: false,
    }
}

impl PropertyEditorTweak {
    /// Sets the tweak up, given where the property write was found.
    pub fn new(watch: &mut PropertyWatch, found: Option<u64>) -> (made: Result<Self, TweakError>)
        ensures
            match found {
                Some(addr) => {
                    &&& *final(watch) == (PropertyWatch { target: addr, ..*old(watch) })
                    &&& made matches Ok(editor) && editor@ == (EditorModel {
                        values: Seq::new(MAX_PROPS as nat, |i: int| ONE_BITS),
                        last_serial: 0,
                        read_on_select: true,
                        instant_update: false,
                        show_debug: false,
                    }) && editor@ == fresh_editor()
                },
                None => {
                    &&& *final(watch) == *old(watch)
                    &&& made matches Err(e) && e == TweakError::PropertyWriteNotFound
                },
            },
    {
        match found {
            Some(addr) => {
                watch.target = addr;
                let editor = PropertyEditorTweak {
                    values: [ONE_BITS; MAX_PROPS],
                    last_serial: 0,
                    read_on_select: true,
                    instant_update: false,
                    show_debug: false,
                };
                assert(editor@.values =~= Seq::new(MAX_PROPS as nat, |i: int| ONE_BITS));
                Ok(editor)
            },
            None => Err(TweakError::PropertyWriteNotFound),
        }
    }

    /// The writes that put the shown values to the captured addresses.
    pub fn apply(&self, table: &CaptureTable) -> (writes: Vec<PropertyWrite>)
        ensures
            writes@ == property_writes(table.addrs@, self.values@, 0),
    {
        let mut writes: Vec<PropertyWrite> = Vec::new();
        let mut i: usize = 0;
        while i < MAX_PROPS
            invariant
                i <= MAX_PROPS,
                property_writes(table.addrs@, self.values@, 0) == writes@ + property_writes(
                    table.addrs@,
                    self.values@,
                    i as int,
                ),
            decreases MAX_PROPS - i,
        {
            let addr: u64 = table.addrs[i];
            if addr != 0 {
                let ghost rest = property_writes(table.addrs@, self.values@, i + 1);
                let write = PropertyWrite { addr, bits: self.values[i] };
                assert(writes@ + (seq![write] + rest) =~= writes@.push(write) + rest);
                writes.push(write);
            }
            i += 1;
        }
        assert(writes@ + property_writes(table.addrs@, self.values@, MAX_PROPS as int)
            =~= writes@);
        writes
    }

    /// Takes the tweak out: the feature is switched off.
    pub fn uninit(&mut self, watch: &mut PropertyWatch) -> (removed: Teardown)
        ensures
            *final(self) == *old(self),
            *final(watch) == feature_off(*old(watch)),
            removed == teardown(*old(watch)),
            *final(watch) == toggled(*old(watch), false, 0),
            removed == toggle_removes(*old(watch), false),
            !final(watch).enabled,
            !final(watch).capture,
            !final(watch).bp_set,
            !final(watch).block_writes,
            final(watch).veh_handle == 0,
    {
        watch.disable_feature()
    }
}

/// The toggle of the feature; it is off by default.
pub fn feature_toggle() -> (toggle: Toggle)
    ensures
        toggle.label@ == "SWRIPE - Illegal Property Editor"@,
        toggle.tooltip@
            == "Edit component properties past the editor's normal limits (ported from\nSWRIPE). When enabled, turn on Capture Mode and select a component with\nthe normal select tool to capture its properties, then edit the values.\nUses a hardware breakpoint + exception handler - more invasive than the\nother tweaks, so save often."@,
        toggle.config_key@ == "illegal_property_editor"@,
        !toggle.default,
        !toggle.vanilla,
{
    Toggle {
        label: "SWRIPE - Illegal Property Editor",
        tooltip:
            "Edit component properties past the editor's normal limits (ported from\nSWRIPE). When enabled, turn on Capture Mode and select a component with\nthe normal select tool to capture its properties, then edit the values.\nUses a hardware breakpoint + exception handler - more invasive than the\nother tweaks, so save often.",
        config_key: "illegal_property_editor",
        default: false,
        vanilla: false,
    }
}

/// The names of the properties, by slot: what a slot holds depends on the
/// component.
pub open spec fn prop_name_spec(index: int) -> Seq<char> {
    if index == 0 {
        "Stiffness / Rotor Size / Burn Rate / Grip"@
    } else if index == 1 {
        "Damping / Fuel Amount / Radius"@
    } else if index == 2 {
        "Grip / Pressure"@
    } else if index == 3 {
        "Radius"@
    } else {
        "Pressure"@
    }
}

/// The name of the property in a slot.
pub fn prop_name(index: usize) -> (name: &'static str)
    requires
        index < MAX_PROPS,
    ensures
        name@ == prop_name_spec(index as int),
{
    if index == 0 {
        "Stiffness / Rotor Size / Burn Rate / Grip"
    } else if index == 1 {
        "Damping / Fuel Amount / Radius"
    } else if index == 2 {
        "Grip / Pressure"
    } else if index == 3 {
        "Radius"
    } else {
        "Pressure"
    }
}

/// A hexadecimal digit.
pub open spec fn hex_digit(digit: nat) -> char {
    if digit < 10 {
        (48 + digit) as char
    } else {
        (55 + digit) as char
    }
}

/// A number in upper case hexadecimal, without leading zeros.
pub open spec fn hex(number: nat) -> Seq<char>
    decreases number,
{
    if number < 16 {
        seq![hex_digit(number)]
    } else {
        hex(number / 16).push(hex_digit(number % 16))
    }
}

/// A text of one hexadecimal digit.
fn hex_digit_text(digit: u64) -> (text: &'static str)
    requires
        digit < 16,
    ensures
        text@ == seq![hex_digit(digit as nat)],
{
    proof {
        reveal_strlit("0");
        reveal_strlit("1");
        reveal_strlit("2");
        reveal_strlit("3");
        reveal_strlit("4");
        reveal_strlit("5");
        reveal_strlit("6");
        reveal_strlit("7");
        reveal_strlit("8");
        reveal_strlit("9");
        reveal_strlit("A");
        reveal_strlit("B");
        reveal_strlit("C");
        reveal_strlit("D");
        reveal_strlit("E");
        reveal_strlit("F");
    }
    let text = match digit {
        0 => "0",
        1 => "1",
        2 => "2",
        3 => "3",
        4 => "4",
        5 => "5",
        6 => "6",
        7 => "7",
        8 => "8",
        9 => "9",
        10 => "A",
        11 => "B",
        12 => "C",
        13 => "D",
        14 => "E",
        _ => "F",
    };
    assert(text@ =~= seq![hex_digit(digit as nat)]);
    text
}

/// The address in upper case hexadecimal, without leading zeros.
fn hex_text(number: u64) -> (text: String)
    ensures
        text@ == hex(number as nat),
{
    let mut rest: u64 = number;
    let mut text = String::from_str(hex_digit_text(rest % 16));
    while rest >= 16
        invariant
            rest < 16 ==> text@ == hex(number as nat),
            rest >= 16 ==> hex(rest as nat / 16) + text@ == hex(number as nat),
        decreases rest,
    {
        rest = rest / 16;
        let mut front = String::from_str(hex_digit_text(rest % 16));
        front.append(text.as_str());
        proof {
            let digit = seq![hex_digit(rest as nat % 16)];
            if rest >= 16 {
                assert(hex(rest as nat / 16) + (digit + text@) =~= hex(rest as nat) + text@);
            } else {
                assert(digit + text@ =~= hex(rest as nat) + text@);
            }
        }
        text = front;
    }
    text
}

/// The label of a value's input field.
pub open spec fn input_id_text(index: nat) -> Seq<char> {
    "##prop"@ + seq![hex_digit(index)]
}

/// The line that tells a captured address.
pub open spec fn debug_text(index: nat, addr: nat) -> Seq<char> {
    "Property "@ + seq![hex_digit(index + 1)] + " @ 0x"@ + hex(addr)
}

/// The label of a value's input field: a hidden one, distinct for each slot.
pub fn input_id(index: usize) -> (id: String)
    requires
        index < MAX_PROPS,
    ensures
        id@ == "##prop"@ + seq![hex_digit(index as nat)],
        id@ == input_id_text(index as nat),
{
    let mut id = String::from_str("##prop");
    id.append(hex_digit_text(index as u64));
    id
}

/// The line that tells a captured address.
pub fn debug_line(index: usize, addr: u64) -> (line: String)
    requires
        index < MAX_PROPS,
    ensures
        line@ == "Property "@ + seq![hex_digit((index + 1) as nat)] + " @ 0x"@ + hex(addr as nat),
        line@ == debug_text(index as nat, addr as nat),
{
    let mut line = String::from_str("Property ");
    line.append(hex_digit_text(index as u64 + 1));
    line.append(" @ 0x");
    let digits = hex_text(addr);
    line.append(digits.as_str());
    line
}

/// With a packed table, the writes put the values of the captured properties to
/// their addresses, one each and in their order, and nothing anywhere else.
pub proof fn law_apply_writes_captured(addrs: Seq<u64>, values: Seq<u32>)
    requires
        packed(addrs),
        addrs.len() > 0,
    ensures
        property_writes(addrs, values, 0) == Seq::new(
            captured(addrs).len(),
            |i: int| PropertyWrite { addr: addrs[i], bits: values[i] },
        ),
{
    lemma_first_free(addrs, 0);
    lemma_property_writes(addrs, values, 0);
    assert(property_writes(addrs, values, 0) =~= Seq::new(
        captured(addrs).len(),
        |i: int| PropertyWrite { addr: addrs[i], bits: values[i] },
    ));
}

proof fn lemma_property_writes(addrs: Seq<u64>, values: Seq<u32>, from: int)
    requires
        packed(addrs),
        0 <= from <= addrs.len(),
    ensures
        ({
            let n = first_free(addrs, 0);
            let writes = property_writes(addrs, values, from);
            &&& writes.len() == if from < n {
                n - from
            } else {
                0
            }
            &&& forall|k: int|
                0 <= k < n - from ==> #[trigger] writes[k] == (PropertyWrite {
                    addr: addrs[from + k],
                    bits: values[from + k],
                })
        }),
    decreases addrs.len() - from,
{
    let n = first_free(addrs, 0);
    lemma_first_free(addrs, 0);
    if from < addrs.len() {
        lemma_property_writes(addrs, values, from + 1);
        let rest = property_writes(addrs, values, from + 1);
        if from < n {
            let writes = property_writes(addrs, values, from);
            assert forall|k: int| 0 <= k < n - from implies #[trigger] writes[k] == (
            PropertyWrite { addr: addrs[from + k], bits: values[from + k] }) by {
                if k > 0 {
                    assert(writes[k] == rest[k - 1]);
                }
            }
        } else {
            assert(addrs[n] == 0);
            assert(addrs[from] == 0);
        }
    }
}

/// What a memory that holds the property `mem(a)` at each address `a` holds
/// after the writes. Properties do not overlap.
pub open spec fn written(
    mem: spec_fn(u64) -> u32,
    writes: Seq<PropertyWrite>,
) -> spec_fn(u64) -> u32
    decreases writes.len(),
{
    if writes.len() == 0 {
        mem
    } else {
        let before = written(mem, writes.drop_last());
        |a: u64|
            if a == writes.last().addr {
                writes.last().bits
            } else {
                before(a)
            }
    }
}

proof fn lemma_written(mem: spec_fn(u64) -> u32, writes: Seq<PropertyWrite>)
    requires
        forall|i: int, j: int|
            0 <= i < j < writes.len() ==> #[trigger] writes[i].addr != #[trigger] writes[j].addr,
    ensures
        forall|i: int|
            0 <= i < writes.len() ==> written(mem, writes)(#[trigger] writes[i].addr)
                == writes[i].bits,
        forall|a: u64|
            (forall|i: int| 0 <= i < writes.len() ==> #[trigger] writes[i].addr != a)
                ==> #[trigger] written(mem, writes)(a) == mem(a),
    decreases writes.len(),
{
    if writes.len() > 0 {
        let front = writes.drop_last();
        lemma_written(mem, front);
        assert forall|i: int| 0 <= i < writes.len() implies written(mem, writes)(
            #[trigger] writes[i].addr,
        ) == writes[i].bits by {
            if i < front.len() {
                assert(front[i] == writes[i]);
                assert(writes[i].addr != writes[writes.len() - 1].addr);
            }
        }
        assert forall|a: u64|
            (forall|i: int| 0 <= i < writes.len() ==> #[trigger] writes[i].addr != a) implies
            #[trigger] written(mem, writes)(a) == mem(a) by {
            assert(writes[writes.len() - 1].addr != a);
            assert forall|i: int| 0 <= i < front.len() implies #[trigger] front[i].addr != a by {
                assert(front[i] == writes[i]);
            }
            assert(written(mem, front)(a) == mem(a));
        }
    }
}

/// Whatever the table, each taken slot is written, and nothing else is: every
/// write puts the value of a taken slot to the address in it. Where no address
/// is in two slots, none is written twice.
pub proof fn law_apply_writes_taken(addrs: Seq<u64>, values: Seq<u32>)
    ensures
        forall|i: int|
            0 <= i < addrs.len() && #[trigger] addrs[i] != 0 ==> property_writes(
                addrs,
                values,
                0,
            ).contains(PropertyWrite { addr: addrs[i], bits: values[i] }),
        forall|k: int|
            0 <= k < property_writes(addrs, values, 0).len() ==> writes_slot(
                addrs,
                values,
                0,
                #[trigger] property_writes(addrs, values, 0)[k],
            ),
        distinct(addrs) ==> forall|j: int, k: int|
            0 <= j < k < property_writes(addrs, values, 0).len()
                ==> #[trigger] property_writes(addrs, values, 0)[j].addr
                != #[trigger] property_writes(addrs, values, 0)[k].addr,
{
    lemma_writes_taken(addrs, values, 0);
}

/// Whether a write puts the value of a taken slot, from slot `from` on, to the
/// address in it.
pub open spec fn writes_slot(
    addrs: Seq<u64>,
    values: Seq<u32>,
    from: int,
    write: PropertyWrite,
) -> bool {
    exists|i: int|
        from <= i < addrs.len() && #[trigger] addrs[i] != 0 && write == (PropertyWrite {
            addr: addrs[i],
            bits: values[i],
        })
}

proof fn lemma_writes_taken(addrs: Seq<u64>, values: Seq<u32>, from: int)
    requires
        0 <= from <= addrs.len(),
    ensures
        ({
            let writes = property_writes(addrs, values, from);
            &&& forall|i: int|
                from <= i < addrs.len() && #[trigger] addrs[i] != 0 ==> writes.contains(
                    PropertyWrite { addr: addrs[i], bits: values[i] },
                )
            &&& forall|k: int|
                0 <= k < writes.len() ==> writes_slot(addrs, values, from, #[trigger] writes[k])
            &&& distinct(addrs) ==> forall|j: int, k: int|
                0 <= j < k < writes.len() ==> #[trigger] writes[j].addr
                    != #[trigger] writes[k].addr
        }),
    decreases addrs.len() - from,
{
    if from < addrs.len() {
        lemma_writes_taken(addrs, values, from + 1);
        let rest = property_writes(addrs, values, from + 1);
        let writes = property_writes(addrs, values, from);
        if addrs[from] == 0 {
            assert forall|k: int| 0 <= k < writes.len() implies writes_slot(
                addrs,
                values,
                from,
                #[trigger] writes[k],
            ) by {
                assert(writes_slot(addrs, values, from + 1, rest[k]));
            }
        } else {
            assert forall|i: int| from <= i < addrs.len() && #[trigger] addrs[i]
                != 0 implies writes.contains(
                PropertyWrite { addr: addrs[i], bits: values[i] },
            ) by {
                let write = PropertyWrite { addr: addrs[i], bits: values[i] };
                if i == from {
                    assert(writes[0] == write);
                } else {
                    let k = choose|k: int| 0 <= k < rest.len() && rest[k] == write;
                    assert(rest.contains(write));
                    assert(writes[k + 1] == write);
                }
            }
            assert forall|k: int| 0 <= k < writes.len() implies writes_slot(
                addrs,
                values,
                from,
                #[trigger] writes[k],
            ) by {
                if k == 0 {
                    assert(addrs[from] != 0);
                } else {
                    assert(writes[k] == rest[k - 1]);
                    assert(writes_slot(addrs, values, from + 1, rest[k - 1]));
                }
            }
            if distinct(addrs) {
                assert forall|j: int, k: int| 0 <= j < k < writes.len() implies #[trigger]
                writes[j].addr != #[trigger] writes[k].addr by {
                    assert(writes[k] == rest[k - 1]);
                    if j == 0 {
                        assert(writes_slot(addrs, values, from + 1, rest[k - 1]));
                    } else {
                        assert(writes[j] == rest[j - 1]);
                    }
                }
            }
        }
    }
}

/// A read gives back what was applied: after the writes each address in the
/// table holds the value of its slot, and every other address what it held
/// before.
pub proof fn law_applied_values_are_read_back(
    mem: spec_fn(u64) -> u32,
    addrs: Seq<u64>,
    values: Seq<u32>,
)
    requires
        distinct(addrs),
    ensures
        forall|i: int|
            0 <= i < addrs.len() && #[trigger] addrs[i] != 0 ==> written(
                mem,
                property_writes(addrs, values, 0),
            )(addrs[i]) == values[i],
        forall|a: u64|
            a == 0 || !addrs.contains(a) ==> #[trigger] written(
                mem,
                property_writes(addrs, values, 0),
            )(a) == mem(a),
{
    let writes = property_writes(addrs, values, 0);
    law_apply_writes_taken(addrs, values);
    lemma_written(mem, writes);
    assert forall|i: int| 0 <= i < addrs.len() && #[trigger] addrs[i] != 0 implies written(
        mem,
        writes,
    )(addrs[i]) == values[i] by {
        let write = PropertyWrite { addr: addrs[i], bits: values[i] };
        assert(writes.contains(write));
        let k = choose|k: int| 0 <= k < writes.len() && writes[k] == write;
        assert(writes[k].addr == addrs[i]);
    }
    assert forall|a: u64| a == 0 || !addrs.contains(a) implies #[trigger] written(mem, writes)(a)
        == mem(a) by {
        assert forall|k: int| 0 <= k < writes.len() implies #[trigger] writes[k].addr != a by {
            assert(writes_slot(addrs, values, 0, writes[k]));
        }
    }
}

/// The value of a hexadecimal digit in upper case.
pub open spec fn digit_value(digit: char) -> nat {
    if '0' <= digit && digit <= '9' {
        (digit as int - '0' as int) as nat
    } else {
        (digit as int - 'A' as int + 10) as nat
    }
}

/// The number that hexadecimal digits stand for.
pub open spec fn digits_value(digits: Seq<char>) -> nat
    decreases digits.len(),
{
    if digits.len() == 0 {
        0
    } else {
        16 * digits_value(digits.drop_last()) + digit_value(digits.last())
    }
}

/// The digits of an address read back give the address. All of them are
/// hexadecimal digits in upper case, and the first is 0 for the address 0 alone.
pub proof fn law_hex_reads_back(number: nat)
    ensures
        digits_value(hex(number)) == number,
        hex(number).len() > 0,
        hex(number)[0] == '0' ==> number == 0 && hex(number).len() == 1,
        forall|i: int|
            0 <= i < hex(number).len() ==> {
                ||| '0' <= #[trigger] hex(number)[i] && hex(number)[i] <= '9'
                ||| 'A' <= hex(number)[i] && hex(number)[i] <= 'F'
            },
    decreases number,
{
    let digits = hex(number);
    if number < 16 {
        assert(digits.drop_last() =~= seq![]);
        assert(digits_value(seq![]) == 0);
    } else {
        law_hex_reads_back(number / 16);
        assert(digits.drop_last() =~= hex(number / 16));
    }
}

/// The input fields of two slots have different labels, and a slot's digit is its
/// number.
pub proof fn law_slots_are_told_apart(i: nat, j: nat)
    requires
        i < 10,
        j < 10,
    ensures
        digit_value(hex_digit(i)) == i,
        hex_digit(i) == hex_digit(j) <==> i == j,
        '0' <= hex_digit(i) && hex_digit(i) <= '9',
{
}

/// The line of a captured address tells the slot, counted from 1, behind its first
/// word, and the address in hexadecimal at its end. The labels of two input fields
/// are the same only for the same slot.
pub proof fn law_texts_tell_slot_and_address(index: nat, addr: nat, other: nat)
    requires
        index < MAX_PROPS,
        other < MAX_PROPS,
    ensures
        ({
            let line = debug_text(index, addr);
            &&& line.len() > 15
            &&& line.take(9) == "Property "@
            &&& digit_value(line[9]) == index + 1
            &&& line.subrange(10, 15) == " @ 0x"@
            &&& digits_value(line.skip(15)) == addr
        }),
        input_id_text(index) == input_id_text(other) <==> index == other,
        digit_value(input_id_text(index).last()) == index,
{
    reveal_strlit("Property ");
    reveal_strlit(" @ 0x");
    reveal_strlit("##prop");
    law_hex_reads_back(addr);
    let line = debug_text(index, addr);
    assert(line.take(9) =~= "Property "@);
    assert(line.subrange(10, 15) =~= " @ 0x"@);
    assert(line.skip(15) =~= hex(addr));
    assert(input_id_text(index).last() == hex_digit(index));
    assert(input_id_text(other).last() == hex_digit(other));
}

} // verus!

//! The byte patterns by which the hooked code is found in the game's binary.

use vstd::prelude::*;

verus! {

/// Whether the bytes are the pattern's, one for one; `None` in the pattern
/// stands for any byte.
pub open spec fn matches_pattern(bytes: Seq<u8>, pattern: Seq<Option<u8>>) -> bool {
    &&& bytes.len() == pattern.len()
    &&& forall|i: int|
        0 <= i < pattern.len() && #[trigger] pattern[i] is Some ==> pattern[i] == Some(bytes[i])
}

/// Length of the editor update pattern.
pub const EDITOR_UPDATE_LEN: usize = 46;

/// The start of the function that updates the microcontroller editor each
/// frame. The leading saves and pushes tie a match to the function's entry.
/// Bytes that change from one version of the game to the next are open: the
/// size of the stack frame, the displacement of a local variable, and the upper
/// bytes of the microprocessor object's offset.
pub open spec fn editor_update_pattern() -> Seq<Option<u8>> {
    seq![
        Some(0x48u8), Some(0x89), Some(0x5c), Some(0x24), Some(0x08),  // MOV [RSP+8],RBX
        Some(0x48), Some(0x89), Some(0x74), Some(0x24), Some(0x10),  // MOV [RSP+10],RSI
        Some(0x48), Some(0x89), Some(0x7c), Some(0x24), Some(0x18),  // MOV [RSP+18],RDI
        Some(0x55), Some(0x41), Some(0x54), Some(0x41), Some(0x55),  // PUSH RBP,R12,R13
        Some(0x41), Some(0x56), Some(0x41), Some(0x57),  // PUSH R14,R15
        Some(0x48), Some(0x8b), Some(0xec),  // MOV RBP,RSP
        Some(0x48), Some(0x83), Some(0xec), None,  // SUB RSP,<frame size>
        Some(0x4c), Some(0x8b), Some(0xf1),  // MOV R14,RCX
        Some(0x33), Some(0xff),  // XOR EDI,EDI
        Some(0x89), Some(0x7d), None,  // MOV [RBP-?],EDI
        Some(0x48), Some(0x39), Some(0xb9), Some(0xb8), None, None, None,  // CMP [RCX+..B8],RDI
    ]
}

/// Whether the bytes are the start of the editor update function.
pub fn is_editor_update(bytes: &[u8]) -> (found: bool)
    ensures
        found == matches_pattern(bytes@, editor_update_pattern()),
{
    if bytes.len() != EDITOR_UPDATE_LEN {
        return false;
    }
    let saves = bytes[0] == 0x48 && bytes[1] == 0x89 && bytes[2] == 0x5c && bytes[3] == 0x24
        && bytes[4] == 0x08 && bytes[5] == 0x48 && bytes[6] == 0x89 && bytes[7] == 0x74
        && bytes[8] == 0x24 && bytes[9] == 0x10 && bytes[10] == 0x48 && bytes[11] == 0x89
        && bytes[12] == 0x7c && bytes[13] == 0x24 && bytes[14] == 0x18;
    let pushes = bytes[15] == 0x55 && bytes[16] == 0x41 && bytes[17] == 0x54 && bytes[18] == 0x41
        && bytes[19] == 0x55 && bytes[20] == 0x41 && bytes[21] == 0x56 && bytes[22] == 0x41
        && bytes[23] == 0x57;
    let frame = bytes[24] == 0x48 && bytes[25] == 0x8b && bytes[26] == 0xec && bytes[27] == 0x48
        && bytes[28] == 0x83 && bytes[29] == 0xec;
    let body = bytes[31] == 0x4c && bytes[32] == 0x8b && bytes[33] == 0xf1 && bytes[34] == 0x33
        && bytes[35] == 0xff && bytes[36] == 0x89 && bytes[37] == 0x7d && bytes[39] == 0x48
        && bytes[40] == 0x39 && bytes[41] == 0xb9 && bytes[42] == 0xb8;
    saves && pushes && frame && body
}

/// Length of the property write pattern.
pub const PROPERTY_WRITE_LEN: usize = 8;

/// The instruction that writes a component's property, whose address is in
/// RAX, and the one behind it.
pub open spec fn property_write_pattern() -> Seq<Option<u8>> {
    seq![
        Some(0xf3u8), Some(0x0f), Some(0x11), Some(0x10),  // MOVSS [RAX],XMM2
        Some(0x48), Some(0x83), Some(0xc4), Some(0x30),  // ADD RSP,0x30
    ]
}

/// Whether the bytes are the property write and the instruction behind it.
pub fn is_property_write(bytes: &[u8]) -> (found: bool)
    ensures
        found == matches_pattern(bytes@, property_write_pattern()),
{
    if bytes.len() != PROPERTY_WRITE_LEN {
        return false;
    }
    bytes[0] == 0xf3 && bytes[1] == 0x0f && bytes[2] == 0x11 && bytes[3] == 0x10 && bytes[4]
        == 0x48 && bytes[5] == 0x83 && bytes[6] == 0xc4 && bytes[7] == 0x30
}

/// Whether the byte at a place of the editor update function changes from one
/// version of the game to the next.
pub open spec fn floats(at: int) -> bool {
    at == 30 || at == 38 || at == 43 || at == 44 || at == 45
}

/// The start of the editor update function is told by 41 of its 46 bytes: other
/// bytes than those found once are found too exactly if they are as many and
/// differ in nothing but the five that change between versions.
pub proof fn law_editor_update_is_told_by_fixed_bytes(found: Seq<u8>, bytes: Seq<u8>)
    requires
        matches_pattern(found, editor_update_pattern()),
    ensures
        found.len() == 46,
        matches_pattern(bytes, editor_update_pattern()) <==> {
            &&& bytes.len() == 46
            &&& forall|i: int| 0 <= i < 46 && !floats(i) ==> #[trigger] bytes[i] == found[i]
        },
{
    let pattern = editor_update_pattern();
    assert(pattern.len() == 46);
    assert forall|i: int| 0 <= i < 46 implies (#[trigger] pattern[i] is Some <==> !floats(i)) by {}
    if bytes.len() == 46 && (forall|i: int|
        0 <= i < 46 && !floats(i) ==> #[trigger] bytes[i] == found[i]) {
        assert forall|i: int| 0 <= i < 46 && #[trigger] pattern[i] is Some implies pattern[i]
            == Some(bytes[i]) by {
            assert(bytes[i] == found[i]);
        }
    }
    if matches_pattern(bytes, pattern) {
        assert forall|i: int| 0 <= i < 46 && !floats(i) implies #[trigger] bytes[i] == found[i] by {
            assert(pattern[i] is Some);
        }
    }
}

/// The property write is told by all of its eight bytes: there is one sequence of
/// bytes that is found, and no other.
pub proof fn law_property_write_is_told_by_all_bytes(found: Seq<u8>, bytes: Seq<u8>)
    requires
        matches_pattern(found, property_write_pattern()),
    ensures
        found.len() == 8,
        matches_pattern(bytes, property_write_pattern()) <==> bytes == found,
{
    let pattern = property_write_pattern();
    assert(pattern.len() == 8);
    assert forall|i: int| 0 <= i < 8 implies #[trigger] pattern[i] is Some by {}
    if matches_pattern(bytes, pattern) {
        assert forall|i: int| 0 <= i < 8 implies #[trigger] bytes[i] == found[i] by {
            assert(pattern[i] is Some);
        }
        assert(bytes =~= found);
    }
}

} // verus!

//! Instructions: two consecutive memory bytes split into four 4-bit fields.

use vstd::prelude::*;

verus! {

/// One decoded instruction. Each of the four fields holds one nibble of the
/// two bytes it was decoded from, most significant first.
#[derive(Clone, Copy, Debug, PartialEq, Eq)]
pub struct Instruction {
    pub nibbles: [u8; 4],
}

/// The high nibble of a byte.
pub open spec fn high_nibble(byte: u8) -> u8 {
    (byte / 16) as u8
}

/// The low nibble of a byte.
pub open spec fn low_nibble(byte: u8) -> u8 {
    (byte % 16) as u8
}

/// The four nibbles of the byte pair `(byte0, byte1)`.
pub open spec fn nibbles_of(byte0: u8, byte1: u8) -> Seq<u8> {
    seq![high_nibble(byte0), low_nibble(byte0), high_nibble(byte1), low_nibble(byte1)]
}

/// The 12-bit value that the last three of four nibbles spell.
pub open spec fn addr12(nibbles: Seq<u8>) -> int {
    nibbles[1] * 256 + nibbles[2] * 16 + nibbles[3]
}

/// The 8-bit value that the last two of four nibbles spell.
pub open spec fn imm8(nibbles: Seq<u8>) -> int {
    nibbles[2] * 16 + nibbles[3]
}

/// Four fields, each of which fits in four bits.
pub open spec fn nibbles_valid(nibbles: Seq<u8>) -> bool {
    &&& nibbles.len() == 4
    &&& forall|k: int| 0 <= k < 4 ==> #[trigger] nibbles[k] < 16
}

impl Instruction {
    /// Every field is a nibble.
    pub open spec fn wf(&self) -> bool {
        nibbles_valid(self.nibbles@)
    }

    /// Splits two bytes into their nibbles.
    pub fn decode(byte0: u8, byte1: u8) -> (instruction: Instruction)
        ensures
            instruction.wf(),
            instruction.nibbles@ == nibbles_of(byte0, byte1),
            addr12(instruction.nibbles@) == (byte0 % 16) * 256 + byte1,
            imm8(instruction.nibbles@) == byte1,
    {
        assert(byte0 >> 4 == byte0 / 16 && byte0 >> 4 < 16) by (bit_vector);
        assert(byte0 & 0xF == byte0 % 16 && byte0 & 0xF < 16) by (bit_vector);
        assert(byte1 >> 4 == byte1 / 16 && byte1 >> 4 < 16) by (bit_vector);
        assert(byte1 & 0xF == byte1 % 16 && byte1 & 0xF < 16) by (bit_vector);
        let instruction = Instruction {
            nibbles: [byte0 >> 4, byte0 & 0xF, byte1 >> 4, byte1 & 0xF],
        };
        assert(instruction.nibbles@ =~= nibbles_of(byte0, byte1));
        instruction
    }
}

/// The address field of an instruction: its last three fields as one number.
pub fn get_nnn_from_instruction(instruction: &Instruction) -> (nnn: u16)
    ensures
        nnn == ((instruction.nibbles[1] as u16) << 8) | ((instruction.nibbles[2] as u16) << 4)
            | (instruction.nibbles[3] as u16),
        instruction.wf() ==> nnn == addr12(instruction.nibbles@),
        instruction.wf() ==> nnn < 4096,
{
    let n1: u16 = instruction.nibbles[1] as u16;
    let n2: u16 = instruction.nibbles[2] as u16;
    let n3: u16 = instruction.nibbles[3] as u16;
    assert(n1 < 16 && n2 < 16 && n3 < 16 ==> ((n1 << 8) | (n2 << 4) | n3) == n1 * 256 + n2 * 16
        + n3) by (bit_vector);
    (n1 << 8) | (n2 << 4) | n3
}

/// The immediate field of an instruction: its last two fields as one number.
pub fn get_nn_from_instruction(instruction: &Instruction) -> (nn: u8)
    ensures
        nn == (instruction.nibbles[2] << 4) | instruction.nibbles[3],
        instruction.wf() ==> nn == imm8(instruction.nibbles@),
{
    let n2: u8 = instruction.nibbles[2];
    let n3: u8 = instruction.nibbles[3];
    assert(n2 < 16 && n3 < 16 ==> ((n2 << 4) | n3) == n2 * 16 + n3) by (bit_vector);
    (n2 << 4) | n3
}

} // verus!

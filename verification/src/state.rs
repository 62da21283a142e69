//! The machine state, its mathematical model, and the conditions that stop it.

use vstd::prelude::*;

verus! {

/// Number of addressable bytes.
pub const MEMORY_SIZE: usize = 4096;

/// Number of pixels: 64 columns by 32 rows, row after row.
pub const DISPLAY_SIZE: usize = 2048;

/// Address at which a program is loaded and at which execution starts.
pub const PROGRAM_START: u16 = 0x200;

/// Number of bytes that the built-in glyphs take, from address 0.
pub const FONT_SIZE: usize = 80;

/// Number of cycles between two decrements of the timers.
pub const TIMER_PERIOD: u8 = 10;

/// A condition that ends the session: the machine cannot go on.
#[derive(Clone, Copy, Debug, PartialEq, Eq, Structural)]
pub enum Fault {
    /// A return with no call pending.
    StackUnderflow,
    /// An access to memory outside its 4096 bytes.
    MemoryOutOfBounds,
    /// A sprite bit that falls behind the last pixel.
    DisplayOutOfBounds,
    /// A key test on an index that names no key.
    KeyOutOfRange,
    /// A program that does not fit between the load address and the end of memory.
    ProgramTooLarge,
}

/// The machine as a mathematical value.
pub struct Machine {
    pub display: Seq<bool>,
    pub registers: Seq<u8>,
    pub memory: Seq<u8>,
    pub keys: Seq<bool>,
    pub pc: u16,
    pub index: u16,
    pub stack: Seq<u16>,
    pub delay_timer: u8,
    pub sound_timer: u8,
    pub cycles: u8,
}

impl Machine {
    /// The sizes of the fixed parts, and the range of the cadence counter.
    pub open spec fn wf(self) -> bool {
        &&& self.display.len() == 2048
        &&& self.registers.len() == 16
        &&& self.memory.len() == 4096
        &&& self.keys.len() == 16
        &&& self.cycles < 10
    }

    /// Equality part by part, the sequences element by element.
    pub open spec fn agrees(self, other: Machine) -> bool {
        &&& self.display =~= other.display
        &&& self.registers =~= other.registers
        &&& self.memory =~= other.memory
        &&& self.keys =~= other.keys
        &&& self.pc == other.pc
        &&& self.index == other.index
        &&& self.stack =~= other.stack
        &&& self.delay_timer == other.delay_timer
        &&& self.sound_timer == other.sound_timer
        &&& self.cycles == other.cycles
    }

    /// Two machines that agree part by part are the same machine.
    pub proof fn lemma_agrees(self, other: Machine)
        requires
            self.agrees(other),
        ensures
            self == other,
    {
    }
}

/// The complete state of one machine.
#[derive(Clone, Debug, PartialEq, Eq)]
pub struct State {
    /// Pixels, row after row: the pixel at `(x, y)` is at `x + 64 * y`.
    pub display: [bool; 2048],
    /// General registers; the last one doubles as the flag.
    pub registers: [u8; 16],
    pub memory: [u8; 4096],
    /// Which keys are held.
    pub keys: [bool; 16],
    pub pc: u16,
    pub index: u16,
    /// Return addresses, the most recent call last.
    pub stack: Vec<u16>,
    pub delay_timer: u8,
    pub sound_timer: u8,
    /// Cycles since the timers were last decremented.
    pub cycles: u8,
}

impl View for State {
    type V = Machine;

    open spec fn view(&self) -> Machine {
        Machine {
            display: self.display@,
            registers: self.registers@,
            memory: self.memory@,
            keys: self.keys@,
            pc: self.pc,
            index: self.index,
            stack: self.stack@,
            delay_timer: self.delay_timer,
            sound_timer: self.sound_timer,
            cycles: self.cycles,
        }
    }
}

/// The built-in glyphs: five bytes for each of the sixteen hexadecimal digits.
pub open spec fn font() -> Seq<u8> {
    seq![
        0xF0u8, 0x90, 0x90, 0x90, 0xF0,
        0x20, 0x60, 0x20, 0x20, 0x70,
        0xF0, 0x10, 0xF0, 0x80, 0xF0,
        0xF0, 0x10, 0xF0, 0x10, 0xF0,
        0x90, 0x90, 0xF0, 0x10, 0x10,
        0xF0, 0x80, 0xF0, 0x10, 0xF0,
        0xF0, 0x80, 0xF0, 0x90, 0xF0,
        0xF0, 0x10, 0x20, 0x40, 0x40,
        0xF0, 0x90, 0xF0, 0x90, 0xF0,
        0xF0, 0x90, 0xF0, 0x10, 0xF0,
        0xF0, 0x90, 0xF0, 0x90, 0x90,
        0xE0, 0x90, 0xE0, 0x90, 0xE0,
        0xF0, 0x80, 0x80, 0x80, 0xF0,
        0xE0, 0x90, 0x90, 0x90, 0xE0,
        0xF0, 0x80, 0xF0, 0x80, 0xF0,
        0xF0, 0x80, 0xF0, 0x80, 0x80,
    ]
}

/// The machine before any program is loaded: the glyphs at the bottom of
/// memory, execution about to start at the load address, all else zero.
pub open spec fn initial_machine() -> Machine {
    Machine {
        display: Seq::new(2048, |p: int| false),
        registers: Seq::new(16, |k: int| 0u8),
        memory: Seq::new(4096, |a: int| if a < 80 { font()[a] } else { 0u8 }),
        keys: Seq::new(16, |k: int| false),
        pc: 0x200,
        index: 0,
        stack: Seq::empty(),
        delay_timer: 0,
        sound_timer: 0,
        cycles: 0,
    }
}

/// Whether a program of `len` bytes fits between the load address and the end of memory.
pub open spec fn program_fits(len: nat) -> bool {
    0x200 + len <= 4096
}

/// Memory with `program` copied to the load address.
pub open spec fn load_program(m: Machine, program: Seq<u8>) -> Machine {
    Machine {
        memory: Seq::new(
            4096,
            |a: int| if 0x200 <= a < 0x200 + program.len() { program[a - 0x200] } else { m.memory[a] },
        ),
        ..m
    }
}

/// The glyph table as an array.
fn font_table() -> (table: [u8; 80])
    ensures
        table@ == font(),
{
    let table: [u8; 80] = [
        0xF0, 0x90, 0x90, 0x90, 0xF0,
        0x20, 0x60, 0x20, 0x20, 0x70,
        0xF0, 0x10, 0xF0, 0x80, 0xF0,
        0xF0, 0x10, 0xF0, 0x10, 0xF0,
        0x90, 0x90, 0xF0, 0x10, 0x10,
        0xF0, 0x80, 0xF0, 0x10, 0xF0,
        0xF0, 0x80, 0xF0, 0x90, 0xF0,
        0xF0, 0x10, 0x20, 0x40, 0x40,
        0xF0, 0x90, 0xF0, 0x90, 0xF0,
        0xF0, 0x90, 0xF0, 0x10, 0xF0,
        0xF0, 0x90, 0xF0, 0x90, 0x90,
        0xE0, 0x90, 0xE0, 0x90, 0xE0,
        0xF0, 0x80, 0x80, 0x80, 0xF0,
        0xE0, 0x90, 0x90, 0x90, 0xE0,
        0xF0, 0x80, 0xF0, 0x80, 0xF0,
        0xF0, 0x80, 0xF0, 0x80, 0x80,
    ];
    assert(table@ =~= font());
    table
}

impl State {
    /// The cadence counter is within its period.
    pub open spec fn wf(&self) -> bool {
        self.cycles < 10
    }

    /// A machine with the glyphs in place and nothing else set.
    pub fn new() -> (state: State)
        ensures
            state.wf(),
            state@ == initial_machine(),
    {
        let table = font_table();
        let mut memory: [u8; 4096] = [0u8; 4096];
        let mut a: usize = 0;
        while a < 80
            invariant
                a <= 80,
                table@ == font(),
                forall|k: int| 0 <= k < a ==> memory@[k] == font()[k],
                forall|k: int| a <= k < 4096 ==> memory@[k] == 0u8,
            decreases 80 - a,
        {
            memory[a] = table[a];
            a += 1;
        }
        let state = State {
            display: [false; 2048],
            registers: [0u8; 16],
            memory,
            keys: [false; 16],
            pc: 0x200,
            index: 0,
            stack: Vec::new(),
            delay_timer: 0,
            sound_timer: 0,
            cycles: 0,
        };
        proof {
            state@.lemma_agrees(initial_machine());
        }
        state
    }

    /// Copies a program image to the load address. An image that would reach
    /// past the end of memory is refused and nothing is written.
    pub fn load(&mut self, program: &[u8]) -> (result: Result<(), Fault>)
        ensures
            program_fits(program@.len()) ==> result is Ok && final(self)@ == load_program(
                old(self)@,
                program@,
            ),
            !program_fits(program@.len()) ==> result == Err::<(), Fault>(Fault::ProgramTooLarge)
                && final(self)@ == old(self)@,
            final(self).wf() == old(self).wf(),
    {
        let len = program.len();
        if len > 4096 - 0x200 {
            return Err(Fault::ProgramTooLarge);
        }
        let mut k: usize = 0;
        while k < len
            invariant
                k <= len,
                len == program@.len(),
                len <= 4096 - 0x200,
                self.display == old(self).display,
                self.registers == old(self).registers,
                self.keys == old(self).keys,
                self.pc == old(self).pc,
                self.index == old(self).index,
                self.stack == old(self).stack,
                self.delay_timer == old(self).delay_timer,
                self.sound_timer == old(self).sound_timer,
                self.cycles == old(self).cycles,
                forall|a: int|
                    0 <= a < 4096 ==> self.memory@[a] == if 0x200 <= a < 0x200 + k {
                        program@[a - 0x200]
                    } else {
                        old(self).memory@[a]
                    },
            decreases len - k,
        {
            self.memory[0x200 + k] = program[k];
            k += 1;
        }
        proof {
            self@.lemma_agrees(load_program(old(self)@, program@));
        }
        Ok(())
    }
}

} // verus!

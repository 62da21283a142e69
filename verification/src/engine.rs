//! The execution engine: what each instruction does to the machine.
//!
//! `step` is the transition function on the mathematical machine. The
//! executable functions are proved against it.

use crate::instruction::{
    addr12, get_nn_from_instruction, get_nnn_from_instruction, imm8, Instruction,
};
use crate::random::random_byte;
use crate::state::{Fault, Machine, State};
use vstd::prelude::*;

verus! {

/// The value of `v` in eight bits.
pub open spec fn wrap8(v: int) -> u8 {
    (v % 256) as u8
}

/// The value of `v` in sixteen bits.
pub open spec fn wrap16(v: int) -> u16 {
    (v % 65536) as u16
}

/// A condition as a flag value.
pub open spec fn flag(condition: bool) -> u8 {
    if condition {
        1
    } else {
        0
    }
}

/// Whether the bit of `byte` for sprite column `column` is set. Column 0 is
/// the most significant bit.
pub open spec fn sprite_bit(byte: u8, column: int) -> bool {
    (byte >> ((7 - column) as u8)) & 1 == 1
}

/// The lowest held key at or after `from`, if any.
pub open spec fn first_held(keys: Seq<bool>, from: int) -> Option<int>
    decreases 16 - from,
{
    if from < 0 || from >= 16 {
        None
    } else if keys[from] {
        Some(from)
    } else {
        first_held(keys, from + 1)
    }
}

impl Machine {
    /// This machine with register `x` set to `value`.
    pub open spec fn with_register(self, x: int, value: u8) -> Machine {
        Machine { registers: self.registers.update(x, value), ..self }
    }

    /// This machine with the program counter at `target`.
    pub open spec fn with_pc(self, target: u16) -> Machine {
        Machine { pc: target, ..self }
    }

    /// This machine with the next instruction skipped if `condition` holds.
    pub open spec fn skip_if(self, condition: bool) -> Machine {
        if condition {
            self.with_pc(wrap16(self.pc + 2))
        } else {
            self
        }
    }

    /// Clear screen: every pixel off.
    pub open spec fn clear(self) -> Machine {
        Machine { display: Seq::new(2048, |p: int| false), ..self }
    }

    /// Call: the program counter goes on the stack and moves to `target`.
    pub open spec fn call(self, target: u16) -> Machine {
        Machine { pc: target, stack: self.stack.push(self.pc), ..self }
    }

    /// Return: the program counter comes off the stack.
    pub open spec fn ret(self) -> Result<Machine, Fault> {
        if self.stack.len() == 0 {
            Err(Fault::StackUnderflow)
        } else {
            Ok(Machine { pc: self.stack.last(), stack: self.stack.drop_last(), ..self })
        }
    }

    /// The register-to-register operations, selected by `op`. Those that
    /// report a carry, a borrow or a shifted-out bit write the result first
    /// and the flag second, except the two shifts, which write the flag
    /// first and then shift what register `x` holds.
    pub open spec fn alu(self, x: int, y: int, op: u8) -> Machine {
        let a = self.registers[x];
        let b = self.registers[y];
        if op == 0 {
            self.with_register(x, b)
        } else if op == 1 {
            self.with_register(x, a | b)
        } else if op == 2 {
            self.with_register(x, a & b)
        } else if op == 3 {
            self.with_register(x, a ^ b)
        } else if op == 4 {
            self.with_register(x, wrap8(a + b)).with_register(15, flag(a + b >= 256))
        } else if op == 5 {
            self.with_register(x, wrap8(a - b)).with_register(15, flag(a >= b))
        } else if op == 6 {
            let flagged = self.with_register(15, (a % 2) as u8);
            flagged.with_register(x, (flagged.registers[x] / 2) as u8)
        } else if op == 7 {
            self.with_register(x, wrap8(b - a)).with_register(15, flag(b >= a))
        } else if op == 0xE {
            let flagged = self.with_register(15, (a / 128) as u8);
            flagged.with_register(x, wrap8(flagged.registers[x] * 2))
        } else {
            self
        }
    }

    /// Key test: skip if the key that register `x` names is held, or is not
    /// held, as `held` says.
    pub open spec fn key_test(self, x: int, held: bool) -> Result<Machine, Fault> {
        let key = self.registers[x];
        if key >= 16 {
            Err(Fault::KeyOutOfRange)
        } else {
            Ok(self.skip_if(self.keys[key as int] == held))
        }
    }

    /// Wait for a key: the lowest held key goes to register `x`; with no key
    /// held the program counter steps back onto this instruction.
    pub open spec fn wait_key(self, x: int) -> Machine {
        match first_held(self.keys, 0) {
            Some(key) => self.with_register(x, key as u8),
            None => self.with_pc(wrap16(self.pc - 2)),
        }
    }

    /// The three decimal digits of register `x`, written at the index register.
    pub open spec fn store_bcd(self, x: int) -> Result<Machine, Fault> {
        let value = self.registers[x];
        let at = self.index as int;
        if at + 2 >= 4096 {
            Err(Fault::MemoryOutOfBounds)
        } else {
            Ok(
                Machine {
                    memory: self.memory.update(at, (value / 100) as u8).update(
                        at + 1,
                        ((value / 10) % 10) as u8,
                    ).update(at + 2, (value % 10) as u8),
                    ..self
                },
            )
        }
    }

    /// Registers 0 to `x`, written at the index register.
    pub open spec fn store_registers(self, x: int) -> Result<Machine, Fault> {
        let at = self.index as int;
        if at + x >= 4096 {
            Err(Fault::MemoryOutOfBounds)
        } else {
            Ok(
                Machine {
                    memory: Seq::new(
                        4096,
                        |a: int|
                            if at <= a <= at + x {
                                self.registers[a - at]
                            } else {
                                self.memory[a]
                            },
                    ),
                    ..self
                },
            )
        }
    }

    /// Registers 0 to `x`, read from the index register on.
    pub open spec fn load_registers(self, x: int) -> Result<Machine, Fault> {
        let at = self.index as int;
        if at + x >= 4096 {
            Err(Fault::MemoryOutOfBounds)
        } else {
            Ok(
                Machine {
                    registers: Seq::new(
                        16,
                        |k: int|
                            if k <= x {
                                self.memory[at + k]
                            } else {
                                self.registers[k]
                            },
                    ),
                    ..self
                },
            )
        }
    }

    /// The instructions whose first nibble is `0xF`, selected by the low byte.
    pub open spec fn misc(self, x: int, low: int) -> Result<Machine, Fault> {
        if low == 0x07 {
            Ok(self.with_register(x, self.delay_timer))
        } else if low == 0x0A {
            Ok(self.wait_key(x))
        } else if low == 0x15 {
            Ok(Machine { delay_timer: self.registers[x], ..self })
        } else if low == 0x18 {
            Ok(Machine { sound_timer: self.registers[x], ..self })
        } else if low == 0x1E {
            Ok(Machine { index: wrap16(self.index + self.registers[x]), ..self })
        } else if low == 0x29 {
            Ok(Machine { index: (self.registers[x] * 5) as u16, ..self })
        } else if low == 0x33 {
            self.store_bcd(x)
        } else if low == 0x55 {
            self.store_registers(x)
        } else if low == 0x65 {
            self.load_registers(x)
        } else {
            Ok(self)
        }
    }

    /// Whether pixel `p` lies under a set bit of the sprite of `rows` rows
    /// that starts in memory at the index register and on the display at
    /// pixel `origin`. Row `r` of the sprite covers the eight pixels from
    /// `origin + 64 * r` on, whether or not they lie in one display row.
    pub open spec fn sprite_covers(self, origin: int, rows: int, p: int) -> bool {
        let offset = p - origin;
        &&& 0 <= offset
        &&& offset / 64 < rows
        &&& offset % 64 < 8
        &&& sprite_bit(self.memory[self.index + offset / 64], offset % 64)
    }

    /// Whether a set bit of that sprite falls behind the last pixel.
    pub open spec fn sprite_overruns(self, origin: int, rows: int) -> bool {
        exists|p: int| p >= 2048 && #[trigger] self.sprite_covers(origin, rows, p)
    }

    /// The display with every pixel under a set bit of that sprite toggled.
    pub open spec fn display_with_sprite(self, origin: int, rows: int) -> Seq<bool> {
        Seq::new(2048, |p: int| self.display[p] != self.sprite_covers(origin, rows, p))
    }

    /// Sprite draw: `rows` rows at the pixel that registers `x` and `y` name.
    pub open spec fn draw(self, x: int, y: int, rows: int) -> Result<Machine, Fault> {
        let origin = self.registers[x] + 64 * self.registers[y];
        if rows > 0 && self.index + rows > 4096 {
            Err(Fault::MemoryOutOfBounds)
        } else if self.sprite_overruns(origin, rows) {
            Err(Fault::DisplayOutOfBounds)
        } else {
            Ok(Machine { display: self.display_with_sprite(origin, rows), ..self })
        }
    }
}

/// What the instruction with the nibbles `n` does to the machine `m`, whose
/// program counter already stands behind the instruction. `random` is the
/// byte that the random-number instruction draws. A pattern that names no
/// instruction changes nothing. On a fault there is no next machine.
pub open spec fn step(m: Machine, n: Seq<u8>, random: u8) -> Result<Machine, Fault> {
    let kind = n[0];
    let x = n[1] as int;
    let y = n[2] as int;
    let last = n[3];
    let nnn = addr12(n) as u16;
    let nn = imm8(n) as u8;
    if kind == 0x0 {
        if x == 0 && y == 0xE && last == 0x0 {
            Ok(m.clear())
        } else if x == 0 && y == 0xE && last == 0xE {
            m.ret()
        } else {
            Ok(m)
        }
    } else if kind == 0x1 {
        Ok(m.with_pc(nnn))
    } else if kind == 0x2 {
        Ok(m.call(nnn))
    } else if kind == 0x3 {
        Ok(m.skip_if(m.registers[x] == nn))
    } else if kind == 0x4 {
        Ok(m.skip_if(m.registers[x] != nn))
    } else if kind == 0x5 {
        Ok(m.skip_if(last == 0 && m.registers[x] == m.registers[y]))
    } else if kind == 0x6 {
        Ok(m.with_register(x, nn))
    } else if kind == 0x7 {
        Ok(m.with_register(x, wrap8(m.registers[x] + nn)))
    } else if kind == 0x8 {
        Ok(m.alu(x, y, last))
    } else if kind == 0x9 {
        Ok(m.skip_if(last == 0 && m.registers[x] != m.registers[y]))
    } else if kind == 0xA {
        Ok(Machine { index: nnn, ..m })
    } else if kind == 0xB {
        Ok(m.with_pc((nnn + m.registers[0]) as u16))
    } else if kind == 0xC {
        Ok(m.with_register(x, random & nn))
    } else if kind == 0xD {
        m.draw(x, y, last as int)
    } else if kind == 0xE {
        if y == 0x9 && last == 0xE {
            m.key_test(x, true)
        } else if y == 0xA && last == 0x1 {
            m.key_test(x, false)
        } else {
            Ok(m)
        }
    } else {
        m.misc(x, imm8(n))
    }
}

/// How a call that was to carry out `expected` ended: in its next machine,
/// or in its fault with the machine as it was.
pub open spec fn carried_out(
    expected: Result<Machine, Fault>,
    before: Machine,
    result: Result<(), Fault>,
    after: Machine,
) -> bool {
    match expected {
        Ok(next) => result is Ok && after == next,
        Err(fault) => result == Err::<(), Fault>(fault) && after == before,
    }
}

impl State {
    /// Sprite draw. Toggles every pixel under a set bit of the sprite, or
    /// reports the fault and leaves the display as it was.
    pub fn draw_sprite(&mut self, x: u8, y: u8, rows: u8) -> (result: Result<(), Fault>)
        requires
            x < 16,
            y < 16,
            rows < 16,
        ensures
            carried_out(
                old(self)@.draw(x as int, y as int, rows as int),
                old(self)@,
                result,
                final(self)@,
            ),
    {
        let ghost before = self@;
        let origin: usize = (self.registers[y as usize] as usize) * 64 + (
        self.registers[x as usize] as usize);
        let start: usize = self.index as usize;
        if rows > 0 && start + (rows as usize) > 4096 {
            return Err(Fault::MemoryOutOfBounds);
        }
        let mut display: [bool; 2048] = self.display;
        let mut row: u8 = 0;
        while row < rows
            invariant
                row <= rows,
                rows < 16,
                origin == before.registers[x as int] + 64 * before.registers[y as int],
                start == before.index,
                rows > 0 ==> start + rows <= 4096,
                self@ == before,
                before == old(self)@,
                forall|p: int|
                    0 <= p < 2048 ==> display@[p] == (before.display[p] != before.sprite_covers(
                        origin as int,
                        row as int,
                        p,
                    )),
                forall|p: int|
                    p >= 2048 ==> !#[trigger] before.sprite_covers(origin as int, row as int, p),
            decreases rows - row,
        {
            let sprite_byte: u8 = self.memory[start + row as usize];
            let row_origin: usize = origin + 64 * (row as usize);
            let mut column: u8 = 0;
            while column < 8
                invariant
                    column <= 8,
                    row < rows,
                    rows < 16,
                    origin <= 255 * 65,
                    row_origin == origin + 64 * row,
                    sprite_byte == before.memory[start + row],
                    start == before.index,
                    start + rows <= 4096,
                    origin == before.registers[x as int] + 64 * before.registers[y as int],
                    self@ == before,
                    before == old(self)@,
                    forall|p: int|
                        0 <= p < 2048 ==> display@[p] == (before.display[p] != (
                        before.sprite_covers(origin as int, row as int, p) || (row_origin <= p
                            < row_origin + column && sprite_bit(sprite_byte, p - row_origin)))),
                    forall|c: int|
                        0 <= c < column && row_origin + c >= 2048 ==> !#[trigger] sprite_bit(
                            sprite_byte,
                            c,
                        ),
                decreases 8 - column,
            {
                if (sprite_byte >> (7 - column)) & 1 == 1 {
                    let pixel: usize = row_origin + column as usize;
                    if pixel >= 2048 {
                        proof {
                            lemma_row_offset(origin as int, row as int, column as int);
                            assert(before.sprite_covers(origin as int, rows as int, pixel as int));
                        }
                        return Err(Fault::DisplayOutOfBounds);
                    }
                    display[pixel] = !display[pixel];
                }
                column += 1;
            }
            proof {
                let done = row as int + 1;
                assert forall|p: int| 0 <= p < 2048 implies display@[p] == (before.display[p]
                    != before.sprite_covers(origin as int, done, p)) by {
                    lemma_covers_next_row(before, origin as int, row as int, p);
                }
                assert forall|p: int| p >= 2048 implies !#[trigger] before.sprite_covers(
                    origin as int,
                    done,
                    p,
                ) by {
                    lemma_covers_next_row(before, origin as int, row as int, p);
                }
            }
            row += 1;
        }
        self.display = display;
        proof {
            assert(!before.sprite_overruns(origin as int, rows as int));
            assert(self@.display =~= before.display_with_sprite(origin as int, rows as int));
            self@.lemma_agrees(before.draw(x as int, y as int, rows as int)->Ok_0);
        }
        Ok(())
    }

    /// A register-to-register operation, selected by `op`.
    pub fn operate(&mut self, x: u8, y: u8, op: u8)
        requires
            x < 16,
            y < 16,
        ensures
            final(self)@ == old(self)@.alu(x as int, y as int, op),
    {
        let a: u8 = self.registers[x as usize];
        let b: u8 = self.registers[y as usize];
        match op {
            0x0 => {
                self.registers[x as usize] = b;
            },
            0x1 => {
                self.registers[x as usize] = a | b;
            },
            0x2 => {
                self.registers[x as usize] = a & b;
            },
            0x3 => {
                self.registers[x as usize] = a ^ b;
            },
            0x4 => {
                self.registers[x as usize] = a.wrapping_add(b);
                self.registers[0xF] = if a as u16 + b as u16 >= 256 {
                    1
                } else {
                    0
                };
            },
            0x5 => {
                self.registers[x as usize] = a.wrapping_sub(b);
                self.registers[0xF] = if a >= b {
                    1
                } else {
                    0
                };
            },
            0x6 => {
                assert(a & 1 == a % 2) by (bit_vector);
                self.registers[0xF] = a & 1;
                let shifted: u8 = self.registers[x as usize];
                assert(shifted >> 1 == shifted / 2) by (bit_vector);
                self.registers[x as usize] = shifted >> 1;
            },
            0x7 => {
                self.registers[x as usize] = b.wrapping_sub(a);
                self.registers[0xF] = if b >= a {
                    1
                } else {
                    0
                };
            },
            0xE => {
                assert(a >> 7 == a / 128) by (bit_vector);
                self.registers[0xF] = a >> 7;
                let shifted: u8 = self.registers[x as usize];
                assert(shifted << 1 == (shifted * 2) % 256) by (bit_vector);
                self.registers[x as usize] = shifted << 1;
            },
            _ => {},
        }
        proof {
            self@.lemma_agrees(old(self)@.alu(x as int, y as int, op));
        }
    }

    /// Wait for a key: the lowest held key goes to register `x`; with no key
    /// held the program counter steps back by one instruction.
    pub fn wait_for_key(&mut self, x: u8)
        requires
            x < 16,
        ensures
            final(self)@ == old(self)@.wait_key(x as int),
    {
        let mut key: u8 = 0;
        while key < 16
            invariant
                key <= 16,
                x < 16,
                self@ == old(self)@,
                first_held(self.keys@, 0) == first_held(self.keys@, key as int),
            decreases 16 - key,
        {
            if self.keys[key as usize] {
                self.registers[x as usize] = key;
                proof {
                    self@.lemma_agrees(old(self)@.wait_key(x as int));
                }
                return ;
            }
            key += 1;
        }
        self.pc = self.pc.wrapping_sub(2);
        proof {
            self@.lemma_agrees(old(self)@.wait_key(x as int));
        }
    }

    /// Writes the hundreds, tens and ones of register `x` at the index
    /// register, or reports that they do not fit and writes nothing.
    pub fn store_decimal(&mut self, x: u8) -> (result: Result<(), Fault>)
        requires
            x < 16,
        ensures
            carried_out(old(self)@.store_bcd(x as int), old(self)@, result, final(self)@),
    {
        let value: u8 = self.registers[x as usize];
        let at: usize = self.index as usize;
        if at + 2 >= 4096 {
            return Err(Fault::MemoryOutOfBounds);
        }
        self.memory[at] = value / 100;
        self.memory[at + 1] = (value / 10) % 10;
        self.memory[at + 2] = value % 10;
        proof {
            self@.lemma_agrees(old(self)@.store_bcd(x as int)->Ok_0);
        }
        Ok(())
    }

    /// Writes registers 0 to `x` at the index register, or reports that they
    /// do not fit and writes nothing.
    pub fn store_registers(&mut self, x: u8) -> (result: Result<(), Fault>)
        requires
            x < 16,
        ensures
            carried_out(old(self)@.store_registers(x as int), old(self)@, result, final(self)@),
    {
        let at: usize = self.index as usize;
        if at + x as usize >= 4096 {
            return Err(Fault::MemoryOutOfBounds);
        }
        let mut k: u8 = 0;
        while k <= x
            invariant
                k <= x + 1,
                x < 16,
                at == old(self).index,
                at + x < 4096,
                self@.agrees(Machine { memory: self@.memory, ..old(self)@ }),
                forall|a: int|
                    0 <= a < 4096 ==> self.memory@[a] == if at <= a < at + k {
                        old(self).registers@[a - at]
                    } else {
                        old(self).memory@[a]
                    },
            decreases x + 1 - k,
        {
            self.memory[at + k as usize] = self.registers[k as usize];
            k += 1;
        }
        proof {
            self@.lemma_agrees(old(self)@.store_registers(x as int)->Ok_0);
        }
        Ok(())
    }

    /// Reads registers 0 to `x` from the index register on, or reports that
    /// the bytes lie outside memory and reads nothing.
    pub fn load_registers(&mut self, x: u8) -> (result: Result<(), Fault>)
        requires
            x < 16,
        ensures
            carried_out(old(self)@.load_registers(x as int), old(self)@, result, final(self)@),
    {
        let at: usize = self.index as usize;
        if at + x as usize >= 4096 {
            return Err(Fault::MemoryOutOfBounds);
        }
        let mut k: u8 = 0;
        while k <= x
            invariant
                k <= x + 1,
                x < 16,
                at == old(self).index,
                at + x < 4096,
                self@.agrees(Machine { registers: self@.registers, ..old(self)@ }),
                forall|j: int|
                    0 <= j < 16 ==> self.registers@[j] == if j < k {
                        old(self).memory@[at + j]
                    } else {
                        old(self).registers@[j]
                    },
            decreases x + 1 - k,
        {
            self.registers[k as usize] = self.memory[at + k as usize];
            k += 1;
        }
        proof {
            self@.lemma_agrees(old(self)@.load_registers(x as int)->Ok_0);
        }
        Ok(())
    }
}

impl Instruction {
    /// Carries out this instruction on `state`, whose program counter already
    /// stands behind it, with `random` as the byte that the random-number
    /// instruction draws. On a fault the state is left as it was.
    pub fn execute(&self, state: &mut State, random: u8) -> (result: Result<(), Fault>)
        requires
            self.wf(),
        ensures
            carried_out(
                step(old(state)@, self.nibbles@, random),
                old(state)@,
                result,
                final(state)@,
            ),
    {
        let kind: u8 = self.nibbles[0];
        let x: u8 = self.nibbles[1];
        let y: u8 = self.nibbles[2];
        let last: u8 = self.nibbles[3];
        let nnn: u16 = get_nnn_from_instruction(self);
        let nn: u8 = get_nn_from_instruction(self);
        let vx: u8 = state.registers[x as usize];
        let vy: u8 = state.registers[y as usize];
        let ghost before = state@;
        match kind {
            0x0 => {
                if x == 0 && y == 0xE && last == 0x0 {
                    state.display = [false; 2048];
                } else if x == 0 && y == 0xE && last == 0xE {
                    match state.stack.pop() {
                        Some(address) => {
                            state.pc = address;
                        },
                        None => {
                            return Err(Fault::StackUnderflow);
                        },
                    }
                }
            },
            0x1 => {
                state.pc = nnn;
            },
            0x2 => {
                state.stack.push(state.pc);
                state.pc = nnn;
            },
            0x3 => {
                if vx == nn {
                    state.pc = state.pc.wrapping_add(2);
                }
            },
            0x4 => {
                if vx != nn {
                    state.pc = state.pc.wrapping_add(2);
                }
            },
            0x5 => {
                if last == 0 && vx == vy {
                    state.pc = state.pc.wrapping_add(2);
                }
            },
            0x6 => {
                state.registers[x as usize] = nn;
            },
            0x7 => {
                state.registers[x as usize] = vx.wrapping_add(nn);
            },
            0x8 => {
                state.operate(x, y, last);
            },
            0x9 => {
                if last == 0 && vx != vy {
                    state.pc = state.pc.wrapping_add(2);
                }
            },
            0xA => {
                state.index = nnn;
            },
            0xB => {
                state.pc = nnn + state.registers[0] as u16;
            },
            0xC => {
                state.registers[x as usize] = random & nn;
            },
            0xD => {
                return state.draw_sprite(x, y, last);
            },
            0xE => {
                if (y == 0x9 && last == 0xE) || (y == 0xA && last == 0x1) {
                    if vx >= 16 {
                        return Err(Fault::KeyOutOfRange);
                    }
                    if state.keys[vx as usize] == (y == 0x9) {
                        state.pc = state.pc.wrapping_add(2);
                    }
                }
            },
            _ => {
                match nn {
                    0x07 => {
                        state.registers[x as usize] = state.delay_timer;
                    },
                    0x0A => {
                        state.wait_for_key(x);
                    },
                    0x15 => {
                        state.delay_timer = vx;
                    },
                    0x18 => {
                        state.sound_timer = vx;
                    },
                    0x1E => {
                        state.index = state.index.wrapping_add(vx as u16);
                    },
                    0x29 => {
                        state.index = vx as u16 * 5;
                    },
                    0x33 => {
                        return state.store_decimal(x);
                    },
                    0x55 => {
                        return state.store_registers(x);
                    },
                    0x65 => {
                        return state.load_registers(x);
                    },
                    _ => {},
                }
            },
        }
        proof {
            state@.lemma_agrees(step(before, self.nibbles@, random)->Ok_0);
        }
        Ok(())
    }

    /// Carries out this instruction on `state`, drawing the byte for the
    /// random-number instruction from the random source. Whatever byte came,
    /// the state is what `step` gives for it.
    pub fn do_instruction(&self, state: &mut State) -> (result: Result<(), Fault>)
        requires
            self.wf(),
        ensures
            exists|random: u8|
                carried_out(
                    #[trigger] step(old(state)@, self.nibbles@, random),
                    old(state)@,
                    result,
                    final(state)@,
                ),
            self.nibbles[0] != 0xC ==> carried_out(
                step(old(state)@, self.nibbles@, 0),
                old(state)@,
                result,
                final(state)@,
            ),
    {
        let random: u8 = if self.nibbles[0] == 0xC {
            random_byte()
        } else {
            0
        };
        self.execute(state, random)
    }
}

/// The pixel of row `row`, column `column` lies `64 * row + column` behind the origin.
proof fn lemma_row_offset(origin: int, row: int, column: int)
    requires
        0 <= row,
        0 <= column < 8,
    ensures
        (origin + 64 * row + column - origin) / 64 == row,
        (origin + 64 * row + column - origin) % 64 == column,
{
}

/// The sprite of `row + 1` rows covers what the sprite of `row` rows covers,
/// and the set bits of row `row`.
proof fn lemma_covers_next_row(m: Machine, origin: int, row: int, p: int)
    requires
        0 <= row,
    ensures
        m.sprite_covers(origin, row + 1, p) == (m.sprite_covers(origin, row, p) || (origin + 64
            * row <= p < origin + 64 * row + 8 && sprite_bit(
            m.memory[m.index + row],
            p - (origin + 64 * row),
        ))),
{
    let offset = p - origin;
    if origin + 64 * row <= p < origin + 64 * row + 8 {
        lemma_row_offset(origin, row, p - origin - 64 * row);
    }
}

} // verus!

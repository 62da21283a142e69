//! The cycle: fetch, advance, count towards the timers, execute. And the
//! pacing of cycles against a fixed budget of time.

use crate::engine::{carried_out, step};
use crate::instruction::{nibbles_of, Instruction};
use crate::random::random_byte;
use crate::state::{Fault, Machine, State};
use vstd::prelude::*;

verus! {

/// Time that one cycle is given, in nanoseconds, at 6000 cycles a second.
pub const DEFAULT_CYCLE_NANOS: u64 = 166_666;

/// A timer one step nearer to zero; at zero it stays.
pub open spec fn wound_down(timer: u8) -> u8 {
    if timer > 0 {
        (timer - 1) as u8
    } else {
        0
    }
}

impl Machine {
    /// Whether the two bytes at the program counter lie in memory.
    pub open spec fn can_fetch(self) -> bool {
        self.pc + 1 < 4096
    }

    /// The nibbles of the two bytes at the program counter.
    pub open spec fn fetch(self) -> Seq<u8> {
        nibbles_of(self.memory[self.pc as int], self.memory[self.pc + 1])
    }

    /// One more cycle counted. Every tenth cycle winds both timers down and
    /// starts the count again.
    pub open spec fn tick(self) -> Machine {
        if self.cycles + 1 == 10 {
            Machine {
                cycles: 0,
                delay_timer: wound_down(self.delay_timer),
                sound_timer: wound_down(self.sound_timer),
                ..self
            }
        } else {
            Machine { cycles: (self.cycles + 1) as u8, ..self }
        }
    }

    /// The machine as the instruction at the program counter finds it: the
    /// program counter behind the instruction, the cycle counted.
    pub open spec fn advance(self) -> Machine {
        Machine { pc: (self.pc + 2) as u16, ..self }.tick()
    }
}

/// One whole cycle of the machine `m`, with `random` as the byte that a
/// random-number instruction draws.
pub open spec fn cycle(m: Machine, random: u8) -> Result<Machine, Fault> {
    if !m.can_fetch() {
        Err(Fault::MemoryOutOfBounds)
    } else {
        step(m.advance(), m.fetch(), random)
    }
}

/// As many cycles as `randoms` has bytes, one after the other, the k-th with
/// the k-th byte. The first fault ends the run.
pub open spec fn run(m: Machine, randoms: Seq<u8>) -> Result<Machine, Fault>
    decreases randoms.len(),
{
    if randoms.len() == 0 {
        Ok(m)
    } else {
        match run(m, randoms.drop_last()) {
            Ok(reached) => cycle(reached, randoms.last()),
            Err(fault) => Err(fault),
        }
    }
}

impl State {
    /// Reads and decodes the instruction at the program counter. Changes nothing.
    pub fn fetch(&self) -> (result: Result<Instruction, Fault>)
        ensures
            self@.can_fetch() ==> result is Ok && result->Ok_0.wf() && result->Ok_0.nibbles@
                == self@.fetch(),
            !self@.can_fetch() ==> result == Err::<Instruction, Fault>(Fault::MemoryOutOfBounds),
    {
        let at: usize = self.pc as usize;
        if at + 1 >= 4096 {
            return Err(Fault::MemoryOutOfBounds);
        }
        Ok(Instruction::decode(self.memory[at], self.memory[at + 1]))
    }

    /// Counts one cycle and, every tenth cycle, winds both timers down.
    pub fn tick(&mut self)
        requires
            old(self).wf(),
        ensures
            final(self).wf(),
            final(self)@ == old(self)@.tick(),
    {
        self.cycles += 1;
        if self.cycles % 10 == 0 {
            self.cycles = 0;
            if self.delay_timer > 0 {
                self.delay_timer -= 1;
            }
            if self.sound_timer > 0 {
                self.sound_timer -= 1;
            }
        }
        proof {
            self@.lemma_agrees(old(self)@.tick());
        }
    }

    /// One cycle with `random` as the byte that a random-number instruction
    /// draws: fetch, advance the program counter, count the cycle, execute.
    /// On a fault the state is left as it was before the cycle.
    pub fn update_with(&mut self, random: u8) -> (result: Result<(), Fault>)
        requires
            old(self).wf(),
        ensures
            final(self).wf(),
            carried_out(cycle(old(self)@, random), old(self)@, result, final(self)@),
    {
        let instruction = match self.fetch() {
            Ok(instruction) => instruction,
            Err(fault) => {
                return Err(fault);
            },
        };
        let pc: u16 = self.pc;
        let cycles: u8 = self.cycles;
        let delay_timer: u8 = self.delay_timer;
        let sound_timer: u8 = self.sound_timer;
        self.pc += 2;
        self.tick();
        proof {
            self@.lemma_agrees(old(self)@.advance());
        }
        match instruction.execute(self, random) {
            Ok(()) => Ok(()),
            Err(fault) => {
                self.pc = pc;
                self.cycles = cycles;
                self.delay_timer = delay_timer;
                self.sound_timer = sound_timer;
                proof {
                    self@.lemma_agrees(old(self)@);
                }
                Err(fault)
            },
        }
    }

    /// One cycle. Where the instruction at the program counter is the
    /// random-number instruction, its byte is drawn from the random source:
    /// whatever byte came, the state is what `cycle` gives for it.
    pub fn update(&mut self) -> (result: Result<(), Fault>)
        requires
            old(self).wf(),
        ensures
            final(self).wf(),
            exists|random: u8|
                carried_out(
                    #[trigger] cycle(old(self)@, random),
                    old(self)@,
                    result,
                    final(self)@,
                ),
    {
        let random: u8 = match self.fetch() {
            Ok(instruction) => if instruction.nibbles[0] == 0xC {
                random_byte()
            } else {
                0
            },
            Err(_) => 0,
        };
        self.update_with(random)
    }
}

/// What the driver of the cycles does after a cycle.
#[derive(Clone, Copy, Debug, PartialEq, Eq, Structural)]
pub enum Pace {
    /// The budget is spent: go on at once.
    Proceed,
    /// Sleep for this many nanoseconds, then go on.
    Sleep(u64),
}

/// The time that one cycle is given.
#[derive(Clone, Copy, Debug, PartialEq, Eq, Structural)]
pub struct Pacing {
    /// Nanoseconds from the start of one cycle to the start of the next.
    pub cycle_nanos: u64,
}

impl Pacing {
    /// What to do when `elapsed_nanos` have passed since the cycle began:
    /// sleep for the rest of the budget, or go on at once if the budget is
    /// overrun. Time lost is not made up for.
    pub fn plan(&self, elapsed_nanos: u64) -> (pace: Pace)
        ensures
            elapsed_nanos > self.cycle_nanos ==> pace == Pace::Proceed,
            elapsed_nanos <= self.cycle_nanos ==> pace == Pace::Sleep(
                (self.cycle_nanos - elapsed_nanos) as u64,
            ),
    {
        if elapsed_nanos > self.cycle_nanos {
            Pace::Proceed
        } else {
            Pace::Sleep(self.cycle_nanos - elapsed_nanos)
        }
    }
}

} // verus!

//! What holds of the machine on every input: laws proved of the transition
//! function that the executable functions are verified against.

use crate::engine::{first_held, step, wrap16};
use crate::instruction::{addr12, imm8, nibbles_of, nibbles_valid};
use crate::state::{Fault, Machine};
use crate::timing::{cycle, run};
use vstd::prelude::*;

verus! {

/// Add with carry. The flag register ends as 1 if the sum of the two
/// registers is 256 or more, else as 0; the first register ends as the sum
/// modulo 256, unless it is the flag register itself, which the flag is
/// written to last. Nothing else changes.
pub proof fn law_add_sets_sum_and_carry(m: Machine, n: Seq<u8>, random: u8)
    requires
        m.wf(),
        nibbles_valid(n),
        n[0] == 0x8,
        n[3] == 0x4,
    ensures
        step(m, n, random) is Ok,
        ({
            let after = step(m, n, random)->Ok_0;
            let x = n[1] as int;
            let a = m.registers[x];
            let b = m.registers[n[2] as int];
            &&& after.registers[15] == 1 <==> a + b >= 256
            &&& after.registers[15] == 0 <==> a + b < 256
            &&& x != 15 ==> after.registers[x] == (a + b) % 256
            &&& forall|k: int| 0 <= k < 15 && k != x ==> after.registers[k] == m.registers[k]
            &&& after == Machine { registers: after.registers, ..m }
        }),
{
}

/// Subtract with borrow. The flag register ends as 1 if the first register
/// is at least the second, else as 0; the first register ends as the
/// difference modulo 256, unless it is the flag register itself. Nothing
/// else changes.
pub proof fn law_sub_sets_difference_and_no_borrow(m: Machine, n: Seq<u8>, random: u8)
    requires
        m.wf(),
        nibbles_valid(n),
        n[0] == 0x8,
        n[3] == 0x5,
    ensures
        step(m, n, random) is Ok,
        ({
            let after = step(m, n, random)->Ok_0;
            let x = n[1] as int;
            let a = m.registers[x];
            let b = m.registers[n[2] as int];
            &&& after.registers[15] == 1 <==> a >= b
            &&& after.registers[15] == 0 <==> a < b
            &&& x != 15 ==> after.registers[x] == (a - b) % 256
            &&& forall|k: int| 0 <= k < 15 && k != x ==> after.registers[k] == m.registers[k]
            &&& after == Machine { registers: after.registers, ..m }
        }),
{
}

/// After a clear-screen every pixel of the display is off, and nothing but
/// the display has changed.
pub proof fn law_clear_turns_every_pixel_off(m: Machine, random: u8)
    requires
        m.wf(),
    ensures
        step(m, seq![0x0u8, 0x0u8, 0xEu8, 0x0u8], random) is Ok,
        ({
            let after = step(m, seq![0x0u8, 0x0u8, 0xEu8, 0x0u8], random)->Ok_0;
            &&& after.display.len() == 2048
            &&& forall|p: int| 0 <= p < 2048 ==> !after.display[p]
            &&& after == Machine { display: after.display, ..m }
        }),
{
}

/// A jump puts exactly its address in the program counter and changes
/// nothing else, so the next cycle fetches the two bytes at that address.
pub proof fn law_jump_sets_pc(m: Machine, n: Seq<u8>, random: u8)
    requires
        m.wf(),
        nibbles_valid(n),
        n[0] == 0x1,
    ensures
        step(m, n, random) is Ok,
        ({
            let after = step(m, n, random)->Ok_0;
            let target = addr12(n);
            &&& after == Machine { pc: after.pc, ..m }
            &&& after.pc == target
            &&& after.can_fetch() <==> target + 1 < 4096
            &&& after.fetch() == nibbles_of(m.memory[target], m.memory[target + 1])
            &&& forall|next: u8|
                after.can_fetch() ==> #[trigger] cycle(after, next) == step(
                    after.advance(),
                    nibbles_of(m.memory[target], m.memory[target + 1]),
                    next,
                )
        }),
{
}

/// A call and then a return leave the machine as it was before the call: the
/// program counter is back behind the call instruction and the stack is as
/// deep as before. The same program counter comes back from any machine
/// whose stack is the one that the call left.
pub proof fn law_call_then_return_restores_pc(m: Machine, n: Seq<u8>, random: u8, later: Machine)
    requires
        m.wf(),
        nibbles_valid(n),
        n[0] == 0x2,
    ensures
        step(m, n, random) is Ok,
        ({
            let called = step(m, n, random)->Ok_0;
            let ret = seq![0x0u8, 0x0u8, 0xEu8, 0xEu8];
            &&& called.pc == addr12(n)
            &&& step(called, ret, random) == Ok::<Machine, Fault>(m)
            &&& later.stack == called.stack ==> step(later, ret, random) is Ok && step(
                later,
                ret,
                random,
            )->Ok_0.pc == m.pc && step(later, ret, random)->Ok_0.stack == m.stack
        }),
{
    let called = step(m, n, random)->Ok_0;
    let ret = seq![0x0u8, 0x0u8, 0xEu8, 0xEu8];
    assert(called.stack.drop_last() =~= m.stack);
    step(called, ret, random)->Ok_0.lemma_agrees(m);
}

/// Whether the nibbles `n` spell one of the four skip instructions that
/// compare registers.
pub open spec fn is_skip(n: Seq<u8>) -> bool {
    n[0] == 0x3 || n[0] == 0x4 || (n[0] == 0x5 && n[3] == 0) || (n[0] == 0x9 && n[3] == 0)
}

/// The condition on which the skip instruction `n` skips.
pub open spec fn skip_condition(m: Machine, n: Seq<u8>) -> bool {
    let vx = m.registers[n[1] as int];
    let vy = m.registers[n[2] as int];
    if n[0] == 0x3 {
        vx == imm8(n)
    } else if n[0] == 0x4 {
        vx != imm8(n)
    } else if n[0] == 0x5 {
        vx == vy
    } else {
        vx != vy
    }
}

/// A skip instruction changes the program counter and nothing else. It adds
/// 2 to it, in sixteen bits, if its condition holds, and leaves it if not.
pub proof fn law_skip_adds_two_iff_condition(m: Machine, n: Seq<u8>, random: u8)
    requires
        m.wf(),
        nibbles_valid(n),
        is_skip(n),
    ensures
        step(m, n, random) is Ok,
        ({
            let after = step(m, n, random)->Ok_0;
            &&& after == Machine { pc: after.pc, ..m }
            &&& skip_condition(m, n) ==> after.pc == wrap16(m.pc + 2)
            &&& skip_condition(m, n) && m.pc + 2 < 65536 ==> after.pc == m.pc + 2
            &&& !skip_condition(m, n) ==> after.pc == m.pc
        }),
{
}

/// A cycle that fetches a skip instruction never fails. It moves the program
/// counter by 4 if the condition holds and by 2 if not.
pub proof fn law_skip_cycle_moves_pc(m: Machine, random: u8)
    requires
        m.wf(),
        m.can_fetch(),
        is_skip(m.fetch()),
    ensures
        cycle(m, random) is Ok,
        skip_condition(m, m.fetch()) ==> cycle(m, random)->Ok_0.pc == m.pc + 4,
        !skip_condition(m, m.fetch()) ==> cycle(m, random)->Ok_0.pc == m.pc + 2,
{
    assert(skip_condition(m.advance(), m.fetch()) == skip_condition(m, m.fetch()));
}

/// Whether memory holds, at the program counter, a clear-screen and behind
/// it a jump to that jump's own address.
pub open spec fn clears_then_spins(m: Machine) -> bool {
    &&& m.pc + 3 < 4096
    &&& m.memory[m.pc as int] == 0x00
    &&& m.memory[m.pc + 1] == 0xE0
    &&& m.memory[m.pc + 2] / 16 == 0x1
    &&& (m.memory[m.pc + 2] % 16) * 256 + m.memory[m.pc + 3] == m.pc + 2
}

/// A clear-screen followed by a jump to itself: after one cycle or more,
/// however many, the machine has not failed, the program counter stands on
/// the jump, and every pixel is off.
pub proof fn law_clear_then_spin_stays(m: Machine, randoms: Seq<u8>)
    requires
        m.wf(),
        clears_then_spins(m),
        randoms.len() >= 1,
    ensures
        run(m, randoms) is Ok,
        ({
            let reached = run(m, randoms)->Ok_0;
            &&& reached.pc == m.pc + 2
            &&& reached.display.len() == 2048
            &&& forall|p: int| 0 <= p < 2048 ==> !reached.display[p]
            &&& reached.memory == m.memory
        }),
    decreases randoms.len(),
{
    let earlier = randoms.drop_last();
    if earlier.len() == 0 {
        assert(run(m, earlier) == Ok::<Machine, Fault>(m));
        assert(m.fetch() =~= seq![0x0u8, 0x0u8, 0xEu8, 0x0u8]);
    } else {
        law_clear_then_spin_stays(m, earlier);
        let reached = run(m, earlier)->Ok_0;
        assert(nibbles_valid(reached.fetch()));
        assert(addr12(reached.fetch()) == reached.pc);
    }
}

/// Wait for a key. With a key held, the register receives the lowest held
/// key and the program counter stays; with none held, the registers stay
/// and the program counter steps back by 2, in sixteen bits, onto the
/// instruction itself.
pub proof fn law_wait_key_takes_lowest(m: Machine, n: Seq<u8>, random: u8)
    requires
        m.wf(),
        nibbles_valid(n),
        n[0] == 0xF,
        n[2] == 0x0,
        n[3] == 0xA,
    ensures
        step(m, n, random) is Ok,
        ({
            let after = step(m, n, random)->Ok_0;
            let x = n[1] as int;
            &&& forall|key: int|
                0 <= key < 16 && m.keys[key] && (forall|j: int| 0 <= j < key ==> !m.keys[j])
                    ==> after == m.with_register(x, key as u8)
            &&& (forall|j: int| 0 <= j < 16 ==> !m.keys[j]) ==> after == m.with_pc(
                wrap16(m.pc - 2),
            )
        }),
{
    assert forall|key: int|
        0 <= key < 16 && m.keys[key] && (forall|j: int| 0 <= j < key ==> !m.keys[j]) implies step(
        m,
        n,
        random,
    )->Ok_0 == m.with_register(n[1] as int, key as u8) by {
        lemma_first_held_skips(m.keys, 0, key);
    }
    if forall|j: int| 0 <= j < 16 ==> !m.keys[j] {
        lemma_first_held_skips(m.keys, 0, 16);
    }
}

/// With no key held from `from` up to `to`, the search from `from` is the
/// search from `to`.
proof fn lemma_first_held_skips(keys: Seq<bool>, from: int, to: int)
    requires
        0 <= from <= to <= 16,
        forall|j: int| from <= j < to ==> !keys[j],
    ensures
        first_held(keys, from) == first_held(keys, to),
    decreases to - from,
{
    if from < to {
        lemma_first_held_skips(keys, from + 1, to);
    }
}

} // verus!

//! Properties that hold across the operations of the machine.
use vstd::prelude::*;
use crate::display::{blank, collision, drawn};
use crate::instruction::Instruction;
use crate::machine::{execute, ticked, valid_pc, MachineState};

verus! {

/// After clearing, every pixel that a snapshot shows is off.
pub proof fn lemma_clear_blanks_every_pixel(s: MachineState)
    ensures
        (MachineState { display: blank(), ..s }).display.len() == 2048,
        forall|p: int| 0 <= p < 2048 ==> !(#[trigger] (MachineState { display: blank(), ..s }).display[p]),
{
}

/// Draw coordinates wrap around the screen: a sprite placed one screen
/// width further right, or one screen height further down, draws and
/// collides exactly as at the original place.
pub proof fn lemma_draw_wraps(prev: Seq<bool>, x: u8, y: u8, sprite: Seq<u8>)
    requires
        x < 192,
        y < 224,
    ensures
        drawn(prev, (x + 64) % 64, y as int % 32, sprite) == drawn(prev, x as int % 64, y as int % 32, sprite),
        drawn(prev, x as int % 64, (y + 32) % 32, sprite) == drawn(prev, x as int % 64, y as int % 32, sprite),
        collision(prev, (x + 64) % 64, y as int % 32, sprite) == collision(prev, x as int % 64, y as int % 32, sprite),
        collision(prev, x as int % 64, (y + 32) % 32, sprite) == collision(prev, x as int % 64, y as int % 32, sprite),
{
    assert((x + 64) % 64 == x as int % 64);
    assert((y + 32) % 32 == y as int % 32);
}

/// A timer tick takes each timer down by one and never below zero.
pub proof fn lemma_tick_stops_at_zero(s: MachineState)
    ensures
        s.delay == 0 ==> ticked(s).delay == 0,
        s.sound == 0 ==> ticked(s).sound == 0,
        s.delay > 0 ==> ticked(s).delay == s.delay - 1,
        s.sound > 0 ==> ticked(s).sound == s.sound - 1,
        ticked(ticked(s)).delay == if s.delay >= 2 { s.delay - 2 } else { 0 },
{
}

/// A call followed by a return resumes at the instruction after the call,
/// with the stack as it was before the call. Left out: a call from the
/// last instruction slot, whose return address lies past memory.
pub proof fn lemma_call_then_return(s: MachineState, nnn: u16, rnd: u8)
    requires
        s.wf(),
        valid_pc(s.pc + 2),
        execute(s, Instruction::Call { nnn }, rnd) is Ok,
    ensures
        execute(execute(s, Instruction::Call { nnn }, rnd)->Ok_0, Instruction::Return, rnd) is Ok,
        execute(execute(s, Instruction::Call { nnn }, rnd)->Ok_0, Instruction::Return, rnd)->Ok_0.pc == s.pc + 2,
        execute(execute(s, Instruction::Call { nnn }, rnd)->Ok_0, Instruction::Return, rnd)->Ok_0.stack == s.stack,
        execute(execute(s, Instruction::Call { nnn }, rnd)->Ok_0, Instruction::Return, rnd)->Ok_0.stack.len()
            == s.stack.len(),
{
    let s1 = execute(s, Instruction::Call { nnn }, rnd)->Ok_0;
    assert(s1.stack == s.stack.push((s.pc + 2) as u16));
    assert(s1.stack.drop_last() =~= s.stack);
}

} // verus!

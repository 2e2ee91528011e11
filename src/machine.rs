//! The machine: memory, registers, call stack, timers, keypad and
//! framebuffer, and the execution of one instruction on them.
use vstd::prelude::*;
use crate::display::{blank, clear_pixels, collision, draw_sprite, drawn, pixel_index};
use crate::error::Chip8Error;
use crate::instruction::{decode, decoded, lemma_decoded_operands, operands_in_range, Instruction};

verus! {

/// Address at which programs are loaded and execution starts.
pub const PROGRAM_START: u16 = 0x200;

/// Address of the built-in font.
pub const FONT_BASE: u16 = 0x50;

/// Size of the memory in bytes.
pub const MEMORY_SIZE: usize = 4096;

/// Longest program that fits between the program start and the end of memory.
pub const MAX_PROGRAM_LEN: usize = 0xE00;

/// Deepest the call stack can grow.
pub const STACK_CAPACITY: usize = 16;

/// The sixteen hexadecimal digit glyphs, five rows of four pixels each.
pub open spec fn font() -> Seq<u8> {
    seq![
        0xF0u8, 0x90, 0x90, 0x90, 0xF0, 0x20, 0x60, 0x20, 0x20, 0x70,
        0xF0, 0x10, 0xF0, 0x80, 0xF0, 0xF0, 0x10, 0xF0, 0x10, 0xF0,
        0x90, 0x90, 0xF0, 0x10, 0x10, 0xF0, 0x80, 0xF0, 0x10, 0xF0,
        0xF0, 0x80, 0xF0, 0x90, 0xF0, 0xF0, 0x10, 0x20, 0x40, 0x40,
        0xF0, 0x90, 0xF0, 0x90, 0xF0, 0xF0, 0x90, 0xF0, 0x10, 0xF0,
        0xF0, 0x90, 0xF0, 0x90, 0x90, 0xE0, 0x90, 0xE0, 0x90, 0xE0,
        0xF0, 0x80, 0x80, 0x80, 0xF0, 0xE0, 0x90, 0x90, 0x90, 0xE0,
        0xF0, 0x80, 0xF0, 0x80, 0xF0, 0xF0, 0x80, 0xF0, 0x80, 0x80,
    ]
}

fn font_table() -> (r: Vec<u8>)
    ensures
        r@ == font(),
{
    let r: Vec<u8> = vec![
        0xF0u8, 0x90, 0x90, 0x90, 0xF0, 0x20, 0x60, 0x20, 0x20, 0x70,
        0xF0, 0x10, 0xF0, 0x80, 0xF0, 0xF0, 0x10, 0xF0, 0x10, 0xF0,
        0x90, 0x90, 0xF0, 0x10, 0x10, 0xF0, 0x80, 0xF0, 0x10, 0xF0,
        0xF0, 0x80, 0xF0, 0x90, 0xF0, 0xF0, 0x10, 0x20, 0x40, 0x40,
        0xF0, 0x90, 0xF0, 0x90, 0xF0, 0xF0, 0x90, 0xF0, 0x10, 0xF0,
        0xF0, 0x90, 0xF0, 0x90, 0x90, 0xE0, 0x90, 0xE0, 0x90, 0xE0,
        0xF0, 0x80, 0x80, 0x80, 0xF0, 0xE0, 0x90, 0x90, 0x90, 0xE0,
        0xF0, 0x80, 0xF0, 0x80, 0xF0, 0xF0, 0x80, 0xF0, 0x80, 0x80,
    ];
    assert(r@ =~= font());
    r
}

/// The whole state of a machine, as mathematical values.
pub struct MachineState {
    pub memory: Seq<u8>,
    pub v: Seq<u8>,
    pub i: u16,
    pub pc: u16,
    pub stack: Seq<u16>,
    pub delay: u8,
    pub sound: u8,
    pub display: Seq<bool>,
    pub keys: Seq<bool>,
    /// Set while a wait-for-key instruction is polling for a key.
    pub waiting: bool,
}

/// Whether `a` can hold the program counter: inside the program area, on an
/// instruction boundary, with room for a whole instruction.
pub open spec fn valid_pc(a: int) -> bool {
    0x200 <= a <= 0xFFE && a % 2 == 0
}

impl MachineState {
    /// The invariant of every reachable state.
    pub open spec fn wf(self) -> bool {
        &&& self.memory.len() == 4096
        &&& self.v.len() == 16
        &&& self.stack.len() <= 16
        &&& self.display.len() == 2048
        &&& self.keys.len() == 16
        &&& valid_pc(self.pc as int)
        &&& self.memory.subrange(0x50, 0xA0) == font()
    }
}

/// Memory of a machine just built around `program`.
pub open spec fn initial_memory(program: Seq<u8>) -> Seq<u8> {
    Seq::new(
        4096,
        |a: int|
            if 0x50 <= a < 0xA0 {
                font()[a - 0x50]
            } else if 0x200 <= a < 0x200 + program.len() {
                program[a - 0x200]
            } else {
                0u8
            },
    )
}

/// A machine just built around `program`.
pub open spec fn initial_state(program: Seq<u8>) -> MachineState {
    MachineState {
        memory: initial_memory(program),
        v: Seq::new(16, |r: int| 0u8),
        i: 0,
        pc: 0x200,
        stack: Seq::empty(),
        delay: 0,
        sound: 0,
        display: blank(),
        keys: Seq::new(16, |k: int| false),
        waiting: false,
    }
}

/// Lowest key, from `k` on, that is pressed.
pub open spec fn first_key_from(keys: Seq<bool>, k: int) -> Option<u8>
    decreases 16 - k,
{
    if k >= 16 || k < 0 {
        None
    } else if keys[k] {
        Some(k as u8)
    } else {
        first_key_from(keys, k + 1)
    }
}

/// Lowest key that is pressed, if any.
pub open spec fn first_key(keys: Seq<bool>) -> Option<u8> {
    first_key_from(keys, 0)
}

/// One timer decrement, stopping at zero.
pub open spec fn ticked(s: MachineState) -> MachineState {
    MachineState {
        delay: if s.delay > 0 { (s.delay - 1) as u8 } else { 0 },
        sound: if s.sound > 0 { (s.sound - 1) as u8 } else { 0 },
        ..s
    }
}

/// Moves the program counter to `t`, or fails where `t` is no valid program counter.
pub open spec fn advance(s: MachineState, t: int) -> Result<MachineState, Chip8Error> {
    if valid_pc(t) {
        Ok(MachineState { pc: t as u16, ..s })
    } else {
        Err(Chip8Error::MemoryAccess { address: t as usize })
    }
}

/// Register `x`.
pub open spec fn reg(s: MachineState, x: u8) -> u8 {
    s.v[x as int]
}

/// `s` with register `x` set to `val`.
pub open spec fn set_reg(s: MachineState, x: u8, val: u8) -> MachineState {
    MachineState { v: s.v.update(x as int, val), ..s }
}

/// `s` with register `x` set to `val`, then VF set to 1 if `flag` holds and 0 if not.
pub open spec fn set_with_flag(s: MachineState, x: u8, val: u8, flag: bool) -> MachineState {
    MachineState { v: s.v.update(x as int, val).update(15, if flag { 1u8 } else { 0u8 }), ..s }
}

/// Whether key `k` exists and is held down.
pub open spec fn key_down(s: MachineState, k: u8) -> bool {
    k < 16 && s.keys[k as int]
}

/// Whether reading `len` bytes from `start` runs past the end of memory.
pub open spec fn read_fault(start: int, len: int) -> bool {
    len > 0 && start + len > 4096
}

/// Whether writing `len` bytes from `start` touches the reserved area below
/// the program start or runs past the end of memory.
pub open spec fn write_fault(start: int, len: int) -> bool {
    start < 0x200 || read_fault(start, len)
}

/// The first address outside the allowed range of an access that starts at `start`.
pub open spec fn fault_address(start: int) -> usize {
    if start < 0x200 || start >= 4096 { start as usize } else { 4096 }
}

/// The `n` bytes of memory from `start`.
pub open spec fn bytes_at(memory: Seq<u8>, start: int, n: int) -> Seq<u8> {
    Seq::new(n as nat, |k: int| memory[start + k])
}

/// The effect of instruction `ins` on `s`, with `rnd` as the random byte.
pub open spec fn execute(s: MachineState, ins: Instruction, rnd: u8) -> Result<MachineState, Chip8Error> {
    let next = s.pc + 2;
    match ins {
        Instruction::Clear => advance(MachineState { display: blank(), ..s }, next),
        Instruction::Return => if s.stack.len() == 0 {
            Err(Chip8Error::StackUnderflow { depth: 0 })
        } else {
            advance(MachineState { stack: s.stack.drop_last(), ..s }, s.stack.last() as int)
        },
        Instruction::Jump { nnn } => advance(s, nnn as int),
        Instruction::Call { nnn } => if s.stack.len() >= 16 {
            Err(Chip8Error::StackOverflow { depth: s.stack.len() as usize })
        } else {
            advance(MachineState { stack: s.stack.push(next as u16), ..s }, nnn as int)
        },
        Instruction::SkipEqByte { x, nn } => advance(s, if reg(s, x) == nn { next + 2 } else { next }),
        Instruction::SkipNeByte { x, nn } => advance(s, if reg(s, x) != nn { next + 2 } else { next }),
        Instruction::SkipEqReg { x, y } => advance(s, if reg(s, x) == reg(s, y) { next + 2 } else { next }),
        Instruction::SkipNeReg { x, y } => advance(s, if reg(s, x) != reg(s, y) { next + 2 } else { next }),
        Instruction::LoadByte { x, nn } => advance(set_reg(s, x, nn), next),
        Instruction::AddByte { x, nn } => advance(set_reg(s, x, ((reg(s, x) + nn) % 256) as u8), next),
        Instruction::Move { x, y } => advance(set_reg(s, x, reg(s, y)), next),
        Instruction::Or { x, y } => advance(set_reg(s, x, reg(s, x) | reg(s, y)), next),
        Instruction::And { x, y } => advance(set_reg(s, x, reg(s, x) & reg(s, y)), next),
        Instruction::Xor { x, y } => advance(set_reg(s, x, reg(s, x) ^ reg(s, y)), next),
        Instruction::Add { x, y } => advance(
            set_with_flag(s, x, ((reg(s, x) + reg(s, y)) % 256) as u8, reg(s, x) + reg(s, y) > 255),
            next,
        ),
        Instruction::Sub { x, y } => advance(
            set_with_flag(s, x, ((reg(s, x) + 256 - reg(s, y)) % 256) as u8, reg(s, x) >= reg(s, y)),
            next,
        ),
        Instruction::ShiftRight { x, y } => advance(
            set_with_flag(s, x, reg(s, y) >> 1u8, reg(s, y) & 1u8 == 1u8),
            next,
        ),
        Instruction::SubReverse { x, y } => advance(
            set_with_flag(s, x, ((reg(s, y) + 256 - reg(s, x)) % 256) as u8, reg(s, y) >= reg(s, x)),
            next,
        ),
        Instruction::ShiftLeft { x, y } => advance(
            set_with_flag(s, x, reg(s, y) << 1u8, reg(s, y) >> 7u8 == 1u8),
            next,
        ),
        Instruction::LoadIndex { nnn } => advance(MachineState { i: nnn, ..s }, next),
        Instruction::JumpOffset { nnn } => advance(s, nnn + reg(s, 0)),
        Instruction::Random { x, nn } => advance(set_reg(s, x, rnd & nn), next),
        Instruction::Draw { x, y, n } => if read_fault(s.i as int, n as int) {
            Err(Chip8Error::MemoryAccess { address: fault_address(s.i as int) })
        } else {
            let sprite = bytes_at(s.memory, s.i as int, n as int);
            let x0 = reg(s, x) as int % 64;
            let y0 = reg(s, y) as int % 32;
            let hit = collision(s.display, x0, y0, sprite);
            advance(
                MachineState {
                    display: drawn(s.display, x0, y0, sprite),
                    v: s.v.update(15, if hit { 1u8 } else { 0u8 }),
                    ..s
                },
                next,
            )
        },
        Instruction::SkipKeyPressed { x } => advance(s, if key_down(s, reg(s, x)) { next + 2 } else { next }),
        Instruction::SkipKeyReleased { x } => advance(s, if !key_down(s, reg(s, x)) { next + 2 } else { next }),
        Instruction::ReadDelay { x } => advance(set_reg(s, x, s.delay), next),
        Instruction::WaitKey { x } => match first_key(s.keys) {
            Some(k) => advance(MachineState { waiting: false, ..set_reg(s, x, k) }, next),
            None => Ok(MachineState { waiting: true, ..s }),
        },
        Instruction::SetDelay { x } => advance(MachineState { delay: reg(s, x), ..s }, next),
        Instruction::SetSound { x } => advance(MachineState { sound: reg(s, x), ..s }, next),
        Instruction::AddIndex { x } => advance(MachineState { i: ((s.i + reg(s, x)) % 65536) as u16, ..s }, next),
        Instruction::FontChar { x } => advance(MachineState { i: (0x50 + reg(s, x) * 5) as u16, ..s }, next),
        Instruction::StoreBcd { x } => if write_fault(s.i as int, 3) {
            Err(Chip8Error::MemoryAccess { address: fault_address(s.i as int) })
        } else {
            let val = reg(s, x);
            let i = s.i as int;
            advance(
                MachineState {
                    memory: s.memory.update(i, val / 100).update(i + 1, (val / 10) % 10).update(i + 2, val % 10),
                    ..s
                },
                next,
            )
        },
        Instruction::StoreRegs { x } => if write_fault(s.i as int, x + 1) {
            Err(Chip8Error::MemoryAccess { address: fault_address(s.i as int) })
        } else {
            let i = s.i as int;
            advance(
                MachineState {
                    memory: Seq::new(
                        s.memory.len(),
                        |a: int| if i <= a <= i + x { s.v[a - i] } else { s.memory[a] },
                    ),
                    ..s
                },
                next,
            )
        },
        Instruction::LoadRegs { x } => if read_fault(s.i as int, x + 1) {
            Err(Chip8Error::MemoryAccess { address: fault_address(s.i as int) })
        } else {
            let i = s.i as int;
            advance(
                MachineState {
                    v: Seq::new(s.v.len(), |r: int| if r <= x { s.memory[i + r] } else { s.v[r] }),
                    ..s
                },
                next,
            )
        },
    }
}

/// The instruction word at the program counter, big-endian.
pub open spec fn fetched(s: MachineState) -> u16 {
    (s.memory[s.pc as int] as int * 256 + s.memory[s.pc as int + 1] as int) as u16
}

/// The effect of one step on `s`, with `rnd` as the random byte.
pub open spec fn step_result(s: MachineState, rnd: u8) -> Result<MachineState, Chip8Error> {
    match decoded(fetched(s)) {
        Some(ins) => execute(s, ins, rnd),
        None => Err(Chip8Error::UnknownOpcode { address: s.pc, opcode: fetched(s) }),
    }
}

/// Whether a call that returned `r` and left `after` behind, from `before`,
/// agrees with the expected outcome: the new state on success, or the
/// error with the state untouched.
pub open spec fn agrees(
    before: MachineState,
    after: MachineState,
    r: Result<(), Chip8Error>,
    expected: Result<MachineState, Chip8Error>,
) -> bool {
    match expected {
        Ok(s2) => r is Ok && after == s2,
        Err(e) => r == Err::<(), Chip8Error>(e) && after == before,
    }
}

fn goto(t: usize) -> (r: Result<u16, Chip8Error>)
    ensures
        valid_pc(t as int) ==> r == Ok::<u16, Chip8Error>(t as u16),
        !valid_pc(t as int) ==> r == Err::<u16, Chip8Error>(Chip8Error::MemoryAccess { address: t }),
{
    if 0x200 <= t && t <= 0xFFE && t % 2 == 0 {
        Ok(t as u16)
    } else {
        Err(Chip8Error::MemoryAccess { address: t })
    }
}

fn fault_at(start: usize) -> (r: Chip8Error)
    ensures
        r == (Chip8Error::MemoryAccess { address: fault_address(start as int) }),
{
    if start < 0x200 || start >= 4096 {
        Chip8Error::MemoryAccess { address: start }
    } else {
        Chip8Error::MemoryAccess { address: 4096 }
    }
}

/// Every instruction whose register operands exist keeps the state well formed.
#[verifier::rlimit(50)]
pub proof fn lemma_execute_keeps_wf(s: MachineState, ins: Instruction, rnd: u8)
    requires
        s.wf(),
        operands_in_range(ins),
    ensures
        execute(s, ins, rnd) is Ok ==> execute(s, ins, rnd)->Ok_0.wf(),
{
    match ins {
        Instruction::StoreBcd { x } => {
            if let Ok(s2) = execute(s, ins, rnd) {
                assert(s2.memory.subrange(0x50, 0xA0) =~= s.memory.subrange(0x50, 0xA0));
            }
        },
        Instruction::StoreRegs { x } => {
            if let Ok(s2) = execute(s, ins, rnd) {
                assert(s2.memory.subrange(0x50, 0xA0) =~= s.memory.subrange(0x50, 0xA0));
            }
        },
        _ => {},
    }
}

/// Every reachable state is well formed: in particular the program counter
/// stays on an instruction boundary inside the program area, the stack
/// within its capacity, and the font as loaded.
pub proof fn lemma_step_keeps_wf(s: MachineState, rnd: u8)
    requires
        s.wf(),
    ensures
        step_result(s, rnd) is Ok ==> step_result(s, rnd)->Ok_0.wf(),
        step_result(s, rnd) is Ok ==> valid_pc(step_result(s, rnd)->Ok_0.pc as int),
{
    lemma_decoded_operands(fetched(s));
    if let Some(ins) = decoded(fetched(s)) {
        lemma_execute_keeps_wf(s, ins, rnd);
    }
}

/// A CHIP-8 machine. Its state is given by its view, a `MachineState`.
pub struct Chip8 {
    memory: Vec<u8>,
    v: Vec<u8>,
    i: u16,
    pc: u16,
    stack: Vec<u16>,
    delay: u8,
    sound: u8,
    display: Vec<bool>,
    keys: Vec<bool>,
    waiting: bool,
}

impl View for Chip8 {
    type V = MachineState;

    closed spec fn view(&self) -> MachineState {
        MachineState {
            memory: self.memory@,
            v: self.v@,
            i: self.i,
            pc: self.pc,
            stack: self.stack@,
            delay: self.delay,
            sound: self.sound,
            display: self.display@,
            keys: self.keys@,
            waiting: self.waiting,
        }
    }
}

impl Chip8 {
    /// Builds a machine with the font at its fixed address and `program` at
    /// the program start. A program longer than the space there is refused.
    pub fn new(program: &[u8]) -> (r: Result<Chip8, Chip8Error>)
        ensures
            program@.len() > 0xE00 <==> (r is Err),
            r matches Err(e) ==> e == (Chip8Error::RomTooLarge { len: program@.len() as usize }),
            r matches Ok(m) ==> m@ == initial_state(program@) && m@.wf(),
    {
        if program.len() > MAX_PROGRAM_LEN {
            return Err(Chip8Error::RomTooLarge { len: program.len() });
        }
        let mut memory: Vec<u8> = vec![0u8; MEMORY_SIZE];
        let glyphs = font_table();
        let mut k: usize = 0;
        while k < 80
            invariant
                k <= 80,
                glyphs@ == font(),
                memory@.len() == 4096,
                forall|a: int|
                    0 <= a < 4096 ==> #[trigger] memory@[a] == (if 0x50 <= a < 0x50 + k {
                        font()[a - 0x50]
                    } else {
                        0u8
                    }),
            decreases 80 - k,
        {
            memory.set(0x50 + k, glyphs[k]);
            k = k + 1;
        }
        let mut k: usize = 0;
        while k < program.len()
            invariant
                program@.len() <= 0xE00,
                k <= program@.len(),
                memory@.len() == 4096,
                forall|a: int|
                    0 <= a < 4096 ==> #[trigger] memory@[a] == (if 0x50 <= a < 0xA0 {
                        font()[a - 0x50]
                    } else if 0x200 <= a < 0x200 + k {
                        program@[a - 0x200]
                    } else {
                        0u8
                    }),
            decreases program@.len() - k,
        {
            memory.set(0x200 + k, program[k]);
            k = k + 1;
        }
        assert(memory@ =~= initial_memory(program@));
        let m = Chip8 {
            memory,
            v: vec![0u8; 16],
            i: 0,
            pc: PROGRAM_START,
            stack: Vec::new(),
            delay: 0,
            sound: 0,
            display: vec![false; 2048],
            keys: vec![false; 16],
            waiting: false,
        };
        assert(m@.v =~= initial_state(program@).v);
        assert(m@.display =~= blank());
        assert(m@.keys =~= initial_state(program@).keys);
        assert(m@.stack =~= Seq::<u16>::empty());
        assert(m@.memory.subrange(0x50, 0xA0) =~= font());
        Ok(m)
    }

    /// One 60 Hz timer event: each timer that is above zero goes down by one.
    pub fn tick(&mut self)
        requires
            old(self)@.wf(),
        ensures
            final(self)@ == ticked(old(self)@),
            final(self)@.wf(),
    {
        if self.delay > 0 {
            self.delay = self.delay - 1;
        }
        if self.sound > 0 {
            self.sound = self.sound - 1;
        }
    }

    /// Records whether key `index` is held down.
    pub fn set_key(&mut self, index: u8, pressed: bool)
        requires
            old(self)@.wf(),
            index < 16,
        ensures
            final(self)@ == (MachineState { keys: old(self)@.keys.update(index as int, pressed), ..old(self)@ }),
            final(self)@.wf(),
    {
        self.keys.set(index as usize, pressed);
    }

    /// Whether key `index` is held down.
    pub fn is_pressed(&self, index: u8) -> (r: bool)
        requires
            self@.wf(),
            index < 16,
        ensures
            r == self@.keys[index as int],
    {
        self.keys[index as usize]
    }

    /// The lowest key that is held down, if any.
    pub fn any_pressed(&self) -> (r: Option<u8>)
        requires
            self@.wf(),
        ensures
            r == first_key(self@.keys),
    {
        let mut k: u8 = 0;
        while k < 16
            invariant
                k <= 16,
                self@.wf(),
                first_key(self@.keys) == first_key_from(self@.keys, k as int),
            decreases 16 - k,
        {
            if self.keys[k as usize] {
                return Some(k);
            }
            k = k + 1;
        }
        None
    }

    /// Turns every pixel off.
    pub fn clear(&mut self)
        requires
            old(self)@.wf(),
        ensures
            final(self)@ == (MachineState { display: blank(), ..old(self)@ }),
            final(self)@.wf(),
    {
        clear_pixels(&mut self.display);
    }

    /// XOR-draws `sprite` at `(x, y)`, wrapping around the screen edges, and
    /// returns whether a pixel that was on got turned off.
    pub fn draw(&mut self, x: u8, y: u8, sprite: &[u8]) -> (collided: bool)
        requires
            old(self)@.wf(),
            sprite@.len() <= 15,
        ensures
            final(self)@ == (MachineState {
                display: drawn(old(self)@.display, x as int % 64, y as int % 32, sprite@),
                ..old(self)@
            }),
            collided == collision(old(self)@.display, x as int % 64, y as int % 32, sprite@),
            final(self)@.wf(),
    {
        draw_sprite(&mut self.display, x, y, sprite)
    }

    /// Whether the pixel at column `x`, row `y` is on.
    pub fn pixel(&self, x: usize, y: usize) -> (r: bool)
        requires
            self@.wf(),
            x < 64,
            y < 32,
        ensures
            r == self@.display[pixel_index(x as int, y as int)],
    {
        self.display[y * 64 + x]
    }

    /// The program counter.
    pub fn pc(&self) -> (r: u16)
        ensures
            r == self@.pc,
    {
        self.pc
    }

    /// The address register.
    pub fn index(&self) -> (r: u16)
        ensures
            r == self@.i,
    {
        self.i
    }

    /// Register `x`.
    pub fn register(&self, x: u8) -> (r: u8)
        requires
            self@.wf(),
            x < 16,
        ensures
            r == self@.v[x as int],
    {
        self.v[x as usize]
    }

    /// The delay timer.
    pub fn delay_timer(&self) -> (r: u8)
        ensures
            r == self@.delay,
    {
        self.delay
    }

    /// The sound timer.
    pub fn sound_timer(&self) -> (r: u8)
        ensures
            r == self@.sound,
    {
        self.sound
    }

    /// How many return addresses the call stack holds.
    pub fn stack_depth(&self) -> (r: usize)
        ensures
            r == self@.stack.len(),
    {
        self.stack.len()
    }

    /// Whether a wait-for-key instruction is polling for a key.
    pub fn is_waiting(&self) -> (r: bool)
        ensures
            r == self@.waiting,
    {
        self.waiting
    }

    /// The byte at `address`, or `MemoryAccess` past the end of memory.
    pub fn memory_at(&self, address: usize) -> (r: Result<u8, Chip8Error>)
        requires
            self@.wf(),
        ensures
            address < 4096 ==> r == Ok::<u8, Chip8Error>(self@.memory[address as int]),
            address >= 4096 ==> r == Err::<u8, Chip8Error>(Chip8Error::MemoryAccess { address }),
    {
        if address < MEMORY_SIZE {
            Ok(self.memory[address])
        } else {
            Err(Chip8Error::MemoryAccess { address })
        }
    }

    /// A copy of the framebuffer, row by row.
    pub fn snapshot(&self) -> (r: Vec<bool>)
        requires
            self@.wf(),
        ensures
            r@ == self@.display,
    {
        self.display.clone()
    }

    /// Fetches the instruction at the program counter and carries it out,
    /// with `random` as the random byte that `Cxnn` masks. A word that is no
    /// instruction fails with `UnknownOpcode`. On any error the machine is
    /// left as it was.
    pub fn step(&mut self, random: u8) -> (r: Result<(), Chip8Error>)
        requires
            old(self)@.wf(),
        ensures
            agrees(old(self)@, final(self)@, r, step_result(old(self)@, random)),
            final(self)@.wf(),
    {
        let pc = self.pc as usize;
        let op: u16 = self.memory[pc] as u16 * 256 + self.memory[pc + 1] as u16;
        proof {
            lemma_step_keeps_wf(self@, random);
        }
        match decode(op) {
            Some(ins) => self.execute(ins, random),
            None => Err(Chip8Error::UnknownOpcode { address: self.pc, opcode: op }),
        }
    }

    /// Carries out instruction `ins`, with `random` as the random byte that
    /// `Cxnn` masks. On an error the machine is left as it was.
    pub fn execute(&mut self, ins: Instruction, random: u8) -> (r: Result<(), Chip8Error>)
        requires
            old(self)@.wf(),
            operands_in_range(ins),
        ensures
            agrees(old(self)@, final(self)@, r, execute(old(self)@, ins, random)),
    {
        let next: usize = self.pc as usize + 2;
        match ins {
            Instruction::Clear => {
                let t = match goto(next) { Ok(t) => t, Err(e) => return Err(e) };
                clear_pixels(&mut self.display);
                self.pc = t;
            },
            Instruction::Return => {
                let depth = self.stack.len();
                if depth == 0 {
                    return Err(Chip8Error::StackUnderflow { depth: 0 });
                }
                let top = self.stack[depth - 1];
                let t = match goto(top as usize) { Ok(t) => t, Err(e) => return Err(e) };
                self.stack.pop();
                self.pc = t;
            },
            Instruction::Jump { nnn } => {
                let t = match goto(nnn as usize) { Ok(t) => t, Err(e) => return Err(e) };
                self.pc = t;
            },
            Instruction::Call { nnn } => {
                let depth = self.stack.len();
                if depth >= STACK_CAPACITY {
                    return Err(Chip8Error::StackOverflow { depth });
                }
                let t = match goto(nnn as usize) { Ok(t) => t, Err(e) => return Err(e) };
                self.stack.push(next as u16);
                self.pc = t;
            },
            Instruction::SkipEqByte { x, nn } => {
                let skip = self.v[x as usize] == nn;
                let t = match goto(if skip { next + 2 } else { next }) { Ok(t) => t, Err(e) => return Err(e) };
                self.pc = t;
            },
            Instruction::SkipNeByte { x, nn } => {
                let skip = self.v[x as usize] != nn;
                let t = match goto(if skip { next + 2 } else { next }) { Ok(t) => t, Err(e) => return Err(e) };
                self.pc = t;
            },
            Instruction::SkipEqReg { x, y } => {
                let skip = self.v[x as usize] == self.v[y as usize];
                let t = match goto(if skip { next + 2 } else { next }) { Ok(t) => t, Err(e) => return Err(e) };
                self.pc = t;
            },
            Instruction::SkipNeReg { x, y } => {
                let skip = self.v[x as usize] != self.v[y as usize];
                let t = match goto(if skip { next + 2 } else { next }) { Ok(t) => t, Err(e) => return Err(e) };
                self.pc = t;
            },
            Instruction::LoadByte { x, nn } => {
                let t = match goto(next) { Ok(t) => t, Err(e) => return Err(e) };
                self.v.set(x as usize, nn);
                self.pc = t;
            },
            Instruction::AddByte { x, nn } => {
                let t = match goto(next) { Ok(t) => t, Err(e) => return Err(e) };
                let val = ((self.v[x as usize] as u16 + nn as u16) % 256) as u8;
                self.v.set(x as usize, val);
                self.pc = t;
            },
            Instruction::Move { x, y } => {
                let t = match goto(next) { Ok(t) => t, Err(e) => return Err(e) };
                let val = self.v[y as usize];
                self.v.set(x as usize, val);
                self.pc = t;
            },
            Instruction::Or { x, y } => {
                let t = match goto(next) { Ok(t) => t, Err(e) => return Err(e) };
                let val = self.v[x as usize] | self.v[y as usize];
                self.v.set(x as usize, val);
                self.pc = t;
            },
            Instruction::And { x, y } => {
                let t = match goto(next) { Ok(t) => t, Err(e) => return Err(e) };
                let val = self.v[x as usize] & self.v[y as usize];
                self.v.set(x as usize, val);
                self.pc = t;
            },
            Instruction::Xor { x, y } => {
                let t = match goto(next) { Ok(t) => t, Err(e) => return Err(e) };
                let val = self.v[x as usize] ^ self.v[y as usize];
                self.v.set(x as usize, val);
                self.pc = t;
            },
            Instruction::Add { x, y } => {
                let t = match goto(next) { Ok(t) => t, Err(e) => return Err(e) };
                let sum = self.v[x as usize] as u16 + self.v[y as usize] as u16;
                self.v.set(x as usize, (sum % 256) as u8);
                self.v.set(15, if sum > 255 { 1 } else { 0 });
                self.pc = t;
            },
            Instruction::Sub { x, y } => {
                let t = match goto(next) { Ok(t) => t, Err(e) => return Err(e) };
                let vx = self.v[x as usize];
                let vy = self.v[y as usize];
                self.v.set(x as usize, ((vx as u16 + 256 - vy as u16) % 256) as u8);
                self.v.set(15, if vx >= vy { 1 } else { 0 });
                self.pc = t;
            },
            Instruction::ShiftRight { x, y } => {
                let t = match goto(next) { Ok(t) => t, Err(e) => return Err(e) };
                let vy = self.v[y as usize];
                self.v.set(x as usize, vy >> 1u8);
                self.v.set(15, if vy & 1u8 == 1u8 { 1 } else { 0 });
                self.pc = t;
            },
            Instruction::SubReverse { x, y } => {
                let t = match goto(next) { Ok(t) => t, Err(e) => return Err(e) };
                let vx = self.v[x as usize];
                let vy = self.v[y as usize];
                self.v.set(x as usize, ((vy as u16 + 256 - vx as u16) % 256) as u8);
                self.v.set(15, if vy >= vx { 1 } else { 0 });
                self.pc = t;
            },
            Instruction::ShiftLeft { x, y } => {
                let t = match goto(next) { Ok(t) => t, Err(e) => return Err(e) };
                let vy = self.v[y as usize];
                self.v.set(x as usize, vy << 1u8);
                self.v.set(15, if vy >> 7u8 == 1u8 { 1 } else { 0 });
                self.pc = t;
            },
            Instruction::LoadIndex { nnn } => {
                let t = match goto(next) { Ok(t) => t, Err(e) => return Err(e) };
                self.i = nnn;
                self.pc = t;
            },
            Instruction::JumpOffset { nnn } => {
                let target = nnn as usize + self.v[0] as usize;
                let t = match goto(target) { Ok(t) => t, Err(e) => return Err(e) };
                self.pc = t;
            },
            Instruction::Random { x, nn } => {
                let t = match goto(next) { Ok(t) => t, Err(e) => return Err(e) };
                self.v.set(x as usize, random & nn);
                self.pc = t;
            },
            Instruction::Draw { x, y, n } => return self.draw_from_index(x, y, n),
            Instruction::SkipKeyPressed { x } => {
                let k = self.v[x as usize];
                let down = k < 16 && self.keys[k as usize];
                let t = match goto(if down { next + 2 } else { next }) { Ok(t) => t, Err(e) => return Err(e) };
                self.pc = t;
            },
            Instruction::SkipKeyReleased { x } => {
                let k = self.v[x as usize];
                let down = k < 16 && self.keys[k as usize];
                let t = match goto(if !down { next + 2 } else { next }) { Ok(t) => t, Err(e) => return Err(e) };
                self.pc = t;
            },
            Instruction::ReadDelay { x } => {
                let t = match goto(next) { Ok(t) => t, Err(e) => return Err(e) };
                let val = self.delay;
                self.v.set(x as usize, val);
                self.pc = t;
            },
            Instruction::WaitKey { x } => return self.wait_key(x),
            Instruction::SetDelay { x } => {
                let t = match goto(next) { Ok(t) => t, Err(e) => return Err(e) };
                self.delay = self.v[x as usize];
                self.pc = t;
            },
            Instruction::SetSound { x } => {
                let t = match goto(next) { Ok(t) => t, Err(e) => return Err(e) };
                self.sound = self.v[x as usize];
                self.pc = t;
            },
            Instruction::AddIndex { x } => {
                let t = match goto(next) { Ok(t) => t, Err(e) => return Err(e) };
                self.i = ((self.i as u32 + self.v[x as usize] as u32) % 65536) as u16;
                self.pc = t;
            },
            Instruction::FontChar { x } => {
                let t = match goto(next) { Ok(t) => t, Err(e) => return Err(e) };
                self.i = FONT_BASE + self.v[x as usize] as u16 * 5;
                self.pc = t;
            },
            Instruction::StoreBcd { x } => return self.store_bcd(x),
            Instruction::StoreRegs { x } => return self.store_registers(x),
            Instruction::LoadRegs { x } => return self.load_registers(x),
        }
        Ok(())
    }

    /// `Dxyn`: draws `n` bytes from the index register at `(Vx, Vy)`; VF records a collision.
    fn draw_from_index(&mut self, x: u8, y: u8, n: u8) -> (r: Result<(), Chip8Error>)
        requires
            old(self)@.wf(),
            operands_in_range((Instruction::Draw { x, y, n })),
        ensures
            agrees(old(self)@, final(self)@, r, execute(old(self)@, (Instruction::Draw { x, y, n }), 0)),
    {
        let next: usize = self.pc as usize + 2;
        let start = self.i as usize;
        let len = n as usize;
        if len > 0 && start + len > MEMORY_SIZE {
            return Err(fault_at(start));
        }
        let t = match goto(next) { Ok(t) => t, Err(e) => return Err(e) };
        let mut sprite: Vec<u8> = Vec::new();
        let mut k: usize = 0;
        while k < len
            invariant
                len < 16,
                k <= len,
                len == 0 || start + len <= 4096,
                self.memory@.len() == 4096,
                sprite@ == bytes_at(self.memory@, start as int, k as int),
            decreases len - k,
        {
            sprite.push(self.memory[start + k]);
            k = k + 1;
            assert(sprite@ =~= bytes_at(self.memory@, start as int, k as int));
        }
        assert(sprite@ =~= bytes_at(self.memory@, start as int, len as int));
        let vx = self.v[x as usize];
        let vy = self.v[y as usize];
        let hit = draw_sprite(&mut self.display, vx, vy, sprite.as_slice());
        self.v.set(15, if hit { 1 } else { 0 });
        self.pc = t;
        Ok(())
    }

    /// `Fx0A`: takes the lowest pressed key into Vx, or keeps polling.
    fn wait_key(&mut self, x: u8) -> (r: Result<(), Chip8Error>)
        requires
            old(self)@.wf(),
            operands_in_range((Instruction::WaitKey { x })),
        ensures
            agrees(old(self)@, final(self)@, r, execute(old(self)@, (Instruction::WaitKey { x }), 0)),
    {
        let next: usize = self.pc as usize + 2;
        match self.any_pressed() {
            Some(k) => {
                let t = match goto(next) { Ok(t) => t, Err(e) => return Err(e) };
                self.v.set(x as usize, k);
                self.waiting = false;
                self.pc = t;
            },
            None => {
                self.waiting = true;
            },
        }
        Ok(())
    }

    /// `Fx33`: writes the decimal digits of Vx from the index register on.
    fn store_bcd(&mut self, x: u8) -> (r: Result<(), Chip8Error>)
        requires
            old(self)@.wf(),
            operands_in_range((Instruction::StoreBcd { x })),
        ensures
            agrees(old(self)@, final(self)@, r, execute(old(self)@, (Instruction::StoreBcd { x }), 0)),
    {
        let next: usize = self.pc as usize + 2;
        let start = self.i as usize;
        if start < 0x200 || start + 3 > MEMORY_SIZE {
            return Err(fault_at(start));
        }
        let t = match goto(next) { Ok(t) => t, Err(e) => return Err(e) };
        let val = self.v[x as usize];
        self.memory.set(start, val / 100);
        self.memory.set(start + 1, (val / 10) % 10);
        self.memory.set(start + 2, val % 10);
        self.pc = t;
        Ok(())
    }

    /// `Fx55`: writes V0 to Vx from the index register on.
    fn store_registers(&mut self, x: u8) -> (r: Result<(), Chip8Error>)
        requires
            old(self)@.wf(),
            operands_in_range((Instruction::StoreRegs { x })),
        ensures
            agrees(old(self)@, final(self)@, r, execute(old(self)@, (Instruction::StoreRegs { x }), 0)),
    {
        let next: usize = self.pc as usize + 2;
        let start = self.i as usize;
        let len = x as usize + 1;
        if start < 0x200 || start + len > MEMORY_SIZE {
            return Err(fault_at(start));
        }
        let t = match goto(next) { Ok(t) => t, Err(e) => return Err(e) };
        let ghost before = self.memory@;
        let mut k: usize = 0;
        while k < len
            invariant
                len <= 16,
                k <= len,
                start + len <= 4096,
                self.v@.len() == 16,
                self@ == (MachineState { memory: self@.memory, ..old(self)@ }),
                self.memory@.len() == 4096,
                forall|a: int|
                    0 <= a < 4096 ==> #[trigger] self.memory@[a] == (if start <= a < start + k {
                        self.v@[a - start]
                    } else {
                        before[a]
                    }),
            decreases len - k,
        {
            let val = self.v[k];
            self.memory.set(start + k, val);
            k = k + 1;
        }
        self.pc = t;
        assert(self@.memory =~= execute(old(self)@, (Instruction::StoreRegs { x }), 0)->Ok_0.memory);
        Ok(())
    }

    /// `Fx65`: reads V0 to Vx from the index register on.
    fn load_registers(&mut self, x: u8) -> (r: Result<(), Chip8Error>)
        requires
            old(self)@.wf(),
            operands_in_range((Instruction::LoadRegs { x })),
        ensures
            agrees(old(self)@, final(self)@, r, execute(old(self)@, (Instruction::LoadRegs { x }), 0)),
    {
        let next: usize = self.pc as usize + 2;
        let start = self.i as usize;
        let len = x as usize + 1;
        if start + len > MEMORY_SIZE {
            return Err(fault_at(start));
        }
        let t = match goto(next) { Ok(t) => t, Err(e) => return Err(e) };
        let ghost before = self.v@;
        let mut k: usize = 0;
        while k < len
            invariant
                len <= 16,
                k <= len,
                start + len <= 4096,
                self.v@.len() == 16,
                self@ == (MachineState { v: self@.v, ..old(self)@ }),
                self.memory@.len() == 4096,
                forall|r: int|
                    0 <= r < 16 ==> #[trigger] self.v@[r] == (if r < k {
                        self.memory@[start + r]
                    } else {
                        before[r]
                    }),
            decreases len - k,
        {
            let val = self.memory[start + k];
            self.v.set(k, val);
            k = k + 1;
        }
        self.pc = t;
        assert(self@.v =~= execute(old(self)@, (Instruction::LoadRegs { x }), 0)->Ok_0.v);
        Ok(())
    }
}

} // verus!

use vstd::prelude::*;
use rand::Rng;

use crate::display::{collides, drawn, Framebuffer, PIXELS};
use crate::instruction::{decode, decode_spec, nibbles_ok, Instruction};

verus! {

/// Bytes of memory.
pub const RAM_SIZE: usize = 4096;

/// Number of general registers.
pub const REGISTER_COUNT: usize = 16;

/// Number of return addresses the call stack holds.
pub const STACK_SIZE: usize = 16;

/// Number of keys on the keypad.
pub const KEY_COUNT: usize = 16;

/// Address where a program is loaded and execution starts.
pub const PROGRAM_START: usize = 0x200;

/// Register that receives carries, borrows, shifted-out bits and collisions.
pub const FLAG: usize = 0xF;

/// Cycles run in each frame.
pub const INSTRUCTIONS_PER_FRAME: usize = 12;

/// Bytes of each built-in digit glyph.
pub const GLYPH_BYTES: usize = 5;

#[verifier::external_type_specification]
#[verifier::external_body]
pub struct ExThreadRng(rand::rngs::ThreadRng);

/// Relies on rand::rng: a handle to the thread-local random generator. It
/// panics only where the operating system gives no entropy to seed it.
#[verifier::external_body]
fn thread_rng() -> (r: rand::rngs::ThreadRng) {
    rand::rng()
}

/// Relies on rand::Rng::random for u8: a uniformly drawn byte, of which
/// nothing can be promised.
#[verifier::external_body]
fn random_byte(rng: &mut rand::rngs::ThreadRng) -> (r: u8) {
    rng.random::<u8>()
}

/// A fatal runtime fault.
#[derive(Clone, Copy, Debug, PartialEq, Eq, Structural)]
pub enum Fault {
    /// The program counter left memory.
    AddressOutOfBounds,
    /// A call found the stack full, or the stack pointer beyond the stack.
    StackOverflow,
    /// A return found the stack empty.
    StackUnderflow,
    /// A sprite, digit or register transfer reached past the end of memory.
    MemoryOutOfBounds,
    /// A key instruction named a key that the keypad does not have.
    KeyOutOfRange,
}

/// The abstract machine state.
pub struct CpuState {
    pub ram: Seq<u8>,
    pub v: Seq<u8>,
    pub i: usize,
    pub pc: usize,
    pub dt: u8,
    pub st: u8,
    pub sp: usize,
    pub stack: Seq<usize>,
    pub keypad: Seq<bool>,
    pub screen: Seq<bool>,
}

impl CpuState {
    pub open spec fn wf(self) -> bool {
        &&& self.ram.len() == RAM_SIZE
        &&& self.v.len() == REGISTER_COUNT
        &&& self.stack.len() == STACK_SIZE
        &&& self.keypad.len() == KEY_COUNT
        &&& self.screen.len() == PIXELS
        &&& forall|j: int| 0 <= j < STACK_SIZE ==> #[trigger] self.stack[j] < RAM_SIZE
    }

    /// The state with the program counter moved to `pc`.
    pub open spec fn goto(self, pc: int) -> CpuState {
        CpuState { pc: pc as usize, ..self }
    }

    /// The state with register `x` set to `b`, past this instruction.
    pub open spec fn set_reg(self, x: u8, b: int) -> CpuState {
        CpuState { v: self.v.update(x as int, b as u8), pc: (self.pc + 2) as usize, ..self }
    }

    /// The state with the flag set to `f`, then register `x` set to `b`,
    /// past this instruction.
    pub open spec fn set_reg_flag(self, x: u8, b: int, f: bool) -> CpuState {
        CpuState {
            v: self.v.update(FLAG as int, if f { 1u8 } else { 0u8 }).update(x as int, b as u8),
            pc: (self.pc + 2) as usize,
            ..self
        }
    }

    /// Past this instruction, and past the next one too when `cond` holds.
    pub open spec fn skip_if(self, cond: bool) -> CpuState {
        self.goto(self.pc + if cond { 4int } else { 2int })
    }

    /// Whether some key is held.
    pub open spec fn any_key(self) -> bool {
        exists|k: int| 0 <= k < KEY_COUNT && #[trigger] self.keypad[k]
    }

    /// The lowest held key.
    pub open spec fn first_key(self) -> int {
        choose|k: int| 0 <= k < KEY_COUNT && #[trigger] self.keypad[k]
            && forall|j: int| 0 <= j < k ==> !#[trigger] self.keypad[j]
    }
}

/// The decimal digit of `b` that `pos` selects: 0 hundreds, 1 tens, 2 ones.
pub open spec fn bcd_digit(b: u8, pos: int) -> u8 {
    if pos == 0 {
        b / 100
    } else if pos == 1 {
        (b / 10) % 10
    } else {
        b % 10
    }
}

/// The state that executing `ins` leads to from `s`, or the fault it raises;
/// `rnd` is the random byte that `Random` masks.
pub open spec fn next(s: CpuState, ins: Instruction, rnd: u8) -> Result<CpuState, Fault> {
    let adv = s.goto(s.pc + 2);
    match ins {
        Instruction::ClearScreen => Ok(CpuState { screen: Seq::new(PIXELS as nat, |c: int| false), ..adv }),
        Instruction::Return => if s.sp == 0 {
            Err(Fault::StackUnderflow)
        } else if s.sp > STACK_SIZE {
            Err(Fault::StackOverflow)
        } else {
            Ok(CpuState { sp: (s.sp - 1) as usize, ..s.goto(s.stack[s.sp - 1] + 2) })
        },
        Instruction::Jump { nnn } => Ok(s.goto(nnn as int)),
        Instruction::Call { nnn } => if s.sp >= STACK_SIZE {
            Err(Fault::StackOverflow)
        } else {
            Ok(CpuState { stack: s.stack.update(s.sp as int, s.pc), sp: (s.sp + 1) as usize, ..s.goto(nnn as int) })
        },
        Instruction::SkipEqImm { x, kk } => Ok(s.skip_if(s.v[x as int] == kk)),
        Instruction::SkipNeImm { x, kk } => Ok(s.skip_if(s.v[x as int] != kk)),
        Instruction::SkipEqReg { x, y } => Ok(s.skip_if(s.v[x as int] == s.v[y as int])),
        Instruction::SkipNeReg { x, y } => Ok(s.skip_if(s.v[x as int] != s.v[y as int])),
        Instruction::LoadImm { x, kk } => Ok(s.set_reg(x, kk as int)),
        Instruction::AddImm { x, kk } => Ok(s.set_reg(x, (s.v[x as int] + kk) % 256)),
        Instruction::Copy { x, y } => Ok(s.set_reg(x, s.v[y as int] as int)),
        Instruction::Or { x, y } => Ok(s.set_reg(x, (s.v[x as int] | s.v[y as int]) as int)),
        Instruction::And { x, y } => Ok(s.set_reg(x, (s.v[x as int] & s.v[y as int]) as int)),
        Instruction::Xor { x, y } => Ok(s.set_reg(x, (s.v[x as int] ^ s.v[y as int]) as int)),
        Instruction::Add { x, y } => {
            let sum = s.v[x as int] + s.v[y as int];
            Ok(s.set_reg_flag(x, sum % 256, sum > 255))
        },
        Instruction::Sub { x, y } => {
            let a = s.v[x as int] as int;
            let b = s.v[y as int] as int;
            Ok(s.set_reg_flag(x, (a - b) % 256, a >= b))
        },
        Instruction::SubFrom { x, y } => {
            let a = s.v[x as int] as int;
            let b = s.v[y as int] as int;
            Ok(s.set_reg_flag(x, (b - a) % 256, b >= a))
        },
        Instruction::ShiftRight { x } => {
            let v1 = s.v.update(FLAG as int, s.v[x as int] % 2);
            Ok(CpuState { v: v1.update(x as int, v1[x as int] / 2), ..adv })
        },
        Instruction::ShiftLeft { x } => {
            let v1 = s.v.update(FLAG as int, s.v[x as int] / 128);
            Ok(CpuState { v: v1.update(x as int, ((v1[x as int] * 2) % 256) as u8), ..adv })
        },
        Instruction::LoadIndex { nnn } => Ok(CpuState { i: nnn as usize, ..adv }),
        Instruction::JumpOffset { nnn } => Ok(s.goto(nnn + s.v[0])),
        Instruction::Random { x, kk } => Ok(s.set_reg(x, (rnd & kk) as int)),
        Instruction::Draw { x, y, n } => if s.i + n > RAM_SIZE {
            Err(Fault::MemoryOutOfBounds)
        } else {
            let sprite = s.ram.subrange(s.i as int, s.i + n);
            let (vx, vy) = (s.v[x as int] as int, s.v[y as int] as int);
            Ok(CpuState {
                screen: drawn(s.screen, sprite, vx, vy),
                v: s.v.update(FLAG as int, if collides(s.screen, sprite, vx, vy) { 1u8 } else { 0u8 }),
                ..adv
            })
        },
        Instruction::SkipKey { x } => if s.v[x as int] >= KEY_COUNT {
            Err(Fault::KeyOutOfRange)
        } else {
            Ok(s.skip_if(s.keypad[s.v[x as int] as int]))
        },
        Instruction::SkipNoKey { x } => if s.v[x as int] >= KEY_COUNT {
            Err(Fault::KeyOutOfRange)
        } else {
            Ok(s.skip_if(!s.keypad[s.v[x as int] as int]))
        },
        Instruction::ReadDelay { x } => Ok(s.set_reg(x, s.dt as int)),
        Instruction::WaitKey { x } => if s.any_key() {
            Ok(s.set_reg(x, s.first_key()))
        } else {
            Ok(s)
        },
        Instruction::SetDelay { x } => Ok(CpuState { dt: s.v[x as int], ..adv }),
        Instruction::SetSound { x } => Ok(CpuState { st: s.v[x as int], ..adv }),
        Instruction::AddIndex { x } => {
            let sum = s.i + s.v[x as int];
            Ok(CpuState { i: (if sum > usize::MAX { sum - (usize::MAX + 1) } else { sum }) as usize, ..adv })
        },
        Instruction::Glyph { x } => Ok(CpuState { i: (s.v[x as int] * GLYPH_BYTES) as usize, ..adv }),
        Instruction::Bcd { x } => if s.i + 3 > RAM_SIZE {
            Err(Fault::MemoryOutOfBounds)
        } else {
            Ok(CpuState {
                ram: Seq::new(RAM_SIZE as nat, |a: int|
                    if s.i <= a < s.i + 3 { bcd_digit(s.v[x as int], a - s.i) } else { s.ram[a] }),
                ..adv
            })
        },
        Instruction::StoreRegs { x } => if s.i + x + 1 > RAM_SIZE {
            Err(Fault::MemoryOutOfBounds)
        } else {
            Ok(CpuState {
                ram: Seq::new(RAM_SIZE as nat, |a: int|
                    if s.i <= a <= s.i + x { s.v[a - s.i] } else { s.ram[a] }),
                ..adv
            })
        },
        Instruction::LoadRegs { x } => if s.i + x + 1 > RAM_SIZE {
            Err(Fault::MemoryOutOfBounds)
        } else {
            Ok(CpuState {
                v: Seq::new(REGISTER_COUNT as nat, |j: int| if j <= x { s.ram[s.i + j] } else { s.v[j] }),
                ..adv
            })
        },
        Instruction::Unknown => Ok(adv),
    }
}

/// The instruction word at the program counter, high byte first.
pub open spec fn fetch_spec(s: CpuState) -> u16 {
    (s.ram[s.pc as int] * 256 + s.ram[s.pc + 1]) as u16
}

/// One fetch-decode-execute cycle from `s`.
#[verifier::opaque]
pub open spec fn cycle(s: CpuState, rnd: u8) -> Result<CpuState, Fault> {
    if s.pc + 1 >= RAM_SIZE {
        Err(Fault::AddressOutOfBounds)
    } else {
        next(s, decode_spec(fetch_spec(s)), rnd)
    }
}

/// What a call that ends in `res` has done: on success the state became `t`,
/// on a fault the state stayed `before`.
pub open spec fn outcome(before: CpuState, res: Result<CpuState, Fault>, after: CpuState, r: Result<(), Fault>) -> bool {
    match res {
        Ok(t) => r == Ok::<(), Fault>(()) && after == t,
        Err(e) => r == Err::<(), Fault>(e) && after == before,
    }
}

/// Memory `ram` with the image `rom` copied in from the program start, as
/// much of it as fits.
pub open spec fn loaded(ram: Seq<u8>, rom: Seq<u8>) -> Seq<u8> {
    Seq::new(ram.len(), |a: int|
        if PROGRAM_START <= a < PROGRAM_START + rom.len() && a < RAM_SIZE { rom[a - PROGRAM_START] } else { ram[a] })
}

/// Once a run of cycles faults, running more cycles reports the same fault.
proof fn lemma_fault_sticks(s: CpuState, rnds: Seq<u8>, n: int)
    requires
        0 <= n <= rnds.len(),
        run_cycles(s, rnds.subrange(0, n)) is Err,
    ensures
        run_cycles(s, rnds) == run_cycles(s, rnds.subrange(0, n)),
    decreases rnds.len() - n,
{
    if n < rnds.len() {
        assert(rnds.subrange(0, n + 1).drop_last() =~= rnds.subrange(0, n));
        lemma_fault_sticks(s, rnds, n + 1);
    } else {
        assert(rnds.subrange(0, n) =~= rnds);
    }
}

/// The built-in glyphs of the hex digits 0 to F, five rows each.
pub open spec fn glyphs() -> Seq<u8> {
    seq![
        0xF0u8, 0x90, 0x90, 0x90, 0xF0, 0x20, 0x60, 0x20, 0x20, 0x70,
        0xF0, 0x10, 0xF0, 0x80, 0xF0, 0xF0, 0x10, 0xF0, 0x10, 0xF0,
        0x90, 0x90, 0xF0, 0x10, 0x10, 0xF0, 0x80, 0xF0, 0x10, 0xF0,
        0xF0, 0x80, 0xF0, 0x90, 0xF0, 0xF0, 0x10, 0x20, 0x40, 0x40,
        0xF0, 0x90, 0xF0, 0x90, 0xF0, 0xF0, 0x90, 0xF0, 0x10, 0xF0,
        0xF0, 0x90, 0xF0, 0x90, 0x90, 0xE0, 0x90, 0xE0, 0x90, 0xE0,
        0xF0, 0x80, 0x80, 0x80, 0xF0, 0xE0, 0x90, 0x90, 0x90, 0xE0,
        0xF0, 0x80, 0xF0, 0x80, 0xF0, 0xF0, 0x80, 0xF0, 0x80, 0x80
    ]
}

/// The state of a freshly built machine: glyphs at the base of memory, all
/// else zero, and the program counter at the program start.
pub open spec fn initial() -> CpuState {
    CpuState {
        ram: Seq::new(RAM_SIZE as nat, |a: int| if a < glyphs().len() { glyphs()[a] } else { 0u8 }),
        v: Seq::new(REGISTER_COUNT as nat, |j: int| 0u8),
        i: 0,
        pc: PROGRAM_START,
        dt: 0,
        st: 0,
        sp: 0,
        stack: Seq::new(STACK_SIZE as nat, |j: int| 0usize),
        keypad: Seq::new(KEY_COUNT as nat, |j: int| false),
        screen: Seq::new(PIXELS as nat, |c: int| false),
    }
}

/// Runs one cycle per byte of `rnds`, each drawing its random byte from it.
pub open spec fn run_cycles(s: CpuState, rnds: Seq<u8>) -> Result<CpuState, Fault>
    decreases rnds.len(),
{
    if rnds.len() == 0 {
        Ok(s)
    } else {
        match run_cycles(s, rnds.drop_last()) {
            Ok(t) => cycle(t, rnds.last()),
            Err(e) => Err(e),
        }
    }
}

/// A timer after one frame tick: one less, but never below zero.
pub open spec fn tick_down(t: u8) -> u8 {
    if t > 0 { (t - 1) as u8 } else { 0 }
}

/// One frame: take the keypad snapshot `keys`, run a cycle per byte of
/// `rnds`, then count both timers down. Gives the new state and whether
/// the tone sounds.
pub open spec fn frame(s: CpuState, keys: Seq<bool>, rnds: Seq<u8>) -> Result<(CpuState, bool), Fault> {
    match run_cycles(CpuState { keypad: keys, ..s }, rnds) {
        Ok(t) => Ok((CpuState { dt: tick_down(t.dt), st: tick_down(t.st), ..t }, t.st > 0)),
        Err(e) => Err(e),
    }
}

/// The fault that the scheduler's bounds check finds in `s`, if any.
pub open spec fn bounds(s: CpuState) -> Result<(), Fault> {
    if s.pc >= RAM_SIZE {
        Err(Fault::AddressOutOfBounds)
    } else if s.sp > STACK_SIZE {
        Err(Fault::StackOverflow)
    } else {
        Ok(())
    }
}

/// Whether `r` is how the scheduler reports the frame result `res`.
pub open spec fn frame_tick(res: Result<(CpuState, bool), Fault>, r: Tick) -> bool {
    match res {
        Ok((_, sound)) => r == (Tick::Frame { sound }),
        Err(e) => r == Tick::Fault(e),
    }
}

/// What one pass of the scheduler decided.
#[derive(Clone, Copy, Debug, PartialEq, Eq, Structural)]
pub enum Tick {
    /// The window closed or quit was asked: halt.
    Quit,
    /// A fatal fault: halt and report it.
    Fault(Fault),
    /// The frame interval has not elapsed: nothing ran.
    Wait,
    /// A frame ran; the tone should sound when `sound` holds, else pause.
    Frame { sound: bool },
}

/// The interpreter: memory, registers, timers, call stack, keypad snapshot
/// and screen, with the random generator that `Random` draws from.
pub struct CPU {
    ram: Vec<u8>,
    v: Vec<u8>,
    i: usize,
    pc: usize,
    dt: u8,
    st: u8,
    sp: usize,
    stack: Vec<usize>,
    keypad: Vec<bool>,
    screen: Framebuffer,
    rng: rand::rngs::ThreadRng,
}

impl View for CPU {
    type V = CpuState;

    closed spec fn view(&self) -> CpuState {
        CpuState {
            ram: self.ram@,
            v: self.v@,
            i: self.i,
            pc: self.pc,
            dt: self.dt,
            st: self.st,
            sp: self.sp,
            stack: self.stack@,
            keypad: self.keypad@,
            screen: self.screen@,
        }
    }
}

impl CPU {
    pub open spec fn wf(&self) -> bool {
        self@.wf()
    }

    /// A machine in its initial state.
    pub fn new() -> (r: CPU)
        ensures
            r.wf(),
            r@ == initial(),
    {
        let font: [u8; 80] = [
            0xF0, 0x90, 0x90, 0x90, 0xF0, 0x20, 0x60, 0x20, 0x20, 0x70,
            0xF0, 0x10, 0xF0, 0x80, 0xF0, 0xF0, 0x10, 0xF0, 0x10, 0xF0,
            0x90, 0x90, 0xF0, 0x10, 0x10, 0xF0, 0x80, 0xF0, 0x10, 0xF0,
            0xF0, 0x80, 0xF0, 0x90, 0xF0, 0xF0, 0x10, 0x20, 0x40, 0x40,
            0xF0, 0x90, 0xF0, 0x90, 0xF0, 0xF0, 0x90, 0xF0, 0x10, 0xF0,
            0xF0, 0x90, 0xF0, 0x90, 0x90, 0xE0, 0x90, 0xE0, 0x90, 0xE0,
            0xF0, 0x80, 0x80, 0x80, 0xF0, 0xE0, 0x90, 0x90, 0x90, 0xE0,
            0xF0, 0x80, 0xF0, 0x80, 0xF0, 0xF0, 0x80, 0xF0, 0x80, 0x80,
        ];
        assert(font@ =~= glyphs());
        let mut ram: Vec<u8> = vec![0u8; RAM_SIZE];
        let mut a: usize = 0;
        while a < 80
            invariant
                a <= 80,
                font@ == glyphs(),
                ram@.len() == RAM_SIZE,
                forall|b: int| 0 <= b < RAM_SIZE ==> #[trigger] ram@[b] == (if b < a { glyphs()[b] } else { 0u8 }),
            decreases 80 - a,
        {
            ram.set(a, font[a]);
            a = a + 1;
        }
        let cpu = CPU {
            ram,
            v: vec![0u8; REGISTER_COUNT],
            i: 0,
            pc: PROGRAM_START,
            dt: 0,
            st: 0,
            sp: 0,
            stack: vec![0usize; STACK_SIZE],
            keypad: vec![false; KEY_COUNT],
            screen: Framebuffer::new(),
            rng: thread_rng(),
        };
        assert(cpu@.ram =~= initial().ram);
        assert(cpu@.v =~= initial().v);
        assert(cpu@.stack =~= initial().stack);
        assert(cpu@.keypad =~= initial().keypad);
        assert(cpu@.screen =~= initial().screen);
        cpu
    }

    /// The instruction word at the program counter, high byte first.
    pub fn fetch_opcode(&self) -> (r: u16)
        requires
            self.wf(),
            self@.pc + 1 < RAM_SIZE,
        ensures
            r == fetch_spec(self@),
    {
        self.ram[self.pc] as u16 * 256 + self.ram[self.pc + 1] as u16
    }

    /// One fetch-decode-execute cycle; `rnd` is the byte that `Random` masks.
    pub fn cycle_with(&mut self, rnd: u8) -> (r: Result<(), Fault>)
        requires
            old(self).wf(),
        ensures
            final(self).wf(),
            outcome(old(self)@, cycle(old(self)@, rnd), final(self)@, r),
    {
        proof {
            reveal(cycle);
        }
        if self.pc >= RAM_SIZE - 1 {
            return Err(Fault::AddressOutOfBounds);
        }
        let op = self.fetch_opcode();
        let ins = decode(op);
        self.execute(ins, rnd)
    }

    /// One fetch-decode-execute cycle, with a fresh random byte.
    pub fn emulate_cycle(&mut self) -> (r: Result<(), Fault>)
        requires
            old(self).wf(),
        ensures
            final(self).wf(),
            exists|rnd: u8| outcome(old(self)@, cycle(old(self)@, rnd), final(self)@, r),
    {
        let rnd = random_byte(&mut self.rng);
        self.cycle_with(rnd)
    }

    /// Counts both timers down by one, stopping at zero; returns whether the
    /// tone sounds, which it does while the sound timer was non-zero.
    pub fn update_timers(&mut self) -> (sound: bool)
        requires
            old(self).wf(),
        ensures
            final(self).wf(),
            final(self)@ == (CpuState { dt: tick_down(old(self)@.dt), st: tick_down(old(self)@.st), ..old(self)@ }),
            sound == (old(self)@.st > 0),
    {
        if self.dt > 0 {
            self.dt = self.dt - 1;
        }
        if self.st > 0 {
            self.st = self.st - 1;
            true
        } else {
            false
        }
    }

    /// Replaces the keypad snapshot.
    pub fn set_keys(&mut self, keys: [bool; 16])
        requires
            old(self).wf(),
        ensures
            final(self).wf(),
            final(self)@ == (CpuState { keypad: keys@, ..old(self)@ }),
    {
        let mut k: usize = 0;
        while k < KEY_COUNT
            invariant
                self.wf(),
                k <= KEY_COUNT,
                keys@.len() == KEY_COUNT,
                self@ == (CpuState { keypad: self@.keypad, ..old(self)@ }),
                forall|j: int| 0 <= j < k ==> #[trigger] self@.keypad[j] == keys@[j],
            decreases KEY_COUNT - k,
        {
            self.keypad.set(k, keys[k]);
            k = k + 1;
        }
        assert(self@.keypad =~= keys@);
    }

    /// Runs one frame with the keypad snapshot `keys`, drawing the random
    /// byte of its `i`-th cycle from `rnds[i]`; returns whether the tone sounds.
    pub fn frame_with(&mut self, keys: [bool; 16], rnds: &Vec<u8>) -> (r: Result<bool, Fault>)
        requires
            old(self).wf(),
        ensures
            final(self).wf(),
            match frame(old(self)@, keys@, rnds@) {
                Ok((t, sound)) => r == Ok::<bool, Fault>(sound) && final(self)@ == t,
                Err(e) => r == Err::<bool, Fault>(e),
            },
    {
        self.set_keys(keys);
        let ghost s = self@;
        let mut j: usize = 0;
        while j < rnds.len()
            invariant
                self.wf(),
                j <= rnds@.len(),
                s == (CpuState { keypad: keys@, ..old(self)@ }),
                run_cycles(s, rnds@.subrange(0, j as int)) == Ok::<CpuState, Fault>(self@),
            decreases rnds@.len() - j,
        {
            let ghost before = self@;
            let res = self.cycle_with(rnds[j]);
            assert(rnds@.subrange(0, j + 1).drop_last() =~= rnds@.subrange(0, j as int));
            assert(rnds@.subrange(0, j + 1).last() == rnds@[j as int]);
            match res {
                Ok(()) => {},
                Err(e) => {
                    proof {
                        assert(rnds@.subrange(0, j + 1).last() == rnds@[j as int]);
                        assert(run_cycles(s, rnds@.subrange(0, j + 1)) == Err::<CpuState, Fault>(e));
                        lemma_fault_sticks(s, rnds@, j + 1);
                        assert(rnds@.subrange(0, rnds@.len() as int) =~= rnds@);
                    }
                    return Err(e);
                },
            }
            j = j + 1;
        }
        assert(rnds@.subrange(0, rnds@.len() as int) =~= rnds@);
        Ok(self.update_timers())
    }

    /// The scheduler's bounds check: the program counter inside memory, the
    /// stack pointer inside the stack.
    pub fn check_bounds(&self) -> (r: Result<(), Fault>)
        requires
            self.wf(),
        ensures
            r == bounds(self@),
    {
        if self.pc >= RAM_SIZE {
            Err(Fault::AddressOutOfBounds)
        } else if self.sp > STACK_SIZE {
            Err(Fault::StackOverflow)
        } else {
            Ok(())
        }
    }

    /// One pass of the scheduler. `open` and `quit` tell whether the window is
    /// open and quit is asked, `due` whether a frame interval has elapsed, and
    /// `keys` is the keypad snapshot for the frame.
    pub fn tick(&mut self, open: bool, quit: bool, due: bool, keys: [bool; 16]) -> (r: Tick)
        requires
            old(self).wf(),
        ensures
            final(self).wf(),
            !open || quit ==> r == Tick::Quit && final(self)@ == old(self)@,
            open && !quit && bounds(old(self)@) is Err ==> r == Tick::Fault(bounds(old(self)@)->Err_0)
                && final(self)@ == old(self)@,
            open && !quit && bounds(old(self)@) is Ok && !due ==> r == Tick::Wait && final(self)@ == old(self)@,
            open && !quit && bounds(old(self)@) is Ok && due ==> exists|rnds: Seq<u8>|
                rnds.len() == INSTRUCTIONS_PER_FRAME && #[trigger] frame_tick(frame(old(self)@, keys@, rnds), r)
                && (frame(old(self)@, keys@, rnds) matches Ok((t, _)) ==> final(self)@ == t),
    {
        if !open || quit {
            return Tick::Quit;
        }
        match self.check_bounds() {
            Err(e) => return Tick::Fault(e),
            Ok(()) => {},
        }
        if !due {
            return Tick::Wait;
        }
        let mut rnds: Vec<u8> = Vec::new();
        let mut j: usize = 0;
        while j < INSTRUCTIONS_PER_FRAME
            invariant
                self.wf(),
                self@ == old(self)@,
                j <= INSTRUCTIONS_PER_FRAME,
                rnds@.len() == j,
            decreases INSTRUCTIONS_PER_FRAME - j,
        {
            rnds.push(random_byte(&mut self.rng));
            j = j + 1;
        }
        let r = match self.frame_with(keys, &rnds) {
            Ok(sound) => Tick::Frame { sound },
            Err(e) => Tick::Fault(e),
        };
        assert(frame_tick(frame(old(self)@, keys@, rnds@), r));
        r
    }

    /// Copies a program image into memory from the program start on; bytes
    /// that do not fit are dropped.
    pub fn load_rom(&mut self, rom: &Vec<u8>)
        requires
            old(self).wf(),
        ensures
            final(self).wf(),
            final(self)@ == (CpuState { ram: loaded(old(self)@.ram, rom@), ..old(self)@ }),
    {
        let mut k: usize = 0;
        while k < rom.len() && k < RAM_SIZE - PROGRAM_START
            invariant
                self.wf(),
                k <= RAM_SIZE - PROGRAM_START,
                k <= rom@.len(),
                self@ == (CpuState { ram: self@.ram, ..old(self)@ }),
                forall|a: int| 0 <= a < RAM_SIZE ==> #[trigger] self@.ram[a]
                    == (if PROGRAM_START <= a < PROGRAM_START + k { rom@[a - PROGRAM_START] } else { old(self)@.ram[a] }),
            decreases rom@.len() - k,
        {
            self.ram.set(PROGRAM_START + k, rom[k]);
            k = k + 1;
        }
        assert(self@.ram =~= loaded(old(self)@.ram, rom@));
    }

    /// Register `x`.
    pub fn register(&self, x: usize) -> (r: u8)
        requires
            self.wf(),
            x < REGISTER_COUNT,
        ensures
            r == self@.v[x as int],
    {
        self.v[x]
    }

    /// The byte at address `a`.
    pub fn memory(&self, a: usize) -> (r: u8)
        requires
            self.wf(),
            a < RAM_SIZE,
        ensures
            r == self@.ram[a as int],
    {
        self.ram[a]
    }

    /// The program counter.
    pub fn pc(&self) -> (r: usize)
        ensures
            r == self@.pc,
    {
        self.pc
    }

    /// Moves the program counter.
    pub fn set_pc(&mut self, pc: usize)
        requires
            old(self).wf(),
        ensures
            final(self).wf(),
            final(self)@ == old(self)@.goto(pc as int),
    {
        self.pc = pc;
    }

    /// The stack pointer: the number of return addresses held.
    pub fn sp(&self) -> (r: usize)
        ensures
            r == self@.sp,
    {
        self.sp
    }

    /// Moves the stack pointer.
    pub fn set_sp(&mut self, sp: usize)
        requires
            old(self).wf(),
        ensures
            final(self).wf(),
            final(self)@ == (CpuState { sp, ..old(self)@ }),
    {
        self.sp = sp;
    }

    /// The index register.
    pub fn index(&self) -> (r: usize)
        ensures
            r == self@.i,
    {
        self.i
    }

    /// The delay timer.
    pub fn delay_timer(&self) -> (r: u8)
        ensures
            r == self@.dt,
    {
        self.dt
    }

    /// The sound timer.
    pub fn sound_timer(&self) -> (r: u8)
        ensures
            r == self@.st,
    {
        self.st
    }

    /// The screen.
    pub fn screen(&self) -> (r: &Framebuffer)
        ensures
            r@ == self@.screen,
    {
        &self.screen
    }

    /// Executes one decoded instruction; `rnd` is the byte that `Random` masks.
    pub fn execute(&mut self, ins: Instruction, rnd: u8) -> (r: Result<(), Fault>)
        requires
            old(self).wf(),
            old(self)@.pc < RAM_SIZE,
            nibbles_ok(ins),
        ensures
            final(self).wf(),
            outcome(old(self)@, next(old(self)@, ins, rnd), final(self)@, r),
    {
        match ins {
            Instruction::ClearScreen => {
                self.screen.clear_screen();
                self.pc = self.pc + 2;
                assert(self@.screen =~= Seq::new(PIXELS as nat, |c: int| false));
            },
            Instruction::Return => {
                if self.sp == 0 {
                    return Err(Fault::StackUnderflow);
                } else if self.sp > STACK_SIZE {
                    return Err(Fault::StackOverflow);
                }
                self.sp = self.sp - 1;
                self.pc = self.stack[self.sp] + 2;
            },
            Instruction::Jump { nnn } => {
                self.pc = nnn as usize;
            },
            Instruction::Call { nnn } => {
                if self.sp >= STACK_SIZE {
                    return Err(Fault::StackOverflow);
                }
                self.stack.set(self.sp, self.pc);
                self.sp = self.sp + 1;
                self.pc = nnn as usize;
            },
            Instruction::SkipEqImm { x, kk } => {
                let c = self.v[x as usize] == kk;
                self.skip_if(c);
            },
            Instruction::SkipNeImm { x, kk } => {
                let c = self.v[x as usize] != kk;
                self.skip_if(c);
            },
            Instruction::SkipEqReg { x, y } => {
                let c = self.v[x as usize] == self.v[y as usize];
                self.skip_if(c);
            },
            Instruction::SkipNeReg { x, y } => {
                let c = self.v[x as usize] != self.v[y as usize];
                self.skip_if(c);
            },
            Instruction::LoadImm { x, kk } => {
                self.set_reg(x, kk);
            },
            Instruction::AddImm { x, kk } => {
                let b = ((self.v[x as usize] as u16 + kk as u16) % 256) as u8;
                self.set_reg(x, b);
            },
            Instruction::Copy { x, y } => {
                let b = self.v[y as usize];
                self.set_reg(x, b);
            },
            Instruction::Or { x, y } => {
                let b = self.v[x as usize] | self.v[y as usize];
                self.set_reg(x, b);
            },
            Instruction::And { x, y } => {
                let b = self.v[x as usize] & self.v[y as usize];
                self.set_reg(x, b);
            },
            Instruction::Xor { x, y } => {
                let b = self.v[x as usize] ^ self.v[y as usize];
                self.set_reg(x, b);
            },
            Instruction::Add { x, y } => {
                let sum = self.v[x as usize] as u16 + self.v[y as usize] as u16;
                self.set_reg_flag(x, (sum % 256) as u8, sum > 255);
            },
            Instruction::Sub { x, y } => {
                let (a, b) = (self.v[x as usize], self.v[y as usize]);
                self.set_reg_flag(x, Self::sub_wrapping(a, b), a >= b);
            },
            Instruction::SubFrom { x, y } => {
                let (a, b) = (self.v[x as usize], self.v[y as usize]);
                self.set_reg_flag(x, Self::sub_wrapping(b, a), b >= a);
            },
            Instruction::ShiftRight { x } => {
                let bit = self.v[x as usize] % 2;
                self.v.set(FLAG, bit);
                let b = self.v[x as usize] / 2;
                self.set_reg(x, b);
            },
            Instruction::ShiftLeft { x } => {
                let bit = self.v[x as usize] / 128;
                self.v.set(FLAG, bit);
                let b = ((self.v[x as usize] as u16 * 2) % 256) as u8;
                self.set_reg(x, b);
            },
            Instruction::LoadIndex { nnn } => {
                self.i = nnn as usize;
                self.pc = self.pc + 2;
            },
            Instruction::JumpOffset { nnn } => {
                self.pc = nnn as usize + self.v[0] as usize;
            },
            Instruction::Random { x, kk } => {
                self.set_reg(x, rnd & kk);
            },
            Instruction::Draw { x, y, n } => {
                return self.op_dxyn(x, y, n);
            },
            Instruction::SkipKey { x } => {
                let k = self.v[x as usize] as usize;
                if k >= KEY_COUNT {
                    return Err(Fault::KeyOutOfRange);
                }
                let c = self.keypad[k];
                self.skip_if(c);
            },
            Instruction::SkipNoKey { x } => {
                let k = self.v[x as usize] as usize;
                if k >= KEY_COUNT {
                    return Err(Fault::KeyOutOfRange);
                }
                let c = !self.keypad[k];
                self.skip_if(c);
            },
            Instruction::ReadDelay { x } => {
                let b = self.dt;
                self.set_reg(x, b);
            },
            Instruction::WaitKey { x } => {
                self.op_fx0a(x);
            },
            Instruction::SetDelay { x } => {
                self.dt = self.v[x as usize];
                self.pc = self.pc + 2;
            },
            Instruction::SetSound { x } => {
                self.st = self.v[x as usize];
                self.pc = self.pc + 2;
            },
            Instruction::AddIndex { x } => {
                let b = self.v[x as usize] as usize;
                self.i = if self.i > usize::MAX - b { b - (usize::MAX - self.i) - 1 } else { self.i + b };
                self.pc = self.pc + 2;
            },
            Instruction::Glyph { x } => {
                self.i = self.v[x as usize] as usize * GLYPH_BYTES;
                self.pc = self.pc + 2;
            },
            Instruction::Bcd { x } => {
                return self.op_fx33(x);
            },
            Instruction::StoreRegs { x } => {
                return self.op_fx55(x);
            },
            Instruction::LoadRegs { x } => {
                return self.op_fx65(x);
            },
            Instruction::Unknown => {
                self.pc = self.pc + 2;
            },
        }
        Ok(())
    }

    /// `a - b` modulo 256.
    fn sub_wrapping(a: u8, b: u8) -> (r: u8)
        ensures
            r as int == (a - b) % 256,
    {
        if a >= b { a - b } else { (256u16 + a as u16 - b as u16) as u8 }
    }

    fn skip_if(&mut self, cond: bool)
        requires
            old(self).wf(),
            old(self)@.pc < RAM_SIZE,
        ensures
            final(self).wf(),
            final(self)@ == old(self)@.skip_if(cond),
    {
        self.pc = if cond { self.pc + 4 } else { self.pc + 2 };
    }

    fn set_reg(&mut self, x: u8, b: u8)
        requires
            old(self).wf(),
            old(self)@.pc < RAM_SIZE,
            x < REGISTER_COUNT,
        ensures
            final(self).wf(),
            final(self)@ == old(self)@.set_reg(x, b as int),
    {
        self.v.set(x as usize, b);
        self.pc = self.pc + 2;
    }

    fn set_reg_flag(&mut self, x: u8, b: u8, f: bool)
        requires
            old(self).wf(),
            old(self)@.pc < RAM_SIZE,
            x < REGISTER_COUNT,
        ensures
            final(self).wf(),
            final(self)@ == old(self)@.set_reg_flag(x, b as int, f),
    {
        self.v.set(FLAG, if f { 1 } else { 0 });
        self.v.set(x as usize, b);
        self.pc = self.pc + 2;
    }

    /// Draws the `n`-byte sprite at the index register at `(Vx, Vy)`, setting
    /// the flag register to the collision result.
    fn op_dxyn(&mut self, x: u8, y: u8, n: u8) -> (r: Result<(), Fault>)
        requires
            old(self).wf(),
            old(self)@.pc < RAM_SIZE,
            x < 16,
            y < 16,
            n < 16,
        ensures
            final(self).wf(),
            outcome(old(self)@, next(old(self)@, Instruction::Draw { x, y, n }, 0), final(self)@, r),
    {
        if self.i > RAM_SIZE - n as usize {
            return Err(Fault::MemoryOutOfBounds);
        }
        let mut sprite: Vec<u8> = Vec::new();
        let mut k: usize = 0;
        while k < n as usize
            invariant
                self.wf(),
                k <= n,
                self.i + n <= RAM_SIZE,
                sprite@ == self@.ram.subrange(self.i as int, self.i + k),
            decreases n - k,
        {
            sprite.push(self.ram[self.i + k]);
            k = k + 1;
        }
        let vf = self.screen.draw(&sprite, self.v[x as usize], self.v[y as usize]);
        self.v.set(FLAG, vf);
        self.pc = self.pc + 2;
        Ok(())
    }

    /// Stores the lowest held key in `Vx` and moves on; with no key held the
    /// program counter stays, so that the instruction runs again.
    fn op_fx0a(&mut self, x: u8)
        requires
            old(self).wf(),
            old(self)@.pc < RAM_SIZE,
            x < 16,
        ensures
            final(self).wf(),
            next(old(self)@, Instruction::WaitKey { x }, 0) == Ok::<CpuState, Fault>(final(self)@),
    {
        let ghost s = self@;
        let mut k: usize = 0;
        while k < KEY_COUNT && !self.keypad[k]
            invariant
                self.wf(),
                self@ == s,
                k <= KEY_COUNT,
                forall|j: int| 0 <= j < k ==> !#[trigger] self@.keypad[j],
            decreases KEY_COUNT - k,
        {
            k = k + 1;
        }
        if k < KEY_COUNT {
            proof {
                assert(s.keypad[k as int] && forall|j: int| 0 <= j < k ==> !#[trigger] s.keypad[j]);
                let f = s.first_key();
                assert(0 <= f < KEY_COUNT && s.keypad[f] && forall|j: int| 0 <= j < f ==> !#[trigger] s.keypad[j]);
                if f < k {
                    assert(!s.keypad[f]);
                }
                if f > k {
                    assert(!s.keypad[k as int]);
                }
            }
            self.set_reg(x, k as u8);
        }
    }

    /// Writes the hundreds, tens and ones digits of `Vx` from the index register on.
    fn op_fx33(&mut self, x: u8) -> (r: Result<(), Fault>)
        requires
            old(self).wf(),
            old(self)@.pc < RAM_SIZE,
            x < 16,
        ensures
            final(self).wf(),
            outcome(old(self)@, next(old(self)@, Instruction::Bcd { x }, 0), final(self)@, r),
    {
        if self.i > RAM_SIZE - 3 {
            return Err(Fault::MemoryOutOfBounds);
        }
        let ghost s = self@;
        let b = self.v[x as usize];
        let i = self.i;
        self.ram.set(i, b / 100);
        self.ram.set(i + 1, (b / 10) % 10);
        self.ram.set(i + 2, b % 10);
        self.pc = self.pc + 2;
        assert(self@.ram =~= Seq::new(RAM_SIZE as nat, |a: int|
            if s.i <= a < s.i + 3 { bcd_digit(s.v[x as int], a - s.i) } else { s.ram[a] }));
        Ok(())
    }

    /// Copies registers 0 to `x` into memory from the index register on.
    fn op_fx55(&mut self, x: u8) -> (r: Result<(), Fault>)
        requires
            old(self).wf(),
            old(self)@.pc < RAM_SIZE,
            x < 16,
        ensures
            final(self).wf(),
            outcome(old(self)@, next(old(self)@, Instruction::StoreRegs { x }, 0), final(self)@, r),
    {
        if self.i > RAM_SIZE - 1 - x as usize {
            return Err(Fault::MemoryOutOfBounds);
        }
        let ghost s = self@;
        let mut j: usize = 0;
        while j <= x as usize
            invariant
                self.wf(),
                j <= x + 1,
                x < 16,
                self@ == (CpuState { ram: self@.ram, ..s }),
                s.i + x + 1 <= RAM_SIZE,
                forall|a: int| 0 <= a < RAM_SIZE ==> #[trigger] self@.ram[a]
                    == (if s.i <= a < s.i + j { s.v[a - s.i] } else { s.ram[a] }),
            decreases x + 1 - j,
        {
            let b = self.v[j];
            self.ram.set(self.i + j, b);
            j = j + 1;
        }
        self.pc = self.pc + 2;
        assert(self@.ram =~= Seq::new(RAM_SIZE as nat, |a: int|
            if s.i <= a <= s.i + x { s.v[a - s.i] } else { s.ram[a] }));
        Ok(())
    }

    /// Fills registers 0 to `x` from memory at the index register on.
    fn op_fx65(&mut self, x: u8) -> (r: Result<(), Fault>)
        requires
            old(self).wf(),
            old(self)@.pc < RAM_SIZE,
            x < 16,
        ensures
            final(self).wf(),
            outcome(old(self)@, next(old(self)@, Instruction::LoadRegs { x }, 0), final(self)@, r),
    {
        if self.i > RAM_SIZE - 1 - x as usize {
            return Err(Fault::MemoryOutOfBounds);
        }
        let ghost s = self@;
        let mut j: usize = 0;
        while j <= x as usize
            invariant
                self.wf(),
                j <= x + 1,
                x < 16,
                self@ == (CpuState { v: self@.v, ..s }),
                s.i + x + 1 <= RAM_SIZE,
                forall|k: int| 0 <= k < REGISTER_COUNT ==> #[trigger] self@.v[k]
                    == (if k < j { s.ram[s.i + k] } else { s.v[k] }),
            decreases x + 1 - j,
        {
            let b = self.ram[self.i + j];
            self.v.set(j, b);
            j = j + 1;
        }
        self.pc = self.pc + 2;
        assert(self@.v =~= Seq::new(REGISTER_COUNT as nat, |k: int|
            if k <= x { s.ram[s.i + k] } else { s.v[k] }));
        Ok(())
    }
}

} // verus!

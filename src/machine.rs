use vstd::prelude::*;
use crate::cpu::{Cpu, FLAG, PROGRAM_START, add_wrap, sub_wrap, flag_of, with_flag};
use crate::stack::{Stack, StackError, STACK_DEPTH};
use crate::timer::{Timer, TICK_UNITS, count_down, ticks_in};
use crate::opcode::{Opcode, Instruction};
use crate::keyboard::{HostKey, spec_logical_key, logical_key};
use crate::display::{PIXELS, draw, spec_drawn, spec_collides, sprite_bit};

verus! {

/// Size of the address space in bytes.
pub const MEMORY_SIZE: usize = 4096;

/// Number of bytes in the font table: sixteen digits of five rows each.
pub const FONT_SIZE: usize = 80;

/// A failure of loading a program.
#[derive(Clone, Copy, Debug, PartialEq, Eq, Structural)]
pub enum LoadError {
    /// The program does not fit between the program start and the end of memory.
    RomTooLarge,
}

/// What one instruction cycle did, when it did not fail.
#[derive(Clone, Copy, Debug, PartialEq, Eq, Structural)]
pub enum Outcome {
    /// The instruction was carried out.
    Executed,
    /// The word matched no instruction; only the program counter moved.
    Unrecognized(u16),
}

/// The whole machine state as mathematical values.
pub struct Machine {
    pub vx: Seq<u8>,
    pub pc: u16,
    pub i: u16,
    pub ram: Seq<u8>,
    pub display: Seq<bool>,
    pub stack: Seq<u16>,
    pub delay: u8,
    pub sound: u8,
    pub pending: u64,
}

/// The font table: the digits 0 to F, five rows each.
pub open spec fn spec_font() -> Seq<u8> {
    seq![
        0xF0u8, 0x90, 0x90, 0x90, 0xF0, 0x20, 0x60, 0x20, 0x20, 0x70,
        0xF0, 0x10, 0xF0, 0x80, 0xF0, 0xF0, 0x10, 0xF0, 0x10, 0xF0,
        0x90, 0x90, 0xF0, 0x10, 0x10, 0xF0, 0x80, 0xF0, 0x10, 0xF0,
        0xF0, 0x80, 0xF0, 0x90, 0xF0, 0xF0, 0x10, 0x20, 0x40, 0x40,
        0xF0, 0x90, 0xF0, 0x90, 0xF0, 0xF0, 0x90, 0xF0, 0x10, 0xF0,
        0xF0, 0x90, 0xF0, 0x90, 0x90, 0xE0, 0x90, 0xE0, 0x90, 0xE0,
        0xF0, 0x80, 0x80, 0x80, 0xF0, 0xE0, 0x90, 0x90, 0x90, 0xE0,
        0xF0, 0x80, 0xF0, 0x80, 0xF0, 0xF0, 0x80, 0xF0, 0x80, 0x80
    ]
}

/// An address moved on by `k`, wrapping at the end of memory.
pub open spec fn wrap_addr(a: int, k: int) -> int {
    (a + k) % 4096
}

/// The program counter moved past one instruction.
pub open spec fn next_pc(pc: u16) -> u16 {
    wrap_addr(pc as int, 2) as u16
}

/// Whether logical key `k` is reported down; a code outside the keypad never is.
pub open spec fn key_down(keys: Seq<bool>, k: u8) -> bool {
    k < 16 && keys[k as int]
}

/// The lowest logical key at or above `k` that is down, if any.
pub open spec fn first_down(keys: Seq<bool>, k: int) -> Option<u8>
    decreases 16 - k,
{
    if k >= 16 || k < 0 {
        None
    } else if keys[k] {
        Some(k as u8)
    } else {
        first_down(keys, k + 1)
    }
}

/// The machine with the next instruction skipped when `c` holds.
pub open spec fn skip_if(m: Machine, c: bool) -> Machine {
    if c { Machine { pc: next_pc(m.pc), ..m } } else { m }
}

/// How far address `a` lies past address `i`, wrapping at the end of memory.
pub open spec fn addr_offset(a: int, i: int) -> int {
    (a - i + 4096) % 4096
}

/// Memory after writing `vx[0..=x]` from address `i` on.
pub open spec fn spec_store_regs(ram: Seq<u8>, vx: Seq<u8>, i: u16, x: u8) -> Seq<u8> {
    Seq::new(ram.len(), |a: int| {
        let k = addr_offset(a, i as int);
        if k <= x as int { vx[k] } else { ram[a] }
    })
}

/// Registers after reading `vx[0..=x]` from address `i` on.
pub open spec fn spec_load_regs(ram: Seq<u8>, vx: Seq<u8>, i: u16, x: u8) -> Seq<u8> {
    Seq::new(vx.len(), |k: int| if k <= x as int { ram[wrap_addr(i as int, k)] } else { vx[k] })
}

/// Memory after storing the hundreds, tens and units of `v` at `i`, `i+1`, `i+2`.
pub open spec fn spec_store_bcd(ram: Seq<u8>, i: u16, v: u8) -> Seq<u8> {
    ram.update(i as int, v / 100).update(wrap_addr(i as int, 1), (v / 10) % 10).update(
        wrap_addr(i as int, 2),
        v % 10,
    )
}

/// The stack failure that `ins` meets in state `m`, if any.
pub open spec fn spec_fault(m: Machine, ins: Instruction) -> Option<StackError> {
    match ins {
        Instruction::Return => if m.stack.len() == 0 { Some(StackError::Underflow) } else { None },
        Instruction::Call { .. } => if m.stack.len() >= STACK_DEPTH { Some(StackError::Overflow) } else { None },
        _ => None,
    }
}

/// What a cycle that meets no fault reports for `ins`.
pub open spec fn spec_outcome(ins: Instruction) -> Outcome {
    match ins {
        Instruction::Unknown { word } => Outcome::Unrecognized(word),
        _ => Outcome::Executed,
    }
}

/// The effect of `ins` on `m`, whose program counter already points past it.
/// `keys` tells which logical keys are down and `rnd` is the random byte drawn
/// for this cycle. On a stack fault the state is left as it is.
pub open spec fn spec_execute(m: Machine, ins: Instruction, keys: Seq<bool>, rnd: u8) -> Machine {
    let vx = m.vx;
    match ins {
        Instruction::Clear => Machine { display: Seq::new(PIXELS as nat, |p: int| false), ..m },
        Instruction::Return => if m.stack.len() == 0 { m } else {
            Machine { pc: (m.stack.last() % 4096) as u16, stack: m.stack.drop_last(), ..m }
        },
        Instruction::Jump { nnn } => Machine { pc: nnn, ..m },
        Instruction::Call { nnn } => if m.stack.len() >= STACK_DEPTH { m } else {
            Machine { pc: nnn, stack: m.stack.push(m.pc), ..m }
        },
        Instruction::SkipEqImm { x, kk } => skip_if(m, vx[x as int] == kk),
        Instruction::SkipNeImm { x, kk } => skip_if(m, vx[x as int] != kk),
        Instruction::SkipEqReg { x, y } => skip_if(m, vx[x as int] == vx[y as int]),
        Instruction::LoadImm { x, kk } => Machine { vx: vx.update(x as int, kk), ..m },
        Instruction::AddImm { x, kk } => Machine { vx: vx.update(x as int, add_wrap(vx[x as int], kk)), ..m },
        Instruction::Move { x, y } => Machine { vx: vx.update(x as int, vx[y as int]), ..m },
        Instruction::Or { x, y } => Machine { vx: vx.update(x as int, vx[x as int] | vx[y as int]), ..m },
        Instruction::And { x, y } => Machine { vx: vx.update(x as int, vx[x as int] & vx[y as int]), ..m },
        Instruction::Xor { x, y } => Machine { vx: vx.update(x as int, vx[x as int] ^ vx[y as int]), ..m },
        Instruction::AddReg { x, y } => Machine {
            vx: with_flag(vx, x as int, add_wrap(vx[x as int], vx[y as int]),
                flag_of(vx[x as int] + vx[y as int] > 255)),
            ..m
        },
        Instruction::SubReg { x, y } => Machine {
            vx: with_flag(vx, x as int, sub_wrap(vx[x as int], vx[y as int]),
                flag_of(vx[x as int] > vx[y as int])),
            ..m
        },
        Instruction::ShiftRight { x } => Machine {
            vx: with_flag(vx, x as int, (vx[x as int] / 2) as u8, (vx[x as int] % 2) as u8),
            ..m
        },
        Instruction::SubRev { x, y } => Machine {
            vx: with_flag(vx, x as int, sub_wrap(vx[y as int], vx[x as int]),
                flag_of(vx[y as int] > vx[x as int])),
            ..m
        },
        Instruction::ShiftLeft { x } => Machine {
            vx: with_flag(vx, x as int, ((vx[x as int] * 2) % 256) as u8, (vx[x as int] / 128) as u8),
            ..m
        },
        Instruction::SkipNeReg { x, y } => skip_if(m, vx[x as int] != vx[y as int]),
        Instruction::LoadIndex { nnn } => Machine { i: nnn, ..m },
        Instruction::JumpOffset { nnn } => Machine { pc: wrap_addr(nnn as int, vx[0] as int) as u16, ..m },
        Instruction::Random { x, kk } => Machine { vx: vx.update(x as int, rnd & kk), ..m },
        Instruction::Draw { x, y, n } => Machine {
            display: spec_drawn(m.display, m.ram, m.i, vx[x as int], vx[y as int], n),
            vx: vx.update(FLAG as int, flag_of(spec_collides(m.display, m.ram, m.i, vx[x as int], vx[y as int], n))),
            ..m
        },
        Instruction::SkipKeyDown { x } => skip_if(m, key_down(keys, vx[x as int])),
        Instruction::SkipKeyUp { x } => skip_if(m, !key_down(keys, vx[x as int])),
        Instruction::LoadDelay { x } => Machine { vx: vx.update(x as int, m.delay), ..m },
        Instruction::WaitKey { x } => match first_down(keys, 0) {
            Some(k) => Machine { vx: vx.update(x as int, k), ..m },
            None => Machine { pc: wrap_addr(m.pc as int, 4094) as u16, ..m },
        },
        Instruction::SetDelay { x } => Machine { delay: vx[x as int], ..m },
        Instruction::SetSound { x } => Machine { sound: vx[x as int], ..m },
        Instruction::AddIndex { x } => Machine { i: wrap_addr(m.i as int, vx[x as int] as int) as u16, ..m },
        Instruction::FontIndex { x } => Machine { i: ((vx[x as int] % 16) * 5) as u16, ..m },
        Instruction::StoreBcd { x } => Machine { ram: spec_store_bcd(m.ram, m.i, vx[x as int]), ..m },
        Instruction::StoreRegs { x } => Machine { ram: spec_store_regs(m.ram, vx, m.i, x), ..m },
        Instruction::LoadRegs { x } => Machine { vx: spec_load_regs(m.ram, vx, m.i, x), ..m },
        Instruction::Unknown { .. } => m,
    }
}

/// The instruction word at the program counter, split into nibbles.
pub open spec fn spec_fetch(m: Machine) -> Opcode {
    let hb = m.ram[m.pc as int];
    let lb = m.ram[wrap_addr(m.pc as int, 1)];
    Opcode { d1: (hb / 16) as u16, d2: (hb % 16) as u16, d3: (lb / 16) as u16, d4: (lb % 16) as u16 }
}

/// The state after one fetch-decode-execute cycle.
pub open spec fn spec_step(m: Machine, keys: Seq<bool>, rnd: u8) -> Machine {
    spec_execute(Machine { pc: next_pc(m.pc), ..m }, spec_fetch(m).spec_instruction(), keys, rnd)
}

/// What one fetch-decode-execute cycle returns.
pub open spec fn spec_step_result(m: Machine) -> Result<Outcome, StackError> {
    let ins = spec_fetch(m).spec_instruction();
    match spec_fault(Machine { pc: next_pc(m.pc), ..m }, ins) {
        Some(e) => Err(e),
        None => Ok(spec_outcome(ins)),
    }
}

/// The interpreter: memory, registers, call stack, framebuffer and timers.
pub struct Chip8 {
    pub cpu: Cpu,
    pub ram: Vec<u8>,
    pub display: Vec<bool>,
    pub stack: Stack,
    pub hour: Timer,
}

/// `(i + k) mod 4096` is the one address whose offset from `i` is `k`.
proof fn lemma_offset(i: int, k: int, a: int)
    requires
        0 <= i < 4096,
        0 <= k < 16,
    ensures
        0 <= wrap_addr(i, k) < 4096,
        addr_offset(wrap_addr(i, k), i) == k,
        0 <= a < 4096 && addr_offset(a, i) == k ==> a == wrap_addr(i, k),
{
}

impl Chip8 {
    pub open spec fn view(&self) -> Machine {
        Machine {
            vx: self.cpu.vx@,
            pc: self.cpu.pc,
            i: self.cpu.i,
            ram: self.ram@,
            display: self.display@,
            stack: self.stack.view(),
            delay: self.hour.delay,
            sound: self.hour.sound,
            pending: self.hour.pending,
        }
    }

    /// Memory and framebuffer have their fixed sizes, and the program counter
    /// and index register address memory.
    pub open spec fn wf(&self) -> bool {
        &&& self.ram@.len() == MEMORY_SIZE
        &&& self.display@.len() == PIXELS
        &&& self.cpu.pc < 4096
        &&& self.cpu.i < 4096
        &&& self.stack.wf()
        &&& self.hour.wf()
    }

    /// A machine with all memory, registers, pixels and timers zero, an empty
    /// stack and the program counter at the program start.
    pub fn new() -> (r: Chip8)
        ensures
            r.wf(),
            r@ == (Machine {
                vx: Seq::new(16, |k: int| 0u8),
                pc: PROGRAM_START,
                i: 0,
                ram: Seq::new(MEMORY_SIZE as nat, |a: int| 0u8),
                display: Seq::new(PIXELS as nat, |p: int| false),
                stack: Seq::empty(),
                delay: 0,
                sound: 0,
                pending: 0,
            }),
    {
        let ram = vec![0u8; MEMORY_SIZE];
        let display = vec![false; PIXELS];
        let r = Chip8 { cpu: Cpu::new(), ram, display, stack: Stack::new(), hour: Timer::new() };
        assert(r.ram@ =~= Seq::new(MEMORY_SIZE as nat, |a: int| 0u8));
        assert(r.display@ =~= Seq::new(PIXELS as nat, |p: int| false));
        r
    }

    /// Writes the font table to the start of memory.
    pub fn load_sprites(&mut self)
        requires
            old(self).wf(),
        ensures
            final(self).wf(),
            final(self)@ == (Machine {
                ram: spec_font() + old(self)@.ram.subrange(FONT_SIZE as int, MEMORY_SIZE as int),
                ..old(self)@
            }),
    {
        let sprites: [u8; 80] = [
            0xF0, 0x90, 0x90, 0x90, 0xF0, 0x20, 0x60, 0x20, 0x20, 0x70,
            0xF0, 0x10, 0xF0, 0x80, 0xF0, 0xF0, 0x10, 0xF0, 0x10, 0xF0,
            0x90, 0x90, 0xF0, 0x10, 0x10, 0xF0, 0x80, 0xF0, 0x10, 0xF0,
            0xF0, 0x80, 0xF0, 0x90, 0xF0, 0xF0, 0x10, 0x20, 0x40, 0x40,
            0xF0, 0x90, 0xF0, 0x90, 0xF0, 0xF0, 0x90, 0xF0, 0x10, 0xF0,
            0xF0, 0x90, 0xF0, 0x90, 0x90, 0xE0, 0x90, 0xE0, 0x90, 0xE0,
            0xF0, 0x80, 0x80, 0x80, 0xF0, 0xE0, 0x90, 0x90, 0x90, 0xE0,
            0xF0, 0x80, 0xF0, 0x80, 0xF0, 0xF0, 0x80, 0xF0, 0x80, 0x80,
        ];
        assert(sprites@ =~= spec_font());
        let ghost ram0 = self.ram@;
        let mut k: usize = 0;
        while k < FONT_SIZE
            invariant
                k <= FONT_SIZE,
                sprites@ == spec_font(),
                self.ram@.len() == MEMORY_SIZE,
                ram0.len() == MEMORY_SIZE,
                self.ram@ =~= spec_font().subrange(0, k as int) + ram0.subrange(k as int, MEMORY_SIZE as int),
                self.cpu == old(self).cpu,
                self.display == old(self).display,
                self.stack == old(self).stack,
                self.hour == old(self).hour,
                ram0 == old(self).ram@,
            decreases FONT_SIZE - k,
        {
            self.ram.set(k, sprites[k]);
            k = k + 1;
            assert(self.ram@ =~= spec_font().subrange(0, k as int) + ram0.subrange(k as int, MEMORY_SIZE as int));
        }
        assert(spec_font().subrange(0, 80) =~= spec_font());
    }

    /// Copies a program into memory from the program start on. Fails, leaving
    /// the machine unchanged, when it does not fit.
    pub fn load_rom(&mut self, data: Vec<u8>) -> (r: Result<(), LoadError>)
        requires
            old(self).wf(),
        ensures
            final(self).wf(),
            data@.len() <= MEMORY_SIZE - PROGRAM_START ==> r == Ok::<(), LoadError>(())
                && final(self)@ == (Machine {
                    ram: old(self)@.ram.subrange(0, PROGRAM_START as int) + data@
                        + old(self)@.ram.subrange(PROGRAM_START + data@.len(), MEMORY_SIZE as int),
                    ..old(self)@
                }),
            data@.len() > MEMORY_SIZE - PROGRAM_START ==> r == Err::<(), LoadError>(LoadError::RomTooLarge)
                && final(self)@ == old(self)@,
    {
        if data.len() > MEMORY_SIZE - PROGRAM_START as usize {
            return Err(LoadError::RomTooLarge);
        }
        let ghost ram0 = self.ram@;
        let start = PROGRAM_START as usize;
        let mut k: usize = 0;
        while k < data.len()
            invariant
                k <= data.len(),
                data.len() <= MEMORY_SIZE - PROGRAM_START,
                start == PROGRAM_START,
                self.ram@.len() == MEMORY_SIZE,
                ram0.len() == MEMORY_SIZE,
                self.ram@ =~= ram0.subrange(0, start as int) + data@.subrange(0, k as int)
                    + ram0.subrange(start + k, MEMORY_SIZE as int),
                self.cpu == old(self).cpu,
                self.display == old(self).display,
                self.stack == old(self).stack,
                self.hour == old(self).hour,
                ram0 == old(self).ram@,
            decreases data.len() - k,
        {
            self.ram.set(start + k, data[k]);
            k = k + 1;
            assert(self.ram@ =~= ram0.subrange(0, start as int) + data@.subrange(0, k as int)
                + ram0.subrange(start + k, MEMORY_SIZE as int));
        }
        assert(data@.subrange(0, data@.len() as int) =~= data@);
        Ok(())
    }

    /// Turns every pixel off.
    pub fn clear_display(&mut self)
        requires
            old(self).wf(),
        ensures
            final(self).wf(),
            final(self)@ == (Machine { display: Seq::new(PIXELS as nat, |p: int| false), ..old(self)@ }),
    {
        let mut p: usize = 0;
        while p < PIXELS
            invariant
                p <= PIXELS,
                self.display@.len() == PIXELS,
                forall|q: int| 0 <= q < p ==> !#[trigger] self.display@[q],
                self.cpu == old(self).cpu,
                self.ram == old(self).ram,
                self.stack == old(self).stack,
                self.hour == old(self).hour,
            decreases PIXELS - p,
        {
            self.display.set(p, false);
            p = p + 1;
        }
        assert(self.display@ =~= Seq::new(PIXELS as nat, |p: int| false));
    }

    /// Pushes the return address and jumps to `address`; fails, leaving the
    /// machine unchanged, when the stack is full.
    pub fn call_subroutine(&mut self, address: u16) -> (r: Result<(), StackError>)
        requires
            old(self).wf(),
            address < 4096,
        ensures
            final(self).wf(),
            old(self)@.stack.len() < STACK_DEPTH ==> r == Ok::<(), StackError>(())
                && final(self)@ == (Machine {
                    pc: address,
                    stack: old(self)@.stack.push(old(self)@.pc),
                    ..old(self)@
                }),
            old(self)@.stack.len() >= STACK_DEPTH ==> r == Err::<(), StackError>(StackError::Overflow)
                && final(self)@ == old(self)@,
    {
        let r = self.stack.add(self.cpu.pc);
        if r.is_ok() {
            self.cpu.pc = address;
        }
        r
    }

    /// `vx[x] = number & kk`, where `number` is the random byte drawn for this cycle.
    pub fn random_number(&mut self, x: u8, kk: u8, number: u8)
        requires
            old(self).wf(),
            x < 16,
        ensures
            final(self).wf(),
            final(self)@ == (Machine { vx: old(self)@.vx.update(x as int, number & kk), ..old(self)@ }),
    {
        self.cpu.vx[x as usize] = number & kk;
    }

    /// Draws the `n`-row sprite at memory address `i` at the coordinates held
    /// in registers `x` and `y`; the flag register then tells whether a lit
    /// pixel was turned off.
    pub fn draw_sprite(&mut self, i: u16, x: u8, y: u8, n: u16)
        requires
            old(self).wf(),
            i < 4096,
            x < 16,
            y < 16,
            n < 16,
        ensures
            final(self).wf(),
            final(self)@ == (Machine {
                display: spec_drawn(old(self)@.display, old(self)@.ram, i,
                    old(self)@.vx[x as int], old(self)@.vx[y as int], n as u8),
                vx: old(self)@.vx.update(FLAG as int, flag_of(spec_collides(old(self)@.display,
                    old(self)@.ram, i, old(self)@.vx[x as int], old(self)@.vx[y as int], n as u8))),
                ..old(self)@
            }),
    {
        let x0 = self.cpu.vx[x as usize];
        let y0 = self.cpu.vx[y as usize];
        let collision = draw(&mut self.display, &self.ram, i, x0, y0, n as u8);
        self.cpu.vx[FLAG] = if collision { 1 } else { 0 };
    }

    /// Stores the lowest logical key that is down into `vx[x]`; with no key
    /// down, moves the program counter back so that the wait repeats.
    pub fn wait_for_key(&mut self, x: u8, keys: &[bool; 16])
        requires
            old(self).wf(),
            x < 16,
        ensures
            final(self).wf(),
            final(self)@ == match first_down(keys@, 0) {
                Some(k) => Machine { vx: old(self)@.vx.update(x as int, k), ..old(self)@ },
                None => Machine { pc: wrap_addr(old(self)@.pc as int, 4094) as u16, ..old(self)@ },
            },
    {
        let mut k: u8 = 0;
        while k < 16
            invariant
                k <= 16,
                x < 16,
                first_down(keys@, 0) == first_down(keys@, k as int),
                self.cpu == old(self).cpu,
                self.ram == old(self).ram,
                self.display == old(self).display,
                self.stack == old(self).stack,
                self.hour == old(self).hour,
                old(self).wf(),
            decreases 16 - k,
        {
            if keys[k as usize] {
                self.cpu.vx[x as usize] = k;
                return;
            }
            k = k + 1;
        }
        self.cpu.pc = (self.cpu.pc + 4094) % 4096;
    }

    /// The logical key bound to a host key, if any.
    pub fn match_key(&self, key_pressed: HostKey) -> (r: Option<u8>)
        ensures
            r == spec_logical_key(key_pressed),
    {
        logical_key(key_pressed)
    }

    /// Writes `vx[0..=x]` to memory from the index register on.
    fn store_registers(&mut self, x: u8)
        requires
            old(self).wf(),
            x < 16,
        ensures
            final(self).wf(),
            final(self)@ == (Machine {
                ram: spec_store_regs(old(self)@.ram, old(self)@.vx, old(self)@.i, x),
                ..old(self)@
            }),
    {
        let ghost ram0 = self.ram@;
        let i = self.cpu.i as usize;
        let mut k: usize = 0;
        while k <= x as usize
            invariant
                k <= x + 1,
                x < 16,
                i == self.cpu.i,
                i < 4096,
                self.ram@.len() == MEMORY_SIZE,
                ram0.len() == MEMORY_SIZE,
                self.ram@ =~= Seq::new(MEMORY_SIZE as nat, |a: int| {
                    let j = addr_offset(a, i as int);
                    if j < k as int { self.cpu.vx@[j] } else { ram0[a] }
                }),
                self.cpu == old(self).cpu,
                self.display == old(self).display,
                self.stack == old(self).stack,
                self.hour == old(self).hour,
                ram0 == old(self).ram@,
            decreases x + 1 - k,
        {
            let a = (i + k) % 4096;
            proof {
                assert forall|b: int| 0 <= b < 4096 implies (#[trigger] addr_offset(b, i as int) == k as int) == (b == a as int) by {
                    lemma_offset(i as int, k as int, b);
                }
            }
            self.ram.set(a, self.cpu.vx[k]);
            k = k + 1;
            assert(self.ram@ =~= Seq::new(MEMORY_SIZE as nat, |b: int| {
                let j = addr_offset(b, i as int);
                if j < k as int { self.cpu.vx@[j] } else { ram0[b] }
            }));
        }
        assert(self.ram@ =~= spec_store_regs(ram0, self.cpu.vx@, self.cpu.i, x));
    }

    /// Reads `vx[0..=x]` from memory from the index register on.
    fn load_registers(&mut self, x: u8)
        requires
            old(self).wf(),
            x < 16,
        ensures
            final(self).wf(),
            final(self)@ == (Machine {
                vx: spec_load_regs(old(self)@.ram, old(self)@.vx, old(self)@.i, x),
                ..old(self)@
            }),
    {
        let i = self.cpu.i as usize;
        let mut k: usize = 0;
        while k <= x as usize
            invariant
                k <= x + 1,
                x < 16,
                i == self.cpu.i,
                i < 4096,
                self.ram@.len() == MEMORY_SIZE,
                self.cpu.vx@ =~= Seq::new(16, |j: int| if j < k as int { self.ram@[wrap_addr(i as int, j)] } else { old(self).cpu.vx@[j] }),
                self.cpu.pc == old(self).cpu.pc,
                self.cpu.i == old(self).cpu.i,
                self.ram == old(self).ram,
                self.display == old(self).display,
                self.stack == old(self).stack,
                self.hour == old(self).hour,
            decreases x + 1 - k,
        {
            self.cpu.vx[k] = self.ram[(i + k) % 4096];
            k = k + 1;
        }
        assert(self.cpu.vx@ =~= spec_load_regs(self.ram@, old(self).cpu.vx@, self.cpu.i, x));
    }

    /// Moves the program counter past the next instruction.
    fn skip(&mut self)
        requires
            old(self).wf(),
        ensures
            final(self).wf(),
            final(self)@ == (Machine { pc: next_pc(old(self)@.pc), ..old(self)@ }),
    {
        self.cpu.pc = (self.cpu.pc + 2) % 4096;
    }

    /// Carries out `ins`, the program counter already pointing past it.
    /// `keys` tells which logical keys are down and `random` is the random
    /// byte for this cycle.
    #[verifier::rlimit(50)]
    pub fn execute(&mut self, ins: Instruction, keys: &[bool; 16], random: u8) -> (r: Result<Outcome, StackError>)
        requires
            old(self).wf(),
            ins.wf(),
        ensures
            final(self).wf(),
            final(self)@ == spec_execute(old(self)@, ins, keys@, random),
            r == match spec_fault(old(self)@, ins) {
                Some(e) => Err::<Outcome, StackError>(e),
                None => Ok(spec_outcome(ins)),
            },
    {
        match ins {
            Instruction::Clear => self.clear_display(),
            Instruction::Return => {
                let a = self.stack.pop()?;
                self.cpu.pc = a % 4096;
            },
            Instruction::Jump { nnn } => self.cpu.pc = nnn,
            Instruction::Call { nnn } => self.call_subroutine(nnn)?,
            Instruction::SkipEqImm { x, kk } => if self.cpu.vx[x as usize] == kk { self.skip() },
            Instruction::SkipNeImm { x, kk } => if self.cpu.vx[x as usize] != kk { self.skip() },
            Instruction::SkipEqReg { x, y } => if self.cpu.vx[x as usize] == self.cpu.vx[y as usize] { self.skip() },
            Instruction::LoadImm { x, kk } => self.cpu.vx[x as usize] = kk,
            Instruction::AddImm { x, kk } => self.cpu.vx[x as usize] = self.cpu.vx[x as usize].wrapping_add(kk),
            Instruction::Move { x, y } => self.cpu.vx[x as usize] = self.cpu.vx[y as usize],
            Instruction::Or { x, y } => self.cpu.vx[x as usize] = self.cpu.vx[x as usize] | self.cpu.vx[y as usize],
            Instruction::And { x, y } => self.cpu.vx[x as usize] = self.cpu.vx[x as usize] & self.cpu.vx[y as usize],
            Instruction::Xor { x, y } => self.cpu.vx[x as usize] = self.cpu.vx[x as usize] ^ self.cpu.vx[y as usize],
            Instruction::AddReg { x, y } => self.cpu.add_registers(x as u16, y as u16),
            Instruction::SubReg { x, y } => self.cpu.substract_registers(x as u16, y as u16, x as u16),
            Instruction::ShiftRight { x } => self.cpu.half_register(x as u16),
            Instruction::SubRev { x, y } => self.cpu.substract_registers(y as u16, x as u16, x as u16),
            Instruction::ShiftLeft { x } => self.cpu.double_register(x as u16),
            Instruction::SkipNeReg { x, y } => if self.cpu.vx[x as usize] != self.cpu.vx[y as usize] { self.skip() },
            Instruction::LoadIndex { nnn } => self.cpu.i = nnn,
            Instruction::JumpOffset { nnn } => self.cpu.pc = (nnn + self.cpu.vx[0] as u16) % 4096,
            Instruction::Random { x, kk } => self.random_number(x, kk, random),
            Instruction::Draw { x, y, n } => self.draw_sprite(self.cpu.i, x, y, n as u16),
            Instruction::SkipKeyDown { x } => {
                let k = self.cpu.vx[x as usize];
                if k < 16 && keys[k as usize] {
                    self.skip();
                }
            },
            Instruction::SkipKeyUp { x } => {
                let k = self.cpu.vx[x as usize];
                if !(k < 16 && keys[k as usize]) {
                    self.skip();
                }
            },
            Instruction::LoadDelay { x } => self.cpu.vx[x as usize] = self.hour.delay,
            Instruction::WaitKey { x } => self.wait_for_key(x, keys),
            Instruction::SetDelay { x } => self.hour.delay = self.cpu.vx[x as usize],
            Instruction::SetSound { x } => self.hour.sound = self.cpu.vx[x as usize],
            Instruction::AddIndex { x } => self.cpu.i = (self.cpu.i + self.cpu.vx[x as usize] as u16) % 4096,
            Instruction::FontIndex { x } => self.cpu.i = (self.cpu.vx[x as usize] % 16) as u16 * 5,
            Instruction::StoreBcd { x } => {
                let v = self.cpu.vx[x as usize];
                let i = self.cpu.i as usize;
                self.ram.set(i, v / 100);
                self.ram.set((i + 1) % 4096, (v / 10) % 10);
                self.ram.set((i + 2) % 4096, v % 10);
            },
            Instruction::StoreRegs { x } => self.store_registers(x),
            Instruction::LoadRegs { x } => self.load_registers(x),
            Instruction::Unknown { word } => return Ok(Outcome::Unrecognized(word)),
        }
        Ok(Outcome::Executed)
    }

    /// One fetch-decode-execute cycle: reads the instruction word at the
    /// program counter, moves the counter past it and carries it out.
    pub fn run_instruction(&mut self, keys: &[bool; 16], random: u8) -> (r: Result<Outcome, StackError>)
        requires
            old(self).wf(),
        ensures
            final(self).wf(),
            final(self)@ == spec_step(old(self)@, keys@, random),
            r == spec_step_result(old(self)@),
    {
        let pc = self.cpu.pc as usize;
        let hb = self.ram[pc];
        let lb = self.ram[(pc + 1) % 4096];
        let opcode = Opcode::decode(hb, lb);
        let ins = opcode.instruction();
        self.cpu.pc = ((pc + 2) % 4096) as u16;
        self.execute(ins, keys, random)
    }

    /// One cycle with a freshly drawn random byte for `Cxkk`.
    pub fn step(&mut self, keys: &[bool; 16]) -> (r: Result<Outcome, StackError>)
        requires
            old(self).wf(),
        ensures
            final(self).wf(),
            exists|rnd: u8| final(self)@ == #[trigger] spec_step(old(self)@, keys@, rnd),
            r == spec_step_result(old(self)@),
    {
        let rnd = random_byte();
        self.run_instruction(keys, rnd)
    }

    /// Advances both timers by `elapsed_nanos` nanoseconds of real time.
    pub fn tick_timers(&mut self, elapsed_nanos: u64)
        requires
            old(self).wf(),
        ensures
            final(self).wf(),
            final(self)@ == (Machine {
                delay: count_down(old(self)@.delay, ticks_in(old(self)@.pending, elapsed_nanos)),
                sound: count_down(old(self)@.sound, ticks_in(old(self)@.pending, elapsed_nanos)),
                pending: ((old(self)@.pending as int + elapsed_nanos as int * 60) % TICK_UNITS as int) as u64,
                ..old(self)@
            }),
    {
        self.hour.delay_countdown(elapsed_nanos);
    }

    /// The delay timer's value.
    pub fn delay_value(&self) -> (r: u8)
        ensures
            r == self@.delay,
    {
        self.hour.delay
    }

    /// The sound timer's value.
    pub fn sound_value(&self) -> (r: u8)
        ensures
            r == self@.sound,
    {
        self.hour.sound
    }

    /// The framebuffer, row by row; `true` is a lit pixel.
    pub fn framebuffer(&self) -> (r: &Vec<bool>)
        ensures
            r@ == self@.display,
    {
        &self.display
    }
}

/// Relies on rand::random: a byte drawn from the thread-local generator; any
/// value may come back.
#[verifier::external_body]
fn random_byte() -> (r: u8) {
    rand::random::<u8>()
}

/// Adding two immediates to a register other than the flag register, one
/// `7xkk` after the other, leaves their sum modulo 256 added to it, and the
/// flag register as it was.
pub proof fn lemma_add_imm_twice(m: Machine, x: u8, k1: u8, k2: u8, keys: Seq<bool>, rnd: u8)
    requires
        m.vx.len() == 16,
        x < 15,
    ensures
        ({
            let m2 = spec_execute(
                spec_execute(m, Instruction::AddImm { x, kk: k1 }, keys, rnd),
                Instruction::AddImm { x, kk: k2 },
                keys,
                rnd,
            );
            &&& m2.vx[x as int] == (m.vx[x as int] as int + k1 as int + k2 as int) % 256
            &&& m2.vx[FLAG as int] == m.vx[FLAG as int]
        }),
{
    let a = m.vx[x as int];
    let m1 = spec_execute(m, Instruction::AddImm { x, kk: k1 }, keys, rnd);
    assert(m1.vx == m.vx.update(x as int, add_wrap(a, k1)));
    let m2 = spec_execute(m1, Instruction::AddImm { x, kk: k2 }, keys, rnd);
    assert(m2.vx == m1.vx.update(x as int, add_wrap(m1.vx[x as int], k2)));
    let s = (a as int + k1 as int) % 256;
    assert((s + k2 as int) % 256 == (a as int + k1 as int + k2 as int) % 256) by (nonlinear_arith)
        requires
            s == (a as int + k1 as int) % 256,
    ;
}

/// `8xy4` stores `(vx[x] + vx[y]) mod 256` in `vx[x]` and sets the flag to 1
/// exactly when the unsigned sum exceeds 255, else 0.
pub proof fn lemma_add_registers_carry(m: Machine, x: u8, y: u8, keys: Seq<bool>, rnd: u8)
    requires
        m.vx.len() == 16,
        x < 15,
        y < 16,
    ensures
        ({
            let m2 = spec_execute(m, Instruction::AddReg { x, y }, keys, rnd);
            &&& m2.vx[x as int] == (m.vx[x as int] as int + m.vx[y as int] as int) % 256
            &&& (m2.vx[FLAG as int] == 1 <==> m.vx[x as int] as int + m.vx[y as int] as int > 255)
            &&& (m2.vx[FLAG as int] == 0 <==> m.vx[x as int] as int + m.vx[y as int] as int <= 255)
        }),
{
}

/// `8xy5` stores `(vx[x] - vx[y]) mod 256` in `vx[x]` and sets the flag to 1
/// exactly when `vx[x] > vx[y]` held before, else 0.
pub proof fn lemma_sub_registers_borrow(m: Machine, x: u8, y: u8, keys: Seq<bool>, rnd: u8)
    requires
        m.vx.len() == 16,
        x < 15,
        y < 16,
    ensures
        ({
            let m2 = spec_execute(m, Instruction::SubReg { x, y }, keys, rnd);
            &&& m2.vx[x as int] == (m.vx[x as int] as int - m.vx[y as int] as int + 256) % 256
            &&& (m2.vx[FLAG as int] == 1 <==> m.vx[x as int] > m.vx[y as int])
            &&& (m2.vx[FLAG as int] == 0 <==> m.vx[x as int] <= m.vx[y as int])
        }),
{
}

/// Drawing the same sprite at the same place twice (coordinates held in
/// registers other than the flag register) gives back the framebuffer as it
/// was before the first draw.
pub proof fn lemma_draw_twice_restores(m: Machine, x: u8, y: u8, n: u8, keys: Seq<bool>, rnd: u8)
    requires
        m.vx.len() == 16,
        x < 15,
        y < 15,
        n < 16,
    ensures
        ({
            let ins = Instruction::Draw { x, y, n };
            spec_execute(spec_execute(m, ins, keys, rnd), ins, keys, rnd).display == m.display
        }),
{
    let ins = Instruction::Draw { x, y, n };
    let m1 = spec_execute(m, ins, keys, rnd);
    let m2 = spec_execute(m1, ins, keys, rnd);
    assert(m1.vx[x as int] == m.vx[x as int] && m1.vx[y as int] == m.vx[y as int]);
    assert(m2.display =~= m.display);
}

/// The second of two identical draws reports no collision when every pixel
/// under a set sprite bit was lit before the first; the first draw turned
/// each of them off, and the second turns them back on.
pub proof fn lemma_draw_twice_flag(m: Machine, x: u8, y: u8, n: u8, keys: Seq<bool>, rnd: u8)
    requires
        m.vx.len() == 16,
        x < 15,
        y < 15,
        n < 16,
        forall|p: int| 0 <= p < m.display.len()
            && #[trigger] sprite_bit(m.ram, m.i, m.vx[x as int], m.vx[y as int], n, p) ==> m.display[p],
    ensures
        ({
            let ins = Instruction::Draw { x, y, n };
            spec_execute(spec_execute(m, ins, keys, rnd), ins, keys, rnd).vx[FLAG as int] == 0
        }),
{
    let ins = Instruction::Draw { x, y, n };
    let m1 = spec_execute(m, ins, keys, rnd);
    assert(m1.vx[x as int] == m.vx[x as int] && m1.vx[y as int] == m.vx[y as int]);
    assert(!spec_collides(m1.display, m1.ram, m1.i, m1.vx[x as int], m1.vx[y as int], n));
}

/// A call `2nnn` whose subroutine starts with `00EE` returns, two cycles
/// later, to the instruction after the call, with the stack as it was.
pub proof fn lemma_call_return(m: Machine, nnn: u16, keys: Seq<bool>, r1: u8, r2: u8)
    requires
        m.ram.len() == 4096,
        m.pc < 4096,
        nnn < 4096,
        m.stack.len() < STACK_DEPTH,
        m.ram[m.pc as int] == 0x20 + nnn / 256,
        m.ram[wrap_addr(m.pc as int, 1)] == nnn % 256,
        m.ram[nnn as int] == 0x00,
        m.ram[wrap_addr(nnn as int, 1)] == 0xEE,
    ensures
        ({
            let m2 = spec_step(spec_step(m, keys, r1), keys, r2);
            &&& m2.pc == next_pc(m.pc)
            &&& m2.stack == m.stack
        }),
{
    let op = spec_fetch(m);
    assert(op.d1 == 2);
    assert(op.addr() == nnn);
    let m1 = spec_step(m, keys, r1);
    assert(m1.pc == nnn && m1.stack == m.stack.push(next_pc(m.pc)));
    let op2 = spec_fetch(m1);
    assert(op2.d1 == 0 && op2.d2 == 0 && op2.d3 == 0xE && op2.d4 == 0xE);
    assert(m1.stack.drop_last() =~= m.stack);
}

} // verus!

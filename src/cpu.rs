use vstd::prelude::*;

verus! {

/// Address at which a loaded program begins.
pub const PROGRAM_START: u16 = 0x200;

/// Index of the flag register.
pub const FLAG: usize = 15;

/// The register file: sixteen 8-bit registers, the index register and the program counter.
pub struct Cpu {
    pub vx: [u8; 16],
    pub pc: u16,
    pub i: u16,
}

/// `(a + b) mod 256`.
pub open spec fn add_wrap(a: u8, b: u8) -> u8 {
    ((a as int + b as int) % 256) as u8
}

/// `(a - b) mod 256`.
pub open spec fn sub_wrap(a: u8, b: u8) -> u8 {
    ((a as int - b as int + 256) % 256) as u8
}

/// 1 when the condition holds, else 0.
pub open spec fn flag_of(c: bool) -> u8 {
    if c { 1 } else { 0 }
}

/// Registers after writing `value` into `store` and then `flag` into the flag register.
pub open spec fn with_flag(vx: Seq<u8>, store: int, value: u8, flag: u8) -> Seq<u8> {
    vx.update(store, value).update(FLAG as int, flag)
}

impl Cpu {
    /// All registers zero, the program counter at the program start.
    pub fn new() -> (r: Cpu)
        ensures
            r.vx@ == Seq::new(16, |k: int| 0u8),
            r.pc == PROGRAM_START,
            r.i == 0,
    {
        let r = Cpu { vx: [0u8; 16], pc: PROGRAM_START, i: 0 };
        assert(r.vx@ =~= Seq::new(16, |k: int| 0u8));
        r
    }

    /// `vx[va] += vx[vb]` wrapping; the flag register then holds the carry.
    pub fn add_registers(&mut self, va: u16, vb: u16)
        requires
            va < 16,
            vb < 16,
        ensures
            final(self).vx@ == with_flag(
                old(self).vx@,
                va as int,
                add_wrap(old(self).vx@[va as int], old(self).vx@[vb as int]),
                flag_of(old(self).vx@[va as int] + old(self).vx@[vb as int] > 255),
            ),
            final(self).pc == old(self).pc,
            final(self).i == old(self).i,
    {
        let a = self.vx[va as usize];
        let b = self.vx[vb as usize];
        let carry: u8 = if a as u16 + b as u16 > 255 { 1 } else { 0 };
        self.vx[va as usize] = a.wrapping_add(b);
        self.vx[FLAG] = carry;
    }

    /// `vx[store] = vx[va] - vx[vb]` wrapping; the flag register then holds 1
    /// when `vx[va] > vx[vb]` (no borrow), else 0.
    pub fn substract_registers(&mut self, va: u16, vb: u16, store: u16)
        requires
            va < 16,
            vb < 16,
            store < 16,
        ensures
            final(self).vx@ == with_flag(
                old(self).vx@,
                store as int,
                sub_wrap(old(self).vx@[va as int], old(self).vx@[vb as int]),
                flag_of(old(self).vx@[va as int] > old(self).vx@[vb as int]),
            ),
            final(self).pc == old(self).pc,
            final(self).i == old(self).i,
    {
        let a = self.vx[va as usize];
        let b = self.vx[vb as usize];
        let no_borrow: u8 = if a > b { 1 } else { 0 };
        self.vx[store as usize] = a.wrapping_sub(b);
        self.vx[FLAG] = no_borrow;
    }

    /// `vx[x] >>= 1`; the flag register then holds the bit shifted out.
    pub fn half_register(&mut self, x: u16)
        requires
            x < 16,
        ensures
            final(self).vx@ == with_flag(
                old(self).vx@,
                x as int,
                (old(self).vx@[x as int] / 2) as u8,
                (old(self).vx@[x as int] % 2) as u8,
            ),
            final(self).pc == old(self).pc,
            final(self).i == old(self).i,
    {
        let a = self.vx[x as usize];
        self.vx[x as usize] = a / 2;
        self.vx[FLAG] = a % 2;
    }

    /// `vx[x] <<= 1` wrapping; the flag register then holds the bit shifted out.
    pub fn double_register(&mut self, x: u16)
        requires
            x < 16,
        ensures
            final(self).vx@ == with_flag(
                old(self).vx@,
                x as int,
                ((old(self).vx@[x as int] * 2) % 256) as u8,
                (old(self).vx@[x as int] / 128) as u8,
            ),
            final(self).pc == old(self).pc,
            final(self).i == old(self).i,
    {
        let a = self.vx[x as usize];
        self.vx[x as usize] = a.wrapping_mul(2);
        self.vx[FLAG] = a / 128;
    }
}

} // verus!

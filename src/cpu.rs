use vstd::prelude::*;

use crate::register::{flag_of, CpsrFlag, Register};

pub mod arm;

verus! {

/// Which instruction set the processor decodes: the compressed one or the 32-bit one.
#[derive(PartialEq, Eq, Structural, Debug, Clone, Copy)]
pub enum CpuState {
    THUMB,
    ARM,
}

/// The sixteen condition codes, in the order of their four-bit encodings.
#[derive(PartialEq, Eq, Structural, Debug, Clone, Copy)]
pub enum Cond {
    EQ,
    NE,
    CSHS,
    CCLO,
    MI,
    PL,
    VS,
    VC,
    HI,
    LS,
    GE,
    LT,
    GT,
    LE,
    AL,
    NV,
}

/// Whether the condition with four-bit encoding `code` holds for the flags `n`, `z`, `c`, `v`.
pub open spec fn condition_holds(code: u32, n: bool, z: bool, c: bool, v: bool) -> bool {
    if code == 0x0 {
        z
    } else if code == 0x1 {
        !z
    } else if code == 0x2 {
        c
    } else if code == 0x3 {
        !c
    } else if code == 0x4 {
        n
    } else if code == 0x5 {
        !n
    } else if code == 0x6 {
        v
    } else if code == 0x7 {
        !v
    } else if code == 0x8 {
        c && !z
    } else if code == 0x9 {
        !c || z
    } else if code == 0xa {
        n == v
    } else if code == 0xb {
        n != v
    } else if code == 0xc {
        !z && n == v
    } else if code == 0xd {
        z || n != v
    } else if code == 0xe {
        true
    } else {
        false
    }
}

/// Whether the condition in the top four bits of `inst` holds for the flags of `r`.
pub open spec fn condition_passes(r: Register, inst: u32) -> bool {
    condition_holds(
        inst >> 28u32,
        flag_of(r.cpsr@, CpsrFlag::N),
        flag_of(r.cpsr@, CpsrFlag::Z),
        flag_of(r.cpsr@, CpsrFlag::C),
        flag_of(r.cpsr@, CpsrFlag::V),
    )
}

/// The encoding of each condition.
pub open spec fn cond_code(cond: Cond) -> u32 {
    match cond {
        Cond::EQ => 0x0,
        Cond::NE => 0x1,
        Cond::CSHS => 0x2,
        Cond::CCLO => 0x3,
        Cond::MI => 0x4,
        Cond::PL => 0x5,
        Cond::VS => 0x6,
        Cond::VC => 0x7,
        Cond::HI => 0x8,
        Cond::LS => 0x9,
        Cond::GE => 0xa,
        Cond::LT => 0xb,
        Cond::GT => 0xc,
        Cond::LE => 0xd,
        Cond::AL => 0xe,
        Cond::NV => 0xf,
    }
}

impl Cond {
    /// The condition encoded by the four bits `code`.
    pub fn from_code(code: u32) -> (r: Cond)
        requires
            code < 16,
        ensures
            cond_code(r) == code,
    {
        match code {
            0x0 => Cond::EQ,
            0x1 => Cond::NE,
            0x2 => Cond::CSHS,
            0x3 => Cond::CCLO,
            0x4 => Cond::MI,
            0x5 => Cond::PL,
            0x6 => Cond::VS,
            0x7 => Cond::VC,
            0x8 => Cond::HI,
            0x9 => Cond::LS,
            0xa => Cond::GE,
            0xb => Cond::LT,
            0xc => Cond::GT,
            0xd => Cond::LE,
            0xe => Cond::AL,
            _ => Cond::NV,
        }
    }
}

/// The processor: it owns its register file.
pub struct Cpu {
    pub register: Register,
}

impl Cpu {
    /// The processor's register file holds a valid mode.
    pub open spec fn wf(self) -> bool {
        self.register.wf()
    }

    /// The processor as at reset.
    pub fn new() -> (r: Self)
        ensures
            r.wf(),
            r.register.cells() == Seq::new(31, |i: int| 0u32),
            r.register.cpsr@ == 0xd3,
    {
        Cpu { register: Register::new() }
    }

    /// Whether the condition in the top four bits of `inst` holds for the current flags.
    pub fn cond(&self, inst: u32) -> (r: bool)
        ensures
            r == condition_passes(self.register, inst),
    {
        let nzcv = inst >> 28u32;
        assert(inst >> 28u32 < 16) by (bit_vector);
        let cond = Cond::from_code(nzcv);
        let flag_n = self.register.cpsr.is_valid_flag(CpsrFlag::N);
        let flag_z = self.register.cpsr.is_valid_flag(CpsrFlag::Z);
        let flag_c = self.register.cpsr.is_valid_flag(CpsrFlag::C);
        let flag_v = self.register.cpsr.is_valid_flag(CpsrFlag::V);

        match cond {
            Cond::EQ => flag_z,
            Cond::NE => !flag_z,
            Cond::CSHS => flag_c,
            Cond::CCLO => !flag_c,
            Cond::MI => flag_n,
            Cond::PL => !flag_n,
            Cond::VS => flag_v,
            Cond::VC => !flag_v,
            Cond::HI => flag_c && !flag_z,
            Cond::LS => !flag_c || flag_z,
            Cond::GE => flag_n == flag_v,
            Cond::LT => flag_n != flag_v,
            Cond::GT => !flag_z && (flag_n == flag_v),
            Cond::LE => flag_z || (flag_n != flag_v),
            Cond::AL => true,
            Cond::NV => false,
        }
    }
}

} // verus!

use vstd::prelude::*;

use crate::cpu::{Cpu, CpuState};
use crate::error::CpuError;
use crate::cpu::condition_passes;
use crate::register::{state_of, with_flag, CpsrFlag, Register};

verus! {

/// The categories of 32-bit instruction words.
#[derive(PartialEq, Eq, Structural, Debug, Clone, Copy)]
pub enum ArmInstruction {
    SWI,
    BL,
    B,
    BX,
    LDM,
    STM,
    LDR,
    STR,
    LDRH,
    LDRSB,
    LDRSH,
    STRH,
    MRS,
    MSR,
    SWP,
    MPY,
    ALU,
}

/// The bits that identify a word of category `c`.
pub open spec fn pattern_mask(c: ArmInstruction) -> u32 {
    match c {
        ArmInstruction::SWI => 0x0f00_0000,
        ArmInstruction::BL => 0x0f00_0000,
        ArmInstruction::B => 0x0f00_0000,
        ArmInstruction::BX => 0x0fff_fff0,
        ArmInstruction::LDM => 0x0e10_0000,
        ArmInstruction::STM => 0x0e10_0000,
        ArmInstruction::LDR => 0x0c10_0000,
        ArmInstruction::STR => 0x0c10_0000,
        ArmInstruction::LDRH => 0x0e10_00f0,
        ArmInstruction::LDRSB => 0x0e10_00f0,
        ArmInstruction::LDRSH => 0x0e10_00f0,
        ArmInstruction::STRH => 0x0e10_00f0,
        ArmInstruction::MRS => 0x0fbf_0fff,
        ArmInstruction::MSR => 0x0db0_f000,
        ArmInstruction::SWP => 0x0fb0_0ff0,
        ArmInstruction::MPY => 0x0e00_00f0,
        ArmInstruction::ALU => 0x0c00_0000,
    }
}

/// What those bits hold in a word of category `c`.
pub open spec fn pattern_value(c: ArmInstruction) -> u32 {
    match c {
        ArmInstruction::SWI => 0x0f00_0000,
        ArmInstruction::BL => 0x0b00_0000,
        ArmInstruction::B => 0x0a00_0000,
        ArmInstruction::BX => 0x012f_ff10,
        ArmInstruction::LDM => 0x0810_0000,
        ArmInstruction::STM => 0x0800_0000,
        ArmInstruction::LDR => 0x0410_0000,
        ArmInstruction::STR => 0x0400_0000,
        ArmInstruction::LDRH => 0x0010_00b0,
        ArmInstruction::LDRSB => 0x0010_00d0,
        ArmInstruction::LDRSH => 0x0010_00f0,
        ArmInstruction::STRH => 0x0000_00b0,
        ArmInstruction::MRS => 0x010f_0000,
        ArmInstruction::MSR => 0x0120_f000,
        ArmInstruction::SWP => 0x0100_0090,
        ArmInstruction::MPY => 0x0000_0090,
        ArmInstruction::ALU => 0x0000_0000,
    }
}

/// The order in which the patterns are tried: where several match, the lowest wins.
pub open spec fn priority(c: ArmInstruction) -> nat {
    match c {
        ArmInstruction::SWI => 0,
        ArmInstruction::BL => 1,
        ArmInstruction::B => 2,
        ArmInstruction::BX => 3,
        ArmInstruction::LDM => 4,
        ArmInstruction::STM => 5,
        ArmInstruction::LDR => 6,
        ArmInstruction::STR => 7,
        ArmInstruction::LDRH => 8,
        ArmInstruction::LDRSB => 9,
        ArmInstruction::LDRSH => 10,
        ArmInstruction::STRH => 11,
        ArmInstruction::MRS => 12,
        ArmInstruction::MSR => 13,
        ArmInstruction::SWP => 14,
        ArmInstruction::MPY => 15,
        ArmInstruction::ALU => 16,
    }
}

/// Whether `inst` fits the pattern of category `c`.
pub open spec fn matches_category(inst: u32, c: ArmInstruction) -> bool {
    inst & pattern_mask(c) == pattern_value(c)
}

/// `c` is the category of `inst`: its pattern fits, and no pattern tried before it does.
pub open spec fn decodes_to(inst: u32, c: ArmInstruction) -> bool {
    &&& matches_category(inst, c)
    &&& forall|d: ArmInstruction|
        priority(d) < priority(c) ==> !#[trigger] matches_category(inst, d)
}

/// Bits 23 to 0 of `inst`, a signed count of words, as a byte offset.
pub open spec fn branch_offset(inst: u32) -> int {
    let low = inst & 0x00ff_ffff;
    if low < 0x80_0000 {
        4 * low
    } else {
        4 * low - 0x400_0000
    }
}

/// `x` reduced to 32 bits.
pub open spec fn wrap32(x: int) -> u32 {
    (x % 0x1_0000_0000) as u32
}

/// The target of a branch `inst` taken at `pc`.
pub open spec fn branch_target(pc: u32, inst: u32) -> u32 {
    wrap32(pc + branch_offset(inst))
}

/// The four-bit register field of `inst` whose lowest bit is bit `shift`.
pub open spec fn field(inst: u32, shift: u32) -> int {
    ((inst >> shift) & 0xf) as int
}

/// `x` read as a signed 32-bit number.
pub open spec fn signed32(x: u32) -> int {
    if x < 0x8000_0000 {
        x as int
    } else {
        x - 0x1_0000_0000
    }
}

/// `x` reduced to 64 bits.
pub open spec fn wrap64(x: int) -> int {
    x % 0x1_0000_0000_0000_0000
}

/// The 64-bit number whose high word is `hi` and low word `lo`.
pub open spec fn pair(hi: u32, lo: u32) -> int {
    hi * 0x1_0000_0000 + lo
}

/// MUL: Rm times Rs, in 32 bits.
pub open spec fn mul_result(r: Register, inst: u32) -> u32 {
    wrap32(r.reg(field(inst, 0)) * r.reg(field(inst, 8)))
}

/// MLA: Rm times Rs plus Rn, in 32 bits.
pub open spec fn mla_result(r: Register, inst: u32) -> u32 {
    wrap32(r.reg(field(inst, 0)) * r.reg(field(inst, 8)) + r.reg(field(inst, 12)))
}

/// UMULL: the unsigned product of Rm and Rs.
pub open spec fn umull_result(r: Register, inst: u32) -> int {
    r.reg(field(inst, 0)) * r.reg(field(inst, 8))
}

/// UMLAL: the unsigned product of Rm and Rs plus RdHi:RdLo, in 64 bits.
pub open spec fn umlal_result(r: Register, inst: u32) -> int {
    wrap64(
        r.reg(field(inst, 0)) * r.reg(field(inst, 8)) + pair(
            r.reg(field(inst, 16)),
            r.reg(field(inst, 12)),
        ),
    )
}

/// SMULL: the signed product of Rm and Rs, as a 64-bit two's-complement pattern.
pub open spec fn smull_result(r: Register, inst: u32) -> int {
    wrap64(signed32(r.reg(field(inst, 0))) * signed32(r.reg(field(inst, 8))))
}

/// SMLAL: the signed product of Rm and Rs plus RdHi:RdLo, as a 64-bit pattern.
pub open spec fn smlal_result(r: Register, inst: u32) -> int {
    wrap64(
        signed32(r.reg(field(inst, 0))) * signed32(r.reg(field(inst, 8))) + pair(
            r.reg(field(inst, 16)),
            r.reg(field(inst, 12)),
        ),
    )
}

/// Whether bit 20 of `inst` asks for the flags to be set.
pub open spec fn sets_flags(inst: u32) -> bool {
    (inst >> 20u32) & 1 == 1
}

/// The status word `v` after an operation with result sign `negative` and `zero`: N and Z
/// updated when `inst` asks for it, all else kept.
pub open spec fn flags_after(v: u32, inst: u32, negative: bool, zero: bool) -> u32 {
    if sets_flags(inst) {
        with_flag(with_flag(v, CpsrFlag::N, negative), CpsrFlag::Z, zero)
    } else {
        v
    }
}

/// `post` is `pre` after a 32-bit multiply with `result`: Rd (bits 19 to 16) holds it.
pub open spec fn stores_word(pre: Register, post: Register, inst: u32, result: u32) -> bool {
    &&& post.wf()
    &&& post.cells() == pre.cells().update(pre.slot(field(inst, 16)), result)
    &&& post.cpsr@ == flags_after(pre.cpsr@, inst, result >= 0x8000_0000, result == 0)
    &&& post.saved() == pre.saved()
}

/// `post` is `pre` after a 64-bit multiply with `result`: RdHi (bits 19 to 16) holds its high
/// word, then RdLo (bits 15 to 12) its low word.
pub open spec fn stores_long(pre: Register, post: Register, inst: u32, result: int) -> bool {
    &&& post.wf()
    &&& post.cells() == pre.cells().update(
        pre.slot(field(inst, 16)),
        (result / 0x1_0000_0000) as u32,
    ).update(pre.slot(field(inst, 12)), (result % 0x1_0000_0000) as u32)
    &&& post.cpsr@ == flags_after(
        pre.cpsr@,
        inst,
        result >= 0x8000_0000_0000_0000,
        result == 0,
    )
    &&& post.saved() == pre.saved()
}

/// `post` is `pre` after a branch `inst`: only the program counter moved.
pub open spec fn branches(pre: Register, post: Register, inst: u32) -> bool {
    &&& post.wf()
    &&& post.cells() == pre.cells().update(pre.slot(15), branch_target(pre.reg(15), inst))
    &&& post.cpsr == pre.cpsr
    &&& post.saved() == pre.saved()
}

/// `post` is `pre` after a branch with link `inst`: r14 holds the old program counter plus 4,
/// then the program counter moved.
pub open spec fn branches_with_link(pre: Register, post: Register, inst: u32) -> bool {
    &&& post.wf()
    &&& post.cells() == pre.cells().update(pre.slot(14), wrap32(pre.reg(15) + 4)).update(
        pre.slot(15),
        branch_target(pre.reg(15), inst),
    )
    &&& post.cpsr == pre.cpsr
    &&& post.saved() == pre.saved()
}

/// `post` is `pre` after a branch and exchange `inst`: the program counter holds the value of
/// the register in bits 3 to 0, and bit 0 of that value picks the instruction set.
pub open spec fn exchanges(pre: Register, post: Register, inst: u32) -> bool {
    let target = pre.reg(field(inst, 0));
    &&& post.wf()
    &&& post.cells() == pre.cells().update(pre.slot(15), target)
    &&& post.cpsr@ == if target & 1 == 1 {
        pre.cpsr@ | 0x20
    } else {
        pre.cpsr@ & 0xffff_ffdf
    }
    &&& state_of(post.cpsr@) == if target & 1 == 1 {
        CpuState::THUMB
    } else {
        CpuState::ARM
    }
    &&& post.saved() == pre.saved()
}

/// `post` is `pre` after the multiply `inst`, which returned `r`: bits 24 to 21 select the
/// operation; UMAAL and the encodings that name no multiply fail and change nothing.
pub open spec fn multiplies(
    pre: Register,
    post: Register,
    inst: u32,
    r: Result<(), CpuError>,
) -> bool {
    let opcode = (inst >> 21u32) & 0xf;
    if opcode == 0 {
        r is Ok && stores_word(pre, post, inst, mul_result(pre, inst))
    } else if opcode == 1 {
        r is Ok && stores_word(pre, post, inst, mla_result(pre, inst))
    } else if opcode == 4 {
        r is Ok && stores_long(pre, post, inst, umull_result(pre, inst))
    } else if opcode == 5 {
        r is Ok && stores_long(pre, post, inst, umlal_result(pre, inst))
    } else if opcode == 6 {
        r is Ok && stores_long(pre, post, inst, smull_result(pre, inst))
    } else if opcode == 7 {
        r is Ok && stores_long(pre, post, inst, smlal_result(pre, inst))
    } else {
        r == Err::<(), CpuError>(CpuError::UnsupportedOperation(inst)) && post == pre
    }
}

/// Reducing to 64 bits leaves a value in range alone, and adds or takes away one 2^64
/// from one just below or just above.
proof fn lemma_wrap64(x: int)
    ensures
        0 <= x < 0x1_0000_0000_0000_0000 ==> wrap64(x) == x,
        -0x1_0000_0000_0000_0000 <= x < 0 ==> wrap64(x) == x + 0x1_0000_0000_0000_0000,
        0x1_0000_0000_0000_0000 <= x < 0x2_0000_0000_0000_0000 ==> wrap64(x) == x
            - 0x1_0000_0000_0000_0000,
        0 <= wrap64(x) < 0x1_0000_0000_0000_0000,
{
    let m: int = 0x1_0000_0000_0000_0000;
    if 0 <= x < m {
        vstd::arithmetic::div_mod::lemma_small_mod(x as nat, m as nat);
    } else if -m <= x < 0 {
        vstd::arithmetic::div_mod::lemma_mod_add_multiples_vanish(x, m);
        vstd::arithmetic::div_mod::lemma_small_mod((x + m) as nat, m as nat);
    } else if m <= x < 2 * m {
        vstd::arithmetic::div_mod::lemma_mod_sub_multiples_vanish(x, m);
        vstd::arithmetic::div_mod::lemma_small_mod((x - m) as nat, m as nat);
    }
    vstd::arithmetic::div_mod::lemma_mod_bound(x, m);
}

/// Reducing before or after an addition gives the same result.
proof fn lemma_wrap_add(x: int, y: int, m: int)
    requires
        0 < m,
    ensures
        (x % m + y) % m == (x + y) % m,
{
    vstd::arithmetic::div_mod::lemma_add_mod_noop(x, y, m);
    vstd::arithmetic::div_mod::lemma_add_mod_noop(x % m, y, m);
    vstd::arithmetic::div_mod::lemma_mod_twice(x, m);
}

/// Reducing the factors before a multiplication gives the same result.
proof fn lemma_wrap_mul(x: int, y: int, m: int)
    requires
        0 < m,
    ensures
        (x % m) * (y % m) % m == (x * y) % m,
{
    vstd::arithmetic::div_mod::lemma_mul_mod_noop_left(x, y % m, m);
    vstd::arithmetic::div_mod::lemma_mul_mod_noop_right(x, y, m);
}

/// `x` read as a signed number and extended to 64 bits, as a 64-bit pattern.
fn sign_extend(x: u32) -> (r: u64)
    ensures
        r as int == wrap64(signed32(x)),
{
    proof {
        lemma_wrap64(signed32(x));
    }
    if x & 0x8000_0000 != 0 {
        assert(x & 0x8000_0000 != 0 ==> x >= 0x8000_0000) by (bit_vector);
        x as u64 + 0xffff_ffff_0000_0000
    } else {
        assert(x & 0x8000_0000 == 0 ==> x < 0x8000_0000) by (bit_vector);
        x as u64
    }
}

/// The 64-bit number RdHi:RdLo.
fn join(hi: u32, lo: u32) -> (r: u64)
    ensures
        r as int == pair(hi, lo),
{
    let r = ((hi as u64) << 32u64) | (lo as u64);
    assert(((hi as u64) << 32u64) | (lo as u64) == (hi as u64) * 0x1_0000_0000 + (lo as u64))
        by (bit_vector);
    r
}

/// A word decodes to at most one category.
proof fn lemma_decodes_to_unique(inst: u32, c: ArmInstruction)
    requires
        decodes_to(inst, c),
    ensures
        forall|d: ArmInstruction| #[trigger] decodes_to(inst, d) ==> d == c,
{
    assert forall|d: ArmInstruction| #[trigger] decodes_to(inst, d) implies d == c by {
        if priority(d) < priority(c) {
            assert(!matches_category(inst, d));
        } else if priority(c) < priority(d) {
            assert(!matches_category(inst, c));
        }
    }
}

/// Reducing to 32 bits leaves a value in range alone, and adds or takes away one 2^32
/// from one just below or just above.
proof fn lemma_wrap32(x: int)
    ensures
        0 <= x < 0x1_0000_0000 ==> wrap32(x) == x,
        -0x1_0000_0000 <= x < 0 ==> wrap32(x) == x + 0x1_0000_0000,
        0x1_0000_0000 <= x < 0x2_0000_0000 ==> wrap32(x) == x - 0x1_0000_0000,
{
    if 0 <= x < 0x1_0000_0000 {
        vstd::arithmetic::div_mod::lemma_small_mod(x as nat, 0x1_0000_0000);
    } else if -0x1_0000_0000 <= x < 0 {
        vstd::arithmetic::div_mod::lemma_mod_add_multiples_vanish(x, 0x1_0000_0000);
        vstd::arithmetic::div_mod::lemma_small_mod((x + 0x1_0000_0000) as nat, 0x1_0000_0000);
    } else if 0x1_0000_0000 <= x < 0x2_0000_0000 {
        vstd::arithmetic::div_mod::lemma_mod_sub_multiples_vanish(x, 0x1_0000_0000);
        vstd::arithmetic::div_mod::lemma_small_mod((x - 0x1_0000_0000) as nat, 0x1_0000_0000);
    }
}

/// The register number in bits `shift + 3` to `shift` of `inst`.
fn register_field(inst: u32, shift: u32) -> (r: usize)
    requires
        shift <= 28,
    ensures
        r == field(inst, shift),
        r < 16,
{
    let f = (inst >> shift) & 0b1111;
    assert((inst >> shift) & 0xf < 16) by (bit_vector);
    f as usize
}

/// The branch target of `inst` taken at `pc`.
fn branch_target_of(pc: u32, inst: u32) -> (r: u32)
    ensures
        r == branch_target(pc, inst),
{
    let offset = (((inst << 8u32) as i32) >> 6u32) as u32;
    let low = inst & 0x00ff_ffff;
    assert(low < 0x80_0000 ==> offset == low * 4) by (bit_vector)
        requires
            offset == (((inst << 8u32) as i32) >> 6u32) as u32,
            low == inst & 0x00ff_ffff,
    ;
    assert(low >= 0x80_0000 ==> offset == low * 4 + 0xfc00_0000) by (bit_vector)
        requires
            offset == (((inst << 8u32) as i32) >> 6u32) as u32,
            low == inst & 0x00ff_ffff,
    ;
    assert(low < 0x100_0000) by (bit_vector)
        requires
            low == inst & 0x00ff_ffff,
    ;
    proof {
        lemma_wrap32(pc + branch_offset(inst));
    }
    pc.wrapping_add(offset)
}

impl Cpu {
    /// The category of `inst`: the first pattern, in priority order, that it fits; an error
    /// if it fits none.
    pub fn arm_decode(&self, inst: u32) -> (r: Result<ArmInstruction, CpuError>)
        ensures
            match r {
                Ok(c) => decodes_to(inst, c),
                Err(e) => e == CpuError::UnrecognizedInstruction(inst) && forall|d: ArmInstruction|
                    !#[trigger] matches_category(inst, d),
            },
    {
        if (inst & 0x0f00_0000) == 0x0f00_0000 {
            Ok(ArmInstruction::SWI)
        } else if (inst & 0x0f00_0000) == 0x0b00_0000 {
            Ok(ArmInstruction::BL)
        } else if (inst & 0x0f00_0000) == 0x0a00_0000 {
            Ok(ArmInstruction::B)
        } else if (inst & 0x0fff_fff0) == 0x012f_ff10 {
            Ok(ArmInstruction::BX)
        } else if (inst & 0x0e10_0000) == 0x0810_0000 {
            Ok(ArmInstruction::LDM)
        } else if (inst & 0x0e10_0000) == 0x0800_0000 {
            Ok(ArmInstruction::STM)
        } else if (inst & 0x0c10_0000) == 0x0410_0000 {
            Ok(ArmInstruction::LDR)
        } else if (inst & 0x0c10_0000) == 0x0400_0000 {
            Ok(ArmInstruction::STR)
        } else if (inst & 0x0e10_00f0) == 0x0010_00b0 {
            Ok(ArmInstruction::LDRH)
        } else if (inst & 0x0e10_00f0) == 0x0010_00d0 {
            Ok(ArmInstruction::LDRSB)
        } else if (inst & 0x0e10_00f0) == 0x0010_00f0 {
            Ok(ArmInstruction::LDRSH)
        } else if (inst & 0x0e10_00f0) == 0x0000_00b0 {
            Ok(ArmInstruction::STRH)
        } else if (inst & 0x0fbf_0fff) == 0x010f_0000 {
            Ok(ArmInstruction::MRS)
        } else if (inst & 0x0db0_f000) == 0x0120_f000 {
            Ok(ArmInstruction::MSR)
        } else if (inst & 0x0fb0_0ff0) == 0x0100_0090 {
            Ok(ArmInstruction::SWP)
        } else if (inst & 0x0e00_00f0) == 0x0000_0090 {
            Ok(ArmInstruction::MPY)
        } else if (inst & 0x0c00_0000) == 0x0000_0000 {
            Ok(ArmInstruction::ALU)
        } else {
            Err(CpuError::UnrecognizedInstruction(inst))
        }
    }

    /// Branch: the program counter moves by the offset in `inst`.
    pub fn arm_b(&mut self, inst: u32)
        requires
            old(self).wf(),
        ensures
            branches(old(self).register, final(self).register, inst),
    {
        let pc = branch_target_of(self.register.read(15), inst);
        self.register.write(15, pc);
    }

    /// Branch with link: r14 takes the program counter plus 4, then the program counter
    /// moves by the offset in `inst`.
    pub fn arm_bl(&mut self, inst: u32)
        requires
            old(self).wf(),
        ensures
            branches_with_link(old(self).register, final(self).register, inst),
    {
        let pc = branch_target_of(self.register.read(15), inst);
        let link = self.register.read(15).wrapping_add(4);
        proof {
            lemma_wrap32(self.register.reg(15) + 4);
        }
        self.register.write(14, link);
        self.register.write(15, pc);
    }

    /// Branch and exchange: the program counter takes the value of the register in bits 3
    /// to 0; bit 0 of that value selects the compressed instruction set (1) or the 32-bit one.
    pub fn arm_bx(&mut self, inst: u32)
        requires
            old(self).wf(),
        ensures
            exchanges(old(self).register, final(self).register, inst),
    {
        let register_index = register_field(inst, 0);
        let register_value = self.register.read(register_index);

        if register_value & 1 == 1 {
            self.register.cpsr.set_cpu_state(CpuState::THUMB);
        } else {
            self.register.cpsr.set_cpu_state(CpuState::ARM);
        }
        self.register.write(15, register_value);
    }

    /// Sets N to `negative` and Z to `zero` when bit 20 of `inst` asks for it.
    fn update_flags(&mut self, inst: u32, negative: bool, zero: bool)
        requires
            old(self).wf(),
        ensures
            final(self).wf(),
            final(self).register.cells() == old(self).register.cells(),
            final(self).register.cpsr@ == flags_after(
                old(self).register.cpsr@,
                inst,
                negative,
                zero,
            ),
            final(self).register.saved() == old(self).register.saved(),
    {
        if (inst >> 20u32) & 1 == 1 {
            self.register.cpsr.set_nzcv_flag(CpsrFlag::N, negative);
            self.register.cpsr.set_nzcv_flag(CpsrFlag::Z, zero);
            proof {
                let a = old(self).register.cpsr@;
                let b = self.register.cpsr@;
                assert(b & 0x3f == a & 0x3f ==> b & 0x1f == a & 0x1f) by (bit_vector);
            }
        }
    }

    /// Writes the high word of `result` to RdHi, then its low word to RdLo, and sets the flags
    /// when `inst` asks for it.
    fn store_long(&mut self, inst: u32, result: u64)
        requires
            old(self).wf(),
        ensures
            stores_long(old(self).register, final(self).register, inst, result as int),
    {
        let rdhi_index = register_field(inst, 16);
        let rdlo_index = register_field(inst, 12);
        let rdhi = (result >> 32u64) as u32;
        let rdlo = result as u32;
        assert(result >> 32u64 == result / 0x1_0000_0000 && result >> 32u64 < 0x1_0000_0000)
            by (bit_vector);
        assert(result as u32 == result % 0x1_0000_0000) by (bit_vector);
        self.register.write(rdhi_index, rdhi);
        self.register.write(rdlo_index, rdlo);
        let flag_n = (result >> 63u64) & 1 == 1;
        assert(((result >> 63u64) & 1 == 1) == (result >= 0x8000_0000_0000_0000)) by (bit_vector);
        self.update_flags(inst, flag_n, result == 0);
    }

    /// The multiply family: bits 24 to 21 of `inst` select the operation. UMAAL and the
    /// encodings that name no multiply are not supported, and leave the processor as it was.
    pub fn arm_mpy(&mut self, inst: u32) -> (r: Result<(), CpuError>)
        requires
            old(self).wf(),
        ensures
            multiplies(old(self).register, final(self).register, inst, r),
    {
        let opcode = (inst >> 21u32) & 0b1111;
        match opcode {
            0b0000 => {
                self.arm_mul(inst);
                Ok(())
            },
            0b0001 => {
                self.arm_mla(inst);
                Ok(())
            },
            0b0100 => {
                self.arm_umull(inst);
                Ok(())
            },
            0b0101 => {
                self.arm_umlal(inst);
                Ok(())
            },
            0b0110 => {
                self.arm_smull(inst);
                Ok(())
            },
            0b0111 => {
                self.arm_smlal(inst);
                Ok(())
            },
            _ => Err(CpuError::UnsupportedOperation(inst)),
        }
    }

    /// MUL: Rd = Rm * Rs in 32 bits.
    pub fn arm_mul(&mut self, inst: u32)
        requires
            old(self).wf(),
        ensures
            stores_word(
                old(self).register,
                final(self).register,
                inst,
                mul_result(old(self).register, inst),
            ),
    {
        let rd_index = register_field(inst, 16);
        let rs_index = register_field(inst, 8);
        let rm_index = register_field(inst, 0);

        let rs = self.register.read(rs_index);
        let rm = self.register.read(rm_index);
        let result = rm.wrapping_mul(rs);

        self.register.write(rd_index, result);

        let flag_n = (result >> 31u32) & 1 == 1;
        assert(((result >> 31u32) & 1 == 1) == (result >= 0x8000_0000)) by (bit_vector);
        self.update_flags(inst, flag_n, result == 0);
    }

    /// MLA: Rd = Rm * Rs + Rn in 32 bits.
    pub fn arm_mla(&mut self, inst: u32)
        requires
            old(self).wf(),
        ensures
            stores_word(
                old(self).register,
                final(self).register,
                inst,
                mla_result(old(self).register, inst),
            ),
    {
        let rd_index = register_field(inst, 16);
        let rn_index = register_field(inst, 12);
        let rs_index = register_field(inst, 8);
        let rm_index = register_field(inst, 0);

        let rn = self.register.read(rn_index);
        let rs = self.register.read(rs_index);
        let rm = self.register.read(rm_index);
        let product = rm.wrapping_mul(rs);
        let result = product.wrapping_add(rn);
        proof {
            lemma_wrap32(product + rn);
            lemma_wrap_add(rm * rs, rn as int, 0x1_0000_0000);
        }

        self.register.write(rd_index, result);

        let flag_n = (result >> 31u32) & 1 == 1;
        assert(((result >> 31u32) & 1 == 1) == (result >= 0x8000_0000)) by (bit_vector);
        self.update_flags(inst, flag_n, result == 0);
    }

    /// UMULL: RdHi:RdLo = Rm * Rs, unsigned.
    pub fn arm_umull(&mut self, inst: u32)
        requires
            old(self).wf(),
        ensures
            stores_long(
                old(self).register,
                final(self).register,
                inst,
                umull_result(old(self).register, inst),
            ),
    {
        let rs_index = register_field(inst, 8);
        let rm_index = register_field(inst, 0);

        let rs = self.register.read(rs_index) as u64;
        let rm = self.register.read(rm_index) as u64;
        assert(rm * rs <= 0xffff_ffff * 0xffff_ffff) by (nonlinear_arith)
            requires
                rm <= 0xffff_ffff,
                rs <= 0xffff_ffff,
        ;
        let result = rm * rs;

        self.store_long(inst, result);
    }

    /// UMLAL: RdHi:RdLo = Rm * Rs + RdHi:RdLo, unsigned, in 64 bits.
    pub fn arm_umlal(&mut self, inst: u32)
        requires
            old(self).wf(),
        ensures
            stores_long(
                old(self).register,
                final(self).register,
                inst,
                umlal_result(old(self).register, inst),
            ),
    {
        let rdhi_index = register_field(inst, 16);
        let rdlo_index = register_field(inst, 12);
        let rs_index = register_field(inst, 8);
        let rm_index = register_field(inst, 0);

        let accumulator = join(self.register.read(rdhi_index), self.register.read(rdlo_index));
        let rs = self.register.read(rs_index) as u64;
        let rm = self.register.read(rm_index) as u64;
        assert(rm * rs <= 0xffff_ffff * 0xffff_ffff) by (nonlinear_arith)
            requires
                rm <= 0xffff_ffff,
                rs <= 0xffff_ffff,
        ;
        let product = rm * rs;
        let result = product.wrapping_add(accumulator);
        proof {
            lemma_wrap64(product + accumulator);
        }

        self.store_long(inst, result);
    }

    /// SMULL: RdHi:RdLo = Rm * Rs, signed.
    pub fn arm_smull(&mut self, inst: u32)
        requires
            old(self).wf(),
        ensures
            stores_long(
                old(self).register,
                final(self).register,
                inst,
                smull_result(old(self).register, inst),
            ),
    {
        let rs_index = register_field(inst, 8);
        let rm_index = register_field(inst, 0);

        let rs = sign_extend(self.register.read(rs_index));
        let rm = sign_extend(self.register.read(rm_index));
        let result = rm.wrapping_mul(rs);
        proof {
            let r = old(self).register;
            lemma_wrap_mul(
                signed32(r.reg(field(inst, 0))),
                signed32(r.reg(field(inst, 8))),
                0x1_0000_0000_0000_0000,
            );
        }

        self.store_long(inst, result);
    }

    /// SMLAL: RdHi:RdLo = Rm * Rs + RdHi:RdLo, signed, in 64 bits.
    pub fn arm_smlal(&mut self, inst: u32)
        requires
            old(self).wf(),
        ensures
            stores_long(
                old(self).register,
                final(self).register,
                inst,
                smlal_result(old(self).register, inst),
            ),
    {
        let rdhi_index = register_field(inst, 16);
        let rdlo_index = register_field(inst, 12);
        let rs_index = register_field(inst, 8);
        let rm_index = register_field(inst, 0);

        let accumulator = join(self.register.read(rdhi_index), self.register.read(rdlo_index));
        let rs = sign_extend(self.register.read(rs_index));
        let rm = sign_extend(self.register.read(rm_index));
        let product = rm.wrapping_mul(rs);
        let result = product.wrapping_add(accumulator);
        proof {
            let r = old(self).register;
            let sa = signed32(r.reg(field(inst, 0)));
            let sb = signed32(r.reg(field(inst, 8)));
            lemma_wrap_mul(sa, sb, 0x1_0000_0000_0000_0000);
            lemma_wrap64(product + accumulator);
            lemma_wrap_add(sa * sb, accumulator as int, 0x1_0000_0000_0000_0000);
        }

        self.store_long(inst, result);
    }

    /// One step on the word `inst`: decode it, fail if it fits no category; do nothing if its
    /// condition does not hold; else run its handler. Categories without a handler fail.
    /// A failed step leaves the processor as it was.
    pub fn execute(&mut self, inst: u32) -> (r: Result<(), CpuError>)
        requires
            old(self).wf(),
        ensures
            ({
                let pre = old(self).register;
                let post = final(self).register;
                if forall|d: ArmInstruction| !#[trigger] matches_category(inst, d) {
                    r == Err::<(), CpuError>(CpuError::UnrecognizedInstruction(inst)) && post == pre
                } else if !condition_passes(pre, inst) {
                    r is Ok && post == pre
                } else if decodes_to(inst, ArmInstruction::B) {
                    r is Ok && branches(pre, post, inst)
                } else if decodes_to(inst, ArmInstruction::BL) {
                    r is Ok && branches_with_link(pre, post, inst)
                } else if decodes_to(inst, ArmInstruction::BX) {
                    r is Ok && exchanges(pre, post, inst)
                } else if decodes_to(inst, ArmInstruction::MPY) {
                    multiplies(pre, post, inst, r)
                } else {
                    r == Err::<(), CpuError>(CpuError::UnsupportedOperation(inst)) && post == pre
                }
            }),
    {
        let category = match self.arm_decode(inst) {
            Ok(c) => c,
            Err(e) => {
                return Err(e);
            },
        };
        if !self.cond(inst) {
            return Ok(());
        }
        proof {
            lemma_decodes_to_unique(inst, category);
        }
        match category {
            ArmInstruction::B => {
                self.arm_b(inst);
                Ok(())
            },
            ArmInstruction::BL => {
                self.arm_bl(inst);
                Ok(())
            },
            ArmInstruction::BX => {
                self.arm_bx(inst);
                Ok(())
            },
            ArmInstruction::MPY => self.arm_mpy(inst),
            _ => Err(CpuError::UnsupportedOperation(inst)),
        }
    }
}

} // verus!
